//! An in-process event emitter: an append-only registry of handlers for one
//! event type, and the fan-out that hands each registered handler its own copy
//! of an emitted event.

use vstd::prelude::*;

pub mod client;
pub mod laws;
pub mod on;

pub use client::{Client, Dispatch};
pub use on::On;
