//! The verified heart of an actor framework with lock-free reads.
//!
//! A service owns its state. Mutations are serialized through a command
//! channel, events flow between services over broadcast channels, and a
//! service may publish a [view](crate::view): an immutable snapshot of its
//! state that readers load without taking any lock.

pub mod cancellation;
pub mod channel;
pub mod demos;
pub mod event;
pub mod feed;
pub mod gauge;
mod line;
pub mod macros;
pub mod op;
pub mod ops_cell;
pub mod registry;
pub mod runtime;
pub mod shared;
pub mod spawner;
pub mod text;
pub mod time;
pub mod view;
mod wire;

use vstd::prelude::*;

verus! {

/// The project's name.
pub const NAME: &'static str = "rillet";

/// Returns the project's name.
pub fn hello() -> (name: &'static str)
    ensures
        name@ == NAME@,
{
    NAME
}

} // verus!
