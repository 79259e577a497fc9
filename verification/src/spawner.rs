//! Executor-agnostic task spawning.
//!
//! Every service spawns its loop and its tasks through a [`Spawner`].

use std::future::Future;
use vstd::prelude::*;

verus! {

/// A handle to a spawned task that can be blocked on.
pub trait TaskHandle: Send + 'static {
    /// Blocks the current thread until the task completes.
    fn block_on(self: Box<Self>);
}

/// A source of spawned tasks.
///
/// Each service that spawns tasks holds its own clone. Implement it to run
/// services on another executor.
pub trait Spawner: Clone + Send + Sync + 'static {
    /// The handle returned when spawning a task.
    type Handle: TaskHandle;

    /// Spawns a future on this spawner's executor.
    fn spawn<F>(&self, future: F) -> Self::Handle where F: Future<Output = ()> + Send + 'static;
}

} // verus!
