//! OS abstraction traits for cross-platform async UART support.
//!
//! The driver needs two things from the target OS: task spawning
//! (`OsRuntime`) and waker management (`OsWakerSet`). IRQ registration,
//! MMIO mapping and locking are done by the OS adapter layer.

use core::future::Future;
use core::task::Waker;
use vstd::prelude::*;

verus! {

/// A `core::task::Waker`, carried through the library without being inspected.
#[verifier::external_type_specification]
#[verifier::external_body]
pub struct ExWaker(Waker);

/// Task spawning and blocking execution abstraction.
pub trait OsRuntime {
    /// Spawn an async task with a name for debugging.
    fn spawn<F>(future: F, name: &str)
        where
            F: Future + Send + 'static,
            F::Output: Send;

    /// Block the current thread until `future` completes.
    fn block_on<F>(future: F) -> F::Output
        where
            F: Future;
}

/// Waker registration and notification abstraction.
///
/// Implementations must be `Send + Sync` so that the set can be shared
/// between interrupt and task contexts.
pub trait OsWakerSet: Send + Sync + Sized {
    /// Create a new empty waker set.
    fn new() -> Self;

    /// Register a waker to be notified on wake events.
    ///
    /// If the waker is already registered, it is updated, not duplicated.
    fn register(&self, waker: &Waker);

    /// Wake all registered wakers, returning how many were notified.
    fn wake(&self) -> u32;
}

} // verus!
