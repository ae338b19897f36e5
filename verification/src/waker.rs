//! The waker slot of a channel, and the memory barriers the driver issues.
//!
//! The slot itself comes from an interrupt-safe cell of an outside crate; the
//! scheduler's waker handle is opaque to the verified core, which only stores
//! it and signals it.

use vstd::prelude::*;

verus! {

#[verifier::external_type_specification]
#[verifier::external_body]
pub struct ExWaker(core::task::Waker);

#[verifier::external_type_specification]
#[verifier::external_body]
pub struct ExAtomicWaker(embassy_sync::waitqueue::AtomicWaker);

/// Relies on embassy_sync::waitqueue::AtomicWaker::new: an empty waker slot.
#[verifier::external_body]
pub(crate) fn new_atomic_waker() -> embassy_sync::waitqueue::AtomicWaker {
    embassy_sync::waitqueue::AtomicWaker::new()
}

/// Relies on embassy_sync::waitqueue::AtomicWaker::register: stores the
/// waker in the slot, overwriting a previously registered one.
#[verifier::external_body]
pub(crate) fn register_waker(slot: &embassy_sync::waitqueue::AtomicWaker, w: &core::task::Waker) {
    slot.register(w)
}

/// Relies on embassy_sync::waitqueue::AtomicWaker::wake: wakes the
/// registered waker, if any.
#[verifier::external_body]
pub(crate) fn wake_waker(slot: &embassy_sync::waitqueue::AtomicWaker) {
    slot.wake()
}

/// Relies on core::sync::atomic::fence with sequentially consistent
/// ordering: a full memory barrier, with no effect on any value the core
/// tracks.
#[verifier::external_body]
pub(crate) fn full_barrier() {
    core::sync::atomic::fence(core::sync::atomic::Ordering::SeqCst)
}

/// Relies on core::sync::atomic::compiler_fence with sequentially consistent
/// ordering: keeps the compiler from reordering the status check ahead of
/// the waker registration, with no effect on any value the core tracks.
#[verifier::external_body]
pub(crate) fn ordering_barrier() {
    core::sync::atomic::compiler_fence(core::sync::atomic::Ordering::SeqCst)
}

} // verus!
