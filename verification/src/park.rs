use vstd::prelude::*;

use std::sync::atomic::{AtomicU32, Ordering};

verus! {

/// Relies on `omango_futex::wake_one`: wakes at most one thread parked on the
/// word.
#[verifier::external_body]
fn wake_one(word: &AtomicU32) {
    omango_futex::wake_one(word);
}

/// Relies on `omango_futex::wake_all`: wakes every thread parked on the word.
#[verifier::external_body]
fn wake_all(word: &AtomicU32) {
    omango_futex::wake_all(word);
}

/// Raises the wake word — with release ordering, so that everything the caller
/// wrote beforehand is visible to a thread that observes the word — and then
/// releases one parked waiter: the point-to-point release policy.
pub fn raise_and_wake_one(word: &AtomicU32) {
    word.store(1, Ordering::Release);
    wake_one(word);
}

/// Raises the wake word — with release ordering, so that everything the caller
/// wrote beforehand is visible to a thread that observes the word — and then
/// releases every parked waiter at once: the broadcast release policy.
pub fn raise_and_wake_all(word: &AtomicU32) {
    word.store(1, Ordering::Release);
    wake_all(word);
}

/// Consumes the wake signal: clears the word so a later cycle of the barrier
/// can park on it again.
pub fn consume_signal(word: &AtomicU32) {
    word.store(0, Ordering::Release);
}

} // verus!
