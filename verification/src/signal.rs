//! The stop signal that the workers of one search share.
//!
//! The signal starts lowered and is only ever raised. Nothing depends on how
//! soon a worker sees it raised, so every access is relaxed.

use std::sync::atomic::AtomicBool;
use std::sync::atomic::Ordering;
use vstd::prelude::*;

verus! {

/// Reads the signal. Other workers may raise it at any moment, so nothing is
/// known of the answer.
pub(crate) fn is_raised(signal: &AtomicBool) -> (raised: bool) {
    signal.load(Ordering::Relaxed)
}

/// Raises the signal. Raising it again changes nothing.
pub(crate) fn raise(signal: &AtomicBool) {
    signal.store(true, Ordering::Relaxed)
}

} // verus!
