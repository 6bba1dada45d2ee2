//! Cancellation tokens that long-running work polls.
use std::sync::atomic::{AtomicBool, Ordering};
use vstd::prelude::*;

verus! {

/// The token has been set; no token never cancels.
pub fn is_cancelled(cancel: Option<&AtomicBool>) -> (r: bool)
    ensures
        cancel is None ==> !r,
{
    match cancel {
        Some(c) => c.load(Ordering::Relaxed),
        None => false,
    }
}

} // verus!
