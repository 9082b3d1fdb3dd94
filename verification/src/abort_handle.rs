//! The place that holds the handle of a running task.

use vstd::prelude::*;

verus! {

/// Whether no task is running.
pub fn is_unset<H>(abort_handle: &Option<H>) -> (unset: bool)
    ensures
        unset == (abort_handle is None),
{
    abort_handle.is_none()
}

/// Whether a task is running.
pub fn is_set<H>(abort_handle: &Option<H>) -> (set: bool)
    ensures
        set == (abort_handle is Some),
{
    abort_handle.is_some()
}

/// Takes the handle out, if there is one.
pub fn try_unset<H>(abort_handle: &mut Option<H>) -> (handle: Option<H>)
    ensures
        handle == *old(abort_handle),
        *final(abort_handle) == None::<H>,
{
    abort_handle.take()
}

/// Puts a handle in, in place of the one that was there.
pub fn set<H>(abort_handle: &mut Option<H>, handle: H)
    ensures
        *final(abort_handle) == Some(handle),
{
    *abort_handle = Some(handle);
}

} // verus!
