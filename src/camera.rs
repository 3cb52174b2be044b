use vstd::prelude::*;

verus! {

/// The number of the pass to run after `completed` passes, or `None` to stop:
/// rendering stops once it is cancelled or once `limit` passes, if any, are
/// done. Pass `n` folds its sample into each pixel's mean with weight `1/n`.
pub fn next_pass(completed: u32, limit: Option<u32>, cancelled: bool) -> (r: Option<u32>)
    ensures
        r == (if cancelled || completed == u32::MAX || (limit matches Some(l) && completed >= l) {
            None::<u32>
        } else {
            Some((completed + 1) as u32)
        }),
{
    if cancelled {
        return None;
    }
    if let Some(l) = limit {
        if completed >= l {
            return None;
        }
    }
    if completed == u32::MAX {
        None
    } else {
        Some(completed + 1)
    }
}

} // verus!
