//! The verdict of the post-installation health check.
//!
//! The application runs the individual checks; this module decides whether
//! the slow end-to-end research probe runs and whether the whole check
//! passes.
use vstd::prelude::*;

use crate::error::{install_error, SearchError};

verus! {

/// Every check passed.
pub open spec fn all_passed(checks: Seq<bool>) -> bool {
    forall|i: int| 0 <= i < checks.len() ==> #[trigger] checks[i]
}

/// Whether every check so far passed.
pub fn passed(checks: &Vec<bool>) -> (res: bool)
    ensures
        res == all_passed(checks@),
{
    let mut i: usize = 0;
    while i < checks.len()
        invariant
            i <= checks@.len(),
            forall|j: int| 0 <= j < i ==> #[trigger] checks@[j],
        decreases checks@.len() - i,
    {
        if !checks[i] {
            return false;
        }
        i = i + 1;
    }
    true
}

/// The end-to-end research probe runs only in a full check and only when
/// every earlier check passed.
pub fn run_end_to_end(quick: bool, checks: &Vec<bool>) -> (res: bool)
    ensures
        res == (!quick && all_passed(checks@)),
{
    !quick && passed(checks)
}

/// The health check fails exactly when one of its checks failed.
pub fn verdict(checks: &Vec<bool>) -> (res: Result<(), SearchError>)
    ensures
        res is Ok <==> all_passed(checks@),
        res matches Err(e) ==> (e matches SearchError::Install(m) && m@ == "one or more doctor checks failed"@),
{
    if passed(checks) {
        Ok(())
    } else {
        Err(install_error("one or more doctor checks failed"))
    }
}

} // verus!
