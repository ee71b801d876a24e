//! Approval decisions as the server records them.
use vstd::prelude::*;
use crate::text::{chars_of, vec_eq};

verus! {

/// A reply to a tool-approval request.
#[derive(Clone, Copy, Debug, PartialEq, Eq, Structural)]
pub enum ApprovalDecision {
    Approve,
    Deny,
}

/// The decision a recorded wire form (`"approve"` / `"deny"`, snake case)
/// stands for.
pub open spec fn recorded_decision_spec(s: Seq<char>) -> Option<ApprovalDecision> {
    if s == "approve"@ {
        Some(ApprovalDecision::Approve)
    } else if s == "deny"@ {
        Some(ApprovalDecision::Deny)
    } else {
        None
    }
}

/// Maps the `recorded_decision` of an "approval not pending" error back to
/// the decision it records; `None` for any other text.
pub fn parse_recorded_decision(s: &str) -> (r: Option<ApprovalDecision>)
    ensures
        r == recorded_decision_spec(s@),
{
    let t = chars_of(s);
    if vec_eq(&t, &chars_of("approve")) {
        Some(ApprovalDecision::Approve)
    } else if vec_eq(&t, &chars_of("deny")) {
        Some(ApprovalDecision::Deny)
    } else {
        None
    }
}

} // verus!
