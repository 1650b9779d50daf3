//! What the guard in front of the API does with a decision.
use vstd::prelude::*;
use crate::api;
use crate::api::{ApiProblem, Failure};
use crate::auth::{Decision, VerifiedClaims};

verus! {

/// What becomes of a request.
#[derive(Debug)]
pub enum Passage {
    /// It goes on to its endpoint, with the caller where there is one.
    Through(Option<VerifiedClaims>),
    /// It is answered at once.
    Refused(Failure),
}

/// The answer to a request that is refused.
pub open spec fn rejection_view(status: u16, detail: Seq<char>) -> api::FailureView {
    api::FailureView::of(status, "authentication_error"@, detail)
}

/// The answer to a request that is refused with that status.
pub fn rejection(status: u16, detail: &str) -> (out: Failure)
    ensures
        out@ == rejection_view(status, detail@),
{
    Failure::of(
        ApiProblem {
            status,
            kind: "authentication_error".to_owned(),
            detail: Some(detail.to_owned()),
        },
    )
}

/// `passage` is what `decision` asks for: a caller that is not authenticated
/// is answered with 401, one that may not do this with 403.
pub open spec fn carries_out(decision: Decision, passage: Passage) -> bool {
    match (decision, passage) {
        (Decision::Continue(caller), Passage::Through(c)) => c == caller,
        (Decision::Unauthenticated(detail), Passage::Refused(f)) => f@ == rejection_view(
            401,
            detail@,
        ),
        (Decision::Forbidden(detail), Passage::Refused(f)) => f@ == rejection_view(403, detail@),
        _ => false,
    }
}

/// Carry out a decision.
pub fn guard(decision: Decision) -> (out: Passage)
    ensures
        carries_out(decision, out),
{
    match decision {
        Decision::Continue(caller) => Passage::Through(caller),
        Decision::Unauthenticated(detail) => Passage::Refused(rejection(401, detail)),
        Decision::Forbidden(detail) => Passage::Refused(rejection(403, detail)),
    }
}

/// A request that may go on goes on with the caller of the decision. One without
/// a known caller is answered with 401, one of a caller that may not do this
/// with 403; both are told as a problem of authentication, with the detail of
/// the decision.
pub proof fn law_decisions_are_carried_out(decision: Decision, passage: Passage)
    requires
        carries_out(decision, passage),
    ensures
        decision matches Decision::Continue(caller) ==> passage == Passage::Through(caller),
        decision matches Decision::Unauthenticated(detail) ==> (passage matches Passage::Refused(f)
            && f.status == 401 && f.problem.status == 401 && f.problem.kind@
            == "authentication_error"@ && (f.problem.detail matches Some(d) && d@ == detail@)),
        decision matches Decision::Forbidden(detail) ==> (passage matches Passage::Refused(f)
            && f.status == 403 && f.problem.status == 403 && f.problem.kind@
            == "authentication_error"@ && (f.problem.detail matches Some(d) && d@ == detail@)),
        passage is Through <==> decision is Continue,
{
    if let Passage::Refused(f) = passage {
        assert(f@.problem.kind == f.problem.kind@);
        assert(f@.problem.detail == crate::text::view_of(f.problem.detail));
    }
}

} // verus!
