//! What a filtering decision means for a request.

use crate::problem::{access_denied, server_internal, Problem, ProblemModel};
use vstd::prelude::*;
use vstd::string::*;

verus! {

/// What a filter policy decided.
#[derive(Debug, Clone, PartialEq, Eq)]
pub enum Outcome {
    Allow,
    /// The client may not, for this reason.
    Deny(String),
    /// The server could not decide, for this reason.
    Undecided(String),
}

/// What a request that was not let through is answered. A refusal is a decision
/// about the client; an undecided policy is the server's problem, and its
/// specifics are not for the client.
pub open spec fn refusal_of(outcome: Outcome) -> ProblemModel {
    match outcome {
        Outcome::Deny(detail) => access_denied(detail@),
        _ => server_internal("Request filtering failed"@),
    }
}

/// What a request that was not let through is answered.
pub fn problem_for(outcome: &Outcome) -> (r: Problem)
    ensures
        r@ == refusal_of(*outcome),
{
    match outcome {
        Outcome::Deny(detail) => Problem::access_denied(detail.as_str()),
        _ => Problem::server_internal("Request filtering failed"),
    }
}

/// What stops a request: nothing where the policy allows it.
pub fn stopped_by(outcome: &Outcome) -> (r: Option<Problem>)
    ensures
        match r {
            None => *outcome is Allow,
            Some(problem) => !(*outcome is Allow) && problem@ == refusal_of(*outcome),
        },
{
    match outcome {
        Outcome::Allow => None,
        _ => Some(problem_for(outcome)),
    }
}

/// A policy that could not be evaluated never refuses the client, and no two
/// undecided policies can be told apart by the answer.
pub proof fn an_undecided_policy_is_not_a_refusal(outcome: Outcome)
    ensures
        refusal_of(outcome).status == 403 <==> outcome is Deny,
        outcome is Undecided ==> refusal_of(outcome) == server_internal(
            "Request filtering failed"@,
        ),
{
}

/// A refusal is answered 403 with the policy's own reason; a policy that could not
/// decide is answered 500 without any.
pub proof fn a_refusal_gives_the_reason(detail: String)
    ensures
        refusal_of(Outcome::Deny(detail)) == (ProblemModel {
            status: 403,
            kind: "urn:ietf:params:acme:error:unauthorized"@,
            detail: detail@,
        }),
        refusal_of(Outcome::Undecided(detail)) == (ProblemModel {
            status: 500,
            kind: "urn:ietf:params:acme:error:serverInternal"@,
            detail: "Request filtering failed"@,
        }),
{
}

} // verus!
