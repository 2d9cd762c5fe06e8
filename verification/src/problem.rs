//! Problem documents: what a refused request is answered.

use vstd::prelude::*;
use vstd::string::*;

verus! {

/// An ACME problem document.
#[derive(Debug, Clone, PartialEq, Eq)]
pub struct Problem {
    /// The HTTP status.
    pub status: u16,
    /// The problem type, a URN.
    pub kind: &'static str,
    pub detail: String,
}

/// A problem document, in terms of sequences.
pub struct ProblemModel {
    pub status: u16,
    pub kind: Seq<char>,
    pub detail: Seq<char>,
}

impl View for Problem {
    type V = ProblemModel;

    open spec fn view(&self) -> ProblemModel {
        ProblemModel { status: self.status, kind: self.kind@, detail: self.detail@ }
    }
}

/// The request cannot be understood.
pub open spec fn malformed(detail: Seq<char>) -> ProblemModel {
    ProblemModel { status: 400, kind: "urn:ietf:params:acme:error:malformed"@, detail }
}

/// The request does not prove what it has to.
pub open spec fn unauthorized(detail: Seq<char>) -> ProblemModel {
    ProblemModel { status: 401, kind: "urn:ietf:params:acme:error:unauthorized"@, detail }
}

/// The client may not do this.
pub open spec fn access_denied(detail: Seq<char>) -> ProblemModel {
    ProblemModel { status: 403, kind: "urn:ietf:params:acme:error:unauthorized"@, detail }
}

/// The server failed.
pub open spec fn server_internal(detail: Seq<char>) -> ProblemModel {
    ProblemModel { status: 500, kind: "urn:ietf:params:acme:error:serverInternal"@, detail }
}

/// The server cannot take the request now.
pub open spec fn service_unavailable(detail: Seq<char>) -> ProblemModel {
    ProblemModel { status: 503, kind: "urn:ietf:params:acme:error:serverInternal"@, detail }
}

impl Problem {
    pub fn malformed(detail: &str) -> (r: Problem)
        ensures
            r@ == malformed(detail@),
    {
        Problem {
            status: 400,
            kind: "urn:ietf:params:acme:error:malformed",
            detail: detail.to_owned(),
        }
    }

    pub fn unauthorized(detail: &str) -> (r: Problem)
        ensures
            r@ == unauthorized(detail@),
    {
        Problem {
            status: 401,
            kind: "urn:ietf:params:acme:error:unauthorized",
            detail: detail.to_owned(),
        }
    }

    pub fn access_denied(detail: &str) -> (r: Problem)
        ensures
            r@ == access_denied(detail@),
    {
        Problem {
            status: 403,
            kind: "urn:ietf:params:acme:error:unauthorized",
            detail: detail.to_owned(),
        }
    }

    pub fn server_internal(detail: &str) -> (r: Problem)
        ensures
            r@ == server_internal(detail@),
    {
        Problem {
            status: 500,
            kind: "urn:ietf:params:acme:error:serverInternal",
            detail: detail.to_owned(),
        }
    }

    pub fn service_unavailable(detail: &str) -> (r: Problem)
        ensures
            r@ == service_unavailable(detail@),
    {
        Problem {
            status: 503,
            kind: "urn:ietf:params:acme:error:serverInternal",
            detail: detail.to_owned(),
        }
    }
}

/// Each problem has the status and the type it is known by, and the detail it was
/// given.
pub proof fn problems_are_what_they_are_called(detail: Seq<char>)
    ensures
        malformed(detail) == (ProblemModel {
            status: 400,
            kind: "urn:ietf:params:acme:error:malformed"@,
            detail,
        }),
        unauthorized(detail) == (ProblemModel {
            status: 401,
            kind: "urn:ietf:params:acme:error:unauthorized"@,
            detail,
        }),
        access_denied(detail) == (ProblemModel {
            status: 403,
            kind: "urn:ietf:params:acme:error:unauthorized"@,
            detail,
        }),
        server_internal(detail) == (ProblemModel {
            status: 500,
            kind: "urn:ietf:params:acme:error:serverInternal"@,
            detail,
        }),
        service_unavailable(detail) == (ProblemModel {
            status: 503,
            kind: "urn:ietf:params:acme:error:serverInternal"@,
            detail,
        }),
{
}

/// A document shows its own status, type and detail.
pub proof fn a_document_is_its_members(problem: Problem)
    ensures
        problem@.status == problem.status,
        problem@.kind == problem.kind@,
        problem@.detail == problem.detail@,
{
}

} // verus!
