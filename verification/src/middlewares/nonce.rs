//! Which responses carry a fresh `Replay-Nonce`.

use crate::headers::{header_value, is_header_value};
use crate::text::same;
use vstd::prelude::*;
use vstd::string::*;

verus! {

/// Whether an exchange is one that RFC 8555 asks for a fresh nonce on: every
/// POST, and `newNonce` in all of its forms.
pub open spec fn wants_nonce(method: Seq<char>, path: Seq<char>) -> bool {
    method == "POST"@ || path == "/newNonce"@
}

/// Whether an exchange is one that RFC 8555 asks for a fresh nonce on. Nothing
/// else costs a write. The path is relative to its profile.
pub fn mints_nonce(method: &str, path: &str) -> (r: bool)
    ensures
        r == wants_nonce(method@, path@),
{
    same(method, "POST") || same(path, "/newNonce")
}

/// The `Replay-Nonce` header of a response: only a nonce that was kept is handed
/// out, or the client would hold one that never verifies.
pub fn replay_nonce(nonce: &str, saved: bool) -> (r: Option<String>)
    ensures
        match r {
            Some(value) => saved && header_value(nonce.spec_bytes()) && value@ == nonce@,
            None => !saved || !header_value(nonce.spec_bytes()),
        },
{
    if saved && is_header_value(nonce) {
        Some(nonce.to_owned())
    } else {
        None
    }
}

/// A nonce is minted for every `POST` and for `/newNonce` by whatever method, and
/// for nothing else.
pub proof fn a_nonce_is_minted_where_one_is_asked_for(method: Seq<char>, path: Seq<char>)
    ensures
        wants_nonce("POST"@, path),
        wants_nonce(method, "/newNonce"@),
        wants_nonce(method, path) ==> method == "POST"@ || path == "/newNonce"@,
{
}

} // verus!
