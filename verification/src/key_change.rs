//! Account key rollover (RFC 8555 §7.3.5): verification of the nested inner JWS
//! that a `keyChange` request's payload carries, which proves possession of both
//! the old and the new account key.
//!
//! The inner header must name this very request, and the inner payload must name
//! the account that signed the outer request and its current key. So a captured
//! inner JWS cannot be replayed onto another account or another old key.

use crate::problem::{malformed, server_internal, unauthorized, Problem, ProblemModel};
use crate::text::{cat3, same};
use vstd::prelude::*;
use vstd::string::*;

verus! {

/// The inner JWS, flattened.
#[derive(Debug, Clone, PartialEq, Eq)]
pub struct KeyChangeJws {
    pub protected: String,
    pub payload: String,
    pub signature: String,
}

/// A public key as a JWK.
#[derive(Debug, Clone, PartialEq, Eq)]
pub enum Jwk {
    EC { crv: String, x: String, y: String },
    RSA { n: String, e: String },
}

/// A key, in terms of sequences.
pub enum JwkModel {
    EC { crv: Seq<char>, x: Seq<char>, y: Seq<char> },
    RSA { n: Seq<char>, e: Seq<char> },
}

impl View for Jwk {
    type V = JwkModel;

    open spec fn view(&self) -> JwkModel {
        match self {
            Jwk::EC { crv, x, y } => JwkModel::EC { crv: crv@, x: x@, y: y@ },
            Jwk::RSA { n, e } => JwkModel::RSA { n: n@, e: e@ },
        }
    }
}

impl Jwk {
    /// Whether two keys are the same, member by member.
    pub fn same(&self, other: &Jwk) -> (r: bool)
        ensures
            r == (self@ == other@),
    {
        match (self, other) {
            (Jwk::EC { crv, x, y }, Jwk::EC { crv: c, x: a, y: b }) => {
                same(crv.as_str(), c.as_str()) && same(x.as_str(), a.as_str()) && same(
                    y.as_str(),
                    b.as_str(),
                )
            },
            (Jwk::RSA { n, e }, Jwk::RSA { n: a, e: b }) => {
                same(n.as_str(), a.as_str()) && same(e.as_str(), b.as_str())
            },
            _ => false,
        }
    }
}

/// The inner protected header. It carries the new key itself, and no nonce: the
/// outer request is the one that is protected against replay.
#[derive(Debug, Clone, PartialEq, Eq)]
pub struct InnerHeader {
    pub alg: String,
    pub jwk: Jwk,
    pub url: String,
}

/// The inner payload, a `keyChange` object.
#[derive(Debug, Clone, PartialEq, Eq)]
pub struct InnerPayload {
    pub account: String,
    pub old_key: Jwk,
}

/// Why a signature was not accepted.
#[derive(Debug, Clone, Copy, PartialEq, Eq)]
pub enum SignatureError {
    Malformed(&'static str),
    BadAlgorithm(&'static str),
    BadSignature(&'static str),
    Encoding(&'static str),
}

/// Why a key change was refused: a shape the client can mend, a signature that
/// does not verify, or a fault of this server.
#[derive(Debug, Clone, Copy, PartialEq, Eq)]
pub enum KeyChangeError {
    Malformed(&'static str),
    BadSignature,
    Internal(&'static str),
}

/// A refusal, in terms of sequences.
pub enum RefusalModel {
    Malformed(Seq<char>),
    BadSignature,
    Internal(Seq<char>),
}

impl View for KeyChangeError {
    type V = RefusalModel;

    open spec fn view(&self) -> RefusalModel {
        match self {
            KeyChangeError::Malformed(detail) => RefusalModel::Malformed(detail@),
            KeyChangeError::BadSignature => RefusalModel::BadSignature,
            KeyChangeError::Internal(detail) => RefusalModel::Internal(detail@),
        }
    }
}

/// What a signature error means for a key change. An unsupported algorithm of
/// the inner JWS is a malformed payload: renegotiating the algorithm of the
/// request would change the wrong thing.
pub open spec fn refusal_of(error: SignatureError) -> RefusalModel {
    match error {
        SignatureError::Malformed(detail) => RefusalModel::Malformed(detail@),
        SignatureError::BadAlgorithm(detail) => RefusalModel::Malformed(detail@),
        SignatureError::BadSignature(_) => RefusalModel::BadSignature,
        SignatureError::Encoding(detail) => RefusalModel::Internal(detail@),
    }
}

impl KeyChangeError {
    /// What a signature error means for a key change.
    pub fn from_signature(error: SignatureError) -> (r: KeyChangeError)
        ensures
            r@ == refusal_of(error),
    {
        match error {
            SignatureError::Malformed(detail) => KeyChangeError::Malformed(detail),
            SignatureError::BadAlgorithm(detail) => KeyChangeError::Malformed(detail),
            SignatureError::BadSignature(_) => KeyChangeError::BadSignature,
            SignatureError::Encoding(detail) => KeyChangeError::Internal(detail),
        }
    }
}

/// The bytes that a text stands for in the URL-safe base64 alphabet without
/// padding; `None` where it stands for none.
pub uninterp spec fn base64url_decoded(text: Seq<char>) -> Option<Seq<u8>>;

/// `decode` of the `base64` crate's engine `URL_SAFE_NO_PAD`: a function of the
/// text alone, which the name `base64url_decoded` stands for.
#[verifier::external_body]
fn base64url_decode(text: &str) -> (r: Option<Vec<u8>>)
    ensures
        match r {
            Some(bytes) => base64url_decoded(text@) == Some(bytes@),
            None => base64url_decoded(text@) is None,
        },
{
    base64::Engine::decode(&base64::engine::general_purpose::URL_SAFE_NO_PAD, text).ok()
}

/// What a header that was read comes to: it must name this very request.
pub open spec fn header_refusal(header: Option<InnerHeader>, expected_url: Seq<char>) -> Option<
    Seq<char>,
> {
    match header {
        None => Some("inner protected JSON invalid"@),
        Some(header) => if header.url@ == expected_url {
            None
        } else {
            Some("inner url does not match the request"@)
        },
    }
}

/// Checks a header that was read, `None` for one that cannot be read.
pub fn check_header(header: Option<InnerHeader>, expected_url: &str) -> (r: Result<
    InnerHeader,
    KeyChangeError,
>)
    ensures
        match header_refusal(header, expected_url@) {
            Some(detail) => r matches Err(e) && e@ == RefusalModel::Malformed(detail),
            None => r == Ok::<InnerHeader, KeyChangeError>(header->0),
        },
{
    match header {
        None => Err(KeyChangeError::Malformed("inner protected JSON invalid")),
        Some(header) => if same(header.url.as_str(), expected_url) {
            Ok(header)
        } else {
            Err(KeyChangeError::Malformed("inner url does not match the request"))
        },
    }
}

/// Decodes and validates the inner protected header. `read` reads a header from
/// the decoded bytes; `expected_url` is the outer request's own URL.
pub fn parse_header<F: Fn(&[u8]) -> Option<InnerHeader>>(
    inner: &KeyChangeJws,
    expected_url: &str,
    read: F,
) -> (r: Result<InnerHeader, KeyChangeError>)
    requires
        forall|bytes: &[u8]| call_requires(read, (bytes,)),
    ensures
        match base64url_decoded(inner.protected@) {
            None => r matches Err(e) && e@ == RefusalModel::Malformed(
                "inner protected base64 invalid"@,
            ),
            Some(decoded) => exists|bytes: &[u8], header: Option<InnerHeader>|
                bytes@ == decoded && #[trigger] call_ensures(read, (bytes,), header) && match (
                    header_refusal(header, expected_url@),
                    r,
                ) {
                    (Some(detail), Err(e)) => e@ == RefusalModel::Malformed(detail),
                    (None, Ok(h)) => Some(h) == header,
                    _ => false,
                },
        },
{
    match base64url_decode(inner.protected.as_str()) {
        None => Err(KeyChangeError::Malformed("inner protected base64 invalid")),
        Some(decoded) => {
            let bytes: &[u8] = decoded.as_slice();
            let header = read(bytes);
            let ghost got = header;
            let r = check_header(header, expected_url);
            assert(call_ensures(read, (bytes,), got));
            r
        },
    }
}

/// What the signature of the inner JWS is over.
pub open spec fn signing_input(inner: KeyChangeJws) -> Seq<char> {
    inner.protected@ + "."@ + inner.payload@
}

/// Verifies the inner JWS's own signature, by the key in its header, and gives
/// that key in the form accounts are kept by. `verify` takes the algorithm, the
/// key, the signed text and the signature.
pub fn verify_signature<F: Fn(&str, &Jwk, &str, &str) -> Result<Vec<u8>, SignatureError>>(
    inner: &KeyChangeJws,
    header: &InnerHeader,
    verify: F,
) -> (r: Result<Vec<u8>, KeyChangeError>)
    requires
        forall|alg: &str, jwk: &Jwk, signed: &str, signature: &str|
            call_requires(verify, (alg, jwk, signed, signature)),
    ensures
        exists|
            alg: &str,
            signed: &str,
            signature: &str,
            verdict: Result<Vec<u8>, SignatureError>,
        |
            alg@ == header.alg@ && signed@ == signing_input(*inner) && signature@
                == inner.signature@ && #[trigger] call_ensures(
                verify,
                (alg, &header.jwk, signed, signature),
                verdict,
            ) && match (verdict, r) {
                (Ok(der), Ok(got)) => der == got,
                (Err(error), Err(e)) => e@ == refusal_of(error),
                _ => false,
            },
{
    let text = cat3(inner.protected.as_str(), ".", inner.payload.as_str());
    let alg = header.alg.as_str();
    let signed = text.as_str();
    let signature = inner.signature.as_str();
    let verdict = verify(alg, &header.jwk, signed, signature);
    let ghost got = verdict;
    assert(call_ensures(verify, (alg, &header.jwk, signed, signature), got));
    match verdict {
        Ok(der) => Ok(der),
        Err(error) => Err(KeyChangeError::from_signature(error)),
    }
}

/// What a payload that was read comes to: it must name the account that signed
/// the outer request, and that account's current key.
pub open spec fn payload_refusal(
    payload: Option<InnerPayload>,
    account_url: Seq<char>,
    old_key: JwkModel,
) -> Option<Seq<char>> {
    match payload {
        None => Some("inner payload is not a keyChange object"@),
        Some(payload) => if payload.account@ != account_url {
            Some("inner account does not match the signer"@)
        } else if payload.old_key@ != old_key {
            Some("inner oldKey does not match the account key"@)
        } else {
            None
        },
    }
}

/// Checks a payload that was read, `None` for one that cannot be read.
pub fn check_payload(
    payload: Option<InnerPayload>,
    expected_account_url: &str,
    expected_old_key: &Jwk,
) -> (r: Result<InnerPayload, KeyChangeError>)
    ensures
        match payload_refusal(payload, expected_account_url@, expected_old_key@) {
            Some(detail) => r matches Err(e) && e@ == RefusalModel::Malformed(detail),
            None => r == Ok::<InnerPayload, KeyChangeError>(payload->0),
        },
{
    match payload {
        None => Err(KeyChangeError::Malformed("inner payload is not a keyChange object")),
        Some(payload) => if !same(payload.account.as_str(), expected_account_url) {
            Err(KeyChangeError::Malformed("inner account does not match the signer"))
        } else if !payload.old_key.same(expected_old_key) {
            Err(KeyChangeError::Malformed("inner oldKey does not match the account key"))
        } else {
            Ok(payload)
        },
    }
}

/// Decodes and validates the inner payload. `read` reads a payload from the
/// decoded bytes.
pub fn verify_payload<F: Fn(&[u8]) -> Option<InnerPayload>>(
    inner: &KeyChangeJws,
    expected_account_url: &str,
    expected_old_key: &Jwk,
    read: F,
) -> (r: Result<InnerPayload, KeyChangeError>)
    requires
        forall|bytes: &[u8]| call_requires(read, (bytes,)),
    ensures
        match base64url_decoded(inner.payload@) {
            None => r matches Err(e) && e@ == RefusalModel::Malformed(
                "inner payload base64 invalid"@,
            ),
            Some(decoded) => exists|bytes: &[u8], payload: Option<InnerPayload>|
                bytes@ == decoded && #[trigger] call_ensures(read, (bytes,), payload) && match (
                    payload_refusal(payload, expected_account_url@, expected_old_key@),
                    r,
                ) {
                    (Some(detail), Err(e)) => e@ == RefusalModel::Malformed(detail),
                    (None, Ok(p)) => Some(p) == payload,
                    _ => false,
                },
        },
{
    match base64url_decode(inner.payload.as_str()) {
        None => Err(KeyChangeError::Malformed("inner payload base64 invalid")),
        Some(decoded) => {
            let bytes: &[u8] = decoded.as_slice();
            let payload = read(bytes);
            let ghost got = payload;
            let r = check_payload(payload, expected_account_url, expected_old_key);
            assert(call_ensures(read, (bytes,), got));
            r
        },
    }
}

/// What a refused key change is answered.
pub open spec fn answer(error: RefusalModel) -> ProblemModel {
    match error {
        RefusalModel::Malformed(detail) => malformed(detail),
        RefusalModel::BadSignature => unauthorized("Inner JWS signature invalid"@),
        RefusalModel::Internal(detail) => server_internal(detail),
    }
}

/// What a refused key change is answered.
pub fn key_change_problem(error: KeyChangeError) -> (r: Problem)
    ensures
        r@ == answer(error@),
{
    match error {
        KeyChangeError::Malformed(detail) => Problem::malformed(detail),
        KeyChangeError::BadSignature => Problem::unauthorized("Inner JWS signature invalid"),
        KeyChangeError::Internal(detail) => Problem::server_internal(detail),
    }
}

/// How a refused key change is logged: the check that refused it, and why.
pub fn rejection(error: &KeyChangeError) -> (r: (&'static str, &'static str))
    ensures
        match error {
            KeyChangeError::Malformed(detail) => r.0@ == "malformed"@ && r.1@ == detail@,
            KeyChangeError::BadSignature => r.0@ == "bad_signature"@ && r.1@
                == "inner JWS signature invalid"@,
            KeyChangeError::Internal(detail) => r.0@ == "internal"@ && r.1@ == detail@,
        },
{
    match error {
        KeyChangeError::Malformed(detail) => ("malformed", *detail),
        KeyChangeError::BadSignature => ("bad_signature", "inner JWS signature invalid"),
        KeyChangeError::Internal(detail) => ("internal", *detail),
    }
}

/// An inner JWS works for one account, one old key and one request only: where
/// a header and a payload are accepted for two of each, they are the same.
pub proof fn a_key_change_cannot_be_replayed(
    header: Option<InnerHeader>,
    payload: Option<InnerPayload>,
    url_a: Seq<char>,
    account_a: Seq<char>,
    key_a: JwkModel,
    url_b: Seq<char>,
    account_b: Seq<char>,
    key_b: JwkModel,
)
    requires
        header_refusal(header, url_a) is None,
        header_refusal(header, url_b) is None,
        payload_refusal(payload, account_a, key_a) is None,
        payload_refusal(payload, account_b, key_b) is None,
    ensures
        url_a == url_b,
        account_a == account_b,
        key_a == key_b,
{
}

/// A refusal is blamed on the client unless the server could not read its own
/// stored key: the answer is a 500 exactly then, a 401 exactly for a signature
/// that does not verify, and a 400 for everything else.
pub proof fn only_our_own_fault_is_a_500(error: RefusalModel)
    ensures
        answer(error).status == 500 <==> error is Internal,
        answer(error).status == 401 <==> error is BadSignature,
        answer(error).status == 400 <==> error is Malformed,
{
}

/// A header that was read is accepted if and only if it names this very request,
/// whatever its algorithm and its key are; one that cannot be read never is.
pub proof fn a_header_is_judged_by_its_url_alone(header: InnerHeader, url: Seq<char>)
    ensures
        header_refusal(Some(header), url) is None <==> header.url@ == url,
        header.url@ != url ==> header_refusal(Some(header), url) == Some(
            "inner url does not match the request"@,
        ),
        header_refusal(None, url) == Some("inner protected JSON invalid"@),
{
}

/// A payload that was read is accepted if and only if it names the account that
/// signed and that account's current key; the account is looked at first.
pub proof fn a_payload_is_judged_by_account_and_key(
    payload: InnerPayload,
    account: Seq<char>,
    key: JwkModel,
)
    ensures
        payload_refusal(Some(payload), account, key) is None <==> payload.account@ == account
            && payload.old_key@ == key,
        payload.account@ != account ==> payload_refusal(Some(payload), account, key) == Some(
            "inner account does not match the signer"@,
        ),
        payload.account@ == account && payload.old_key@ != key ==> payload_refusal(
            Some(payload),
            account,
            key,
        ) == Some("inner oldKey does not match the account key"@),
        payload_refusal(None, account, key) == Some("inner payload is not a keyChange object"@),
{
}

/// Two keys count as the same exactly when they are of one type and all their
/// members agree.
pub proof fn keys_agree_member_by_member(a: Jwk, b: Jwk)
    ensures
        a@ == b@ <==> match (a, b) {
            (Jwk::EC { crv, x, y }, Jwk::EC { crv: c, x: v, y: w }) => crv@ == c@ && x@ == v@ && y@
                == w@,
            (Jwk::RSA { n, e }, Jwk::RSA { n: m, e: f }) => n@ == m@ && e@ == f@,
            _ => false,
        },
{
}

/// What is signed is the whole protected header, a dot, and the whole payload, as
/// they were sent.
pub proof fn the_signature_covers_header_and_payload(inner: KeyChangeJws)
    ensures
        signing_input(inner).len() == inner.protected@.len() + 1 + inner.payload@.len(),
        signing_input(inner).take(inner.protected@.len() as int) == inner.protected@,
        signing_input(inner)[inner.protected@.len() as int] == '.',
        signing_input(inner).skip(inner.protected@.len() as int + 1) == inner.payload@,
{
    reveal_strlit(".");
    let s = signing_input(inner);
    assert(s.take(inner.protected@.len() as int) =~= inner.protected@);
    assert(s.skip(inner.protected@.len() as int + 1) =~= inner.payload@);
}

/// What each fault of a signature is answered, with the detail it came with: an
/// algorithm that is not supported is a malformed payload, and never a 401.
pub proof fn a_signature_fault_is_answered(detail: &'static str)
    ensures
        answer(refusal_of(SignatureError::Malformed(detail))) == (ProblemModel {
            status: 400,
            kind: "urn:ietf:params:acme:error:malformed"@,
            detail: detail@,
        }),
        answer(refusal_of(SignatureError::BadAlgorithm(detail))) == (ProblemModel {
            status: 400,
            kind: "urn:ietf:params:acme:error:malformed"@,
            detail: detail@,
        }),
        answer(refusal_of(SignatureError::BadSignature(detail))) == (ProblemModel {
            status: 401,
            kind: "urn:ietf:params:acme:error:unauthorized"@,
            detail: "Inner JWS signature invalid"@,
        }),
        answer(refusal_of(SignatureError::Encoding(detail))) == (ProblemModel {
            status: 500,
            kind: "urn:ietf:params:acme:error:serverInternal"@,
            detail: detail@,
        }),
{
}

/// A refused key change is answered with the detail of its refusal.
pub proof fn a_refusal_keeps_its_detail(error: KeyChangeError)
    ensures
        error matches KeyChangeError::Malformed(detail) ==> answer(error@).detail == detail@
            && answer(error@).kind == "urn:ietf:params:acme:error:malformed"@,
        error is BadSignature ==> answer(error@).detail == "Inner JWS signature invalid"@
            && answer(error@).kind == "urn:ietf:params:acme:error:unauthorized"@,
        error matches KeyChangeError::Internal(detail) ==> answer(error@).detail == detail@
            && answer(error@).kind == "urn:ietf:params:acme:error:serverInternal"@,
{
}

} // verus!
