//! The JSON-over-HTTP transport that inventory clients share: which base URLs
//! are accepted, what is trusted, and how a reply is read.
//!
//! What a particular status means stays with each backend: one product answers
//! an unknown address with an empty list, the other with a 404.

use crate::debug::{quoted, quoted_words};
use crate::faults::{first_of, first_of_next};
use crate::text::{cat2, cat3, cat4, cat5, chars_of, same, string_of, trim, trimmed};
use crate::web::{is_success, parse_url, status_line, status_text, url_parsed, UrlModel, WebUrl};
use vstd::prelude::*;
use vstd::string::*;

verus! {

/// The document that `serde_json::from_slice` reads from a body, or the reason
/// there is none.
pub uninterp spec fn json_document(body: Seq<u8>) -> Result<serde_json::Value, Seq<char>>;

/// A parsed JSON document, carried through to whoever reads its shape.
#[verifier::external_type_specification]
#[verifier::external_body]
pub struct ExValue(serde_json::Value);

/// `serde_json::from_slice` to a `serde_json::Value`: a function of the bytes
/// alone, which the name `json_document` stands for.
#[verifier::external_body]
fn parse_json(body: &[u8]) -> (r: Result<serde_json::Value, String>)
    ensures
        match r {
            Ok(document) => json_document(body@) == Ok::<serde_json::Value, Seq<char>>(document),
            Err(e) => json_document(body@) == Err::<serde_json::Value, Seq<char>>(e@),
        },
{
    serde_json::from_slice(body).map_err(|error| error.to_string())
}

/// Why a request to an inventory did not produce a usable document.
#[derive(Debug, Clone, PartialEq, Eq)]
pub struct JsonApiError {
    /// The status, when the server answered at all.
    pub status: Option<u16>,
    pub message: String,
}

impl JsonApiError {
    /// A failure before any status was received.
    pub fn transport(message: String) -> (r: JsonApiError)
        ensures
            r.status is None,
            r.message@ == message@,
    {
        JsonApiError { status: None, message }
    }

    /// How the error reads.
    pub fn message(&self) -> (r: &str)
        ensures
            r@ == self.message@,
    {
        self.message.as_str()
    }
}

/// Whose certificates an inventory client believes.
#[derive(Debug, Clone, PartialEq, Eq)]
pub enum TlsTrust {
    /// Anyone's: verification is switched off, and no file is read.
    Anything,
    PublicRoots,
    /// The public roots and the certificates in the file at this path.
    PublicRootsAnd(String),
}

/// What an inventory client trusts. With verification off the certificate file
/// is not even looked at.
pub fn tls_config(ca_cert_path: &str, insecure_skip_verify: bool) -> (r: TlsTrust)
    ensures
        match r {
            TlsTrust::Anything => insecure_skip_verify,
            TlsTrust::PublicRoots => !insecure_skip_verify && trimmed(ca_cert_path@).len() == 0,
            TlsTrust::PublicRootsAnd(path) => {
                &&& !insecure_skip_verify
                &&& path@ == trimmed(ca_cert_path@)
                &&& path@.len() > 0
            },
        },
{
    if insecure_skip_verify {
        return TlsTrust::Anything;
    }
    let path = trim(ca_cert_path);
    if path.as_str().is_empty() {
        TlsTrust::PublicRoots
    } else {
        TlsTrust::PublicRootsAnd(path)
    }
}

/// Why the certificate file could not be used, against the key to change.
pub fn ca_unreadable(setting: &str, error: &str) -> (r: String)
    ensures
        r@ == setting@ + ": "@ + error@,
{
    cat3(setting, ": ", error)
}

/// Why a certificate in the file could not be used.
pub fn ca_unusable(setting: &str, path: &str, error: &str) -> (r: String)
    ensures
        r@ == setting@ + ": "@ + path@ + " is not a usable CA certificate: "@ + error@,
{
    cat5(setting, ": ", path, " is not a usable CA certificate: ", error)
}

/// The certificates that a client believes.
#[verifier::external_type_specification]
#[verifier::external_body]
pub struct ExRootCertStore(rustls::RootCertStore);

/// What is kept of a certificate to trust by it: its subject, its public key and
/// its name constraints.
pub type Anchor = (Seq<u8>, Seq<u8>, Option<Seq<u8>>);

/// What a store trusts by, in order.
pub uninterp spec fn anchors(roots: rustls::RootCertStore) -> Seq<Anchor>;

/// What a certificate in DER is trusted by, or why it cannot be.
pub uninterp spec fn anchor_of(der: Seq<u8>) -> Result<Anchor, Seq<char>>;

/// `rustls::RootCertStore::add`: puts what a certificate is trusted by at the end
/// of the store, or refuses it and leaves the store as it is. Which of the two,
/// and why, is a function of the certificate's bytes, which the name `anchor_of`
/// stands for.
#[verifier::external_body]
fn add_root(roots: &mut rustls::RootCertStore, der: &[u8]) -> (r: Result<(), String>)
    ensures
        match anchor_of(der@) {
            Ok(anchor) => r is Ok && anchors(*final(roots)) == anchors(*old(roots)).push(anchor),
            Err(error) => (r matches Err(e) && e@ == error) && anchors(*final(roots)) == anchors(
                *old(roots),
            ),
        },
{
    roots.add(rustls::pki_types::CertificateDer::from(der)).map_err(|error| error.to_string())
}

/// Why a certificate of a file cannot be trusted by, against the key to change.
pub open spec fn ca_fault(setting: Seq<char>, path: Seq<char>) -> spec_fn(Vec<u8>) -> Option<
    Seq<char>,
> {
    |der: Vec<u8>|
        match anchor_of(der@) {
            Ok(_) => None,
            Err(error) => Some(
                setting + ": "@ + path + " is not a usable CA certificate: "@ + error,
            ),
        }
}

/// What certificates in DER are trusted by.
pub open spec fn anchors_of(certificates: Seq<Vec<u8>>) -> Seq<Anchor> {
    certificates.map_values(|der: Vec<u8>| anchor_of(der@)->Ok_0)
}

/// A store that trusts the certificates of a file too; the first that cannot be
/// used decides.
pub fn trusting(
    roots: rustls::RootCertStore,
    setting: &str,
    path: &str,
    certificates: &Vec<Vec<u8>>,
) -> (r: Result<rustls::RootCertStore, String>)
    ensures
        match (first_of(certificates@, ca_fault(setting@, path@)), r) {
            (None, Ok(store)) => anchors(store) == anchors(roots) + anchors_of(certificates@),
            (Some(fault), Err(e)) => e@ == fault,
            _ => false,
        },
{
    let ghost fault = ca_fault(setting@, path@);
    let ghost before = anchors(roots);
    let ghost all = anchors_of(certificates@);
    let mut store = roots;
    let mut i: usize = 0;
    assert(certificates@.take(0).len() == 0);
    assert(before =~= before + all.take(0));
    while i < certificates.len()
        invariant
            i <= certificates@.len(),
            fault == ca_fault(setting@, path@),
            all == anchors_of(certificates@),
            first_of(certificates@.take(i as int), fault) is None,
            anchors(store) == before + all.take(i as int),
        decreases certificates@.len() - i,
    {
        proof {
            first_of_next(certificates@, fault, i as int);
        }
        if let Err(error) = add_root(&mut store, certificates[i].as_slice()) {
            return Err(ca_unusable(setting, path, error.as_str()));
        }
        assert(anchors(store) =~= before + all.take(i as int + 1));
        i += 1;
    }
    assert(certificates@.take(i as int) == certificates@);
    assert(all.take(i as int) == all);
    Ok(store)
}

/// Without the slashes at the end.
pub open spec fn without_slashes(s: Seq<char>) -> Seq<char>
    decreases s.len(),
{
    if s.len() > 0 && s.last() == '/' {
        without_slashes(s.drop_last())
    } else {
        s
    }
}

fn strip_slashes(s: &str) -> (r: String)
    ensures
        r@ == without_slashes(s@),
{
    let cs = chars_of(s);
    let mut end: usize = cs.len();
    assert(cs@.take(end as int) == cs@);
    while end > 0 && cs[end - 1] == '/'
        invariant
            end <= cs@.len(),
            without_slashes(cs@) == without_slashes(cs@.take(end as int)),
        decreases end,
    {
        assert(cs@.take(end as int).drop_last() == cs@.take(end as int - 1));
        end -= 1;
    }
    assert(cs@.subrange(0, end as int) == cs@.take(end as int));
    string_of(&cs, 0, end)
}

/// The base URL that a setting gives, or why it gives none.
pub open spec fn base_url(url: Seq<char>, setting: Seq<char>) -> Result<Seq<char>, Seq<char>> {
    match url_parsed(trimmed(url)) {
        Err(error) => Err(setting + ": "@ + url + " is not a URL: "@ + error),
        Ok(parsed) => base_of(parsed.text, parsed.scheme, setting),
    }
}

/// The base URL of a parsed URL: http and https only, without a trailing slash.
pub open spec fn base_of(text: Seq<char>, scheme: Seq<char>, setting: Seq<char>) -> Result<
    Seq<char>,
    Seq<char>,
> {
    if scheme == "http"@ || scheme == "https"@ {
        Ok(without_slashes(text))
    } else {
        Err(setting + ": unsupported scheme "@ + scheme + ", expected http or https"@)
    }
}

/// The base URL of a parsed URL.
pub fn base(url: &WebUrl, setting: &str) -> (r: Result<String, String>)
    ensures
        match r {
            Ok(base) => base_of(url.text@, url.scheme@, setting@) == Ok::<Seq<char>, Seq<char>>(
                base@,
            ),
            Err(e) => base_of(url.text@, url.scheme@, setting@) == Err::<Seq<char>, Seq<char>>(e@),
        },
{
    if same(url.scheme.as_str(), "http") || same(url.scheme.as_str(), "https") {
        Ok(strip_slashes(url.text.as_str()))
    } else {
        Err(
            cat4(
                setting,
                ": unsupported scheme ",
                url.scheme.as_str(),
                ", expected http or https",
            ),
        )
    }
}

/// A base URL, a fixed set of headers, and what is trusted.
#[derive(Clone, PartialEq, Eq)]
pub struct JsonApi {
    /// No trailing slash, so an instance under a subpath keeps it.
    pub base: String,
    pub headers: Vec<(String, String)>,
    pub tls: TlsTrust,
}

impl JsonApi {
    /// Validates the URL and keeps the headers every request will carry.
    ///
    /// `setting` is the configuration key the URL came from. Nothing is
    /// contacted here.
    pub fn new(url: &str, setting: &str, headers: Vec<(String, String)>, tls: TlsTrust) -> (r:
        Result<JsonApi, String>)
        ensures
            match r {
                Ok(api) => {
                    &&& base_url(url@, setting@) == Ok::<Seq<char>, Seq<char>>(api.base@)
                    &&& api.headers == headers
                    &&& api.tls == tls
                },
                Err(e) => base_url(url@, setting@) == Err::<Seq<char>, Seq<char>>(e@),
            },
    {
        match parse_url(trim(url).as_str()) {
            Err(error) => Err(cat5(setting, ": ", url, " is not a URL: ", error.as_str())),
            Ok(parsed) => match base(&parsed, setting) {
                Err(e) => Err(e),
                Ok(base) => Ok(JsonApi { base, headers, tls }),
            },
        }
    }

    /// The base URL, with no trailing slash.
    pub fn base(&self) -> (r: &str)
        ensures
            r@ == self.base@,
    {
        self.base.as_str()
    }

    /// What may be shown of a client: never its headers, one of which is the
    /// credential.
    pub fn describe(&self) -> (r: String)
        ensures
            r@ == "JsonApi { base: "@ + quoted_words(self.base@) + ", .. }"@,
    {
        cat3("JsonApi { base: ", quoted(self.base.as_str()).as_str(), ", .. }")
    }

    /// The headers of one request to `authority`: the fixed ones, and then the
    /// client's own.
    pub fn request_headers(&self, authority: &str) -> (r: Vec<(String, String)>)
        ensures
            r@.len() == 4 + self.headers@.len(),
            r@[0].0@ == "host"@ && r@[0].1@ == authority@,
            r@[1].0@ == "user-agent"@ && r@[1].1@ == "acme-proxy"@,
            r@[2].0@ == "accept"@ && r@[2].1@ == "application/json"@,
            r@[3].0@ == "connection"@ && r@[3].1@ == "close"@,
            forall|i: int|
                0 <= i < self.headers@.len() ==> (#[trigger] r@[4 + i]).0@ == self.headers@[i].0@
                    && r@[4 + i].1@ == self.headers@[i].1@,
    {
        let mut out: Vec<(String, String)> = Vec::new();
        out.push(("host".to_owned(), authority.to_owned()));
        out.push(("user-agent".to_owned(), "acme-proxy".to_owned()));
        out.push(("accept".to_owned(), "application/json".to_owned()));
        out.push(("connection".to_owned(), "close".to_owned()));
        let ghost fixed = out@;
        let mut i: usize = 0;
        while i < self.headers.len()
            invariant
                i <= self.headers@.len(),
                fixed.len() == 4,
                out@.len() == 4 + i,
                out@.take(4) == fixed,
                forall|j: int|
                    0 <= j < i ==> (#[trigger] out@[4 + j]).0@ == self.headers@[j].0@
                        && out@[4 + j].1@ == self.headers@[j].1@,
            decreases self.headers@.len() - i,
        {
            let ghost held = out@;
            out.push((self.headers[i].0.clone(), self.headers[i].1.clone()));
            proof {
                assert(out@.take(4) =~= held.take(4));
                assert forall|j: int| 0 <= j < i + 1 implies (#[trigger] out@[4 + j]).0@
                    == self.headers@[j].0@ && out@[4 + j].1@ == self.headers@[j].1@ by {
                    if j < i {
                        assert(out@[4 + j] == held[4 + j]);
                    }
                }
            }
            i += 1;
        }
        assert(out@[0] == fixed[0] && out@[1] == fixed[1] && out@[2] == fixed[2] && out@[3]
            == fixed[3]) by {
            assert(out@.take(4)[0] == out@[0] && out@.take(4)[1] == out@[1] && out@.take(4)[2]
                == out@[2] && out@.take(4)[3] == out@[3]);
        }
        out
    }

    /// The URL of one request: the path is appended to the base, never
    /// substituted for it.
    pub fn target(&self, path_and_query: &str) -> (r: Result<WebUrl, JsonApiError>)
        ensures
            match r {
                Ok(url) => url_parsed(self.base@ + path_and_query@) == Ok::<UrlModel, Seq<char>>(
                    url@,
                ),
                Err(e) => {
                    &&& url_parsed(self.base@ + path_and_query@) is Err
                    &&& e.status is None
                    &&& e.message@ == self.base@ + path_and_query@ + " is not a URL: "@
                        + url_parsed(self.base@ + path_and_query@)->Err_0
                },
            },
    {
        let target = cat2(self.base.as_str(), path_and_query);
        match parse_url(target.as_str()) {
            Ok(url) => Ok(url),
            Err(error) => Err(
                JsonApiError::transport(
                    cat3(target.as_str(), " is not a URL: ", error.as_str()),
                ),
            ),
        }
    }
}

/// What came back of one request.
#[derive(Debug, Clone, PartialEq, Eq)]
pub enum Reply {
    /// Nothing: the URL names no endpoint, for this reason.
    Unusable(String),
    /// Nothing: no connection came about, for this reason.
    Unconnected(String),
    /// Nothing: the request could not be built, for this reason.
    Unbuilt(String),
    /// Nothing: the exchange failed, for this reason.
    Failed(String),
    /// More than this many bytes.
    TooLarge(u64),
    Answered { status: u16, body: Vec<u8> },
}

/// The failure that a reply amounts to before its body is read as a document.
pub open spec fn reply_failure(url: Seq<char>, reply: Reply, excerpt: Seq<char>) -> Option<
    (Option<u16>, Seq<char>),
> {
    match reply {
        Reply::Unusable(error) => Some((None, url + " is not a usable endpoint: "@ + error@)),
        Reply::Unconnected(error) => Some((None, error@)),
        Reply::Unbuilt(error) => Some((None, "building the request: "@ + error@)),
        Reply::Failed(error) => Some((None, "request to "@ + url + " failed: "@ + error@)),
        Reply::TooLarge(limit) => Some(
            (
                None,
                "response from "@ + url + " exceeds "@ + crate::text::decimal(limit as nat)
                    + " bytes"@,
            ),
        ),
        Reply::Answered { status, body } => if is_success(status) {
            None
        } else {
            Some((Some(status), url + " answered "@ + status_line(status) + ": "@ + excerpt))
        },
    }
}

/// An answer that is no success, with its status as it reads in full.
pub fn refused(url: &str, status: u16, line: &str, excerpt: &str) -> (r: JsonApiError)
    ensures
        r.status == Some(status),
        r.message@ == url@ + " answered "@ + line@ + ": "@ + excerpt@,
{
    JsonApiError {
        status: Some(status),
        message: cat5(url, " answered ", line, ": ", excerpt),
    }
}

/// A successful answer, from what its body was read as.
pub fn document(url: &str, status: u16, parsed: Result<serde_json::Value, String>) -> (r: Result<
    serde_json::Value,
    JsonApiError,
>)
    ensures
        match parsed {
            Ok(document) => r == Ok::<serde_json::Value, JsonApiError>(document),
            Err(error) => r matches Err(e) && e.status == Some(status) && e.message@ == url@
                + " returned unreadable JSON: "@ + error@,
        },
{
    match parsed {
        Ok(document) => Ok(document),
        Err(error) => Err(
            JsonApiError {
                status: Some(status),
                message: cat3(url, " returned unreadable JSON: ", error.as_str()),
            },
        ),
    }
}

/// Reads a reply: a document, or the failure it amounts to. `excerpt` is what
/// an error shows of the body.
pub fn exchange(url: &str, reply: &Reply, excerpt: &str) -> (r: Result<
    serde_json::Value,
    JsonApiError,
>)
    requires
        reply matches Reply::Answered { status, .. } ==> 100 <= *status <= 999,
    ensures
        match reply_failure(url@, *reply, excerpt@) {
            Some((status, message)) => r matches Err(e) && e.status == status && e.message@
                == message,
            None => match json_document(reply->body@) {
                Ok(document) => r == Ok::<serde_json::Value, JsonApiError>(document),
                Err(error) => r matches Err(e) && e.status == Some(reply->status) && e.message@
                    == url@ + " returned unreadable JSON: "@ + error,
            },
        },
{
    match reply {
        Reply::Unusable(error) => Err(
            JsonApiError::transport(cat3(url, " is not a usable endpoint: ", error.as_str())),
        ),
        Reply::Unconnected(error) => Err(JsonApiError::transport(error.clone())),
        Reply::Unbuilt(error) => Err(
            JsonApiError::transport(cat2("building the request: ", error.as_str())),
        ),
        Reply::Failed(error) => Err(
            JsonApiError::transport(cat4("request to ", url, " failed: ", error.as_str())),
        ),
        Reply::TooLarge(limit) => Err(
            JsonApiError::transport(
                cat5(
                    "response from ",
                    url,
                    " exceeds ",
                    crate::text::number(*limit as u128).as_str(),
                    " bytes",
                ),
            ),
        ),
        Reply::Answered { status, body } => {
            if *status < 200 || *status >= 300 {
                let line = status_text(*status);
                return Err(refused(url, *status, line.as_str(), excerpt));
            }
            document(url, *status, parse_json(body.as_slice()))
        },
    }
}

/// A base is its URL without the slashes at its end: what is cut off is slashes only,
/// and none is left.
pub proof fn a_base_ends_in_no_slash(s: Seq<char>)
    ensures
        without_slashes(s).len() <= s.len(),
        without_slashes(s) == s.take(without_slashes(s).len() as int),
        without_slashes(s).len() > 0 ==> without_slashes(s).last() != '/',
        forall|k: int| without_slashes(s).len() <= k < s.len() ==> #[trigger] s[k] == '/',
    decreases s.len(),
{
    if s.len() > 0 && s.last() == '/' {
        let front = s.drop_last();
        a_base_ends_in_no_slash(front);
        let n = without_slashes(s).len() as int;
        assert(front.take(n) =~= s.take(n));
        assert forall|k: int| n <= k < s.len() implies #[trigger] s[k] == '/' by {
            if k < front.len() {
                assert(front[k] == '/');
            }
        }
    } else {
        assert(s.take(s.len() as int) =~= s);
    }
}

/// A URL is a base exactly when it can be read and is of one of the two schemes; the
/// setting is named where it is not.
pub proof fn a_base_is_http_or_https(url: Seq<char>, setting: Seq<char>)
    ensures
        base_url(url, setting) is Ok <==> url_parsed(trimmed(url)) is Ok && (url_parsed(
            trimmed(url),
        )->Ok_0.scheme == "http"@ || url_parsed(trimmed(url))->Ok_0.scheme == "https"@),
        base_url(url, setting) matches Ok(base) ==> base == without_slashes(
            url_parsed(trimmed(url))->Ok_0.text,
        ),
        url_parsed(trimmed(url)) matches Err(error) ==> base_url(url, setting) == Err::<
            Seq<char>,
            Seq<char>,
        >(setting + ": "@ + url + " is not a URL: "@ + error),
        url_parsed(trimmed(url)) matches Ok(parsed) && parsed.scheme != "http"@ && parsed.scheme
            != "https"@ ==> base_url(url, setting) == Err::<Seq<char>, Seq<char>>(
            setting + ": unsupported scheme "@ + url_parsed(trimmed(url))->Ok_0.scheme
                + ", expected http or https"@,
        ),
{
}

/// The same of what a URL was read as.
pub proof fn a_base_is_made_of_its_text(text: Seq<char>, scheme: Seq<char>, setting: Seq<char>)
    ensures
        scheme == "http"@ || scheme == "https"@ ==> base_of(text, scheme, setting) == Ok::<
            Seq<char>,
            Seq<char>,
        >(without_slashes(text)),
        scheme != "http"@ && scheme != "https"@ ==> base_of(text, scheme, setting) == Err::<
            Seq<char>,
            Seq<char>,
        >(setting + ": unsupported scheme "@ + scheme + ", expected http or https"@),
{
}

/// A reply is a document only where it is an answer with a status from 200 to 299. Only
/// an answer has a status to report, and it is its own; every other failure says what
/// went wrong.
pub proof fn only_a_success_is_read(
    url: Seq<char>,
    excerpt: Seq<char>,
    status: u16,
    body: Vec<u8>,
    limit: u64,
    error: String,
)
    ensures
        reply_failure(url, Reply::Answered { status, body }, excerpt) is None <==> 200 <= status
            <= 299,
        !(200 <= status <= 299) ==> reply_failure(url, Reply::Answered { status, body }, excerpt)
            == Some((Some(status), url + " answered "@ + status_line(status) + ": "@ + excerpt)),
        reply_failure(url, Reply::Failed(error), excerpt) == Some(
            (None::<u16>, "request to "@ + url + " failed: "@ + error@),
        ),
        reply_failure(url, Reply::Unconnected(error), excerpt) == Some((None::<u16>, error@)),
        reply_failure(url, Reply::Unbuilt(error), excerpt) == Some(
            (None::<u16>, "building the request: "@ + error@),
        ),
        reply_failure(url, Reply::Unusable(error), excerpt) == Some(
            (None::<u16>, url + " is not a usable endpoint: "@ + error@),
        ),
        reply_failure(url, Reply::TooLarge(limit), excerpt) == Some(
            (
                None::<u16>,
                "response from "@ + url + " exceeds "@ + crate::text::decimal(limit as nat)
                    + " bytes"@,
            ),
        ),
{
}

/// A certificate is refused exactly when nothing can be trusted by it, and a file's are
/// trusted one for one.
pub proof fn a_certificate_is_trusted_by_what_it_is(
    setting: Seq<char>,
    path: Seq<char>,
    der: Vec<u8>,
    all: Seq<Vec<u8>>,
)
    ensures
        (ca_fault(setting, path)(der)) is None <==> anchor_of(der@) is Ok,
        anchor_of(der@) matches Err(error) ==> ca_fault(setting, path)(der) == Some(
            setting + ": "@ + path + " is not a usable CA certificate: "@ + error,
        ),
        anchors_of(all).len() == all.len(),
        forall|i: int|
            0 <= i < all.len() && anchor_of((#[trigger] all[i])@) is Ok ==> anchors_of(all)[i]
                == anchor_of(all[i]@)->Ok_0,
{
}

} // verus!
