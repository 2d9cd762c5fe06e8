//! The `webhook` notify backend: any HTTP endpoint, whose URL, method, headers
//! and body are all configuration.

use super::event::NotifyEvent;
use super::template::{template_error, template_fault};
use super::{NotifyBackend, NotifyError, NotifyErrorModel};
use crate::debug::{list, list_of, maybe, maybe_of, quoted, quoted_words, span, span_of};
use crate::faults::{first_of, first_of_next};
use crate::headers::{
    header_entries, header_name, header_names, header_value, insert_header, is_header_value,
    new_headers, parse_header_name,
};
use crate::web::{parse_url, status_line, status_text, url_parsed, UrlModel, WebUrl};
use crate::sorted::{StringMap, StringSet};
use crate::text::{
    cat2, cat3, cat4, cat5, chars_of, lossy_text, lowered, same, string_of, texts, trim, trimmed,
    uppercase, uppered, utf8_lossy,
};
use crate::time::Duration;
use vstd::prelude::*;
use vstd::string::*;
use vstd::utf8::encode_utf8;

verus! {

/// One `[notify.webhook.<name>]` entry.
#[derive(Debug, PartialEq, Eq)]
pub struct WebhookNotifyConfig {
    pub url: String,
    pub method: String,
    pub headers: StringMap<String>,
    pub body: String,
    pub timeout_ms: u64,
    pub events: Vec<String>,
}

impl Default for WebhookNotifyConfig {
    fn default() -> (r: WebhookNotifyConfig)
        ensures
            r.url@.len() == 0,
            r.method@ == "POST"@,
            r.headers@ == Map::<Seq<char>, String>::empty(),
            r.body@ == "{\"text\": {{ message | tojson }}}"@,
            r.timeout_ms == 10_000,
            texts(r.events@) == super::event::all_kinds(),
    {
        WebhookNotifyConfig {
            url: String::new(),
            method: "POST".to_owned(),
            headers: StringMap::new(),
            body: "{\"text\": {{ message | tojson }}}".to_owned(),
            timeout_ms: 10_000,
            events: super::every_kind(),
        }
    }
}

/// How many characters of a rejecting webhook's body are quoted.
pub const MAX_ERROR_BODY_CHARS: usize = 200;

/// How many headers an entry may configure at most.
pub const MAX_HEADERS: usize = 6_551;

/// Whether a method is one a webhook is called with: those that write.
pub open spec fn allowed_method(method: Seq<char>) -> bool {
    method == "POST"@ || method == "PUT"@ || method == "PATCH"@
}

/// The headers that go out unless an entry overrides them.
pub open spec fn default_headers() -> Map<Seq<char>, Seq<u8>> {
    Map::empty().insert("content-type"@, encode_utf8("application/json"@)).insert(
        "user-agent"@,
        encode_utf8("acme-proxy"@),
    )
}

/// The complaint about one configured header. The value is never quoted: it may
/// be a credential.
pub open spec fn header_fault(key: Seq<char>, name: Seq<char>, value: Seq<char>) -> Option<
    Seq<char>,
> {
    if !header_name(encode_utf8(name)) {
        Some(
            key + ".headers: `"@ + name + "` is not a header name: "@
                + "invalid HTTP header name"@,
        )
    } else if !header_value(encode_utf8(value)) {
        Some(key + ".headers."@ + lowered(name) + ": the value is not a valid header value"@)
    } else {
        None
    }
}

/// The complaint about a configured header of a name.
pub open spec fn named_header_fault(key: Seq<char>, configured: Map<Seq<char>, String>) -> spec_fn(
    Seq<char>,
) -> Option<Seq<char>> {
    |name: Seq<char>| header_fault(key, name, configured[name]@)
}

/// The complaint about the first bad header of a list of names.
pub open spec fn headers_fault(
    key: Seq<char>,
    names: Seq<Seq<char>>,
    configured: Map<Seq<char>, String>,
) -> Option<Seq<char>> {
    first_of(names, named_header_fault(key, configured))
}

/// The headers after each of a list of names was set, the later over the
/// earlier.
pub open spec fn headers_set(
    names: Seq<Seq<char>>,
    configured: Map<Seq<char>, String>,
) -> Map<Seq<char>, Seq<u8>>
    decreases names.len(),
{
    if names.len() == 0 {
        default_headers()
    } else {
        headers_set(names.drop_last(), configured).insert(
            lowered(names.last()),
            encode_utf8(configured[names.last()]@),
        )
    }
}

proof fn few_headers(names: Seq<Seq<char>>, configured: Map<Seq<char>, String>)
    ensures
        headers_set(names, configured).dom().finite(),
        headers_set(names, configured).dom().len() <= names.len() + 2,
    decreases names.len(),
{
    if names.len() == 0 {
        let one = Map::<Seq<char>, Seq<u8>>::empty().insert(
            "content-type"@,
            encode_utf8("application/json"@),
        );
        assert(one.dom() =~= Set::<Seq<char>>::empty().insert("content-type"@));
        assert(default_headers().dom() =~= one.dom().insert("user-agent"@));
    } else {
        few_headers(names.drop_last(), configured);
        let before = headers_set(names.drop_last(), configured);
        assert(headers_set(names, configured).dom() =~= before.dom().insert(
            lowered(names.last()),
        ));
    }
}

/// The request headers: the defaults, and over them what is configured, in the
/// order of the names.
pub fn build_headers(key: &str, configured: &StringMap<String>) -> (r: Result<
    hyper::HeaderMap<hyper::header::HeaderValue>,
    String,
>)
    requires
        configured.keys_in_order().len() <= 6_551,
    ensures
        match r {
            Ok(headers) => {
                &&& headers_fault(key@, configured.keys_in_order(), configured@) is None
                &&& header_entries(headers) == headers_set(
                    configured.keys_in_order(),
                    configured@,
                )
            },
            Err(e) => headers_fault(key@, configured.keys_in_order(), configured@) == Some(e@),
        },
{
    let ghost names = configured.keys_in_order();
    let mut headers = new_headers();
    proof {
        assert(header_entries(headers) =~= Map::<Seq<char>, Seq<u8>>::empty());
        reveal_strlit("content-type");
        reveal_strlit("application/json");
        reveal_strlit("user-agent");
        reveal_strlit("acme-proxy");
        literals_fit();
        assert(Map::<Seq<char>, Seq<u8>>::empty().dom().len() == 0);
        few_headers(Seq::empty(), configured@);
        let one = Map::<Seq<char>, Seq<u8>>::empty().insert(
            "content-type"@,
            encode_utf8("application/json"@),
        );
        assert(one.dom() =~= Set::<Seq<char>>::empty().insert("content-type"@));
    }
    insert_header(&mut headers, "content-type", "application/json");
    insert_header(&mut headers, "user-agent", "acme-proxy");
    let n: usize = configured.len();
    let mut i: usize = 0;
    assert(names.take(0) == Seq::<Seq<char>>::empty());
    while i < n
        invariant
            i <= n,
            n <= 6_551,
            n == names.len(),
            names == configured.keys_in_order(),
            headers_fault(key@, names.take(i as int), configured@) is None,
            header_entries(headers) == headers_set(names.take(i as int), configured@),
        decreases n - i,
    {
        let (name, value) = configured.entry(i);
        assert(names.take(i as int + 1).drop_last() == names.take(i as int));
        assert(names.take(i as int + 1).last() == name@);
        proof {
            first_of_next(names, named_header_fault(key@, configured@), i as int);
        }
        match parse_header_name(name.as_str()) {
            Err(error) => {
                return Err(
                    cat5(
                        key,
                        ".headers: `",
                        name.as_str(),
                        "` is not a header name: ",
                        error.as_str(),
                    ),
                );
            },
            Ok(lower) => {
                if !is_header_value(value.as_str()) {
                    return Err(
                        cat4(
                            key,
                            ".headers.",
                            lower.as_str(),
                            ": the value is not a valid header value",
                        ),
                    );
                }
                proof {
                    few_headers(names.take(i as int), configured@);
                }
                insert_header(&mut headers, name.as_str(), value.as_str());
            },
        }
        i += 1;
    }
    assert(names.take(i as int) == names);
    Ok(headers)
}

/// The names and values of the default headers may stand in a header, and the
/// names have no capitals.
proof fn literals_fit()
    ensures
        header_name(encode_utf8("content-type"@)),
        header_name(encode_utf8("user-agent"@)),
        header_value(encode_utf8("application/json"@)),
        header_value(encode_utf8("acme-proxy"@)),
        lowered("content-type"@) == "content-type"@,
        lowered("user-agent"@) == "user-agent"@,
{
    reveal_strlit("content-type");
    reveal_strlit("application/json");
    reveal_strlit("user-agent");
    reveal_strlit("acme-proxy");
    assert forall|s: &str| #[trigger] is_ascii(s) implies s.spec_bytes() == Seq::new(
        s@.len(),
        |i: int| s@[i] as u8,
    ) by {
        is_ascii_spec_bytes(s);
    }
    assert(is_ascii("content-type") && is_ascii("application/json") && is_ascii("user-agent")
        && is_ascii("acme-proxy"));
    let (a, b, c, d) = (
        "content-type".spec_bytes(),
        "application/json".spec_bytes(),
        "user-agent".spec_bytes(),
        "acme-proxy".spec_bytes(),
    );
    assert(forall|i: int| 0 <= i < a.len() ==> crate::headers::name_byte(#[trigger] a[i]));
    assert(forall|i: int| 0 <= i < c.len() ==> crate::headers::name_byte(#[trigger] c[i]));
    assert(forall|i: int| 0 <= i < b.len() ==> crate::headers::value_byte(#[trigger] b[i]));
    assert(forall|i: int| 0 <= i < d.len() ==> crate::headers::value_byte(#[trigger] d[i]));
    assert(lowered("content-type"@) =~= "content-type"@);
    assert(lowered("user-agent"@) =~= "user-agent"@);
}

/// Delivers an event with one request. The path of the URL and the headers hold
/// credentials, so it is never printed whole.
pub struct WebhookNotifier {
    /// The entry this was built from.
    pub entry: String,
    pub url: WebUrl,
    pub method: String,
    pub headers: hyper::HeaderMap<hyper::header::HeaderValue>,
    /// The name under which the entry's own body template is kept.
    pub body_template: String,
    /// The entry's own body template.
    pub body: String,
    pub timeout: Duration,
}

/// The name under which an entry's body template is kept.
pub open spec fn body_template_name(entry: Seq<char>) -> Seq<char> {
    "webhook:"@ + entry + ".body"@
}

/// Why an entry gives no notifier: the first of its faults.
pub open spec fn webhook_fault(entry: Seq<char>, cfg: WebhookNotifyConfig) -> Option<Seq<char>> {
    fault_given(
        entry,
        cfg,
        url_parsed(cfg.url@),
        template_error(body_template_name(entry), cfg.body@),
    )
}

/// Why an entry gives no notifier, given what its URL and its body are read as.
pub open spec fn fault_given(
    entry: Seq<char>,
    cfg: WebhookNotifyConfig,
    url: Result<UrlModel, Seq<char>>,
    body_error: Option<Seq<char>>,
) -> Option<Seq<char>> {
    let key = "notify.webhook."@ + entry;
    if trimmed(cfg.url@).len() == 0 {
        Some(key + " is enabled but "@ + key + ".url is empty"@)
    } else {
        match url {
            Err(error) => Some(key + ".url is not a valid URL: "@ + error),
            Ok(url) => if url.scheme != "http"@ && url.scheme != "https"@ {
                Some(key + ".url must be http:// or https://"@)
            } else if !allowed_method(uppered(trimmed(cfg.method@))) {
                Some(
                    key + ".method: unknown method `"@ + cfg.method@
                        + "` (expected one of [\"POST\", \"PUT\", \"PATCH\"])"@,
                )
            } else {
                match headers_fault(key, cfg.headers.keys_in_order(), cfg.headers@) {
                    Some(fault) => Some(fault),
                    None => if trimmed(cfg.body@).len() == 0 {
                        Some(
                            key + ".body is empty; a webhook with no payload delivers nothing"@,
                        )
                    } else {
                        match body_error {
                            Some(error) => Some(
                                key + ".body is not a valid template: "@ + error,
                            ),
                            None => None,
                        }
                    },
                }
            },
        }
    }
}

/// Whether a notifier is the one an entry asks for.
pub open spec fn webhook_built(
    notifier: WebhookNotifier,
    entry: Seq<char>,
    cfg: WebhookNotifyConfig,
) -> bool {
    built_given(notifier, entry, cfg, url_parsed(cfg.url@))
}

/// Whether a notifier is the one an entry asks for, given what its URL is read
/// as.
pub open spec fn built_given(
    notifier: WebhookNotifier,
    entry: Seq<char>,
    cfg: WebhookNotifyConfig,
    url: Result<UrlModel, Seq<char>>,
) -> bool {
    &&& notifier.entry@ == entry
    &&& url == Ok::<UrlModel, Seq<char>>(notifier.url@)
    &&& notifier.method@ == uppered(trimmed(cfg.method@))
    &&& header_entries(notifier.headers) == headers_set(cfg.headers.keys_in_order(), cfg.headers@)
    &&& notifier.body_template@ == body_template_name(entry)
    &&& notifier.body@ == cfg.body@
    &&& notifier.timeout@ == cfg.timeout_ms * 1_000_000
}

/// What a URL was read as, in terms of sequences.
pub open spec fn parsed_model(url: Result<WebUrl, String>) -> Result<UrlModel, Seq<char>> {
    match url {
        Ok(url) => Ok(url@),
        Err(e) => Err(e@),
    }
}

/// Whether a non-2xx answer is worth asking again about: a server error, a
/// request for patience, or a timeout.
pub open spec fn transient(status: u16) -> bool {
    500 <= status < 600 || status == 429 || status == 408
}

/// Whether a non-2xx answer is worth asking again about. Every other status is
/// the provider stating a reason.
pub fn retryable_status(status: u16) -> (r: bool)
    ensures
        r == transient(status),
{
    (500 <= status && status < 600) || status == 429 || status == 408
}

/// The excerpt of a text that an error quotes: its first characters, without
/// white space around them.
pub open spec fn excerpt_of(text: Seq<char>) -> Seq<char> {
    trimmed(
        if text.len() > 200 {
            text.take(200)
        } else {
            text
        },
    )
}

/// The excerpt of a text that an error quotes.
pub fn excerpt_text(text: &str) -> (r: String)
    ensures
        r@ == excerpt_of(text@),
{
    let cs = chars_of(text);
    if cs.len() > MAX_ERROR_BODY_CHARS {
        let head = string_of(&cs, 0, MAX_ERROR_BODY_CHARS);
        assert(cs@.subrange(0, 200) == cs@.take(200));
        trim(head.as_str())
    } else {
        trim(text)
    }
}

/// The excerpt of a body that an error quotes.
pub fn excerpt(body: &[u8]) -> (r: String)
    ensures
        r@ == excerpt_of(lossy_text(body@)),
{
    excerpt_text(utf8_lossy(body).as_str())
}

/// How the request of a delivery ended.
#[derive(Debug)]
pub enum SendEnd {
    TimedOut,
    /// The request could not be made of this configuration, and never will be.
    Unusable(String),
    /// The endpoint was not reached, or the exchange broke off.
    Unreachable(String),
    Answered { status: u16, body: Vec<u8> },
}

/// What a failed delivery amounts to, given how its timeout, its status and its
/// answer read.
pub open spec fn failure_worded(
    end: SendEnd,
    span: Seq<char>,
    line: Seq<char>,
    quoted: Seq<char>,
) -> Option<NotifyErrorModel> {
    match end {
        SendEnd::TimedOut => Some(
            NotifyErrorModel { detail: "timed out after "@ + span, retryable: true },
        ),
        SendEnd::Unusable(error) => Some(NotifyErrorModel { detail: error@, retryable: false }),
        SendEnd::Unreachable(error) => Some(NotifyErrorModel { detail: error@, retryable: true }),
        SendEnd::Answered { status, .. } => if crate::web::is_success(status) {
            None
        } else {
            Some(
                NotifyErrorModel {
                    detail: if quoted.len() > 0 {
                        "webhook returned "@ + line + ": "@ + quoted
                    } else {
                        "webhook returned "@ + line
                    },
                    retryable: transient(status),
                },
            )
        },
    }
}

/// What a failed delivery amounts to. `quotes` says whether an error quotes the
/// answer.
pub open spec fn send_failure(timeout: nat, end: SendEnd, quotes: bool) -> Option<
    NotifyErrorModel,
> {
    failure_worded(
        end,
        span_of(timeout),
        status_line(end->status),
        if quotes {
            excerpt_of(lossy_text(end->body@))
        } else {
            Seq::empty()
        },
    )
}

/// What the end of a request comes to, given how its timeout, its status and its
/// answer read.
pub fn delivery_worded(end: &SendEnd, span: &str, line: &str, quoted: &str) -> (r: Result<
    (),
    NotifyError,
>)
    ensures
        match failure_worded(*end, span@, line@, quoted@) {
            None => r is Ok,
            Some(failure) => r matches Err(e) && e@ == failure,
        },
{
    match end {
        SendEnd::TimedOut => Err(NotifyError::new(cat2("timed out after ", span).as_str())),
        SendEnd::Unusable(error) => Err(NotifyError::permanent(error.as_str())),
        SendEnd::Unreachable(error) => Err(NotifyError::new(error.as_str())),
        SendEnd::Answered { status, .. } => {
            if 200 <= *status && *status < 300 {
                return Ok(());
            }
            let detail = if quoted.is_empty() {
                cat2("webhook returned ", line)
            } else {
                cat4("webhook returned ", line, ": ", quoted)
            };
            if retryable_status(*status) {
                Err(NotifyError::new(detail.as_str()))
            } else {
                Err(NotifyError::permanent(detail.as_str()))
            }
        },
    }
}

/// What the end of a request comes to. `quotes` says whether an error quotes the
/// answer.
pub fn delivery(timeout: Duration, end: &SendEnd, quotes: bool) -> (r: Result<(), NotifyError>)
    requires
        *end matches SendEnd::Answered { status, .. } ==> 100 <= status <= 999,
    ensures
        match send_failure(timeout@, *end, quotes) {
            None => r is Ok,
            Some(failure) => r matches Err(e) && e@ == failure,
        },
{
    match end {
        SendEnd::TimedOut => {
            let span = span(timeout);
            delivery_worded(end, span.as_str(), "", "")
        },
        SendEnd::Answered { status, body } => {
            let line = status_text(*status);
            let quoted = if quotes {
                excerpt(body.as_slice())
            } else {
                String::new()
            };
            delivery_worded(end, "", line.as_str(), quoted.as_str())
        },
        _ => delivery_worded(end, "", "", ""),
    }
}

impl WebhookNotifier {
    /// Builds one entry's notifier, refusing everything unusable here: a bad
    /// URL, an unknown verb, a header that cannot be sent and a body template
    /// that does not compile are all configuration.
    pub fn from_config(entry: &str, cfg: &WebhookNotifyConfig) -> (r: Result<
        WebhookNotifier,
        String,
    >)
        requires
            cfg.headers.keys_in_order().len() <= 6_551,
        ensures
            match r {
                Ok(notifier) => webhook_fault(entry@, *cfg) is None && webhook_built(
                    notifier,
                    entry@,
                    *cfg,
                ),
                Err(e) => webhook_fault(entry@, *cfg) == Some(e@),
            },
    {
        let url = parse_url(cfg.url.as_str());
        let body_template = cat3("webhook:", entry, ".body");
        let body_error = template_fault(body_template.as_str(), cfg.body.as_str());
        WebhookNotifier::from_parsed(entry, cfg, url, body_error)
    }

    /// Builds one entry's notifier, from what its URL is read as and from why
    /// its body does not compile, if it does not.
    pub fn from_parsed(
        entry: &str,
        cfg: &WebhookNotifyConfig,
        url: Result<WebUrl, String>,
        body_error: Option<String>,
    ) -> (r: Result<WebhookNotifier, String>)
        requires
            cfg.headers.keys_in_order().len() <= 6_551,
        ensures
            match r {
                Ok(notifier) => fault_given(
                    entry@,
                    *cfg,
                    parsed_model(url),
                    super::event::optional_text(body_error),
                ) is None && built_given(notifier, entry@, *cfg, parsed_model(url)),
                Err(e) => fault_given(
                    entry@,
                    *cfg,
                    parsed_model(url),
                    super::event::optional_text(body_error),
                ) == Some(e@),
            },
    {
        let prefix = cat2("notify.webhook.", entry);
        let key = prefix.as_str();
        if trim(cfg.url.as_str()).as_str().is_empty() {
            return Err(cat4(key, " is enabled but ", key, ".url is empty"));
        }
        let url = match url {
            Ok(url) => url,
            Err(error) => {
                return Err(cat3(key, ".url is not a valid URL: ", error.as_str()));
            },
        };
        if !same(url.scheme.as_str(), "http") && !same(url.scheme.as_str(), "https") {
            return Err(cat2(key, ".url must be http:// or https://"));
        }
        let method = uppercase(trim(cfg.method.as_str()).as_str());
        if !same(method.as_str(), "POST") && !same(method.as_str(), "PUT") && !same(
            method.as_str(),
            "PATCH",
        ) {
            return Err(
                cat4(
                    key,
                    ".method: unknown method `",
                    cfg.method.as_str(),
                    "` (expected one of [\"POST\", \"PUT\", \"PATCH\"])",
                ),
            );
        }
        let headers = match build_headers(key, &cfg.headers) {
            Ok(headers) => headers,
            Err(e) => {
                return Err(e);
            },
        };
        if trim(cfg.body.as_str()).as_str().is_empty() {
            return Err(
                cat2(key, ".body is empty; a webhook with no payload delivers nothing"),
            );
        }
        match body_error {
            Some(error) => Err(cat3(key, ".body is not a valid template: ", error.as_str())),
            None => Ok(
                WebhookNotifier {
                    entry: entry.to_owned(),
                    url,
                    method,
                    headers,
                    body_template: cat3("webhook:", entry, ".body"),
                    body: cfg.body.clone(),
                    timeout: Duration::from_millis(cfg.timeout_ms),
                },
            ),
        }
    }

    /// The template of an event's message, which every entry's body is rendered
    /// with.
    pub fn template(event: &NotifyEvent) -> (r: String)
        ensures
            r@ == "webhook/"@ + event@.kind + ".j2"@,
    {
        cat3("webhook/", event.kind(), ".j2")
    }

    /// Renders this entry's body for an event. `env` holds the entry's own
    /// template beside the shared ones.
    pub fn body_for(&self, env: &minijinja::Environment<'static>, event: &NotifyEvent) -> (r:
        Result<String, NotifyError>)
        ensures
            exists|
                outcome: Result<
                    Result<String, super::template::TemplateFailure>,
                    super::template::TemplateFailure,
                >,
            |
                super::template::text_model(r) == #[trigger] super::template::body_outcome(
                    self.entry@,
                    event@.kind,
                    outcome,
                ),
            exists|message: Result<String, super::template::TemplateFailure>| #[trigger]
                super::template::renders(*env, "webhook/"@ + event@.kind + ".j2"@, event@.fields, message) && match message {
                    Err(failure) => r matches Err(e) && e@ == super::template::template_refusal(
                        "webhook/"@ + event@.kind + ".j2"@,
                        failure,
                    ),
                    Ok(said) => exists|
                    context: Seq<(Seq<char>, super::event::FieldModel)>,
                    outcome: Result<String, super::template::TemplateFailure>,
                |
                    context == seq![
                        ("message"@, super::event::FieldModel::Text(said@)),
                        ("hook"@, super::event::FieldModel::Text(event@.kind)),
                    ] + event@.fields && #[trigger] super::template::renders(
                        *env,
                        self.body_template@,
                        context,
                        outcome,
                    ) && match outcome {
                            Err(failure) => r matches Err(e) && e@ == super::template::body_refusal(self.entry@, failure),
                            Ok(text) => r matches Ok(body) && body@ == text@,
                        },
                },
            r matches Err(e) ==> !e@.retryable,
    {
        super::template::render_body(
            env,
            self.entry.as_str(),
            self.body_template.as_str(),
            event,
        )
    }

    /// What the end of the request comes to.
    pub fn send(&self, end: &SendEnd) -> (r: Result<(), NotifyError>)
        requires
            *end matches SendEnd::Answered { status, .. } ==> 100 <= status <= 999,
        ensures
            match send_failure(self.timeout@, *end, true) {
                None => r is Ok,
                Some(failure) => r matches Err(e) && e@ == failure,
            },
    {
        delivery(self.timeout, end, true)
    }

    /// What may be shown of a notifier: the host, the method and the names of
    /// the headers, but neither the URL's path nor any header's value. The names
    /// are in ascending order.
    pub fn describe(&self) -> (r: String)
        ensures
            exists|names: Seq<Seq<char>>|
                crate::sorted::ascending(names) && names.to_set() == header_entries(
                    self.headers,
                ).dom() && r@ == "WebhookNotifier { entry: "@ + quoted_words(self.entry@)
                    + ", webhook_host: "@ + maybe_of(self.url@.host) + ", method: "@ + quoted_words(
                    self.method@,
                ) + ", headers: "@ + #[trigger] list_of(names) + (", timeout: "@ + span_of(
                    self.timeout@,
                ) + " }"@),
    {
        let names = StringSet::from_list(&header_names(&self.headers)).to_vec();
        let listed = list(&names);
        assert(listed@ == list_of(texts(names@)));
        let rest = cat3(", timeout: ", span(self.timeout).as_str(), " }");
        crate::text::cat9(
            "WebhookNotifier { entry: ",
            quoted(self.entry.as_str()).as_str(),
            ", webhook_host: ",
            maybe(&self.url.host).as_str(),
            ", method: ",
            quoted(self.method.as_str()).as_str(),
            ", headers: ",
            listed.as_str(),
            rest.as_str(),
        )
    }
}

impl NotifyBackend for WebhookNotifier {
    open spec fn channel(&self) -> Seq<char> {
        "webhook"@
    }

    fn name(&self) -> (r: &'static str) {
        "webhook"
    }
}

/// Only a failure that another attempt could cure is worth one: a timeout, a
/// connection, a server error, 429 and 408. A request that cannot be made and
/// every other refusal are final.
pub proof fn only_a_transient_failure_is_retried(timeout: nat, end: SendEnd, quotes: bool)
    ensures
        send_failure(timeout, end, quotes) matches Some(failure) ==> (failure.retryable <==> match end {
            SendEnd::TimedOut => true,
            SendEnd::Unusable(_) => false,
            SendEnd::Unreachable(_) => true,
            SendEnd::Answered { status, .. } => transient(status),
        }),
{
}

/// A header that an entry configures is sent with the configured value, even
/// over a default; of several spellings of one name the last in order counts.
pub proof fn a_configured_header_overrides(
    names: Seq<Seq<char>>,
    configured: Map<Seq<char>, String>,
    i: int,
)
    requires
        0 <= i < names.len(),
        forall|j: int|
            i < j < names.len() ==> lowered(#[trigger] names[j]) != lowered(names[i]),
    ensures
        headers_set(names, configured).dom().contains(lowered(names[i])),
        headers_set(names, configured)[lowered(names[i])] == encode_utf8(configured[names[i]]@),
    decreases names.len(),
{
    if i < names.len() - 1 {
        let front = names.drop_last();
        assert(lowered(names[names.len() - 1]) != lowered(names[i]));
        assert forall|j: int| i < j < front.len() implies lowered(#[trigger] front[j]) != lowered(
            front[i],
        ) by {
            assert(front[j] == names[j]);
        }
        a_configured_header_overrides(front, configured, i);
    }
}

/// An answer is a delivery if and only if its status is from 200 to 299. Of any
/// other, the error may pass if and only if the status is from 500 to 599, 429 or
/// 408.
pub proof fn an_answer_is_retried_by_its_status(
    timeout: nat,
    status: u16,
    body: Vec<u8>,
    quotes: bool,
)
    ensures
        send_failure(timeout, SendEnd::Answered { status, body }, quotes) is None <==> 200 <= status
            <= 299,
        !(200 <= status <= 299) ==> (send_failure(
            timeout,
            SendEnd::Answered { status, body },
            quotes,
        )->Some_0.retryable <==> 500 <= status <= 599 || status == 429 || status == 408),
{
}

/// Without an answer a delivery always fails: it may be retried where the endpoint
/// was not reached or was too slow, and may not where the request itself cannot be
/// made.
pub proof fn without_an_answer_a_delivery_fails(timeout: nat, error: String, quotes: bool)
    ensures
        send_failure(timeout, SendEnd::TimedOut, quotes) == Some(
            NotifyErrorModel { detail: "timed out after "@ + span_of(timeout), retryable: true },
        ),
        send_failure(timeout, SendEnd::Unreachable(error), quotes) == Some(
            NotifyErrorModel { detail: error@, retryable: true },
        ),
        send_failure(timeout, SendEnd::Unusable(error), quotes) == Some(
            NotifyErrorModel { detail: error@, retryable: false },
        ),
{
}

/// A refusal names the status in full, and quotes what there is to quote.
pub proof fn a_refusal_names_the_status(
    status: u16,
    body: Vec<u8>,
    span: Seq<char>,
    line: Seq<char>,
    quoted: Seq<char>,
)
    requires
        !(200 <= status <= 299),
    ensures
        ({
            let failure = failure_worded(SendEnd::Answered { status, body }, span, line, quoted);
            &&& failure is Some
            &&& quoted.len() == 0 ==> failure->Some_0.detail == "webhook returned "@ + line
            &&& quoted.len() > 0 ==> failure->Some_0.detail == "webhook returned "@ + line + ": "@
                + quoted
            &&& failure->Some_0.retryable <==> 500 <= status <= 599 || status == 429 || status
                == 408
        }),
{
}

/// What is quoted of an answer are its first 200 characters, without white space
/// around them; nothing is quoted where nothing is to be.
pub proof fn a_quotation_is_the_beginning_of_the_answer(text: Seq<char>)
    ensures
        excerpt_of(text).len() <= 200,
        text.len() <= 200 ==> excerpt_of(text) == trimmed(text),
        text.len() > 200 ==> excerpt_of(text) == trimmed(text.take(200)),
{
    crate::text::trimmed_piece(if text.len() > 200 { text.take(200) } else { text });
}

/// What an answer quotes comes of its own body, and only where quoting is asked
/// for.
pub proof fn quoting_is_of_the_answer_itself(timeout: nat, status: u16, body: Vec<u8>)
    requires
        !(200 <= status <= 299),
    ensures
        send_failure(timeout, SendEnd::Answered { status, body }, false)->Some_0.detail
            == "webhook returned "@ + status_line(status),
        excerpt_of(lossy_text(body@)).len() > 0 ==> send_failure(
            timeout,
            SendEnd::Answered { status, body },
            true,
        )->Some_0.detail == "webhook returned "@ + status_line(status) + ": "@ + excerpt_of(
            lossy_text(body@),
        ),
        excerpt_of(lossy_text(body@)).len() == 0 ==> send_failure(
            timeout,
            SendEnd::Answered { status, body },
            true,
        )->Some_0.detail == "webhook returned "@ + status_line(status),
{
}

/// A webhook is called with a method that writes, and with no other.
pub proof fn only_methods_that_write(method: Seq<char>)
    ensures
        allowed_method("POST"@) && allowed_method("PUT"@) && allowed_method("PATCH"@),
        allowed_method(method) ==> method == "POST"@ || method == "PUT"@ || method == "PATCH"@,
{
}

/// A configured header is refused exactly when its name or its value cannot stand
/// in a request; the name is looked at first, and the value is never quoted.
pub proof fn a_header_is_refused_by_name_or_value(
    key: Seq<char>,
    name: Seq<char>,
    value: Seq<char>,
)
    ensures
        header_fault(key, name, value) is None <==> header_name(encode_utf8(name)) && header_value(
            encode_utf8(value),
        ),
        !header_name(encode_utf8(name)) ==> header_fault(key, name, value) == Some(
            key + ".headers: `"@ + name + "` is not a header name: "@
                + "invalid HTTP header name"@,
        ),
        header_name(encode_utf8(name)) && !header_value(encode_utf8(value)) ==> header_fault(
            key,
            name,
            value,
        ) == Some(key + ".headers."@ + lowered(name) + ": the value is not a valid header value"@),
{
}

/// Headers are refused exactly when one of them is, and then with the complaint
/// about the first of those.
pub proof fn the_first_bad_header_decides(
    key: Seq<char>,
    names: Seq<Seq<char>>,
    configured: Map<Seq<char>, String>,
)
    ensures
        headers_fault(key, names, configured) is None <==> forall|i: int|
            0 <= i < names.len() ==> header_fault(
                key,
                #[trigger] names[i],
                configured[names[i]]@,
            ) is None,
        forall|i: int|
            0 <= i < names.len() && header_fault(key, #[trigger] names[i], configured[names[i]]@)
                is Some && (forall|j: int|
                0 <= j < i ==> header_fault(key, #[trigger] names[j], configured[names[j]]@)
                    is None) ==> headers_fault(key, names, configured) == header_fault(
                key,
                names[i],
                configured[names[i]]@,
            ),
{
    let fault = named_header_fault(key, configured);
    assert forall|name: Seq<char>| fault(name) == #[trigger] header_fault(
        key,
        name,
        configured[name]@,
    ) by {}
    crate::faults::first_of_none(names, fault);
    assert forall|i: int|
        0 <= i < names.len() && header_fault(key, #[trigger] names[i], configured[names[i]]@)
            is Some && (forall|j: int|
            0 <= j < i ==> header_fault(key, #[trigger] names[j], configured[names[j]]@)
                is None) implies headers_fault(key, names, configured) == header_fault(
        key,
        names[i],
        configured[names[i]]@,
    ) by {
        crate::faults::the_first_fault_decides(names, fault, i);
    }
}

/// A request carries the two default headers unless they are configured, each
/// configured header under its name in small letters, and nothing else.
pub proof fn headers_are_the_defaults_and_the_configured(
    names: Seq<Seq<char>>,
    configured: Map<Seq<char>, String>,
    name: Seq<char>,
)
    ensures
        headers_set(names, configured).dom().contains(name) <==> name == "content-type"@ || name
            == "user-agent"@ || exists|i: int|
            0 <= i < names.len() && lowered(#[trigger] names[i]) == name,
        (forall|i: int| 0 <= i < names.len() ==> lowered(#[trigger] names[i]) != "content-type"@)
            ==> headers_set(names, configured)["content-type"@] == encode_utf8(
            "application/json"@,
        ),
        (forall|i: int| 0 <= i < names.len() ==> lowered(#[trigger] names[i]) != "user-agent"@)
            ==> headers_set(names, configured)["user-agent"@] == encode_utf8("acme-proxy"@),
    decreases names.len(),
{
    reveal_strlit("content-type");
    reveal_strlit("user-agent");
    assert("content-type"@.len() == 12 && "user-agent"@.len() == 10);
    if names.len() > 0 {
        let front = names.drop_last();
        headers_are_the_defaults_and_the_configured(front, configured, name);
        assert(names[names.len() - 1] == names.last());
        assert forall|i: int| 0 <= i < front.len() implies front[i] == names[i] by {}
        if exists|i: int| 0 <= i < names.len() && lowered(#[trigger] names[i]) == name {
            let i = choose|i: int| 0 <= i < names.len() && lowered(#[trigger] names[i]) == name;
            if i < front.len() {
                assert(lowered(front[i]) == name);
            }
        }
        if exists|i: int| 0 <= i < front.len() && lowered(#[trigger] front[i]) == name {
            let i = choose|i: int| 0 <= i < front.len() && lowered(#[trigger] front[i]) == name;
            assert(lowered(names[i]) == name);
        }
        if forall|i: int| 0 <= i < names.len() ==> lowered(#[trigger] names[i]) != "content-type"@ {
            assert forall|i: int| 0 <= i < front.len() implies lowered(#[trigger] front[i])
                != "content-type"@ by {
                assert(lowered(names[i]) != "content-type"@);
            }
            assert(lowered(names[names.len() - 1]) != "content-type"@);
        }
        if forall|i: int| 0 <= i < names.len() ==> lowered(#[trigger] names[i]) != "user-agent"@ {
            assert forall|i: int| 0 <= i < front.len() implies lowered(#[trigger] front[i])
                != "user-agent"@ by {
                assert(lowered(names[i]) != "user-agent"@);
            }
            assert(lowered(names[names.len() - 1]) != "user-agent"@);
        }
    }
}

/// An entry gives a notifier exactly when it has a usable URL, a method that
/// writes, headers that can be sent and a body that compiles.
pub proof fn a_usable_entry_is_accepted(
    entry: Seq<char>,
    cfg: WebhookNotifyConfig,
    url: Result<UrlModel, Seq<char>>,
    body_error: Option<Seq<char>>,
)
    ensures
        fault_given(entry, cfg, url, body_error) is None <==> {
            &&& trimmed(cfg.url@).len() > 0
            &&& url is Ok
            &&& url->Ok_0.scheme == "http"@ || url->Ok_0.scheme == "https"@
            &&& uppered(trimmed(cfg.method@)) == "POST"@ || uppered(trimmed(cfg.method@))
                == "PUT"@ || uppered(trimmed(cfg.method@)) == "PATCH"@
            &&& headers_fault(
                "notify.webhook."@ + entry,
                cfg.headers.keys_in_order(),
                cfg.headers@,
            ) is None
            &&& trimmed(cfg.body@).len() > 0
            &&& body_error is None
        },
{
}

/// What an unusable entry is told, the first of its faults first.
pub proof fn an_unusable_entry_is_told_why(
    entry: Seq<char>,
    cfg: WebhookNotifyConfig,
    url: Result<UrlModel, Seq<char>>,
    body_error: Option<Seq<char>>,
)
    ensures
        ({
            let key = "notify.webhook."@ + entry;
            let told = fault_given(entry, cfg, url, body_error);
            let reached = trimmed(cfg.url@).len() > 0;
            let linked = reached && url is Ok && (url->Ok_0.scheme == "http"@ || url->Ok_0.scheme
                == "https"@);
            let method = uppered(trimmed(cfg.method@));
            let writes = linked && (method == "POST"@ || method == "PUT"@ || method == "PATCH"@);
            let headed = headers_fault(key, cfg.headers.keys_in_order(), cfg.headers@);
            &&& !reached ==> told == Some(key + " is enabled but "@ + key + ".url is empty"@)
            &&& reached && url is Err ==> told == Some(
                key + ".url is not a valid URL: "@ + url->Err_0,
            )
            &&& reached && url is Ok && !linked ==> told == Some(
                key + ".url must be http:// or https://"@,
            )
            &&& linked && !writes ==> told == Some(
                key + ".method: unknown method `"@ + cfg.method@
                    + "` (expected one of [\"POST\", \"PUT\", \"PATCH\"])"@,
            )
            &&& writes && headed is Some ==> told == headed
            &&& writes && headed is None && trimmed(cfg.body@).len() == 0 ==> told == Some(
                key + ".body is empty; a webhook with no payload delivers nothing"@,
            )
            &&& writes && headed is None && trimmed(cfg.body@).len() > 0 && body_error is Some
                ==> told == Some(key + ".body is not a valid template: "@ + body_error->Some_0)
        }),
{
}

/// A notifier is made of its entry: the URL as it was read, the method in capitals,
/// the headers, the body unchanged under a name of the entry's own, and the
/// timeout.
pub proof fn a_notifier_is_made_of_its_entry(
    notifier: WebhookNotifier,
    entry: Seq<char>,
    cfg: WebhookNotifyConfig,
    url: Result<UrlModel, Seq<char>>,
)
    requires
        built_given(notifier, entry, cfg, url),
    ensures
        notifier.entry@ == entry,
        url is Ok,
        notifier.url@ == url->Ok_0,
        notifier.method@ == uppered(trimmed(cfg.method@)),
        header_entries(notifier.headers) == headers_set(cfg.headers.keys_in_order(), cfg.headers@),
        notifier.body_template@ == "webhook:"@ + entry + ".body"@,
        notifier.body@ == cfg.body@,
        notifier.timeout@ == cfg.timeout_ms * 1_000_000,
{
}

/// What an entry comes to is decided by its URL and its body as the outside reads
/// them, the body under the entry's own template name.
pub proof fn an_entry_is_read_from_its_own_settings(
    entry: Seq<char>,
    cfg: WebhookNotifyConfig,
    notifier: WebhookNotifier,
)
    ensures
        webhook_fault(entry, cfg) == fault_given(
            entry,
            cfg,
            url_parsed(cfg.url@),
            template_error("webhook:"@ + entry + ".body"@, cfg.body@),
        ),
        webhook_built(notifier, entry, cfg) <==> built_given(
            notifier,
            entry,
            cfg,
            url_parsed(cfg.url@),
        ),
{
}

/// A URL that was read is itself, and one that was not is why.
pub proof fn a_url_is_read_as_it_is(url: WebUrl, error: String)
    ensures
        parsed_model(Ok(url)) == Ok::<UrlModel, Seq<char>>(
            UrlModel {
                text: url.text@,
                scheme: url.scheme@,
                host: match url.host {
                    Some(host) => Some(host@),
                    None => None,
                },
            },
        ),
        parsed_model(Err(error)) == Err::<UrlModel, Seq<char>>(error@),
{
}

} // verus!
