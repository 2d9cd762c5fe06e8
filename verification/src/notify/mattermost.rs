//! The `mattermost` notify backend: an incoming webhook that takes a text, a
//! channel and a user name.

use super::event::NotifyEvent;
use super::webhook::{delivery, parsed_model, send_failure, SendEnd};
use super::{NotifyBackend, NotifyError};
use crate::debug::{maybe, maybe_of, quoted, quoted_words, span, span_of};
use crate::web::{parse_url, url_parsed, UrlModel, WebUrl};
use crate::json::Json;
use crate::text::{cat2, cat3, same, trim, trimmed};
use crate::time::Duration;
use vstd::prelude::*;
use vstd::string::*;

verus! {

/// The `[notify.mattermost]` section.
#[derive(Debug, Clone, PartialEq, Eq)]
pub struct MattermostNotifyConfig {
    pub webhook_url: String,
    pub channel: String,
    pub username: String,
    pub timeout_ms: u64,
}

/// Delivers an event to a Mattermost webhook. The path of the URL is a shared
/// secret, so it is never printed whole.
#[derive(Clone, PartialEq, Eq)]
pub struct MattermostNotifier {
    pub webhook_url: WebUrl,
    pub channel: String,
    pub username: String,
    pub timeout: Duration,
}

/// Why a section gives no notifier: the first of its faults.
pub open spec fn mattermost_fault(cfg: MattermostNotifyConfig) -> Option<Seq<char>> {
    fault_given(cfg, url_parsed(cfg.webhook_url@))
}

/// Why a section gives no notifier, given what its URL is read as.
pub open spec fn fault_given(
    cfg: MattermostNotifyConfig,
    url: Result<UrlModel, Seq<char>>,
) -> Option<Seq<char>> {
    if trimmed(cfg.webhook_url@).len() == 0 {
        Some("notify.mattermost is enabled but notify.mattermost.webhook_url is empty"@)
    } else {
        match url {
            Err(error) => Some("notify.mattermost.webhook_url is not a valid URL: "@ + error),
            Ok(url) => if url.scheme != "http"@ && url.scheme != "https"@ {
                Some("notify.mattermost.webhook_url must be http:// or https://"@)
            } else {
                None
            },
        }
    }
}

/// Whether a JSON value is the payload of a message: the text, and the channel
/// and the user name as far as they are configured.
pub open spec fn posts(
    payload: Json,
    text: Seq<char>,
    channel: Seq<char>,
    username: Seq<char>,
) -> bool {
    payload matches Json::Object(members) && {
        let c: int = if channel.len() > 0 {
            1
        } else {
            0
        };
        let u: int = if username.len() > 0 {
            1
        } else {
            0
        };
        &&& members@.len() == 1 + c + u
        &&& members@[0].0@ == "text"@ && members@[0].1.text() == Some(text)
        &&& c == 1 ==> members@[1].0@ == "channel"@ && members@[1].1.text() == Some(channel)
        &&& u == 1 ==> members@[1 + c].0@ == "username"@ && members@[1 + c].1.text() == Some(
            username,
        )
    }
}

impl MattermostNotifier {
    pub fn from_config(cfg: &MattermostNotifyConfig) -> (r: Result<MattermostNotifier, String>)
        ensures
            match r {
                Ok(notifier) => {
                    &&& mattermost_fault(*cfg) is None
                    &&& url_parsed(cfg.webhook_url@) == Ok::<UrlModel, Seq<char>>(
                        notifier.webhook_url@,
                    )
                    &&& notifier.channel@ == cfg.channel@
                    &&& notifier.username@ == cfg.username@
                    &&& notifier.timeout@ == cfg.timeout_ms * 1_000_000
                },
                Err(e) => mattermost_fault(*cfg) == Some(e@),
            },
    {
        MattermostNotifier::from_parsed(cfg, parse_url(cfg.webhook_url.as_str()))
    }

    /// Builds a section's notifier, from what its URL is read as.
    pub fn from_parsed(cfg: &MattermostNotifyConfig, url: Result<WebUrl, String>) -> (r: Result<
        MattermostNotifier,
        String,
    >)
        ensures
            match r {
                Ok(notifier) => {
                    &&& fault_given(*cfg, parsed_model(url)) is None
                    &&& parsed_model(url) == Ok::<UrlModel, Seq<char>>(notifier.webhook_url@)
                    &&& notifier.channel@ == cfg.channel@
                    &&& notifier.username@ == cfg.username@
                    &&& notifier.timeout@ == cfg.timeout_ms * 1_000_000
                },
                Err(e) => fault_given(*cfg, parsed_model(url)) == Some(e@),
            },
    {
        if trim(cfg.webhook_url.as_str()).as_str().is_empty() {
            return Err(
                "notify.mattermost is enabled but notify.mattermost.webhook_url is empty".to_owned(),
            );
        }
        let webhook_url = match url {
            Ok(url) => url,
            Err(error) => {
                return Err(
                    cat2("notify.mattermost.webhook_url is not a valid URL: ", error.as_str()),
                );
            },
        };
        if !same(webhook_url.scheme.as_str(), "http") && !same(
            webhook_url.scheme.as_str(),
            "https",
        ) {
            return Err("notify.mattermost.webhook_url must be http:// or https://".to_owned());
        }
        Ok(
            MattermostNotifier {
                webhook_url,
                channel: cfg.channel.clone(),
                username: cfg.username.clone(),
                timeout: Duration::from_millis(cfg.timeout_ms),
            },
        )
    }

    /// The template of an event's text.
    pub fn template(event: &NotifyEvent) -> (r: String)
        ensures
            r@ == "mattermost/"@ + event@.kind + ".j2"@,
    {
        cat3("mattermost/", event.kind(), ".j2")
    }

    /// The payload that carries a text.
    pub fn payload(&self, text: &str) -> (r: Json)
        ensures
            posts(r, text@, self.channel@, self.username@),
    {
        let mut members: Vec<(String, Json)> = Vec::new();
        members.push(("text".to_owned(), Json::Text(text.to_owned())));
        if !self.channel.as_str().is_empty() {
            members.push(("channel".to_owned(), Json::Text(self.channel.clone())));
        }
        if !self.username.as_str().is_empty() {
            members.push(("username".to_owned(), Json::Text(self.username.clone())));
        }
        Json::Object(members)
    }

    /// What the end of the request comes to. The answer itself is not quoted.
    pub fn send(&self, end: &SendEnd) -> (r: Result<(), NotifyError>)
        requires
            *end matches SendEnd::Answered { status, .. } ==> 100 <= status <= 999,
        ensures
            match send_failure(self.timeout@, *end, false) {
                None => r is Ok,
                Some(failure) => r matches Err(e) && e@ == failure,
            },
    {
        delivery(self.timeout, end, false)
    }

    /// What may be shown of a notifier: never the URL's path.
    pub fn describe(&self) -> (r: String)
        ensures
            r@ == "MattermostNotifier { webhook_host: "@ + maybe_of(self.webhook_url@.host)
                + ", channel: "@ + quoted_words(self.channel@) + ", username: "@ + quoted_words(
                self.username@,
            ) + ", timeout: "@ + span_of(self.timeout@) + " }"@,
    {
        crate::text::cat9(
            "MattermostNotifier { webhook_host: ",
            maybe(&self.webhook_url.host).as_str(),
            ", channel: ",
            quoted(self.channel.as_str()).as_str(),
            ", username: ",
            quoted(self.username.as_str()).as_str(),
            ", timeout: ",
            span(self.timeout).as_str(),
            " }",
        )
    }
}

impl NotifyBackend for MattermostNotifier {
    open spec fn channel(&self) -> Seq<char> {
        "mattermost"@
    }

    fn name(&self) -> (r: &'static str) {
        "mattermost"
    }
}

/// A section gives a notifier exactly when its URL is one that can be called.
pub proof fn a_usable_hook_is_accepted(
    cfg: MattermostNotifyConfig,
    url: Result<UrlModel, Seq<char>>,
)
    ensures
        fault_given(cfg, url) is None <==> trimmed(cfg.webhook_url@).len() > 0 && url is Ok && (
        url->Ok_0.scheme == "http"@ || url->Ok_0.scheme == "https"@),
        trimmed(cfg.webhook_url@).len() == 0 ==> fault_given(cfg, url) == Some(
            "notify.mattermost is enabled but notify.mattermost.webhook_url is empty"@,
        ),
        trimmed(cfg.webhook_url@).len() > 0 && url is Err ==> fault_given(cfg, url) == Some(
            "notify.mattermost.webhook_url is not a valid URL: "@ + url->Err_0,
        ),
        trimmed(cfg.webhook_url@).len() > 0 && url is Ok && url->Ok_0.scheme != "http"@
            && url->Ok_0.scheme != "https"@ ==> fault_given(cfg, url) == Some(
            "notify.mattermost.webhook_url must be http:// or https://"@,
        ),
        mattermost_fault(cfg) == fault_given(cfg, url_parsed(cfg.webhook_url@)),
{
}

/// A payload carries the text, and the channel and the user name exactly where they
/// are configured, each under its own name.
pub proof fn a_payload_names_channel_and_user_where_configured(
    payload: Json,
    text: Seq<char>,
    channel: Seq<char>,
    username: Seq<char>,
)
    requires
        posts(payload, text, channel, username),
    ensures
        payload is Object,
        payload->Object_0@[0].0@ == "text"@ && payload->Object_0@[0].1.text() == Some(text),
        payload->Object_0@.len() == 1 + (if channel.len() > 0 {
            1int
        } else {
            0
        }) + (if username.len() > 0 {
            1int
        } else {
            0
        }),
        channel.len() > 0 ==> payload->Object_0@[1].0@ == "channel"@
            && payload->Object_0@[1].1.text() == Some(channel),
        username.len() > 0 ==> payload->Object_0@.last().0@ == "username"@
            && payload->Object_0@.last().1.text() == Some(username),
{
}

} // verus!
