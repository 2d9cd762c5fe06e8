//! The `email` notify backend: a subject and a body per event, over SMTP.

use super::event::{field_models, EventField, EventModel, NotifyEvent};
use super::template::{refused, render_named, rendered, renders, template_refusal, TemplateFailure};
use super::{NotifyBackend, NotifyError, NotifyErrorModel};
use crate::faults::{first_of, first_of_next};
use crate::text::{cat2, cat3, cat4, same, texts, trim, trimmed};
use crate::time::Duration;
use vstd::prelude::*;
use vstd::string::*;

verus! {

/// The `[notify.email]` section.
#[derive(Debug, Clone, PartialEq, Eq)]
pub struct EmailNotifyConfig {
    pub smtp_host: String,
    pub smtp_port: u16,
    pub smtp_security: String,
    pub smtp_username: String,
    pub smtp_password: String,
    pub from: String,
    pub to: Vec<String>,
    pub timeout_ms: u64,
    pub events: Vec<String>,
}

impl EmailNotifyConfig {
    /// Whether every setting is what it is where nothing is configured.
    pub open spec fn defaults(&self) -> bool {
        &&& self.smtp_host@.len() == 0
        &&& self.smtp_port == 587
        &&& self.smtp_security@ == "starttls"@
        &&& self.smtp_username@.len() == 0
        &&& self.smtp_password@.len() == 0
        &&& self.from@.len() == 0
        &&& self.to@.len() == 0
        &&& self.timeout_ms == 10_000
        &&& texts(self.events@) == super::event::all_kinds()
    }
}

impl Default for EmailNotifyConfig {
    fn default() -> (r: EmailNotifyConfig)
        ensures
            r.defaults(),
    {
        EmailNotifyConfig {
            smtp_host: String::new(),
            smtp_port: 587,
            smtp_security: "starttls".to_owned(),
            smtp_username: String::new(),
            smtp_password: String::new(),
            from: String::new(),
            to: Vec::new(),
            timeout_ms: 10_000,
            events: super::every_kind(),
        }
    }
}

/// An address, with the name that goes before it if there is one.
#[derive(Debug, Clone, PartialEq, Eq)]
pub struct Mailbox {
    pub name: Option<String>,
    pub email: String,
}

/// A mailbox, in terms of sequences.
pub struct MailboxModel {
    pub name: Option<Seq<char>>,
    pub email: Seq<char>,
}

impl View for Mailbox {
    type V = MailboxModel;

    open spec fn view(&self) -> MailboxModel {
        MailboxModel { name: super::event::optional_text(self.name), email: self.email@ }
    }
}

impl Mailbox {
    fn copied(&self) -> (r: Mailbox)
        ensures
            r@ == self@,
    {
        let name = match &self.name {
            Some(name) => Some(name.clone()),
            None => None,
        };
        Mailbox { name, email: self.email.clone() }
    }
}

/// What `lettre` makes of a text as a mailbox: the name and the address, or the
/// reason there is none.
pub uninterp spec fn mailbox_parsed(text: Seq<char>) -> Result<MailboxModel, Seq<char>>;

/// `str::parse` to `lettre`'s `Mailbox`: a function of the text alone, which the
/// name `mailbox_parsed` stands for.
#[verifier::external_body]
fn parse_mailbox(text: &str) -> (r: Result<Mailbox, String>)
    ensures
        match r {
            Ok(mailbox) => mailbox_parsed(text@) == Ok::<MailboxModel, Seq<char>>(mailbox@),
            Err(e) => mailbox_parsed(text@) == Err::<MailboxModel, Seq<char>>(e@),
        },
{
    match text.parse::<lettre::message::Mailbox>() {
        Ok(mailbox) => Ok(Mailbox { name: mailbox.name, email: mailbox.email.to_string() }),
        Err(error) => Err(error.to_string()),
    }
}

/// How the connection to the mail server is protected.
#[derive(Debug, Clone, Copy, PartialEq, Eq, Structural)]
pub enum SmtpSecurity {
    StartTls,
    Tls,
    Plain,
}

/// The protection that a setting names.
pub open spec fn security_named(name: Seq<char>) -> Option<SmtpSecurity> {
    if name == "starttls"@ {
        Some(SmtpSecurity::StartTls)
    } else if name == "tls"@ {
        Some(SmtpSecurity::Tls)
    } else if name == "none"@ {
        Some(SmtpSecurity::Plain)
    } else {
        None
    }
}

/// Delivers a subject and a body per event over SMTP. It holds a password, so it
/// is not printed.
#[derive(Clone, PartialEq, Eq)]
pub struct EmailNotifier {
    pub host: String,
    pub port: u16,
    pub security: SmtpSecurity,
    pub timeout: Duration,
    /// The user and the password; none where no user is configured.
    pub credentials: Option<(String, String)>,
    pub from: Mailbox,
    pub to: Vec<Mailbox>,
}

/// What texts are read as, each by itself.
pub open spec fn all_parsed(texts: Seq<Seq<char>>) -> Seq<Result<MailboxModel, Seq<char>>> {
    texts.map_values(|t: Seq<char>| mailbox_parsed(t))
}

/// The complaint about a recipient that is no address, given what it was read as.
pub open spec fn recipient_fault() -> spec_fn(
    (Seq<char>, Result<MailboxModel, Seq<char>>),
) -> Option<Seq<char>> {
    |one: (Seq<char>, Result<MailboxModel, Seq<char>>)|
        match one.1 {
            Ok(_) => None,
            Err(error) => Some(
                "notify.email.to `"@ + one.0 + "` is not a valid address: "@ + error,
            ),
        }
}

/// The complaint about the first recipient that is no address.
pub open spec fn recipients_fault(
    to: Seq<Seq<char>>,
    parsed: Seq<Result<MailboxModel, Seq<char>>>,
) -> Option<Seq<char>> {
    first_of(to.zip_with(parsed), recipient_fault())
}

/// Why a section gives no notifier: the first of its faults.
pub open spec fn email_fault(cfg: EmailNotifyConfig) -> Option<Seq<char>> {
    fault_given(cfg, mailbox_parsed(cfg.from@), all_parsed(texts(cfg.to@)))
}

/// Why a section gives no notifier, given what its addresses are read as.
pub open spec fn fault_given(
    cfg: EmailNotifyConfig,
    from: Result<MailboxModel, Seq<char>>,
    to: Seq<Result<MailboxModel, Seq<char>>>,
) -> Option<Seq<char>> {
    if trimmed(cfg.smtp_host@).len() == 0 {
        Some("notify.email is enabled but notify.email.smtp_host is empty"@)
    } else if trimmed(cfg.from@).len() == 0 {
        Some("notify.email is enabled but notify.email.from is empty"@)
    } else if cfg.to@.len() == 0 {
        Some("notify.email is enabled but notify.email.to is empty"@)
    } else {
        match from {
            Err(error) => Some(
                "notify.email.from `"@ + cfg.from@ + "` is not a valid address: "@ + error,
            ),
            Ok(_) => match recipients_fault(texts(cfg.to@), to) {
                Some(fault) => Some(fault),
                None => if security_named(cfg.smtp_security@) is None {
                    Some(
                        "notify.email.smtp_security: unknown value `"@ + cfg.smtp_security@
                            + "` (expected \"starttls\", \"tls\" or \"none\")"@,
                    )
                } else {
                    None
                },
            },
        }
    }
}

/// Whether a notifier is the one a section asks for.
pub open spec fn email_built(notifier: EmailNotifier, cfg: EmailNotifyConfig) -> bool {
    built_given(notifier, cfg, mailbox_parsed(cfg.from@), all_parsed(texts(cfg.to@)))
}

/// Whether a notifier is the one a section asks for, given what its addresses
/// are read as.
pub open spec fn built_given(
    notifier: EmailNotifier,
    cfg: EmailNotifyConfig,
    from: Result<MailboxModel, Seq<char>>,
    to: Seq<Result<MailboxModel, Seq<char>>>,
) -> bool {
    &&& notifier.host@ == cfg.smtp_host@
    &&& notifier.port == cfg.smtp_port
    &&& security_named(cfg.smtp_security@) == Some(notifier.security)
    &&& notifier.timeout@ == cfg.timeout_ms * 1_000_000
    &&& match notifier.credentials {
        Some((user, password)) => cfg.smtp_username@.len() > 0 && user@ == cfg.smtp_username@
            && password@ == cfg.smtp_password@,
        None => cfg.smtp_username@.len() == 0,
    }
    &&& from == Ok::<MailboxModel, Seq<char>>(notifier.from@)
    &&& notifier.to@.len() == cfg.to@.len()
    &&& forall|i: int|
        0 <= i < notifier.to@.len() ==> to[i] == Ok::<MailboxModel, Seq<char>>(
            (#[trigger] notifier.to@[i])@,
        )
}

/// What an address was read as, in terms of sequences.
pub open spec fn mailbox_model(parsed: Result<Mailbox, String>) -> Result<MailboxModel, Seq<char>> {
    match parsed {
        Ok(mailbox) => Ok(mailbox@),
        Err(e) => Err(e@),
    }
}

/// What addresses were read as, in terms of sequences.
pub open spec fn mailbox_models(parsed: Seq<Result<Mailbox, String>>) -> Seq<
    Result<MailboxModel, Seq<char>>,
> {
    parsed.map_values(|p: Result<Mailbox, String>| mailbox_model(p))
}

fn parse_all(list: &Vec<String>) -> (r: Vec<Result<Mailbox, String>>)
    ensures
        mailbox_models(r@) == all_parsed(texts(list@)),
{
    let ghost want = all_parsed(texts(list@));
    let mut out: Vec<Result<Mailbox, String>> = Vec::new();
    let mut i: usize = 0;
    assert(mailbox_models(out@) == want.take(0));
    while i < list.len()
        invariant
            i <= list@.len(),
            want == all_parsed(texts(list@)),
            mailbox_models(out@) == want.take(i as int),
        decreases list@.len() - i,
    {
        let parsed = parse_mailbox(list[i].as_str());
        let ghost held = out@;
        let ghost one = mailbox_model(parsed);
        out.push(parsed);
        proof {
            assert(mailbox_models(out@) =~= mailbox_models(held).push(one));
            assert(want.take(i as int + 1) =~= want.take(i as int).push(one));
        }
        i += 1;
    }
    assert(want.take(i as int) == want);
    out
}

/// The recipients, or the complaint about the first that is no address.
fn all_recipients(to: &Vec<String>, parsed: Vec<Result<Mailbox, String>>) -> (r: Result<
    Vec<Mailbox>,
    String,
>)
    requires
        to@.len() == parsed@.len(),
    ensures
        match r {
            Ok(boxes) => {
                &&& recipients_fault(texts(to@), mailbox_models(parsed@)) is None
                &&& boxes@.len() == to@.len()
                &&& forall|i: int|
                    0 <= i < boxes@.len() ==> mailbox_models(parsed@)[i] == Ok::<
                        MailboxModel,
                        Seq<char>,
                    >((#[trigger] boxes@[i])@)
            },
            Err(e) => recipients_fault(texts(to@), mailbox_models(parsed@)) == Some(e@),
        },
{
    let ghost all = texts(to@);
    let ghost models = mailbox_models(parsed@);
    let mut out: Vec<Mailbox> = Vec::new();
    let mut i: usize = 0;
    assert(all.zip_with(models).take(0).len() == 0);
    while i < to.len()
        invariant
            i <= to@.len(),
            to@.len() == parsed@.len(),
            all == texts(to@),
            models == mailbox_models(parsed@),
            out@.len() == i,
            first_of(all.zip_with(models).take(i as int), recipient_fault()) is None,
            forall|j: int|
                0 <= j < i ==> models[j] == Ok::<MailboxModel, Seq<char>>((#[trigger] out@[j])@),
        decreases to@.len() - i,
    {
        proof {
            first_of_next(all.zip_with(models), recipient_fault(), i as int);
        }
        match &parsed[i] {
            Ok(mailbox) => {
                let ghost held = out@;
                let copy = mailbox.copied();
                out.push(copy);
                assert forall|j: int| 0 <= j < i + 1 implies models[j] == Ok::<
                    MailboxModel,
                    Seq<char>,
                >((#[trigger] out@[j])@) by {
                    if j < i {
                        assert(out@[j] == held[j]);
                    }
                }
            },
            Err(error) => {
                return Err(
                    cat4(
                        "notify.email.to `",
                        to[i].as_str(),
                        "` is not a valid address: ",
                        error.as_str(),
                    ),
                );
            },
        }
        i += 1;
    }
    assert(all.zip_with(models).take(i as int) == all.zip_with(models));
    Ok(out)
}

/// Everything of a message but its envelope.
#[derive(Debug, Clone, PartialEq, Eq)]
pub struct MailText {
    pub subject: String,
    pub body: String,
}

/// How the sending of a message ended.
#[derive(Debug, Clone, PartialEq, Eq)]
pub enum MailEnd {
    Sent,
    /// The message could not be put together.
    Unbuilt(String),
    /// The mail server was not reached, or did not take the message.
    Undelivered(String),
}

/// What a failed sending amounts to. Each may not recur.
pub open spec fn mail_failure(end: MailEnd) -> Option<NotifyErrorModel> {
    match end {
        MailEnd::Sent => None,
        MailEnd::Unbuilt(error) => Some(
            NotifyErrorModel { detail: "failed to build message: "@ + error@, retryable: true },
        ),
        MailEnd::Undelivered(error) => Some(
            NotifyErrorModel { detail: "SMTP delivery failed: "@ + error@, retryable: true },
        ),
    }
}

/// A message's subject and body, or why there is none, in terms of sequences.
pub open spec fn mail_model(r: Result<MailText, NotifyError>) -> Result<
    (Seq<char>, Seq<char>),
    NotifyErrorModel,
> {
    match r {
        Ok(text) => Ok((text.subject@, text.body@)),
        Err(e) => Err(e@),
    }
}

/// The message of an event of a kind, from what came of rendering its subject and
/// its body: the subject without white space around it, and the body. The first
/// that failed decides.
pub open spec fn mail_outcome(
    kind: Seq<char>,
    subject: Result<String, TemplateFailure>,
    body: Result<String, TemplateFailure>,
) -> Result<(Seq<char>, Seq<char>), NotifyErrorModel> {
    match (subject, body) {
        (Err(failure), _) => Err(
            template_refusal("email/"@ + kind + ".subject.j2"@, failure),
        ),
        (Ok(_), Err(failure)) => Err(template_refusal("email/"@ + kind + ".body.j2"@, failure)),
        (Ok(subject), Ok(body)) => Ok((trimmed(subject@), body@)),
    }
}

/// Whether a message came of rendering the event's body, beside a subject.
pub open spec fn mail_rendered<
    F: Fn(&str, &Vec<(&'static str, EventField)>) -> Result<String, TemplateFailure>,
>(
    render: F,
    event: EventModel,
    subject: Result<String, TemplateFailure>,
    r: Result<(Seq<char>, Seq<char>), NotifyErrorModel>,
) -> bool {
    exists|
        name: &str,
        fields: &Vec<(&'static str, EventField)>,
        body: Result<String, TemplateFailure>,
    |
        name@ == "email/"@ + event.kind + ".body.j2"@ && field_models(fields@) == event.fields
            && #[trigger] call_ensures(render, (name, fields), body) && r == mail_outcome(
            event.kind,
            subject,
            body,
        )
}

impl EmailNotifier {
    /// Validates the section. Nothing is connected to.
    pub fn from_config(cfg: &EmailNotifyConfig) -> (r: Result<EmailNotifier, String>)
        ensures
            match r {
                Ok(notifier) => email_fault(*cfg) is None && email_built(notifier, *cfg),
                Err(e) => email_fault(*cfg) == Some(e@),
            },
    {
        let from = parse_mailbox(cfg.from.as_str());
        let to = parse_all(&cfg.to);
        proof {
            assert(mailbox_models(to@).len() == texts(cfg.to@).len());
        }
        EmailNotifier::from_parsed(cfg, from, to)
    }

    /// Builds a section's notifier, from what its addresses are read as.
    pub fn from_parsed(
        cfg: &EmailNotifyConfig,
        from: Result<Mailbox, String>,
        to: Vec<Result<Mailbox, String>>,
    ) -> (r: Result<EmailNotifier, String>)
        requires
            to@.len() == cfg.to@.len(),
        ensures
            match r {
                Ok(notifier) => fault_given(
                    *cfg,
                    mailbox_model(from),
                    mailbox_models(to@),
                ) is None && built_given(
                    notifier,
                    *cfg,
                    mailbox_model(from),
                    mailbox_models(to@),
                ),
                Err(e) => fault_given(*cfg, mailbox_model(from), mailbox_models(to@)) == Some(e@),
            },
    {
        if trim(cfg.smtp_host.as_str()).as_str().is_empty() {
            return Err("notify.email is enabled but notify.email.smtp_host is empty".to_owned());
        }
        if trim(cfg.from.as_str()).as_str().is_empty() {
            return Err("notify.email is enabled but notify.email.from is empty".to_owned());
        }
        if cfg.to.len() == 0 {
            return Err("notify.email is enabled but notify.email.to is empty".to_owned());
        }
        let from = match from {
            Ok(from) => from,
            Err(error) => {
                return Err(
                    cat4(
                        "notify.email.from `",
                        cfg.from.as_str(),
                        "` is not a valid address: ",
                        error.as_str(),
                    ),
                );
            },
        };
        let to = match all_recipients(&cfg.to, to) {
            Ok(to) => to,
            Err(e) => {
                return Err(e);
            },
        };
        let name = cfg.smtp_security.as_str();
        let security = if same(name, "starttls") {
            SmtpSecurity::StartTls
        } else if same(name, "tls") {
            SmtpSecurity::Tls
        } else if same(name, "none") {
            SmtpSecurity::Plain
        } else {
            return Err(
                cat3(
                    "notify.email.smtp_security: unknown value `",
                    name,
                    "` (expected \"starttls\", \"tls\" or \"none\")",
                ),
            );
        };
        let credentials = if cfg.smtp_username.as_str().is_empty() {
            None
        } else {
            Some((cfg.smtp_username.clone(), cfg.smtp_password.clone()))
        };
        Ok(
            EmailNotifier {
                host: cfg.smtp_host.clone(),
                port: cfg.smtp_port,
                security,
                timeout: Duration::from_millis(cfg.timeout_ms),
                credentials,
                from,
                to,
            },
        )
    }

    /// The templates of an event's subject and body.
    pub fn templates(event: &NotifyEvent) -> (r: (String, String))
        ensures
            r.0@ == "email/"@ + event@.kind + ".subject.j2"@,
            r.1@ == "email/"@ + event@.kind + ".body.j2"@,
    {
        (
            cat3("email/", event.kind(), ".subject.j2"),
            cat3("email/", event.kind(), ".body.j2"),
        )
    }

    /// The message of an event: the subject without white space around it, and
    /// the body.
    pub fn compose(subject: &str, body: String) -> (r: MailText)
        ensures
            r.subject@ == trimmed(subject@),
            r.body == body,
    {
        MailText { subject: trim(subject), body }
    }

    /// The message of an event, from what came of rendering its subject and its
    /// body; the first that failed decides.
    pub fn message_from(
        event: &NotifyEvent,
        subject: Result<String, TemplateFailure>,
        body: Result<String, TemplateFailure>,
    ) -> (r: Result<MailText, NotifyError>)
        ensures
            mail_model(r) == mail_outcome(event@.kind, subject, body),
    {
        let (subject_name, body_name) = EmailNotifier::templates(event);
        match rendered(subject_name.as_str(), subject) {
            Ok(subject) => match rendered(body_name.as_str(), body) {
                Ok(body) => Ok(EmailNotifier::compose(subject.as_str(), body)),
                Err(e) => Err(e),
            },
            Err(e) => Err(e),
        }
    }

    /// Renders an event's subject, and then its body; the first that fails decides.
    /// `render` renders the template of a name with the given fields.
    pub fn message_with<
        F: Fn(&str, &Vec<(&'static str, EventField)>) -> Result<String, TemplateFailure>,
    >(event: &NotifyEvent, render: F) -> (r: Result<MailText, NotifyError>)
        requires
            forall|name: &str, fields: &Vec<(&'static str, EventField)>|
                call_requires(render, (name, fields)),
        ensures
            exists|
                name: &str,
                fields: &Vec<(&'static str, EventField)>,
                subject: Result<String, TemplateFailure>,
            |
                name@ == "email/"@ + event@.kind + ".subject.j2"@ && field_models(fields@)
                    == event@.fields && #[trigger] call_ensures(render, (name, fields), subject)
                    && match subject {
                    Ok(_) => mail_rendered(render, event@, subject, mail_model(r)),
                    Err(failure) => mail_model(r) == Err::<
                        (Seq<char>, Seq<char>),
                        NotifyErrorModel,
                    >(template_refusal(name@, failure)),
                },
    {
        let (subject_name, body_name) = EmailNotifier::templates(event);
        let own = event.fields();
        let fields = &own;
        let name = subject_name.as_str();
        let subject = render(name, fields);
        let ghost came = subject;
        assert(call_ensures(render, (name, fields), came));
        match subject {
            Ok(text) => {
                let name = body_name.as_str();
                let body = render(name, fields);
                let ghost then = body;
                assert(call_ensures(render, (name, fields), then));
                let r = EmailNotifier::message_from(event, Ok(text), body);
                assert(mail_rendered(render, event@, came, mail_model(r)));
                r
            },
            Err(failure) => Err(refused(name, failure)),
        }
    }

    /// Renders an event's subject and body. What the two templates come to is for
    /// the environment to say; the message is the two texts, the subject without
    /// white space around it, and a template that fails is all that stops it.
    pub fn message_for(
        &self,
        env: &minijinja::Environment<'static>,
        event: &NotifyEvent,
    ) -> (r: Result<MailText, NotifyError>)
        ensures
            exists|subject: Result<String, TemplateFailure>, body: Result<String, TemplateFailure>|
                mail_model(r) == #[trigger] mail_outcome(event@.kind, subject, body),
            exists|subject: Result<String, TemplateFailure>| #[trigger]
                renders(*env, "email/"@ + event@.kind + ".subject.j2"@, event@.fields, subject)
                    && match subject {
                    Err(failure) => r matches Err(e) && e@ == template_refusal(
                        "email/"@ + event@.kind + ".subject.j2"@,
                        failure,
                    ),
                    Ok(title) => exists|body: Result<String, TemplateFailure>| #[trigger]
                        renders(*env, "email/"@ + event@.kind + ".body.j2"@, event@.fields, body)
                            && match body {
                            Err(failure) => r matches Err(e) && e@ == template_refusal(
                                "email/"@ + event@.kind + ".body.j2"@,
                                failure,
                            ),
                            Ok(text) => r matches Ok(mail) && mail.subject@ == trimmed(title@)
                                && mail.body@ == text@,
                        },
                },
    {
        let by_env = |name: &str, fields: &Vec<(&'static str, EventField)>| -> (o: Result<
            String,
            TemplateFailure,
        >)
            ensures
                renders(*env, name@, field_models(fields@), o),
        { render_named(env, name, fields) };
        let r = EmailNotifier::message_with(event, by_env);
        proof {
            let name = "email/"@ + event@.kind + ".subject.j2"@;
            if exists|failure: TemplateFailure|
                mail_model(r) == Err::<(Seq<char>, Seq<char>), NotifyErrorModel>(
                    #[trigger] template_refusal(name, failure),
                ) {
                let failure = choose|failure: TemplateFailure|
                    mail_model(r) == Err::<(Seq<char>, Seq<char>), NotifyErrorModel>(
                        #[trigger] template_refusal(name, failure),
                    );
                let failed = Err::<String, TemplateFailure>(failure);
                assert(mail_model(r) == mail_outcome(event@.kind, failed, failed));
            }
            let (n, fields, subject) = choose|
                name: &str,
                fields: &Vec<(&'static str, EventField)>,
                subject: Result<String, TemplateFailure>,
            |
                name@ == "email/"@ + event@.kind + ".subject.j2"@ && field_models(fields@)
                    == event@.fields && #[trigger] call_ensures(by_env, (name, fields), subject)
                    && match subject {
                    Ok(_) => mail_rendered(by_env, event@, subject, mail_model(r)),
                    Err(failure) => mail_model(r) == Err::<
                        (Seq<char>, Seq<char>),
                        NotifyErrorModel,
                    >(template_refusal(name@, failure)),
                };
            assert(renders(*env, name, event@.fields, subject));
            if subject is Ok {
                let body_name = "email/"@ + event@.kind + ".body.j2"@;
                let (n, fields, body) = choose|
                    name: &str,
                    fields: &Vec<(&'static str, EventField)>,
                    body: Result<String, TemplateFailure>,
                |
                    name@ == "email/"@ + event@.kind + ".body.j2"@ && field_models(fields@)
                        == event@.fields && #[trigger] call_ensures(by_env, (name, fields), body)
                        && mail_model(r) == mail_outcome(event@.kind, subject, body);
                assert(renders(*env, body_name, event@.fields, body));
            }
        }
        r
    }

    /// What the sending of a message comes to.
    pub fn send(&self, end: &MailEnd) -> (r: Result<(), NotifyError>)
        ensures
            match mail_failure(*end) {
                None => r is Ok,
                Some(failure) => r matches Err(e) && e@ == failure,
            },
    {
        match end {
            MailEnd::Sent => Ok(()),
            MailEnd::Unbuilt(error) => Err(
                NotifyError::new(cat2("failed to build message: ", error.as_str()).as_str()),
            ),
            MailEnd::Undelivered(error) => Err(
                NotifyError::new(cat2("SMTP delivery failed: ", error.as_str()).as_str()),
            ),
        }
    }
}

impl NotifyBackend for EmailNotifier {
    open spec fn channel(&self) -> Seq<char> {
        "email"@
    }

    fn name(&self) -> (r: &'static str) {
        "email"
    }
}

/// A message is the two texts that were rendered: the subject without white space
/// around it, and the whole body as it stands. Where the subject fails, nothing is
/// said of the body; where the body fails, there is no message either.
pub proof fn a_message_is_the_rendered_texts(
    kind: Seq<char>,
    subject: String,
    body: String,
    failure: TemplateFailure,
    any: Result<String, TemplateFailure>,
)
    ensures
        mail_outcome(kind, Ok(subject), Ok(body)) is Ok,
        mail_outcome(kind, Ok(subject), Ok(body))->Ok_0.0 == trimmed(subject@),
        mail_outcome(kind, Ok(subject), Ok(body))->Ok_0.1 == body@,
        mail_outcome(kind, Err(failure), any) == Err::<(Seq<char>, Seq<char>), NotifyErrorModel>(
            template_refusal("email/"@ + kind + ".subject.j2"@, failure),
        ),
        mail_outcome(kind, Ok(subject), Err(failure)) == Err::<
            (Seq<char>, Seq<char>),
            NotifyErrorModel,
        >(template_refusal("email/"@ + kind + ".body.j2"@, failure)),
{
}

/// What is said of a message is said of its own subject and body.
pub proof fn a_message_is_its_subject_and_body(text: MailText, error: NotifyError)
    ensures
        mail_model(Ok(text)) == Ok::<(Seq<char>, Seq<char>), NotifyErrorModel>(
            (text.subject@, text.body@),
        ),
        mail_model(Err(error)) == Err::<(Seq<char>, Seq<char>), NotifyErrorModel>(error@),
{
}

/// The three names of a security setting mean three different things, and no other
/// name means any.
pub proof fn security_has_three_names(name: Seq<char>)
    ensures
        security_named("starttls"@) == Some(SmtpSecurity::StartTls),
        security_named("tls"@) == Some(SmtpSecurity::Tls),
        security_named("none"@) == Some(SmtpSecurity::Plain),
        security_named(name) is Some ==> name == "starttls"@ || name == "tls"@ || name == "none"@,
{
    reveal_strlit("starttls");
    reveal_strlit("tls");
    reveal_strlit("none");
    assert("starttls"@.len() == 8 && "tls"@.len() == 3 && "none"@.len() == 4);
}

/// Recipients are refused exactly when one of them is no address, and then the
/// first of those is named with its own text.
pub proof fn the_first_bad_recipient_decides(
    to: Seq<Seq<char>>,
    parsed: Seq<Result<MailboxModel, Seq<char>>>,
)
    requires
        to.len() == parsed.len(),
    ensures
        recipients_fault(to, parsed) is None <==> forall|i: int|
            0 <= i < parsed.len() ==> (#[trigger] parsed[i]) is Ok,
        forall|i: int|
            0 <= i < parsed.len() && (#[trigger] parsed[i]) is Err && (forall|j: int|
                0 <= j < i ==> (#[trigger] parsed[j]) is Ok) ==> recipients_fault(to, parsed)
                == Some(
                "notify.email.to `"@ + to[i] + "` is not a valid address: "@ + parsed[i]->Err_0,
            ),
{
    let pairs = to.zip_with(parsed);
    let fault = recipient_fault();
    crate::faults::first_of_none(pairs, fault);
    assert forall|i: int| 0 <= i < pairs.len() implies (fault(#[trigger] pairs[i]) is None
        <==> parsed[i] is Ok) by {
        assert(pairs[i] == (to[i], parsed[i]));
    }
    if recipients_fault(to, parsed) is None {
        assert forall|i: int| 0 <= i < parsed.len() implies (#[trigger] parsed[i]) is Ok by {
            assert(fault(pairs[i]) is None);
        }
    }
    assert forall|i: int|
        0 <= i < parsed.len() && (#[trigger] parsed[i]) is Err && (forall|j: int|
            0 <= j < i ==> (#[trigger] parsed[j]) is Ok) implies recipients_fault(to, parsed)
        == Some(
        "notify.email.to `"@ + to[i] + "` is not a valid address: "@ + parsed[i]->Err_0,
    ) by {
        assert(pairs[i] == (to[i], parsed[i]));
        assert forall|j: int| 0 <= j < i implies fault(#[trigger] pairs[j]) is None by {
            assert(parsed[j] is Ok);
        }
        crate::faults::the_first_fault_decides(pairs, fault, i);
    }
}

/// A section gives a notifier exactly when it names a host, a sender and at least
/// one recipient, all of them addresses, and a security that there is.
pub proof fn a_usable_section_is_accepted(
    cfg: EmailNotifyConfig,
    from: Result<MailboxModel, Seq<char>>,
    to: Seq<Result<MailboxModel, Seq<char>>>,
)
    requires
        to.len() == cfg.to@.len(),
    ensures
        fault_given(cfg, from, to) is None <==> {
            &&& trimmed(cfg.smtp_host@).len() > 0
            &&& trimmed(cfg.from@).len() > 0
            &&& cfg.to@.len() > 0
            &&& from is Ok
            &&& forall|i: int| 0 <= i < to.len() ==> (#[trigger] to[i]) is Ok
            &&& cfg.smtp_security@ == "starttls"@ || cfg.smtp_security@ == "tls"@
                || cfg.smtp_security@ == "none"@
        },
{
    the_first_bad_recipient_decides(texts(cfg.to@), to);
}

/// What an unusable section is told, the first of its faults first.
pub proof fn an_unusable_section_is_told_why(
    cfg: EmailNotifyConfig,
    from: Result<MailboxModel, Seq<char>>,
    to: Seq<Result<MailboxModel, Seq<char>>>,
)
    ensures
        ({
            let told = fault_given(cfg, from, to);
            let hosted = trimmed(cfg.smtp_host@).len() > 0;
            let signed = hosted && trimmed(cfg.from@).len() > 0;
            let addressed = signed && cfg.to@.len() > 0;
            let bad = recipients_fault(texts(cfg.to@), to);
            &&& !hosted ==> told == Some(
                "notify.email is enabled but notify.email.smtp_host is empty"@,
            )
            &&& hosted && !signed ==> told == Some(
                "notify.email is enabled but notify.email.from is empty"@,
            )
            &&& signed && !addressed ==> told == Some(
                "notify.email is enabled but notify.email.to is empty"@,
            )
            &&& addressed && from is Err ==> told == Some(
                "notify.email.from `"@ + cfg.from@ + "` is not a valid address: "@ + from->Err_0,
            )
            &&& addressed && from is Ok && bad is Some ==> told == bad
            &&& addressed && from is Ok && bad is None && cfg.smtp_security@ != "starttls"@
                && cfg.smtp_security@ != "tls"@ && cfg.smtp_security@ != "none"@ ==> told == Some(
                "notify.email.smtp_security: unknown value `"@ + cfg.smtp_security@
                    + "` (expected \"starttls\", \"tls\" or \"none\")"@,
            )
        }),
{
}

/// A notifier is made of its section: it signs in exactly when a user is named,
/// with that user's password, and writes to every recipient, in order.
pub proof fn a_notifier_is_made_of_its_section(
    notifier: EmailNotifier,
    cfg: EmailNotifyConfig,
    from: Result<MailboxModel, Seq<char>>,
    to: Seq<Result<MailboxModel, Seq<char>>>,
)
    requires
        built_given(notifier, cfg, from, to),
        to.len() == cfg.to@.len(),
    ensures
        notifier.host@ == cfg.smtp_host@,
        notifier.port == cfg.smtp_port,
        notifier.timeout@ == cfg.timeout_ms * 1_000_000,
        notifier.security is StartTls <==> cfg.smtp_security@ == "starttls"@,
        notifier.security is Tls <==> cfg.smtp_security@ == "tls"@,
        notifier.security is Plain <==> cfg.smtp_security@ == "none"@,
        notifier.credentials is Some <==> cfg.smtp_username@.len() > 0,
        notifier.credentials matches Some((user, password)) ==> user@ == cfg.smtp_username@
            && password@ == cfg.smtp_password@,
        from is Ok && notifier.from@ == from->Ok_0,
        notifier.to@.len() == cfg.to@.len(),
        forall|i: int|
            0 <= i < notifier.to@.len() ==> to[i] == Ok::<MailboxModel, Seq<char>>(
                (#[trigger] notifier.to@[i])@,
            ),
{
    security_has_three_names(cfg.smtp_security@);
    reveal_strlit("starttls");
    reveal_strlit("tls");
    reveal_strlit("none");
    assert("starttls"@.len() == 8 && "tls"@.len() == 3 && "none"@.len() == 4);
}

/// What a section comes to is decided by its own addresses, each read as it is
/// written.
pub proof fn a_section_is_read_from_its_own_addresses(
    cfg: EmailNotifyConfig,
    notifier: EmailNotifier,
)
    ensures
        email_fault(cfg) == fault_given(
            cfg,
            mailbox_parsed(cfg.from@),
            all_parsed(texts(cfg.to@)),
        ),
        email_built(notifier, cfg) <==> built_given(
            notifier,
            cfg,
            mailbox_parsed(cfg.from@),
            all_parsed(texts(cfg.to@)),
        ),
        all_parsed(texts(cfg.to@)).len() == cfg.to@.len(),
        forall|i: int|
            0 <= i < cfg.to@.len() ==> #[trigger] all_parsed(texts(cfg.to@))[i] == mailbox_parsed(
                cfg.to@[i]@,
            ),
{
}

/// A message that was not sent may always be tried again, whatever stopped it.
pub proof fn an_unsent_message_is_tried_again(error: String)
    ensures
        mail_failure(MailEnd::Sent) is None,
        mail_failure(MailEnd::Unbuilt(error)) == Some(
            NotifyErrorModel { detail: "failed to build message: "@ + error@, retryable: true },
        ),
        mail_failure(MailEnd::Undelivered(error)) == Some(
            NotifyErrorModel { detail: "SMTP delivery failed: "@ + error@, retryable: true },
        ),
{
}

/// What an address was read as is the address, or why it is none.
pub proof fn an_address_is_read_as_it_is(
    mailbox: Mailbox,
    error: String,
    all: Seq<Result<Mailbox, String>>,
)
    ensures
        mailbox_model(Ok(mailbox)) == Ok::<MailboxModel, Seq<char>>(mailbox@),
        mailbox@.email == mailbox.email@,
        mailbox@.name is Some <==> mailbox.name is Some,
        mailbox.name matches Some(name) ==> mailbox@.name == Some(name@),
        mailbox_model(Err(error)) == Err::<MailboxModel, Seq<char>>(error@),
        mailbox_models(all).len() == all.len(),
        forall|i: int| 0 <= i < all.len() ==> #[trigger] mailbox_models(all)[i] == mailbox_model(
            all[i],
        ),
{
}

/// The settings of a section that says nothing.
pub proof fn the_defaults_of_a_section(cfg: EmailNotifyConfig)
    requires
        cfg.defaults(),
    ensures
        cfg.smtp_host@.len() == 0 && cfg.from@.len() == 0 && cfg.to@.len() == 0,
        cfg.smtp_username@.len() == 0 && cfg.smtp_password@.len() == 0,
        cfg.smtp_port == 587,
        cfg.smtp_security@ == "starttls"@,
        cfg.timeout_ms == 10_000,
        cfg.events@.len() == 6,
{
    assert(texts(cfg.events@).len() == cfg.events@.len());
}

/// A message that was rendered beside a subject is that subject, without white space
/// around it, and what rendering the template of the event's body came to, as it is.
pub proof fn a_rendered_message_is_what_came_back<
    F: Fn(&str, &Vec<(&'static str, EventField)>) -> Result<String, TemplateFailure>,
>(
    render: F,
    event: EventModel,
    subject: String,
    r: Result<(Seq<char>, Seq<char>), NotifyErrorModel>,
)
    requires
        mail_rendered(render, event, Ok(subject), r),
    ensures
        exists|
            name: &str,
            fields: &Vec<(&'static str, EventField)>,
            body: Result<String, TemplateFailure>,
        |
            #[trigger] call_ensures(render, (name, fields), body) && name@ == "email/"@ + event.kind
                + ".body.j2"@ && field_models(fields@) == event.fields && match body {
                Ok(text) => r == Ok::<(Seq<char>, Seq<char>), NotifyErrorModel>(
                    (trimmed(subject@), text@),
                ),
                Err(_) => r is Err,
            },
{
}

} // verus!
