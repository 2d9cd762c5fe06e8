//! The functions that go on from what an outside call returned.

use acme_proxy::debug::{list, maybe, span};
use acme_proxy::ipam::custom::names_printed;
use acme_proxy::ipam::http::{document, refused};
use acme_proxy::notify::email::{EmailNotifier, EmailNotifyConfig, Mailbox};
use acme_proxy::notify::event::{EventField, NotifyEvent, ProfileMountedData};
use acme_proxy::notify::mattermost::{MattermostNotifier, MattermostNotifyConfig};
use acme_proxy::notify::template::{
    body_from, render_body_with, render_with, TemplateFailure,
};
use acme_proxy::notify::webhook::{
    delivery_worded, excerpt_text, SendEnd, WebhookNotifier, WebhookNotifyConfig,
};
use acme_proxy::script::script_words;
use acme_proxy::time::Duration;
use acme_proxy::web::WebUrl;

fn url(text: &str, scheme: &str) -> Result<WebUrl, String> {
    Ok(WebUrl {
        text: text.to_string(),
        scheme: scheme.to_string(),
        host: Some("hooks.example.com".to_string()),
    })
}

fn answered(status: u16) -> SendEnd {
    SendEnd::Answered {
        status,
        body: Vec::new(),
    }
}

#[test]
fn a_script_speaks_by_its_first_line() {
    assert_eq!(script_words("\n no such host \nx", "e", Some(2), "the script"), "no such host");
    assert_eq!(script_words(" \n", "boom\n", Some(2), "the script"), "boom");
    assert_eq!(
        script_words("", "", Some(2), "the script"),
        "the script exited with status 2"
    );
}

#[test]
fn printed_lines_are_normalized_names() {
    let names = names_printed("B.Example.com.\n\n a.example.com \nb.example.com\n");
    assert!(names.is_known());
    assert_eq!(names.names().to_vec(), vec!["a.example.com", "b.example.com"]);
    assert!(names_printed("").is_known());
}

#[test]
fn a_refusal_quotes_the_answer() {
    let error = refused("https://ipam/api", 403, "403 Forbidden", "bad token");
    assert_eq!(error.status, Some(403));
    assert_eq!(error.message, "https://ipam/api answered 403 Forbidden: bad token");
}

#[test]
fn an_unreadable_document_keeps_its_status() {
    let error = document("https://ipam/api", 200, Err("EOF".to_string())).unwrap_err();
    assert_eq!(error.status, Some(200));
    assert_eq!(error.message, "https://ipam/api returned unreadable JSON: EOF");
    let value = serde_json::Value::Bool(true);
    assert_eq!(document("u", 200, Ok(value.clone())).unwrap(), value);
}

#[test]
fn a_webhook_goes_on_from_its_url_and_its_body() {
    let cfg = WebhookNotifyConfig {
        url: "https://hooks.example.com/x".to_string(),
        ..WebhookNotifyConfig::default()
    };
    let built = WebhookNotifier::from_parsed("chat", &cfg, url("https://hooks.example.com/x", "https"), None);
    assert_eq!(built.unwrap().url.text, "https://hooks.example.com/x");
    let error = WebhookNotifier::from_parsed("chat", &cfg, Err("no".to_string()), None);
    assert_eq!(
        error.err().unwrap(),
        "notify.webhook.chat.url is not a valid URL: no"
    );
    let error = WebhookNotifier::from_parsed("chat", &cfg, url("ftp://x", "ftp"), None);
    assert_eq!(
        error.err().unwrap(),
        "notify.webhook.chat.url must be http:// or https://"
    );
}

#[test]
fn a_mattermost_hook_goes_on_from_its_url() {
    let cfg = MattermostNotifyConfig {
        webhook_url: "ftp://hooks.example.com/x".to_string(),
        channel: "ops".to_string(),
        username: String::new(),
        timeout_ms: 1_000,
    };
    assert_eq!(
        MattermostNotifier::from_parsed(&cfg, url("ftp://hooks.example.com/x", "ftp")).err().unwrap(),
        "notify.mattermost.webhook_url must be http:// or https://"
    );
    assert!(MattermostNotifier::from_parsed(&cfg, url("http://h/x", "http")).is_ok());
}

#[test]
fn an_email_goes_on_from_its_mailboxes() {
    let mailbox = |email: &str| {
        Ok(Mailbox {
            name: None,
            email: email.to_string(),
        })
    };
    let cfg = EmailNotifyConfig {
        smtp_host: "smtp.example.com".to_string(),
        from: "a@example.com".to_string(),
        to: vec!["b@example.com".to_string()],
        ..EmailNotifyConfig::default()
    };
    let built =
        EmailNotifier::from_parsed(&cfg, mailbox("a@example.com"), vec![mailbox("b@example.com")]);
    assert_eq!(built.unwrap().to[0].email, "b@example.com");
    assert!(EmailNotifier::from_parsed(
        &cfg,
        mailbox("a@example.com"),
        vec![Err("bad".to_string())]
    )
    .is_err());
}

#[test]
fn a_message_is_rendered_from_its_own_two_templates() {
    let event = profile_mounted();
    let text = EmailNotifier::message_with(&event, |name, fields| {
        assert_eq!(fields.len(), 1);
        Ok(format!(" {name} "))
    });
    let text = text.unwrap();
    assert_eq!(text.subject, "email/profile_mounted.subject.j2");
    assert_eq!(text.body, " email/profile_mounted.body.j2 ");
    let refused = EmailNotifier::message_with(&event, |name, _| {
        assert!(name.contains("subject"), "nothing is rendered after a failure");
        Err(TemplateFailure::Failed("a".to_string()))
    });
    assert_eq!(
        refused.unwrap_err().message(),
        "template `email/profile_mounted.subject.j2` failed: a"
    );
}

#[test]
fn a_body_is_rendered_with_its_message() {
    let event = profile_mounted();
    let body = render_body_with("chat", "webhook:chat.body", &event, |name, fields| {
        let first = match &fields[0] {
            ("message", EventField::Text(text)) => text.clone(),
            _ => String::new(),
        };
        Ok(format!("<{name} {} {first}>", fields.len()))
    });
    assert_eq!(
        body.unwrap(),
        "<webhook:chat.body 3 <webhook/profile_mounted.j2 1 >>"
    );
    let one = render_with("t", &event, |name, _| Ok(name.to_string()));
    assert_eq!(one.unwrap(), "t");
}

fn profile_mounted() -> NotifyEvent {
    NotifyEvent::ProfileMounted(ProfileMountedData {
        profile: "le".to_string(),
    })
}

#[test]
fn a_message_goes_on_from_its_two_renderings() {
    let event = profile_mounted();
    let ok = |text: &str| Ok(text.to_string());
    let failed = |why: &str| Err(TemplateFailure::Failed(why.to_string()));
    let text = EmailNotifier::message_from(&event, ok(" up \n"), ok(" body\n")).unwrap();
    assert_eq!((text.subject.as_str(), text.body.as_str()), ("up", " body\n"));
    let error = EmailNotifier::message_from(&event, failed("a"), failed("b")).unwrap_err();
    assert_eq!(error.message(), "template `email/profile_mounted.subject.j2` failed: a");
    assert!(!error.retryable());
    let error = EmailNotifier::message_from(&event, ok("s"), failed("b")).unwrap_err();
    assert_eq!(error.message(), "template `email/profile_mounted.body.j2` failed: b");
}

#[test]
fn a_body_goes_on_from_its_message_and_its_rendering() {
    let event = profile_mounted();
    assert_eq!(WebhookNotifier::template(&event), "webhook/profile_mounted.j2");
    let text = body_from("chat", &event, Ok(Ok("{}".to_string())));
    assert_eq!(text.unwrap(), "{}");
    let missing = TemplateFailure::NotFound("gone".to_string());
    let error = body_from("chat", &event, Err(missing.clone())).unwrap_err();
    assert_eq!(error.message(), "template `webhook/profile_mounted.j2` not found: gone");
    let error = body_from("chat", &event, Ok(Err(missing))).unwrap_err();
    assert_eq!(error.message(), "notify.webhook.chat.body: gone");
    assert!(!error.retryable());
}

#[test]
fn values_print_as_they_do_for_debugging() {
    assert_eq!(span(Duration::from_millis(1_500)), "1.5s");
    assert_eq!(list(&vec!["a\"b".to_string(), "c".to_string()]), "[\"a\\\"b\", \"c\"]");
    assert_eq!(maybe(&None), "None");
    assert_eq!(maybe(&Some("h".to_string())), "Some(\"h\")");
}

#[test]
fn a_delivery_is_worded_from_its_end() {
    assert!(delivery_worded(&answered(204), "1s", "204 No Content", "").is_ok());
    let error = delivery_worded(&answered(500), "1s", "500 Internal Server Error", "oops").unwrap_err();
    assert_eq!(error.message(), "webhook returned 500 Internal Server Error: oops");
    let error = delivery_worded(&SendEnd::TimedOut, "1.5s", "", "").unwrap_err();
    assert_eq!(error.message(), "timed out after 1.5s");
}

#[test]
fn an_excerpt_is_cut_and_trimmed() {
    assert_eq!(excerpt_text("  no  "), "no");
    assert_eq!(excerpt_text(&"x".repeat(201)), "x".repeat(200));
}
