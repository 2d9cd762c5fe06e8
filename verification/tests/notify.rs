use acme_proxy::jobs::{JobHandler, JobOutcome};
use acme_proxy::json::{Json, Number};
use acme_proxy::notify::custom::{CustomNotifyConfig, CustomScriptNotifier};
use acme_proxy::notify::email::{
    EmailNotifier, EmailNotifyConfig, MailEnd, Mailbox, SmtpSecurity,
};
use acme_proxy::notify::event::{
    all_notify_events, AccountCreatedData, AccountDeactivatedData, CertificateIssuedData,
    CertificateRevokedData, ChallengeFailedData, NotifyEvent, ProfileMountedData,
};
use acme_proxy::notify::expiry::{
    backfill, digest_step, expiring_query, leaf_not_after, run as digest_run, DigestPlan,
    DigestStep, ExpiringOrder, ExpiryDigestJob, ExpiryNotifyConfig, ExpirySettings,
    UNPARSABLE_NOT_AFTER,
};
use acme_proxy::notify::job::{retired, run, Delivery, NotifyJob, Plan};
use acme_proxy::notify::mattermost::{MattermostNotifier, MattermostNotifyConfig};
use acme_proxy::notify::template::{body_fields, render, rendered, TemplateFailure};
use acme_proxy::notify::webhook::{
    excerpt, retryable_status, SendEnd, WebhookNotifier, WebhookNotifyConfig,
};
use acme_proxy::notify::{
    build_registry, every_kind, from_config, Backend, BackendSlot, Notifiers, NotifyBackend,
    NotifyConfig, NotifyDispatcher, NotifyError, ProfileConfig,
};
use acme_proxy::script::{ScriptOutcome, ScriptRun};
use acme_proxy::sorted::StringMap;
use acme_proxy::time::Duration;
use minijinja::Environment;

fn profile_mounted(profile: &str) -> NotifyEvent {
    NotifyEvent::ProfileMounted(ProfileMountedData {
        profile: profile.to_string(),
    })
}

fn s(value: &str) -> String {
    value.to_string()
}

/// One of every variant, all on the same profile.
fn every_event() -> Vec<NotifyEvent> {
    vec![
        profile_mounted("p"),
        NotifyEvent::AccountCreated(AccountCreatedData {
            profile: s("p"),
            account_id: s("acct-1"),
            contact: vec![s("mailto:a@example.com")],
            client_ip: Some(s("203.0.113.5")),
        }),
        NotifyEvent::AccountDeactivated(AccountDeactivatedData {
            profile: s("p"),
            account_id: s("acct-1"),
            client_ip: Some(s("203.0.113.5")),
        }),
        NotifyEvent::CertificateIssued(CertificateIssuedData {
            profile: s("p"),
            order_id: s("ord-1"),
            account_id: s("acct-1"),
            cert_serial: s("0a0b"),
            identifiers: vec![s("a.example.com"), s("b.example.com")],
            client_ip: Some(s("203.0.113.5")),
        }),
        NotifyEvent::CertificateRevoked(CertificateRevokedData {
            profile: s("p"),
            order_id: s("ord-1"),
            account_id: s("acct-1"),
            cert_serial: s("0a0b"),
            reason: Some(1),
            client_ip: None,
        }),
        NotifyEvent::ChallengeFailed(ChallengeFailedData {
            profile: s("p"),
            order_id: s("ord-1"),
            account_id: s("acct-1"),
            authz_id: s("authz-1"),
            challenge_id: s("chall-1"),
            challenge_type: s("http-01"),
            identifier: s("a.example.com"),
            error: s("connection refused"),
            client_ip: Some(s("203.0.113.5")),
        }),
    ]
}

// ------------------------------------------------------------------- events

#[test]
fn every_event_answers_every_accessor() {
    let events = every_event();
    assert_eq!(
        events.len(),
        all_notify_events().len(),
        "every declared event kind needs a sample here"
    );

    for event in &events {
        assert_eq!(event.profile(), "p");
        assert!(
            all_notify_events().contains(&event.kind()),
            "{}",
            event.kind()
        );

        assert!(!event.fields().is_empty());
        let payload = event.payload();
        assert_eq!(
            payload.get("hook").and_then(|v| v.as_str()),
            Some(event.kind()),
            "the payload must name its own hook"
        );
        assert_eq!(payload.get("profile").and_then(|v| v.as_str()), Some("p"));
    }

    let mounted = &events[0];
    assert_eq!(mounted.client_ip(), None);
    assert_eq!(mounted.account_id(), None);
    assert_eq!(mounted.order_id(), None);
    assert_eq!(mounted.cert_serial(), None);
    assert_eq!(mounted.identifiers_joined(), "");

    for event in &events[1..] {
        assert_eq!(event.account_id(), Some("acct-1"));
    }
    assert_eq!(events[4].client_ip(), None);
    assert_eq!(events[1].client_ip(), Some("203.0.113.5"));

    assert_eq!(events[1].order_id(), None);
    assert_eq!(events[2].cert_serial(), None);
    for event in &events[3..] {
        assert_eq!(event.order_id(), Some("ord-1"));
    }
    assert_eq!(events[3].cert_serial(), Some("0a0b"));
    assert_eq!(events[4].cert_serial(), Some("0a0b"));
    assert_eq!(events[5].cert_serial(), None);

    assert_eq!(
        events[3].identifiers_joined(),
        "a.example.com,b.example.com"
    );
    assert_eq!(events[5].identifiers_joined(), "");
}

#[test]
fn every_event_round_trips_through_its_payload() {
    for event in every_event() {
        let encoded = event.payload();
        let decoded = NotifyEvent::from_payload(&encoded)
            .unwrap_or_else(|error| panic!("{} must decode: {error}", event.kind()));
        assert_eq!(decoded.kind(), event.kind());
        assert_eq!(decoded.profile(), event.profile());
        assert_eq!(decoded.payload(), encoded, "re-encoding must be stable");
        assert_eq!(decoded, event);
    }
}

fn text(value: &str) -> Json {
    Json::Text(value.to_string())
}

fn member(name: &str, value: Json) -> (String, Json) {
    (name.to_string(), value)
}

#[test]
fn payload_is_tagged_with_its_own_hook() {
    let event = NotifyEvent::CertificateIssued(CertificateIssuedData {
        profile: s("le"),
        order_id: s("ord-1"),
        account_id: s("acct-1"),
        cert_serial: s("0a0b"),
        identifiers: vec![s("a.example.com")],
        client_ip: Some(s("203.0.113.5")),
    });

    assert_eq!(
        event.payload(),
        Json::Object(vec![
            member("hook", text("certificate_issued")),
            member("profile", text("le")),
            member("order_id", text("ord-1")),
            member("account_id", text("acct-1")),
            member("cert_serial", text("0a0b")),
            member("identifiers", Json::Array(vec![text("a.example.com")])),
            member("client_ip", text("203.0.113.5")),
        ])
    );
}

#[test]
fn an_absent_value_is_null_and_may_be_left_out() {
    let revoked = CertificateRevokedData {
        profile: s("p"),
        order_id: s("o"),
        account_id: s("a"),
        cert_serial: s("c"),
        reason: None,
        client_ip: None,
    };
    let event = NotifyEvent::CertificateRevoked(revoked);
    let payload = event.payload();
    assert_eq!(payload.get("reason"), Some(&Json::Null));
    let members = match payload {
        Json::Object(members) => members,
        other => panic!("{other:?}"),
    };
    let short: Vec<(String, Json)> = members
        .into_iter()
        .filter(|(name, _)| name != "reason" && name != "client_ip")
        .collect();
    assert_eq!(NotifyEvent::from_payload(&Json::Object(short)), Ok(event));
}

#[test]
fn an_unreadable_event_says_why() {
    let read = |members| NotifyEvent::from_payload(&Json::Object(members)).unwrap_err();
    assert_eq!(
        NotifyEvent::from_payload(&Json::Null).unwrap_err(),
        "invalid type: null, expected internally tagged enum NotifyEvent"
    );
    assert_eq!(
        NotifyEvent::from_payload(&text("a\"b")).unwrap_err(),
        "invalid type: string \"a\\\"b\", expected internally tagged enum NotifyEvent"
    );
    assert_eq!(read(vec![]), "missing field `hook`");
    assert_eq!(
        read(vec![member("hook", Json::Null)]),
        "invalid type: null, expected variant identifier"
    );
    assert_eq!(
        read(vec![member("hook", text("certificate_exploded"))]),
        "unknown variant `certificate_exploded`, expected one of `profile_mounted`, `account_created`, `account_deactivated`, `certificate_issued`, `certificate_revoked`, `challenge_failed`"
    );
    assert_eq!(
        read(vec![member("hook", text("profile_mounted"))]),
        "missing field `profile`"
    );
    assert_eq!(
        read(vec![
            member("hook", text("profile_mounted")),
            member("profile", Json::Bool(true)),
        ]),
        "invalid type: boolean `true`, expected a string"
    );
    let account = |contact: Json, ip: Json| {
        NotifyEvent::from_payload(&Json::Object(vec![
            member("client_ip", ip),
            member("contact", contact),
            member("account_id", text("a")),
            member("profile", text("p")),
            member("hook", text("account_created")),
            member("unknown", Json::Null),
        ]))
    };
    assert!(account(Json::Array(vec![text("x")]), Json::Null).is_ok());
    assert_eq!(
        account(Json::Array(vec![Json::Null]), Json::Null).unwrap_err(),
        "invalid type: null, expected a string"
    );
    assert_eq!(
        account(text("x"), Json::Null).unwrap_err(),
        "invalid type: string \"x\", expected a sequence"
    );
    assert_eq!(
        account(Json::Object(vec![]), Json::Array(vec![])).unwrap_err(),
        "invalid type: sequence, expected a string",
        "the first member that does not fit decides"
    );
    // What does not fit comes before what is left out.
    assert_eq!(
        read(vec![
            member("client_ip", Json::Object(vec![])),
            member("hook", text("account_created")),
        ]),
        "invalid type: map, expected a string"
    );
    let revoked = |code: Number| {
        NotifyEvent::from_payload(&Json::Object(vec![
            member("hook", text("certificate_revoked")),
            member("profile", text("p")),
            member("order_id", text("o")),
            member("account_id", text("a")),
            member("cert_serial", text("c")),
            member("reason", Json::Number(code)),
        ]))
    };
    assert!(revoked(Number::Whole(u32::MAX as u64)).is_ok());
    assert_eq!(
        revoked(Number::Whole(1 << 32)).unwrap_err(),
        "invalid value: integer `4294967296`, expected u32"
    );
    assert_eq!(
        revoked(Number::Negative(-5)).unwrap_err(),
        "invalid value: integer `-5`, expected u32"
    );
    assert_eq!(
        revoked(Number::Fraction(s("1.5"))).unwrap_err(),
        "invalid type: floating point `1.5`, expected u32"
    );
}

#[test]
fn an_event_reads_from_a_list_too() {
    let read = |items| NotifyEvent::from_payload(&Json::Array(items));
    assert_eq!(
        read(vec![text("profile_mounted"), text("le")]),
        Ok(profile_mounted("le"))
    );
    assert_eq!(read(vec![]).unwrap_err(), "missing field `hook`");
    assert_eq!(
        read(vec![Json::Number(Number::Whole(0))]).unwrap_err(),
        "invalid type: integer `0`, expected variant identifier"
    );
    assert_eq!(
        read(vec![text("profile_mounted")]).unwrap_err(),
        "invalid length 0, expected struct ProfileMountedData with 1 element"
    );
    assert_eq!(
        read(vec![text("account_deactivated"), text("le"), text("a")]).unwrap_err(),
        "invalid length 2, expected struct AccountDeactivatedData with 3 elements",
        "no field may be left out of a list"
    );
    assert_eq!(
        read(vec![text("profile_mounted"), Json::Bool(false)]).unwrap_err(),
        "invalid type: boolean `false`, expected a string"
    );
    assert_eq!(
        read(vec![text("profile_mounted"), text("le"), text("x"), text("y")]).unwrap_err(),
        "invalid length 3, expected 1 element in sequence"
    );
}

// ---------------------------------------------------------------- templates

fn environment(templates: &[(&str, &str)]) -> Environment<'static> {
    let mut env = Environment::new();
    for (name, source) in templates {
        env.add_template_owned(name.to_string(), source.to_string()).unwrap();
    }
    env
}

#[test]
fn embedded_defaults_render_with_no_template_dir() {
    let env = environment(&[
        ("email/certificate_issued.subject.j2", "[{{ profile }}] issued"),
        (
            "email/certificate_issued.body.j2",
            "{% for name in identifiers %}{{ name }} {% endfor %}{{ client_ip }}",
        ),
    ]);
    let event = NotifyEvent::CertificateIssued(CertificateIssuedData {
        profile: s("le"),
        order_id: s("ord-1"),
        account_id: s("acc-1"),
        cert_serial: s("AA:BB"),
        identifiers: vec![s("example.com")],
        client_ip: Some(s("203.0.113.1")),
    });

    let subject = render(&env, "email/certificate_issued.subject.j2", &event).unwrap();
    assert!(subject.contains("le"), "{subject}");

    let body = render(&env, "email/certificate_issued.body.j2", &event).unwrap();
    assert!(body.contains("example.com"), "{body}");
    assert!(body.contains("203.0.113.1"), "{body}");

    let notifier = EmailNotifier::from_config(&email()).ok().unwrap();
    let message = notifier.message_for(&env, &event).unwrap();
    assert_eq!(message.subject, "[le] issued");
    assert_eq!(message.body, body);
}

#[test]
fn a_template_failure_is_permanent() {
    let env = environment(&[("email/profile_mounted.body.j2", "{{ profile.no_such() }}")]);

    let missing = render(&env, "email/no_such_event.body.j2", &profile_mounted("le"))
        .expect_err("there is no such template");
    assert!(!missing.retryable(), "{}", missing.message());
    assert!(missing
        .message()
        .starts_with("template `email/no_such_event.body.j2` not found: "));

    let broken = render(&env, "email/profile_mounted.body.j2", &profile_mounted("le"))
        .expect_err("the template does not render");
    assert!(!broken.retryable(), "{}", broken.message());
    assert!(broken
        .message()
        .starts_with("template `email/profile_mounted.body.j2` failed: "));

    let worded = rendered("t", Err(TemplateFailure::NotFound(s("e")))).unwrap_err();
    assert_eq!(worded.message(), "template `t` not found: e");
    assert_eq!(rendered("t", Ok(s("text"))), Ok(s("text")));
}

#[test]
fn a_revocation_renders_its_code_and_absences() {
    let env = environment(&[("t", "{{ reason }}/{% if client_ip is none %}none{% endif %}/{{ cert_serial }}")]);
    assert_eq!(render(&env, "t", &every_event()[4]).unwrap(), "1/none/0a0b");
}

// ------------------------------------------------------------------- errors

#[test]
fn the_error_split_survives_the_round_trip() {
    assert!(NotifyError::new("connection refused").retryable());
    assert!(!NotifyError::permanent("template missing").retryable());
}

#[test]
fn an_attempt_ends_as_its_backend_says() {
    assert_eq!(run(&Ok(())), JobOutcome::Done);
    assert_eq!(
        run(&Err(NotifyError::new("connection refused"))),
        JobOutcome::Retry(s("connection refused"))
    );
    assert_eq!(
        run(&Err(NotifyError::permanent("template missing"))),
        JobOutcome::Failed(s("template missing"))
    );
    assert_eq!(retired(s("gone")), JobOutcome::Failed(s("gone")));
}

// --------------------------------------------------------------- dispatcher

fn dispatcher(slots: Vec<BackendSlot<&'static str>>) -> NotifyDispatcher<&'static str> {
    NotifyDispatcher::new("le", slots)
}

#[test]
fn one_dispatch_queues_one_row_per_wanting_backend() {
    let dispatcher = dispatcher(vec![
        BackendSlot::new("email", "e", &every_kind()),
        BackendSlot::new("custom:webhook", "w", &every_kind()),
        BackendSlot::new("custom:pager", "p", &vec![s("certificate_revoked")]),
    ]);
    let rows = dispatcher.dispatch(&profile_mounted("le"), "d-1", 7);
    assert_eq!(rows.len(), 2, "the third backend does not want this kind");
    assert_eq!(rows[0].kind, "notify_deliver");
    assert_eq!(rows[0].key, "d-1:email");
    assert_eq!(rows[1].key, "d-1:custom:webhook");
    assert_eq!(rows[0].run_at, 7);
    assert_eq!(
        rows[1].payload,
        Json::Object(vec![
            member("profile", text("le")),
            member("backend", text("custom:webhook")),
            member(
                "event",
                Json::Object(vec![
                    member("hook", text("profile_mounted")),
                    member("profile", text("le")),
                ])
            ),
        ])
    );
    assert_eq!(dispatcher.dispatch(&every_event()[4], "d-2", 7).len(), 3);
}

#[test]
fn the_same_event_dispatched_twice_queues_twice() {
    let dispatcher = dispatcher(vec![BackendSlot::new("email", "e", &every_kind())]);
    let first = dispatcher.dispatch_now(&profile_mounted("le"), 7);
    let second = dispatcher.dispatch_now(&profile_mounted("le"), 7);
    assert_eq!((first.len(), second.len()), (1, 1));
    assert_ne!(first[0].key, second[0].key);
    assert!(first[0].key.ends_with(":email"));
}

#[test]
fn a_disabled_dispatcher_queues_nothing() {
    let disabled: NotifyDispatcher<()> = NotifyDispatcher::disabled();
    assert!(disabled.dispatch(&profile_mounted("le"), "d", 7).is_empty());
    assert_eq!(disabled.profile(), "default");
}

#[test]
fn deliver_reaches_one_backend_and_reports_an_unknown_id() {
    let dispatcher = dispatcher(vec![
        BackendSlot::new("a", "first", &every_kind()),
        BackendSlot::new("b", "other", &every_kind()),
    ]);
    assert_eq!(dispatcher.deliver("b"), Some(&"other"));
    assert_eq!(dispatcher.deliver("carrier-pigeon"), None);
    assert_eq!(dispatcher.slot("a").unwrap().id(), "a");
    assert!(dispatcher.slot("a").unwrap().wants(&profile_mounted("x")));
}

#[test]
fn a_queued_row_is_delivered_to_its_backend_or_retired() {
    let le = dispatcher(vec![BackendSlot::new("recording", "r", &every_kind())]);
    let rows = le.dispatch(&profile_mounted("le"), "d", 7);
    let mut map = StringMap::new();
    map.insert(s("le"), le);
    let job = NotifyJob::new(map);
    assert_eq!(job.kind(), "notify_deliver");
    match job.plan(&rows[0].payload) {
        Plan::Send { delivery, backend } => {
            assert_eq!(*backend, "r");
            assert_eq!(delivery.profile, "le");
            assert_eq!(delivery.event, profile_mounted("le"));
        }
        Plan::Retire(reason) => panic!("{reason}"),
    }
    assert_eq!(
        job.abandon(&rows[0].payload),
        (s("le"), s("recording"), s("profile_mounted"))
    );
    assert_eq!(job.abandon(&Json::Null), (s(""), s(""), s("")));

    let row = |profile: &str, backend: &str| {
        Json::Object(vec![
            member("profile", text(profile)),
            member("backend", text(backend)),
            member("event", profile_mounted("le").payload()),
        ])
    };
    let reason = |payload: &Json| match job.plan(payload) {
        Plan::Retire(reason) => reason,
        Plan::Send { .. } => panic!("not retired"),
    };
    assert_eq!(
        reason(&row("staging", "recording")),
        "no profile `staging` is mounted, so its notification cannot be delivered"
    );
    assert_eq!(
        reason(&row("le", "carrier-pigeon")),
        "profile `le` has no notify backend `carrier-pigeon` configured any more"
    );
    assert_eq!(reason(&Json::Null), "the job payload names no profile");
    assert_eq!(
        reason(&Json::Object(vec![member("profile", text("le"))])),
        "the job payload names no backend"
    );
    assert_eq!(
        reason(&Json::Object(vec![
            member("profile", text("le")),
            member("backend", text("b"))
        ])),
        "the job payload carries no event"
    );
    assert_eq!(
        Delivery::parse(&Json::Object(vec![
            member("profile", text("le")),
            member("backend", text("b")),
            member("event", Json::Null),
        ])),
        Err(s("the job payload's event does not parse: invalid type: null, expected internally tagged enum NotifyEvent"))
    );
}

// ------------------------------------------------------------ configuration

fn email() -> EmailNotifyConfig {
    EmailNotifyConfig {
        smtp_host: s("smtp.example.com"),
        from: s("acme@example.com"),
        to: vec![s("ops@example.com")],
        ..EmailNotifyConfig::default()
    }
}

fn email_error(cfg: EmailNotifyConfig) -> String {
    EmailNotifier::from_config(&cfg).err().unwrap()
}

#[test]
fn missing_smtp_host_is_a_startup_error() {
    let error = email_error(EmailNotifyConfig {
        smtp_host: String::new(),
        ..email()
    });
    assert!(error.contains("smtp_host is empty"));
}

#[test]
fn missing_to_is_a_startup_error() {
    let error = email_error(EmailNotifyConfig {
        to: Vec::new(),
        ..email()
    });
    assert!(error.contains("to is empty"));
}

#[test]
fn unknown_smtp_security_is_a_startup_error() {
    let error = email_error(EmailNotifyConfig {
        smtp_security: s("smtps-but-typo"),
        ..email()
    });
    assert!(error.contains("smtp_security"));
}

#[test]
fn invalid_from_address_is_a_startup_error() {
    let error = email_error(EmailNotifyConfig {
        from: s("not an address"),
        ..email()
    });
    assert!(error.contains("notify.email.from"));
}

#[test]
fn an_invalid_recipient_is_a_startup_error() {
    let error = email_error(EmailNotifyConfig {
        to: vec![s("ops@example.com"), s("not an address")],
        ..email()
    });
    assert!(error.contains("notify.email.to"), "{error}");
}

#[test]
fn a_missing_from_is_a_startup_error() {
    let error = email_error(EmailNotifyConfig {
        from: String::new(),
        ..email()
    });
    assert!(error.contains("from is empty"), "{error}");
}

#[test]
fn every_smtp_security_mode_is_recognised() {
    for (mode, expected) in [
        ("starttls", SmtpSecurity::StartTls),
        ("tls", SmtpSecurity::Tls),
        ("none", SmtpSecurity::Plain),
    ] {
        let notifier = EmailNotifier::from_config(&EmailNotifyConfig {
            smtp_security: s(mode),
            from: s("ACME Proxy <acme@example.com>"),
            smtp_username: s("user"),
            smtp_password: s("pass"),
            ..email()
        })
        .ok()
        .unwrap();
        assert_eq!(notifier.security, expected);
        assert_eq!(notifier.name(), "email");
        assert_eq!(
            notifier.from,
            Mailbox {
                name: Some(s("ACME Proxy")),
                email: s("acme@example.com")
            }
        );
        assert_eq!(notifier.to[0].name, None);
        assert_eq!(notifier.credentials, Some((s("user"), s("pass"))));
        assert_eq!(notifier.timeout, Duration::from_millis(10_000));
    }
    let plain = EmailNotifier::from_config(&email()).ok().unwrap();
    assert_eq!(plain.credentials, None);
    assert_eq!(plain.port, 587);
}

#[test]
fn a_mail_that_does_not_go_out_may_go_out_later() {
    let notifier = EmailNotifier::from_config(&email()).ok().unwrap();
    assert_eq!(notifier.send(&MailEnd::Sent), Ok(()));
    let failed = notifier.send(&MailEnd::Undelivered(s("refused"))).unwrap_err();
    assert_eq!(failed.message(), "SMTP delivery failed: refused");
    assert!(failed.retryable());
    let unbuilt = notifier.send(&MailEnd::Unbuilt(s("no to"))).unwrap_err();
    assert_eq!(unbuilt.message(), "failed to build message: no to");
    assert!(unbuilt.retryable());
    assert_eq!(
        EmailNotifier::templates(&profile_mounted("p")),
        (s("email/profile_mounted.subject.j2"), s("email/profile_mounted.body.j2"))
    );
    assert_eq!(EmailNotifier::compose(" s \n", s(" b ")).subject, "s");
}

#[test]
fn missing_script_path_bails() {
    let cfg = CustomNotifyConfig {
        script_path: s("  "),
        ..Default::default()
    };
    assert!(CustomScriptNotifier::from_config(&cfg).is_err());
}

#[test]
fn a_script_is_told_of_the_event_and_its_ending_is_the_delivery() {
    let notifier = CustomScriptNotifier::from_config(&CustomNotifyConfig {
        script_path: s("/notify.sh"),
        ..Default::default()
    })
    .unwrap();
    assert_eq!(notifier.name(), "custom");
    let request = notifier.request(&every_event()[3]);
    assert_eq!(
        request.envs,
        vec![
            (s("ACME_NOTIFY_HOOK"), s("certificate_issued")),
            (s("ACME_NOTIFY_PROFILE"), s("p")),
            (s("ACME_NOTIFY_CLIENT_IP"), s("203.0.113.5")),
            (s("ACME_NOTIFY_ACCOUNT_ID"), s("acct-1")),
            (s("ACME_NOTIFY_ORDER_ID"), s("ord-1")),
            (s("ACME_NOTIFY_CERT_SERIAL"), s("0a0b")),
            (s("ACME_NOTIFY_IDENTIFIERS"), s("a.example.com,b.example.com")),
        ]
    );
    assert_eq!(request.payload, every_event()[3].payload());
    let bare = notifier.request(&profile_mounted("le"));
    assert_eq!(bare.envs[2].1, "");

    let ended = |code| {
        ScriptRun::Finished(ScriptOutcome {
            code: Some(code),
            stdout: vec![],
            stderr: vec![],
        })
    };
    assert_eq!(notifier.send(&ended(0)), Ok(()));
    let failed = notifier.send(&ended(3)).unwrap_err();
    assert_eq!(failed.message(), "custom notify script exited with status 3");
    assert!(failed.retryable());
    let unspawned = notifier
        .send(&ScriptRun::Failed(s("failed to spawn script /notify.sh")))
        .unwrap_err();
    assert_eq!(
        unspawned.message(),
        "custom notify failed to spawn script /notify.sh"
    );
}

// ------------------------------------------------------------------ webhook

fn webhook() -> WebhookNotifyConfig {
    WebhookNotifyConfig {
        url: s("https://chat.example.com/hooks/xyz"),
        ..WebhookNotifyConfig::default()
    }
}

fn headers(pairs: &[(&str, &str)]) -> StringMap<String> {
    let mut map = StringMap::new();
    for (name, value) in pairs {
        map.insert(name.to_string(), value.to_string());
    }
    map
}

fn build(cfg: &WebhookNotifyConfig) -> Result<WebhookNotifier, String> {
    WebhookNotifier::from_config("chat", cfg)
}

/// The environment a notifier renders with: the shared messages, and its own.
fn webhook_env(notifier: &WebhookNotifier) -> Environment<'static> {
    environment(&[
        ("webhook/profile_mounted.j2", "{{ profile }} is mounted"),
        ("webhook/challenge_failed.j2", "{{ identifier }}: {{ error }}"),
        (notifier.body_template.as_str(), notifier.body.as_str()),
    ])
}

#[test]
fn an_unusable_entry_is_a_startup_error() {
    let cases: Vec<(WebhookNotifyConfig, &str)> = vec![
        (
            WebhookNotifyConfig {
                url: String::new(),
                ..webhook()
            },
            "url is empty",
        ),
        (
            WebhookNotifyConfig {
                url: s("not a url"),
                ..webhook()
            },
            "not a valid URL",
        ),
        (
            WebhookNotifyConfig {
                url: s("ftp://chat.example.com/hooks/xyz"),
                ..webhook()
            },
            "must be http",
        ),
        (
            WebhookNotifyConfig {
                method: s("GET"),
                ..webhook()
            },
            "unknown method `GET`",
        ),
        (
            WebhookNotifyConfig {
                headers: headers(&[("not a header", "x")]),
                ..webhook()
            },
            "is not a header name",
        ),
        (
            WebhookNotifyConfig {
                headers: headers(&[("x-token", "bad\nvalue")]),
                ..webhook()
            },
            "not a valid header value",
        ),
        (
            WebhookNotifyConfig {
                body: s("   "),
                ..webhook()
            },
            "body is empty",
        ),
        (
            WebhookNotifyConfig {
                body: s("{{ message"),
                ..webhook()
            },
            "not a valid template",
        ),
    ];

    for (config, expected) in cases {
        let error = build(&config).err().unwrap();
        assert!(
            error.contains(expected) && error.contains("notify.webhook.chat"),
            "expected `{expected}` naming the entry, got: {error}"
        );
    }
}

#[test]
fn a_header_value_is_never_quoted() {
    let error = build(&WebhookNotifyConfig {
        headers: headers(&[("X-Token", "s3cret\n")]),
        ..webhook()
    })
    .err()
    .unwrap();
    assert_eq!(
        error,
        "notify.webhook.chat.headers.x-token: the value is not a valid header value"
    );
}

#[test]
fn a_method_is_case_insensitive() {
    let notifier = build(&WebhookNotifyConfig {
        method: s("put"),
        ..webhook()
    })
    .ok()
    .unwrap();
    assert_eq!(notifier.method, "PUT");
}

#[test]
fn a_configured_header_overrides_a_default() {
    let notifier = build(&WebhookNotifyConfig {
        headers: headers(&[
            ("Authorization", "Bearer s3cret"),
            ("content-type", "application/vnd.chat"),
        ]),
        ..webhook()
    })
    .ok()
    .unwrap();
    assert_eq!(notifier.name(), "webhook");
    assert_eq!(notifier.headers.len(), 3);
    assert_eq!(notifier.headers["authorization"], "Bearer s3cret");
    assert_eq!(notifier.headers["content-type"], "application/vnd.chat");
    assert_eq!(notifier.headers["user-agent"], "acme-proxy");

    let plain = build(&webhook()).ok().unwrap();
    assert_eq!(plain.headers["content-type"], "application/json");
    assert_eq!(plain.headers.len(), 2);
}

#[test]
fn many_headers_are_kept() {
    let mut map = StringMap::new();
    for i in 0..6_000 {
        map.insert(format!("x-{i}"), "v".to_string());
    }
    let notifier = build(&WebhookNotifyConfig {
        headers: map,
        ..webhook()
    })
    .ok()
    .unwrap();
    assert_eq!(notifier.headers.len(), 6_002);
}

#[test]
fn a_message_holding_quotes_and_newlines_still_renders_valid_json() {
    let notifier = build(&webhook()).ok().unwrap();
    let event = NotifyEvent::ChallengeFailed(ChallengeFailedData {
        profile: s("default"),
        order_id: s("o1"),
        account_id: s("a1"),
        authz_id: s("z1"),
        challenge_id: s("c1"),
        challenge_type: s("http-01"),
        identifier: s("www.example.com"),
        error: s("fetched \"nonsense\"\nand a backslash \\"),
        client_ip: None,
    });

    let body = notifier.body_for(&webhook_env(&notifier), &event).unwrap();
    let parsed: serde_json::Value =
        serde_json::from_str(&body).unwrap_or_else(|error| panic!("{error}: {body}"));
    let text = parsed["text"].as_str().unwrap();
    assert!(text.contains("nonsense"), "{text}");
    assert!(text.contains("www.example.com"), "{text}");
}

#[test]
fn a_body_template_sees_the_events_own_fields() {
    let notifier = build(&WebhookNotifyConfig {
        body: s(
            "{\"chat_id\": \"-100\", \"hook\": {{ hook | tojson }}, \"profile\": {{ profile | tojson }}, \"text\": {{ message | tojson }}}",
        ),
        ..webhook()
    })
    .ok()
    .unwrap();

    let body = notifier
        .body_for(&webhook_env(&notifier), &profile_mounted("default"))
        .unwrap();
    let parsed: serde_json::Value = serde_json::from_str(&body).unwrap();
    assert_eq!(parsed["hook"], "profile_mounted");
    assert_eq!(parsed["profile"], "default");
    assert_eq!(parsed["chat_id"], "-100");
    assert_eq!(parsed["text"], "default is mounted");
    let fields = body_fields("m", &profile_mounted("default"));
    let names: Vec<&str> = fields.iter().map(|(name, _)| *name).collect();
    assert_eq!(names, vec!["message", "hook", "profile"]);
}

#[test]
fn a_body_that_fails_at_render_time_is_permanent() {
    let notifier = build(&WebhookNotifyConfig {
        body: s("{{ message.no_such_method() }}"),
        ..webhook()
    })
    .ok()
    .unwrap();

    let error = notifier
        .body_for(&webhook_env(&notifier), &profile_mounted("default"))
        .unwrap_err();
    assert!(
        error.message().contains("notify.webhook.chat.body"),
        "{}",
        error.message()
    );
    assert!(!error.retryable(), "{}", error.message());
}

#[test]
fn webhook_only_a_transient_status_is_retried() {
    for status in [500, 502, 503, 429, 408] {
        assert!(retryable_status(status), "{status} must be retried");
    }
    for status in [400, 401, 403, 404, 410] {
        assert!(!retryable_status(status), "{status} must not be retried");
    }
}

#[test]
fn mattermost_only_a_transient_status_is_retried() {
    let notifier = mattermost("https://chat.example.com/hooks/xyz").unwrap();
    let answer = |status| {
        notifier
            .send(&SendEnd::Answered {
                status,
                body: b"quoted".to_vec(),
            })
            .unwrap_err()
    };
    for status in [500, 502, 503, 429, 408] {
        assert!(answer(status).retryable(), "{status} must be retried");
    }
    for status in [400, 401, 403, 404, 410] {
        assert!(!answer(status).retryable(), "{status} must not be retried");
    }
    assert_eq!(answer(404).message(), "webhook returned 404 Not Found");
}

#[test]
fn the_end_of_a_request_is_the_delivery() {
    let notifier = build(&WebhookNotifyConfig {
        timeout_ms: 1_500,
        ..webhook()
    })
    .ok()
    .unwrap();
    let answered = |status, body: &[u8]| SendEnd::Answered {
        status,
        body: body.to_vec(),
    };
    assert_eq!(notifier.send(&answered(204, b"")), Ok(()));
    let refused = notifier.send(&answered(400, b" invalid_payload\n")).unwrap_err();
    assert_eq!(refused.message(), "webhook returned 400 Bad Request: invalid_payload");
    let silent = notifier.send(&answered(503, b"  ")).unwrap_err();
    assert_eq!(silent.message(), "webhook returned 503 Service Unavailable");
    assert!(silent.retryable());
    let late = notifier.send(&SendEnd::TimedOut).unwrap_err();
    assert_eq!(late.message(), "timed out after 1.5s");
    assert!(late.retryable());
    let unusable = notifier.send(&SendEnd::Unusable(s("no host"))).unwrap_err();
    assert!(!unusable.retryable());
    let unreachable = notifier.send(&SendEnd::Unreachable(s("refused"))).unwrap_err();
    assert_eq!((unreachable.message(), unreachable.retryable()), ("refused", true));
    assert_eq!(excerpt("ä".repeat(300).as_bytes()), "ä".repeat(200));
}

#[test]
fn debug_renders_neither_the_url_path_nor_a_header_value() {
    let notifier = build(&WebhookNotifyConfig {
        url: s("https://chat.example.com/hooks/T00/B00/s3cret-hook-id"),
        headers: headers(&[("Authorization", "Bearer s3cret")]),
        ..webhook()
    })
    .ok()
    .unwrap();

    let rendered = notifier.describe();
    assert!(rendered.contains("chat.example.com"), "{rendered}");
    assert!(rendered.contains("authorization"), "{rendered}");
    assert!(!rendered.contains("s3cret"), "{rendered}");
    assert!(
        rendered.starts_with("WebhookNotifier { entry: \"") && rendered.contains("webhook_host: Some(\"chat.example.com\"), method: \"POST\", headers: [\"authorization\", \"content-type\""),
        "{rendered}"
    );
}

#[test]
fn the_dispatcher_debug_names_its_backends() {
    let slot = BackendSlot::new("recording", (), &every_kind());
    let dispatcher = NotifyDispatcher::new("le", vec![slot]);
    assert_eq!(
        dispatcher.describe(),
        "NotifyDispatcher { profile: \"le\", backends: [\"recording\"] }"
    );
    assert!(NotifyDispatcher::<()>::disabled().describe().contains("[]"));
}

#[test]
fn a_mattermost_notifier_shows_its_host_alone() {
    let rendered = mattermost("https://chat.example.com/hooks/s3cret").unwrap().describe();
    assert_eq!(
        rendered,
        "MattermostNotifier { webhook_host: Some(\"chat.example.com\"), channel: \"\", username: \"\", timeout: 1s }"
    );
}

// --------------------------------------------------------------- mattermost

fn mattermost(url: &str) -> Result<MattermostNotifier, String> {
    MattermostNotifier::from_config(&MattermostNotifyConfig {
        webhook_url: s(url),
        channel: String::new(),
        username: String::new(),
        timeout_ms: 1_000,
    })
}

#[test]
fn missing_webhook_url_is_a_startup_error() {
    let error = mattermost("").err().unwrap();
    assert!(error.contains("webhook_url is empty"));
}

#[test]
fn non_http_scheme_is_a_startup_error() {
    let error = mattermost("ftp://mattermost.example.com/hooks/xyz").err().unwrap();
    assert!(error.contains("http"));
    let error = mattermost("nope").err().unwrap();
    assert!(error.contains("is not a valid URL"));
}

#[test]
fn a_mattermost_payload_names_what_is_configured() {
    let mut notifier = mattermost("https://mattermost.example.com/hooks/xyz").unwrap();
    assert_eq!(notifier.name(), "mattermost");
    assert_eq!(
        notifier.payload("t"),
        Json::Object(vec![member("text", text("t"))])
    );
    notifier.username = s("acme");
    assert_eq!(
        notifier.payload("t"),
        Json::Object(vec![member("text", text("t")), member("username", text("acme"))])
    );
    notifier.channel = s("ops");
    assert_eq!(
        notifier.payload("t"),
        Json::Object(vec![
            member("text", text("t")),
            member("channel", text("ops")),
            member("username", text("acme")),
        ])
    );
    assert_eq!(
        MattermostNotifier::template(&profile_mounted("p")),
        "mattermost/profile_mounted.j2"
    );
}

// -------------------------------------------------------------- from_config

fn notify(enabled: &[&str]) -> NotifyConfig {
    NotifyConfig {
        enabled: enabled.iter().map(|name| name.to_string()).collect(),
        email: EmailNotifyConfig {
            smtp_security: s("none"),
            ..email()
        },
        ..NotifyConfig::default()
    }
}

fn with_webhooks(names: &[&str], selected: &[&str]) -> NotifyConfig {
    let mut map = StringMap::new();
    for name in names {
        map.insert(name.to_string(), webhook());
    }
    NotifyConfig {
        webhook: map,
        webhook_enabled: selected.iter().map(|name| name.to_string()).collect(),
        ..notify(&["email", "webhook"])
    }
}

fn notify_error(cfg: NotifyConfig) -> String {
    from_config("le", &cfg).err().unwrap()
}

#[test]
fn each_backend_name_builds_its_own_backend() {
    let built = from_config("le", &with_webhooks(&["chat"], &["chat"])).ok().unwrap();
    assert_eq!(built.profile(), "le");
    assert!(matches!(built.deliver("email"), Some(Backend::Email(_))));
    assert!(matches!(built.deliver("webhook:chat"), Some(Backend::Webhook(_))));
    assert_eq!(built.deliver("webhook:chat").unwrap().name(), "webhook");
}

#[test]
fn two_webhook_entries_get_distinct_slot_ids() {
    let built = from_config("le", &with_webhooks(&["slack", "teams"], &["teams", "slack"]))
        .ok()
        .unwrap();
    assert!(built.slot("webhook:slack").is_some());
    assert!(built.slot("webhook:teams").is_some());
    assert!(built.slot("webhook").is_none());
}

#[test]
fn two_custom_entries_get_distinct_slot_ids() {
    let mut custom = StringMap::new();
    for name in ["webhook", "pager"] {
        custom.insert(
            s(name),
            CustomNotifyConfig {
                script_path: s("/notify.sh"),
                ..CustomNotifyConfig::default()
            },
        );
    }
    let cfg = NotifyConfig {
        custom,
        custom_enabled: vec![s("webhook"), s("pager")],
        ..notify(&["custom"])
    };
    let built = from_config("le", &cfg).ok().unwrap();
    assert!(built.slot("custom:webhook").is_some());
    assert!(built.slot("custom:pager").is_some());
    assert!(built.slot("custom").is_none());
}

#[test]
fn a_section_at_fault_is_a_startup_error() {
    let error = notify_error(notify(&["mattermost"]));
    assert!(error.contains("mattermost") && error.contains("webhook"), "{error}");

    assert_eq!(
        notify_error(notify(&["carrier-pigeon"])),
        "unknown notify backend: carrier-pigeon"
    );

    let error = notify_error(notify(&["custom"]));
    assert!(error.contains("notify.custom_enabled is empty"), "{error}");

    let error = notify_error(NotifyConfig {
        custom_enabled: vec![s("webhook")],
        ..notify(&["custom"])
    });
    assert!(error.contains("notify.custom_enabled names `webhook`"), "{error}");

    let mut custom = StringMap::new();
    custom.insert(s("Web Hook"), CustomNotifyConfig::default());
    let error = notify_error(NotifyConfig {
        custom,
        custom_enabled: vec![s("Web Hook")],
        ..notify(&["custom"])
    });
    assert!(error.contains("invalid name"), "{error}");

    let mut custom = StringMap::new();
    custom.insert(s("pager"), CustomNotifyConfig::default());
    let error = notify_error(NotifyConfig {
        custom,
        custom_enabled: vec![s("pager")],
        ..notify(&["custom"])
    });
    assert!(error.contains("script_path is empty"), "{error}");

    let error = notify_error(NotifyConfig {
        email: EmailNotifyConfig {
            smtp_security: s("carrier-pigeon"),
            ..email()
        },
        ..notify(&["email"])
    });
    assert!(error.contains("smtp_security"), "{error}");
}

#[test]
fn an_unknown_event_name_is_caught_on_each_backend() {
    let mut cfg = notify(&["email"]);
    cfg.email.events = vec![s("certificate_issued"), s("certificate_exploded")];
    assert_eq!(
        notify_error(cfg),
        "notify.email.events: unknown event `certificate_exploded` (expected one of \
         [\"profile_mounted\", \"account_created\", \"account_deactivated\", \
         \"certificate_issued\", \"certificate_revoked\", \"challenge_failed\"])"
    );

    let mut map = StringMap::new();
    map.insert(
        s("chat"),
        WebhookNotifyConfig {
            events: vec![s("certificate_exploded")],
            ..webhook()
        },
    );
    let error = notify_error(NotifyConfig {
        webhook: map,
        webhook_enabled: vec![s("chat")],
        ..notify(&["webhook"])
    });
    assert!(error.contains("notify.webhook.chat.events"), "{error}");
}

#[test]
fn build_registry_builds_one_dispatcher_per_profile() {
    let profiles = vec![
        ProfileConfig {
            name: s("a"),
            notify: NotifyConfig::default(),
        },
        ProfileConfig {
            name: s("b"),
            notify: NotifyConfig::default(),
        },
    ];
    let registry = build_registry(&profiles).ok().unwrap();
    assert_eq!(registry.len(), 2);
    let notifiers = Notifiers::new(registry);
    assert_eq!(notifiers.get("a").unwrap().profile(), "a");
    assert_eq!(notifiers.get("b").unwrap().profile(), "b");
    assert!(notifiers.get("c").is_none());

    let broken = vec![ProfileConfig {
        name: s("x"),
        notify: notify(&["carrier-pigeon"]),
    }];
    assert_eq!(
        build_registry(&broken).err().unwrap(),
        "profile `x`: unknown notify backend: carrier-pigeon"
    );
}

// ------------------------------------------------------------------- expiry

fn settings(lead_days: u64) -> ExpiryNotifyConfig {
    ExpiryNotifyConfig {
        lead_days,
        ..ExpiryNotifyConfig::default()
    }
}

#[test]
fn a_zero_lead_configures_no_digest() {
    assert!(ExpirySettings::from_config(&settings(0)).is_none());
    assert!(ExpirySettings::from_config(&settings(1)).is_some());
}

#[test]
fn the_interval_is_floored_at_a_day() {
    let config = ExpiryNotifyConfig {
        lead_days: 7,
        interval_days: 0,
        ..ExpiryNotifyConfig::default()
    };
    let settings = ExpirySettings::from_config(&config).unwrap();
    assert_eq!(settings.interval, Duration::from_secs(24 * 60 * 60));
}

#[test]
fn a_digest_lists_at_least_one_entry() {
    let entries = |max_entries| {
        ExpirySettings::from_config(&ExpiryNotifyConfig {
            max_entries,
            ..settings(1)
        })
        .unwrap()
        .max_entries
    };
    assert_eq!(entries(0), 1);
    assert_eq!(entries(9), 9);
    assert_eq!(entries(u64::MAX), i64::MAX);
}

fn order(id: &str) -> ExpiringOrder {
    ExpiringOrder {
        order_id: s(id),
        account_id: s("a"),
        cert_serial: None,
        identifiers: vec![s("soon.example.com")],
        not_after: Some(90),
        days_remaining: 3,
        superseded_by: Some(s("next")),
    }
}

#[test]
fn a_digest_lists_what_is_expiring() {
    let fortnight = ExpirySettings::from_config(&settings(14)).unwrap();
    let query = expiring_query("default", &fortnight, 1_000);
    assert_eq!(query.before, 1_000 + 14 * 86_400);
    assert!(query.with_superseded);
    assert_eq!((query.limit, query.offset), (100, 0));

    match digest_step("default", &fortnight, 1_000, Ok((vec![order("o1"), order("o2")], 5))) {
        DigestStep::Send(data) => {
            assert_eq!((data.total, data.lead_days, data.generated_at), (5, 14, 1_000));
            assert_eq!(data.certificates.len(), 2);
            assert_eq!(data.certificates[0].order_id, "o1");
            assert_eq!(data.certificates[1].order_id, "o2");
            assert_eq!(data.certificates[0].cert_serial, "");
            assert_eq!(data.certificates[0].superseded_by.as_deref(), Some("next"));
        }
        other => panic!("{other:?}"),
    }
    assert!(matches!(
        digest_step("default", &fortnight, 1_000, Ok((vec![], 0))),
        DigestStep::Skipped
    ));
    assert!(matches!(
        digest_step("default", &fortnight, 1_000, Err(s("locked"))),
        DigestStep::Failed(_)
    ));
}

#[test]
fn a_digest_never_fails_for_good() {
    let profiles = vec![(s("on"), settings(7)), (s("off"), settings(0)), (s("also"), settings(1))];
    let job = ExpiryDigestJob::from_profiles(&profiles).unwrap();
    assert_eq!(job.kind(), "notify_expiry_digest");
    let rows = job.reconcile(5);
    let keys: Vec<&str> = rows.iter().map(|row| row.key.as_str()).collect();
    assert_eq!(keys, vec!["also", "on"]);
    assert_eq!(rows[0].run_at, 5);

    assert_eq!(
        digest_run(&job.plan("on")),
        JobOutcome::Reschedule(Duration::from_secs(7 * 86_400))
    );
    assert!(matches!(job.plan("off"), DigestPlan::Retire));
    assert_eq!(digest_run(&job.plan("off")), JobOutcome::Done);
    assert!(ExpiryDigestJob::from_profiles(&vec![(s("off"), settings(0))]).is_none());
}

#[test]
fn the_backfill_stamps_once_and_records_an_unparsable_chain() {
    let filled = backfill(&vec![
        (s("good"), Some((1, 90))),
        (s("bad"), None),
        (s("fine"), Some((1, 91))),
    ]);
    assert_eq!(
        filled.stamps,
        vec![
            (s("good"), 90),
            (s("bad"), UNPARSABLE_NOT_AFTER),
            (s("fine"), 91)
        ]
    );
    assert_eq!((filled.stamped, filled.unparsable), (2, 1));
    assert_eq!(leaf_not_after(None), UNPARSABLE_NOT_AFTER);
}
