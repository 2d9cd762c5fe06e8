use acme_proxy::metrics::{
    escape_label, split_matched_path, AuditEvent, AuditRecord, Family, Metrics,
};
use acme_proxy::middlewares::metrics::record_request;

fn record(event: AuditEvent, reason: Option<&str>) -> AuditRecord {
    AuditRecord {
        event,
        profile: "le".to_string(),
        reason: reason.map(|r| r.to_string()),
    }
}

#[test]
fn requests_render_as_one_series_per_label_set() {
    let mut metrics = Metrics::new();
    metrics.record_request("le", "/newOrder", 201);
    metrics.record_request("le", "/newOrder", 201);
    metrics.record_request("le", "/newOrder", 400);

    let rendered = metrics.render(5, 3);

    assert!(rendered.contains(
        "# HELP acme_proxy_requests_total Requests served, by endpoint, matched route and response status.\n"
    ));
    assert!(rendered.contains("# TYPE acme_proxy_requests_total counter\n"));
    assert!(rendered.contains(
        "acme_proxy_requests_total{profile=\"le\",route=\"/newOrder\",status=\"201\"} 2\n"
    ));
    assert!(rendered.contains(
        "acme_proxy_requests_total{profile=\"le\",route=\"/newOrder\",status=\"400\"} 1\n"
    ));
}

#[test]
fn an_empty_registry_renders_exactly_its_declarations() {
    assert_eq!(
        Metrics::new().render(5, 3),
        "# HELP acme_proxy_requests_total Requests served, by endpoint, matched route and response status.\n\
         # TYPE acme_proxy_requests_total counter\n\
         # HELP acme_proxy_certificates_issued_total Certificates signed, by endpoint.\n\
         # TYPE acme_proxy_certificates_issued_total counter\n\
         # HELP acme_proxy_certificate_issue_failures_total Issuance attempts the CA refused, by endpoint and ACME problem type.\n\
         # TYPE acme_proxy_certificate_issue_failures_total counter\n\
         # HELP acme_proxy_database_pool_connections Connections in the SQLite pool.\n\
         # TYPE acme_proxy_database_pool_connections gauge\n\
         acme_proxy_database_pool_connections{state=\"idle\"} 3\n\
         acme_proxy_database_pool_connections{state=\"busy\"} 2\n"
    );
    assert!(Metrics::new()
        .render(1, 3)
        .ends_with("{state=\"busy\"} 0\n"));
}

#[test]
fn the_certificate_counters_come_off_the_audit_record() {
    let mut metrics = Metrics::new();
    let issued = record(AuditEvent::CertificateIssued, None);
    assert_eq!(metrics.audit_counted(&issued), 0);
    metrics.record_audit(&issued);
    assert_eq!(metrics.audit_counted(&issued), 1);
    metrics.record_audit(&record(AuditEvent::CertificateIssueFailed, Some("badCSR")));
    metrics.record_audit(&record(AuditEvent::CertificateRevoked, None));
    metrics.record_audit(&record(AuditEvent::Other, None));

    let rendered = metrics.render(0, 0);

    assert!(rendered.contains("acme_proxy_certificates_issued_total{profile=\"le\"} 1\n"));
    assert!(rendered.contains(
        "acme_proxy_certificate_issue_failures_total{profile=\"le\",reason=\"badCSR\"} 1\n"
    ));
    assert!(!rendered.contains("revoked"));
}

#[test]
fn a_failure_with_no_reason_is_counted_as_unknown() {
    let mut metrics = Metrics::new();
    metrics.record_audit(&record(AuditEvent::CertificateIssueFailed, None));
    assert!(metrics.render(0, 0).contains(
        "acme_proxy_certificate_issue_failures_total{profile=\"le\",reason=\"unknown\"} 1\n"
    ));
}

#[test]
fn a_matched_path_splits_into_a_profile_and_a_route() {
    for (matched, expected) in [
        (Some("/profile/le/order/{id}"), ("le", "/order/{id}")),
        (Some("/profile/staging/newOrder"), ("staging", "/newOrder")),
        (Some("/health"), ("none", "/health")),
        (Some("/"), ("none", "/")),
        (None, ("none", "<unmatched>")),
    ] {
        let (profile, route) = split_matched_path(matched);
        assert_eq!(
            (profile.as_str(), route.as_str()),
            expected,
            "for {matched:?}"
        );
    }
}

#[test]
fn a_pattern_without_a_route_still_has_two_labels() {
    assert_eq!(
        split_matched_path(Some("/profile/le")),
        ("le".to_string(), "/".to_string())
    );
    assert_eq!(
        split_matched_path(Some("/profile/")),
        (String::new(), "/".to_string())
    );
    assert_eq!(
        split_matched_path(Some("/profile")),
        ("none".to_string(), "/profile".to_string())
    );
}

#[test]
fn label_values_are_escaped() {
    assert_eq!(escape_label("plain"), "plain");
    assert_eq!(escape_label("a\"b"), "a\\\"b");
    assert_eq!(escape_label("a\\b"), "a\\\\b");
    assert_eq!(escape_label("a\nb"), "a\\nb");
    assert_ne!(escape_label("\\n"), escape_label("\n"));
}

#[test]
fn series_come_in_ascending_order_of_their_labels() {
    let mut one = Metrics::new();
    let mut other = Metrics::new();
    let requests = [("b", "/x"), ("a", "/z"), ("a", "/y"), ("ab", "/")];
    for (profile, route) in requests {
        one.record_request(profile, route, 200);
    }
    for (profile, route) in requests.iter().rev() {
        other.record_request(profile, route, 200);
    }
    let rendered = one.render(0, 0);
    assert_eq!(rendered, other.render(0, 0));
    let order: Vec<&str> = rendered
        .lines()
        .filter(|line| line.starts_with("acme_proxy_requests_total{"))
        .collect();
    assert_eq!(
        order,
        vec![
            "acme_proxy_requests_total{profile=\"a\",route=\"/y\",status=\"200\"} 1",
            "acme_proxy_requests_total{profile=\"a\",route=\"/z\",status=\"200\"} 1",
            "acme_proxy_requests_total{profile=\"ab\",route=\"/\",status=\"200\"} 1",
            "acme_proxy_requests_total{profile=\"b\",route=\"/x\",status=\"200\"} 1",
        ]
    );
}

#[test]
fn two_ids_on_one_route_are_one_series() {
    let mut metrics = Metrics::new();
    for _ in 0..3 {
        record_request(&mut metrics, Some("/profile/le/order/{id}"), 200);
    }
    record_request(&mut metrics, None, 404);
    assert_eq!(metrics.requests_counted("le", "/order/{id}", 200), 3);
    assert_eq!(metrics.requests_counted("none", "<unmatched>", 404), 1);
    assert_eq!(metrics.requests_counted("le", "/order/{id}", 201), 0);
}

#[test]
fn a_family_counts_each_list_of_labels() {
    let mut family = Family::new();
    let labels = |v: &str| vec![v.to_string()];
    assert_eq!(family.count(&labels("a")), 0);
    family.bump(labels("b"));
    family.bump(labels("a"));
    family.bump(labels("a"));
    assert_eq!(family.count(&labels("a")), 2);
    assert_eq!(family.count(&labels("b")), 1);
    assert_eq!(family.count(&vec![]), 0);
}

#[test]
fn the_counters_show_their_name_alone() {
    let mut metrics = Metrics::new();
    metrics.record_request("le", "/order/{id}", 200);
    assert_eq!(metrics.describe(), "Metrics");
}

#[test]
fn a_rendered_counter_counts_its_calls() {
    let mut metrics = Metrics::new();
    for status in [200, 404, 200, 200] {
        metrics.record_request("le", "/order/{id}", status);
    }
    let rendered = metrics.render(0, 0);
    assert!(
        rendered.contains(
            "acme_proxy_requests_total{profile=\"le\",route=\"/order/{id}\",status=\"200\"} 3\n"
        ),
        "{rendered}"
    );
    assert!(!rendered.contains("status=\"500\""), "{rendered}");
}
