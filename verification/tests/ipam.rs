use acme_proxy::ipam::custom::{CustomIpamBackend, CustomIpamConfig, UNKNOWN_ADDRESS_EXIT_CODE};
use acme_proxy::ipam::http::{
    ca_unreadable, ca_unusable, exchange, tls_config, trusting, JsonApi, JsonApiError, Reply,
    TlsTrust,
};
use acme_proxy::ipam::netbox::client::{
    assigned_ref, fhrp_group_addresses_path, fhrp_groups_path, group_ids, ip_addresses_path,
    object_path, shared_addresses_path, unexpected, unexpected_detail, IpResult, NetboxClient,
};
use acme_proxy::ipam::netbox::{
    AssignedKind, AssignedRef, NetboxBackend, NetboxConfig, NetboxIp, NetboxLookup,
};
use acme_proxy::ipam::phpipam::client::{
    device_columns, numeric_id, search_failed, unexpected_rows, unexpected_search, AddressRow,
    PhpIpamClient,
};
use acme_proxy::ipam::phpipam::{PhpIpamAddress, PhpIpamBackend, PhpIpamConfig, PhpIpamLookup};
use acme_proxy::ipam::{
    field_values, from_config, names_of, normalize, parse_sources, trust_wanted, value_kind,
    AddressNames, Ipam, IpamConfig, IpamError, IpamRegistry, Source,
};
use acme_proxy::json::{Json, Number};
use acme_proxy::script::{ScriptHook, ScriptOutcome, ScriptRun};
use acme_proxy::sorted::StringSet;
use acme_proxy::time::Duration;

fn strings(values: &[&str]) -> Vec<String> {
    values.iter().map(|v| (*v).to_string()).collect()
}

fn text(value: &str) -> Json {
    Json::Text(value.to_string())
}

fn number(value: u64) -> Json {
    Json::Number(Number::Whole(value))
}

fn list(values: &[&str]) -> Json {
    Json::Array(values.iter().map(|v| text(v)).collect())
}

fn member(name: &str, value: Json) -> (String, Json) {
    (name.to_string(), value)
}

fn object(members: Vec<(String, Json)>) -> Json {
    Json::Object(members)
}

fn listed(names: &AddressNames) -> Vec<String> {
    names.names().to_vec()
}

// ------------------------------------------------------------------ sources

#[test]
fn every_source_round_trips_through_its_name() {
    for source in Source::all() {
        assert_eq!(Source::parse(source.as_str()), Some(source));
    }
    assert_eq!(Source::parse("nope"), None);
}

#[test]
fn sources_parse_and_deduplicate() {
    let parsed = parse_sources(
        "NetBox",
        "ipam.netbox.sources",
        &strings(&["dns_name", "custom_field", "dns_name"]),
        &Source::all(),
    )
    .unwrap();
    assert_eq!(parsed.len(), 2);
    assert!(parsed.contains(&Source::DnsName));
    assert!(parsed.contains(&Source::CustomField));
}

#[test]
fn sources_are_trimmed() {
    let parsed = parse_sources(
        "NetBox",
        "ipam.netbox.sources",
        &strings(&[" dns_name "]),
        &Source::all(),
    )
    .unwrap();
    assert!(parsed.contains(&Source::DnsName));
}

#[test]
fn mod_an_empty_sources_list_is_a_startup_error() {
    let message =
        parse_sources("NetBox", "ipam.netbox.sources", &Vec::new(), &Source::all()).unwrap_err();
    assert!(message.contains("ipam.netbox.sources is empty"), "{message}");
    assert!(message.contains("`dns_name`"), "{message}");

    let cfg = PhpIpamConfig {
        sources: Vec::new(),
        ..phpipam("https://ipam.example.com")
    };
    let error = PhpIpamBackend::with_api(&cfg, ()).err().unwrap();
    assert!(error.contains("ipam.phpipam.sources is empty"), "{error}");
}

#[test]
fn an_unknown_source_is_a_startup_error_naming_it() {
    let message = parse_sources(
        "NetBox",
        "ipam.netbox.sources",
        &strings(&["dns_name", "typo"]),
        &Source::all(),
    )
    .unwrap_err();
    assert!(message.contains("unknown source `typo`"), "{message}");
    assert!(message.contains("`fhrp`"), "{message}");
}

#[test]
fn a_source_another_backend_has_is_refused_by_name() {
    let message = parse_sources(
        "phpIPAM",
        "ipam.phpipam.sources",
        &strings(&["dns_name", "fhrp"]),
        &vec![Source::DnsName, Source::CustomField, Source::Device],
    )
    .unwrap_err();
    assert!(message.contains("`fhrp` is not a source phpIPAM has"), "{message}");
    assert!(message.contains("`device`"), "{message}");
    assert!(!message.contains("`vip`"), "{message}");
}

#[test]
fn sources_are_listed_between_backticks() {
    assert_eq!(names_of(&vec![Source::Vip, Source::Fhrp]), "`vip`, `fhrp`");
    assert_eq!(names_of(&Vec::new()), "");
}

// ------------------------------------------------------------- AddressNames

#[test]
fn an_unknown_address_is_not_an_empty_one() {
    let unknown = AddressNames::Unknown;
    let empty = AddressNames::known();
    assert!(!unknown.is_known());
    assert!(empty.is_known());
    assert_eq!(unknown.names().len(), 0);
    assert_ne!(unknown, empty);
}

#[test]
fn inserting_normalizes_and_skips_empties() {
    let mut names = AddressNames::known();
    names.insert("Host.Example.COM.");
    names.insert("  ");
    names.insert("");
    names.insert("host.example.com");
    assert_eq!(listed(&names), vec!["host.example.com".to_string()]);
}

#[test]
fn inserting_into_an_unknown_address_does_nothing() {
    let mut names = AddressNames::Unknown;
    names.insert("host.example.com");
    assert_eq!(names, AddressNames::Unknown);
}

#[test]
fn normalize_lowercases_and_strips_a_trailing_dot() {
    assert_eq!(normalize(" Host.Example.COM. "), "host.example.com");
    assert_eq!(normalize("*.Example.com"), "*.example.com");
}

#[test]
fn normalizing_twice_is_normalizing_once() {
    for name in ["", "...", " A.b.. ", "x", "\u{a0}ÄB.\u{3000}"] {
        let once = normalize(name);
        assert_eq!(normalize(&once), once, "{name}");
    }
    assert_eq!(normalize("a. ."), "a. ");
    assert_eq!(normalize("a. "), "a");
}

// ------------------------------------------------------------- field_values

#[test]
fn a_custom_field_may_be_a_string_or_a_list() {
    let fields = vec![
        member("one", text("a.example.com")),
        member("many", list(&["a.example.com", "b.example.com"])),
    ];
    assert_eq!(field_values(&fields, "one").len(), 1);
    assert_eq!(field_values(&fields, "many").len(), 2);
}

#[test]
fn an_unusable_custom_field_contributes_nothing() {
    let fields = vec![
        member("absent", Json::Null),
        member("number", number(7)),
        member("object", object(vec![member("a", number(1))])),
        member(
            "mixed",
            Json::Array(vec![
                text("a.example.com"),
                number(7),
                object(vec![member("b", number(2))]),
            ]),
        ),
    ];
    assert!(field_values(&fields, "missing").is_empty());
    assert!(field_values(&fields, "absent").is_empty());
    assert!(field_values(&fields, "number").is_empty());
    assert!(field_values(&fields, "object").is_empty());
    assert_eq!(field_values(&fields, "mixed").len(), 1);
}

#[test]
fn value_kind_names_every_json_type() {
    assert_eq!(value_kind(&Json::Null), "null");
    assert_eq!(value_kind(&Json::Bool(true)), "bool");
    assert_eq!(value_kind(&number(1)), "number");
    assert_eq!(value_kind(&text("s")), "string");
    assert_eq!(value_kind(&Json::Array(vec![])), "array");
    assert_eq!(value_kind(&object(vec![])), "object");
}

// -------------------------------------------------------------- from_config

#[test]
fn no_backend_builds_nothing() {
    let cfg = IpamConfig::default();
    assert!(from_config(&cfg, Ok(TlsTrust::PublicRoots)).ok().unwrap().is_none());
}

#[test]
fn each_backend_builds() {
    let netbox = from_config(
        &IpamConfig {
            backend: "netbox".to_string(),
            netbox: netbox("https://netbox.example.com"),
            ..IpamConfig::default()
        },
        Ok(TlsTrust::PublicRoots),
    )
    .ok()
    .unwrap()
    .unwrap();
    assert_eq!(netbox.backend_name(), "NetBox");

    let phpipam = from_config(
        &IpamConfig {
            backend: "phpipam".to_string(),
            phpipam: phpipam("https://ipam.example.com"),
            ..IpamConfig::default()
        },
        Ok(TlsTrust::PublicRoots),
    )
    .ok()
    .unwrap()
    .unwrap();
    assert_eq!(phpipam.backend_name(), "phpIPAM");
}

#[test]
fn an_unknown_backend_is_a_startup_error_naming_both_valid_ones() {
    let cfg = IpamConfig {
        backend: "racktables".to_string(),
        ..IpamConfig::default()
    };
    let error = from_config(&cfg, Ok(TlsTrust::PublicRoots)).err().unwrap();
    assert!(error.contains("racktables"), "{error}");
    assert!(error.contains("netbox"), "{error}");
    assert!(error.contains("phpipam"), "{error}");
}

#[test]
fn the_configured_backend_says_what_it_trusts() {
    let mut cfg = IpamConfig {
        backend: " netbox ".to_string(),
        ..IpamConfig::default()
    };
    assert_eq!(
        trust_wanted(&cfg),
        Some((TlsTrust::PublicRoots, "ipam.netbox.ca_cert_path"))
    );
    cfg.backend = "phpipam".to_string();
    cfg.phpipam.ca_cert_path = " /ca.pem ".to_string();
    assert_eq!(
        trust_wanted(&cfg),
        Some((
            TlsTrust::PublicRootsAnd("/ca.pem".to_string()),
            "ipam.phpipam.ca_cert_path"
        ))
    );
    cfg.backend = String::new();
    assert_eq!(trust_wanted(&cfg), None);
}

// ----------------------------------------------------------------- registry

struct Named(&'static str);

#[test]
fn the_registry_words_a_timeout() {
    let backend = NetboxBackend::with_api(&netbox("https://netbox.example.com"), Named("x"))
        .ok()
        .unwrap();
    assert_eq!(backend.api.0, "x");
    let registry = IpamRegistry::new(backend, Duration::from_millis(10));
    assert_eq!(
        registry.describe(),
        "IpamRegistry { backend: \"NetBox\", timeout: 10ms }"
    );
    let error = registry.names_for("10.0.0.5", None).unwrap_err();
    assert_eq!(error.0, "NetBox lookup for 10.0.0.5 timed out after 10ms");

    let answer = registry.names_for("10.0.0.5", Some(Ok(AddressNames::known()))).unwrap();
    assert!(answer.is_known());
    assert_eq!(
        registry.names_for("10.0.0.5", Some(Err(IpamError("down".to_string())))),
        Err(IpamError("down".to_string()))
    );
}

// ---------------------------------------------------------------- transport

fn api(url: &str, headers: Vec<(String, String)>) -> Result<JsonApi, String> {
    JsonApi::new(url, "ipam.netbox.url", headers, tls_config("", false))
}

#[test]
fn an_unparsable_url_names_the_setting() {
    let error = api("not a url", Vec::new()).err().unwrap();
    assert!(error.contains("ipam.netbox.url"), "{error}");
}

#[test]
fn a_non_http_scheme_is_a_startup_error() {
    let error = api("ftp://netbox.example.com", Vec::new()).err().unwrap();
    assert!(error.contains("unsupported scheme ftp"), "{error}");
}

#[test]
fn a_base_url_under_a_subpath_is_preserved() {
    let api = api("https://example.com/netbox/", Vec::new()).ok().unwrap();
    assert_eq!(api.base(), "https://example.com/netbox");
}

#[test]
fn the_api_path_is_appended_to_the_base() {
    let api = api("https://Example.com/netbox/", Vec::new()).ok().unwrap();
    let url = api.target("/api/thing/?a=b").ok().unwrap();
    assert_eq!(url.text, "https://example.com/netbox/api/thing/?a=b");
    assert_eq!(url.scheme, "https");
    assert_eq!(url.host.as_deref(), Some("example.com"));
}

#[test]
fn the_debug_impl_never_renders_a_header() {
    let api = api(
        "https://example.com",
        vec![("authorization".to_string(), "Token t0ken".to_string())],
    )
    .ok()
    .unwrap();
    let rendered = api.describe();
    assert!(!rendered.contains("t0ken"), "{rendered}");
}

#[test]
fn a_request_carries_the_fixed_headers_and_the_clients_own() {
    let api = api(
        "https://example.com",
        vec![("authorization".to_string(), "Token t0ken".to_string())],
    )
    .ok()
    .unwrap();
    let headers = api.request_headers("example.com:443");
    assert_eq!(headers.len(), 5);
    assert_eq!(headers[0], ("host".to_string(), "example.com:443".to_string()));
    assert_eq!(headers[1], ("user-agent".to_string(), "acme-proxy".to_string()));
    assert_eq!(headers[4], ("authorization".to_string(), "Token t0ken".to_string()));
}

#[test]
fn a_missing_ca_certificate_names_the_setting() {
    assert_eq!(
        tls_config("/nonexistent/ca.pem", false),
        TlsTrust::PublicRootsAnd("/nonexistent/ca.pem".to_string())
    );
    let error = ca_unreadable("ipam.netbox.ca_cert_path", "no such file");
    assert!(error.contains("ipam.netbox.ca_cert_path"), "{error}");
    assert_eq!(
        ca_unusable("ipam.netbox.ca_cert_path", "/ca.pem", "bad"),
        "ipam.netbox.ca_cert_path: /ca.pem is not a usable CA certificate: bad"
    );
}

#[test]
fn skipping_verification_ignores_the_ca_certificate_entirely() {
    assert_eq!(tls_config("/nonexistent/ca.pem", true), TlsTrust::Anything);
}

#[test]
fn the_error_displays_as_its_message() {
    let error = JsonApiError::transport("nope".to_string());
    assert_eq!(error.message(), "nope");
}

#[test]
fn a_reply_is_a_document_or_a_failure_with_its_status() {
    let url = "http://n/api";
    let ok = Reply::Answered {
        status: 200,
        body: b"{\"results\": []}".to_vec(),
    };
    let document = exchange(url, &ok, "").ok().unwrap();
    assert!(document.get("results").unwrap().as_array().unwrap().is_empty());

    let boom = Reply::Answered {
        status: 500,
        body: b"boom!".to_vec(),
    };
    let error = exchange(url, &boom, "boom!").err().unwrap();
    assert_eq!(error.status, Some(500));
    assert_eq!(error.message, "http://n/api answered 500 Internal Server Error: boom!");

    let unreadable = Reply::Answered {
        status: 200,
        body: b"<html>".to_vec(),
    };
    let error = exchange(url, &unreadable, "").err().unwrap();
    assert_eq!(error.status, Some(200));
    assert!(error.message.starts_with("http://n/api returned unreadable JSON: "));

    let error = exchange(url, &Reply::TooLarge(1024), "").err().unwrap();
    assert_eq!(error.status, None);
    assert_eq!(error.message, "response from http://n/api exceeds 1024 bytes");

    let error = exchange(url, &Reply::Failed("refused".to_string()), "").err().unwrap();
    assert_eq!(error.message, "request to http://n/api failed: refused");
}

// ------------------------------------------------------------ netbox client

fn netbox(url: &str) -> NetboxConfig {
    NetboxConfig {
        url: url.to_string(),
        token: "t0ken".to_string(),
        ..NetboxConfig::default()
    }
}

fn phpipam(url: &str) -> PhpIpamConfig {
    PhpIpamConfig {
        url: url.to_string(),
        token: "t0ken".to_string(),
        ..PhpIpamConfig::default()
    }
}

fn trusted() -> Result<TlsTrust, String> {
    Ok(TlsTrust::PublicRoots)
}

#[test]
fn client_an_empty_url_is_a_startup_error() {
    let error = NetboxClient::new(&netbox("  "), trusted()).err().unwrap();
    assert!(error.contains("ipam.netbox.url"), "{error}");

    let error = PhpIpamClient::new(&phpipam("  "), trusted()).err().unwrap();
    assert!(error.contains("ipam.phpipam.url"), "{error}");
}

#[test]
fn client_an_empty_token_is_a_startup_error() {
    let cfg = NetboxConfig {
        token: String::new(),
        ..netbox("https://netbox.example.com")
    };
    let error = NetboxClient::new(&cfg, trusted()).err().unwrap();
    assert!(error.contains("ipam.netbox.token"), "{error}");
    assert!(error.contains("ACME_PROXY_IPAM__NETBOX__TOKEN"), "{error}");

    let cfg = PhpIpamConfig {
        token: String::new(),
        ..phpipam("https://ipam.example.com")
    };
    let error = PhpIpamClient::new(&cfg, trusted()).err().unwrap();
    assert!(error.contains("ipam.phpipam.token"), "{error}");
    assert!(error.contains("ACME_PROXY_IPAM__PHPIPAM__TOKEN"), "{error}");
}

#[test]
fn an_unparsable_url_is_a_startup_error() {
    let error = NetboxClient::new(&netbox("not a url"), trusted()).err().unwrap();
    assert!(error.contains("ipam.netbox.url"), "{error}");
}

#[test]
fn client_a_missing_ca_certificate_is_a_startup_error() {
    let cfg = NetboxConfig {
        ca_cert_path: "/nonexistent/netbox-ca.pem".to_string(),
        ..netbox("https://netbox.example.com")
    };
    let missing = ca_unreadable("ipam.netbox.ca_cert_path", "no such file");
    let error = NetboxClient::new(&cfg, Err(missing)).err().unwrap();
    assert!(error.contains("ipam.netbox.ca_cert_path"), "{error}");

    let cfg = PhpIpamConfig {
        ca_cert_path: "/nonexistent/ipam-ca.pem".to_string(),
        ..phpipam("https://ipam.example.com")
    };
    let missing = ca_unreadable("ipam.phpipam.ca_cert_path", "no such file");
    let error = PhpIpamClient::new(&cfg, Err(missing)).err().unwrap();
    assert!(error.contains("ipam.phpipam.ca_cert_path"), "{error}");
}

#[test]
fn client_the_debug_impl_never_renders_the_token() {
    let client = NetboxClient::new(&netbox("https://netbox.example.com"), trusted()).ok().unwrap();
    assert_eq!(client.api.headers[0].1, "Token t0ken");
    let rendered = client.describe();
    assert!(!rendered.contains("t0ken"), "{rendered}");

    let client = PhpIpamClient::new(&phpipam("https://ipam.example.com"), trusted()).ok().unwrap();
    assert_eq!(client.api.headers[0], ("token".to_string(), "t0ken".to_string()));
    let rendered = client.describe();
    assert!(!rendered.contains("t0ken"), "{rendered}");
}

#[test]
fn a_device_interface_yields_its_device_and_its_interface() {
    let assigned = object(vec![
        member("id", number(7)),
        member("name", text("eth0")),
        member(
            "device",
            object(vec![member("id", number(3)), member("name", text("srv1"))]),
        ),
    ]);
    assert_eq!(
        assigned_ref(Some("dcim.interface"), Some(&assigned)),
        Some(AssignedRef {
            kind: AssignedKind::Device,
            id: 3,
            interface_id: 7,
        })
    );
}

#[test]
fn a_vm_interface_yields_its_virtual_machine() {
    let assigned = object(vec![
        member("id", number(9)),
        member(
            "virtual_machine",
            object(vec![member("id", number(11)), member("name", text("vm1"))]),
        ),
    ]);
    assert_eq!(
        assigned_ref(Some("virtualization.vminterface"), Some(&assigned)),
        Some(AssignedRef {
            kind: AssignedKind::VirtualMachine,
            id: 11,
            interface_id: 9,
        })
    );
}

#[test]
fn an_unassigned_or_unreadable_assignment_yields_nothing() {
    let assigned = object(vec![
        member("id", number(7)),
        member("name", text("eth0")),
        member("device", object(vec![member("id", number(3))])),
    ]);
    assert_eq!(assigned_ref(None, Some(&assigned)), None);
    assert_eq!(assigned_ref(Some("dcim.interface"), None), None);
    assert_eq!(assigned_ref(Some("ipam.fhrpgroup"), Some(&assigned)), None);
    assert_eq!(
        assigned_ref(
            Some("dcim.interface"),
            Some(&object(vec![
                member("id", number(7)),
                member("device", object(vec![]))
            ]))
        ),
        None
    );
    assert_eq!(
        assigned_ref(
            Some("dcim.interface"),
            Some(&object(vec![member(
                "device",
                object(vec![member("id", number(3))])
            )]))
        ),
        None
    );
}

#[test]
fn an_address_object_keeps_what_is_read_of_it() {
    let ip = NetboxIp::from_result(IpResult {
        dns_name: "h".to_string(),
        assigned_object_type: Some("dcim.interface".to_string()),
        assigned_object: Some(object(vec![
            member("id", number(7)),
            member("device", object(vec![member("id", number(3))])),
        ])),
        role: Some("vrrp".to_string()),
        ..IpResult::default()
    });
    assert_eq!(ip.dns_name, "h");
    assert_eq!(ip.assigned, Some(on_device()));
    assert_eq!(ip.role.as_deref(), Some("vrrp"));
    assert_eq!(group_ids(&vec![Some(1), None, Some(9)]), vec![1, 9]);
}

#[test]
fn the_query_paths_are_what_netbox_needs() {
    assert_eq!(ip_addresses_path("10.0.0.5"), "/api/ipam/ip-addresses/?address=10.0.0.5");
    assert_eq!(
        ip_addresses_path("2001:db8::1"),
        "/api/ipam/ip-addresses/?address=2001%3Adb8%3A%3A1"
    );
    let vm = AssignedRef {
        kind: AssignedKind::VirtualMachine,
        id: 11,
        interface_id: 9,
    };
    assert_eq!(object_path(&on_device()), "/api/dcim/devices/3/");
    assert_eq!(object_path(&vm), "/api/virtualization/virtual-machines/11/");
    assert_eq!(
        shared_addresses_path(&on_device(), &strings(&["vip", "a b&ü"])),
        "/api/ipam/ip-addresses/?device_id=3&role=vip&role=a+b%26%C3%BC"
    );
    assert_eq!(
        shared_addresses_path(&vm, &Vec::new()),
        "/api/ipam/ip-addresses/?virtual_machine_id=11"
    );
    assert_eq!(
        fhrp_groups_path(&on_device()),
        "/api/ipam/fhrp-group-assignments/?interface_type=dcim.interface&interface_id=7"
    );
    assert_eq!(
        fhrp_groups_path(&vm),
        "/api/ipam/fhrp-group-assignments/?interface_type=virtualization.vminterface&interface_id=9"
    );
    assert_eq!(
        fhrp_group_addresses_path(&vec![1, 20]),
        "/api/ipam/ip-addresses/?fhrpgroup_id=1&fhrpgroup_id=20"
    );
    assert_eq!(unexpected("ip-addresses", "x"), "unexpected ip-addresses response: x");
    assert_eq!(unexpected_detail("/p/", "x"), "unexpected response for /p/: x");
}

// ----------------------------------------------------------- netbox backend

fn on_device() -> AssignedRef {
    AssignedRef {
        kind: AssignedKind::Device,
        id: 3,
        interface_id: 7,
    }
}

fn with_sources(sources: &[&str]) -> NetboxConfig {
    NetboxConfig {
        sources: strings(sources),
        ..netbox("https://netbox.example.com")
    }
}

fn backend(cfg: &NetboxConfig) -> NetboxBackend<()> {
    NetboxBackend::with_api(cfg, ()).unwrap()
}

fn with_dns_name(dns_name: &str) -> NetboxIp {
    NetboxIp {
        dns_name: dns_name.to_string(),
        ..NetboxIp::default()
    }
}

fn with_field(names: &[&str]) -> NetboxIp {
    NetboxIp {
        custom_fields: vec![member("acme_allowed_names", list(names))],
        ..NetboxIp::default()
    }
}

fn assigned() -> NetboxIp {
    NetboxIp {
        assigned: Some(on_device()),
        ..NetboxIp::default()
    }
}

fn service(role: &str, dns_name: &str) -> NetboxIp {
    NetboxIp {
        dns_name: dns_name.to_string(),
        role: Some(role.to_string()),
        ..NetboxIp::default()
    }
}

/// What a NetBox with these answers says, and how many questions it was asked.
fn run_netbox(
    backend: &NetboxBackend<()>,
    addresses: Vec<NetboxIp>,
    fields: Vec<(String, Json)>,
    shared: Vec<NetboxIp>,
    groups: Vec<u64>,
    group_addresses: Vec<NetboxIp>,
) -> (Result<AddressNames, IpamError>, Vec<&'static str>) {
    let mut asked = vec!["addresses"];
    let mut step = backend.names_for("10.0.0.5", Ok(addresses));
    let (mut fields, mut shared, mut groups, mut group_addresses) =
        (Some(fields), Some(shared), Some(groups), Some(group_addresses));
    loop {
        step = match step {
            NetboxLookup::Done(outcome) => return (outcome, asked),
            NetboxLookup::Device { names, at } => {
                asked.push("device");
                backend.add_device_names("10.0.0.5", names, at, Ok(fields.take().unwrap()))
            }
            NetboxLookup::Shared { names, at } => {
                asked.push("shared");
                backend.add_vip_names("10.0.0.5", names, at, Ok(shared.take().unwrap()))
            }
            NetboxLookup::Groups { names, at } => {
                asked.push("groups");
                backend.add_fhrp_names("10.0.0.5", names, at, Ok(groups.take().unwrap()))
            }
            NetboxLookup::GroupAddresses { names, .. } => {
                asked.push("group_addresses");
                backend.add_group_names("10.0.0.5", names, Ok(group_addresses.take().unwrap()))
            }
        };
    }
}

#[test]
fn mod_an_empty_custom_field_is_a_startup_error_when_something_reads_it() {
    let cfg = NetboxConfig {
        custom_field: "   ".to_string(),
        ..netbox("https://netbox.example.com")
    };
    let error = NetboxBackend::with_api(&cfg, ()).err().unwrap();
    assert!(error.contains("ipam.netbox.custom_field"), "{error}");

    let cfg = PhpIpamConfig {
        custom_field: "   ".to_string(),
        ..phpipam("https://ipam.example.com")
    };
    let error = PhpIpamBackend::with_api(&cfg, ()).err().unwrap();
    assert!(error.contains("ipam.phpipam.custom_field"), "{error}");
}

#[test]
fn mod_an_empty_custom_field_is_fine_when_nothing_reads_it() {
    let cfg = NetboxConfig {
        custom_field: String::new(),
        ..with_sources(&["dns_name"])
    };
    NetboxBackend::with_api(&cfg, ()).expect("no source reads the custom field");

    let cfg = PhpIpamConfig {
        custom_field: String::new(),
        sources: strings(&["dns_name"]),
        ..phpipam("https://ipam.example.com")
    };
    PhpIpamBackend::with_api(&cfg, ()).expect("no source reads the custom field");
}

#[test]
fn vip_without_roles_is_a_startup_error() {
    let cfg = NetboxConfig {
        vip_roles: Vec::new(),
        ..with_sources(&["dns_name", "vip"])
    };
    let error = NetboxBackend::with_api(&cfg, ()).err().unwrap();
    assert!(error.contains("ipam.netbox.vip_roles"), "{error}");
}

#[test]
fn an_unknown_source_is_a_startup_error() {
    let cfg = with_sources(&["dns_name", "hostname"]);
    let error = NetboxBackend::with_api(&cfg, ()).err().unwrap();
    assert!(error.contains("unknown source `hostname`"), "{error}");
}

#[test]
fn mod_reports_the_product_name() {
    assert_eq!(backend(&netbox("https://netbox.example.com")).name(), "NetBox");
    let php = PhpIpamBackend::with_api(&phpipam("https://ipam.example.com"), ()).unwrap();
    assert_eq!(php.name(), "phpIPAM");
}

#[test]
fn mod_the_debug_impl_shows_the_policy_without_the_api() {
    let rendered = backend(&netbox("https://netbox.example.com")).describe();
    assert!(rendered.contains("acme_allowed_names"), "{rendered}");
    assert!(rendered.contains("Device"), "{rendered}");

    let php = PhpIpamBackend::with_api(&phpipam("https://ipam.example.com"), ()).unwrap();
    let rendered = php.describe();
    assert!(rendered.contains("custom_acme_allowed_names"), "{rendered}");
    assert!(rendered.contains("Device"), "{rendered}");
    assert_eq!(
        rendered,
        "PhpIpamBackend { custom_field: \"custom_acme_allowed_names\", sources: {DnsName, CustomField, Device}, .. }"
    );
}

#[test]
fn the_default_sources_are_what_the_filter_always_did() {
    let backend = backend(&netbox("https://netbox.example.com"));
    assert!(backend.sources.contains(&Source::DnsName));
    assert!(backend.sources.contains(&Source::CustomField));
    assert!(backend.sources.contains(&Source::Device));
    assert!(!backend.sources.contains(&Source::Vip));
    assert!(!backend.sources.contains(&Source::Fhrp));
}

#[test]
fn the_objects_of_an_address_are_pooled() {
    let backend = backend(&netbox("https://netbox.example.com"));
    let (names, asked) = run_netbox(
        &backend,
        vec![
            with_dns_name("B.example.com."),
            with_dns_name("a.example.com"),
            with_field(&["www.example.com"]),
        ],
        vec![],
        vec![],
        vec![],
        vec![],
    );
    assert_eq!(
        listed(&names.unwrap()),
        strings(&["a.example.com", "b.example.com", "www.example.com"])
    );
    assert_eq!(asked, vec!["addresses"]);
}

#[test]
fn an_address_netbox_does_not_know_is_unknown_and_a_failure_is_not() {
    let backend = backend(&netbox("https://netbox.example.com"));
    let (names, _) = run_netbox(&backend, vec![], vec![], vec![], vec![], vec![]);
    assert_eq!(names, Ok(AddressNames::Unknown));

    let (names, _) = run_netbox(&backend, vec![NetboxIp::default()], vec![], vec![], vec![], vec![]);
    assert_eq!(names, Ok(AddressNames::known()));

    match backend.names_for("10.0.0.5", Err("HTTP 500".to_string())) {
        NetboxLookup::Done(Err(error)) => {
            assert_eq!(error.0, "NetBox lookup for 10.0.0.5 failed: HTTP 500");
        }
        other => panic!("{other:?}"),
    }
    let names = StringSet::new();
    match backend.add_device_names("10.0.0.5", names, on_device(), Err("HTTP 500".to_string())) {
        NetboxLookup::Done(Err(error)) => {
            assert_eq!(error.0, "NetBox lookup of Device 3 for 10.0.0.5 failed: HTTP 500");
        }
        other => panic!("{other:?}"),
    }
    let names = StringSet::new();
    match backend.add_vip_names("10.0.0.5", names, on_device(), Err("x".to_string())) {
        NetboxLookup::Done(Err(error)) => assert_eq!(
            error.0,
            "NetBox lookup of service addresses on Device 3 for 10.0.0.5 failed: x"
        ),
        other => panic!("{other:?}"),
    }
    let names = StringSet::new();
    match backend.add_fhrp_names("10.0.0.5", names, on_device(), Err("x".to_string())) {
        NetboxLookup::Done(Err(error)) => assert_eq!(
            error.0,
            "NetBox lookup of FHRP group membership for interface 7 (10.0.0.5) failed: x"
        ),
        other => panic!("{other:?}"),
    }
    let names = StringSet::new();
    match backend.add_group_names("10.0.0.5", names, Err("x".to_string())) {
        NetboxLookup::Done(Err(error)) => assert_eq!(
            error.0,
            "NetBox lookup of FHRP group addresses for 10.0.0.5 failed: x"
        ),
        other => panic!("{other:?}"),
    }
}

#[test]
fn the_device_is_a_fallback() {
    let machine = || vec![member("acme_allowed_names", list(&["machine.example.com"]))];
    let backend_default = backend(&netbox("https://netbox.example.com"));

    let (names, asked) = run_netbox(
        &backend_default,
        vec![assigned(), with_dns_name("own.example.com")],
        machine(),
        vec![],
        vec![],
        vec![],
    );
    assert_eq!(
        listed(&names.unwrap()),
        strings(&["machine.example.com", "own.example.com"])
    );
    assert_eq!(asked, vec!["addresses", "device"]);

    let (names, asked) = run_netbox(
        &backend_default,
        vec![assigned(), with_field(&["www.example.com"])],
        machine(),
        vec![],
        vec![],
        vec![],
    );
    assert_eq!(listed(&names.unwrap()), strings(&["www.example.com"]));
    assert_eq!(asked, vec!["addresses"]);

    let only_device = backend(&with_sources(&["device"]));
    let (names, _) = run_netbox(
        &only_device,
        vec![assigned(), with_field(&["www.example.com"])],
        machine(),
        vec![],
        vec![],
        vec![],
    );
    assert_eq!(listed(&names.unwrap()), strings(&["machine.example.com"]));
}

#[test]
fn service_addresses_are_a_union_checked_by_role() {
    let cfg = NetboxConfig {
        vip_roles: strings(&["vrrp"]),
        ..with_sources(&["dns_name", "vip"])
    };
    let (names, asked) = run_netbox(
        &backend(&cfg),
        vec![NetboxIp {
            dns_name: "own.example.com".to_string(),
            ..assigned()
        }],
        vec![],
        vec![
            service("vrrp", "vip.example.com"),
            service("loopback", "no.example.com"),
            with_dns_name("plain.example.com"),
        ],
        vec![],
        vec![],
    );
    assert_eq!(
        listed(&names.unwrap()),
        strings(&["own.example.com", "vip.example.com"])
    );
    assert_eq!(asked, vec!["addresses", "shared"]);
}

#[test]
fn groups_are_asked_for_only_with_a_membership() {
    let cfg = with_sources(&["dns_name", "fhrp"]);
    let (names, asked) = run_netbox(
        &backend(&cfg),
        vec![assigned()],
        vec![],
        vec![],
        vec![20],
        vec![with_dns_name("group.example.com")],
    );
    assert_eq!(listed(&names.unwrap()), strings(&["group.example.com"]));
    assert_eq!(asked, vec!["addresses", "groups", "group_addresses"]);

    let (names, asked) = run_netbox(
        &backend(&cfg),
        vec![assigned()],
        vec![],
        vec![],
        vec![],
        vec![with_dns_name("group.example.com")],
    );
    assert_eq!(names, Ok(AddressNames::known()));
    assert_eq!(asked, vec!["addresses", "groups"]);
}

// ------------------------------------------------------------------ phpipam

#[test]
fn an_app_id_that_is_not_one_path_segment_is_a_startup_error() {
    for bad in ["", "  ", "a/b", "a?b", "a b", "../admin"] {
        let cfg = PhpIpamConfig {
            app_id: bad.to_string(),
            ..phpipam("https://ipam.example.com")
        };
        let error = PhpIpamClient::new(&cfg, trusted()).err().unwrap();
        assert!(error.contains("ipam.phpipam.app_id"), "{bad}: {error}");
    }
}

#[test]
fn a_device_id_reads_from_either_json_type() {
    assert_eq!(numeric_id(&number(3)), Some(3));
    assert_eq!(numeric_id(&text("3")), Some(3));
    assert_eq!(numeric_id(&text(" 3 ")), Some(3));
    assert_eq!(numeric_id(&number(0)), None);
    assert_eq!(numeric_id(&text("0")), None);
    assert_eq!(numeric_id(&Json::Null), None);
    assert_eq!(numeric_id(&text("")), None);
    assert_eq!(numeric_id(&Json::Array(vec![number(3)])), None);
}

#[test]
fn a_device_id_reads_as_far_as_it_fits() {
    assert_eq!(numeric_id(&text("18446744073709551615")), Some(u64::MAX));
    assert_eq!(numeric_id(&text("18446744073709551616")), None);
    assert_eq!(numeric_id(&text("+7")), Some(7));
    assert_eq!(numeric_id(&text("+")), None);
    assert_eq!(numeric_id(&text("-7")), None);
    assert_eq!(numeric_id(&text("7x")), None);
    assert_eq!(numeric_id(&text("007")), Some(7));
    assert_eq!(numeric_id(&Json::Number(Number::Negative(-1))), None);
    assert_eq!(numeric_id(&Json::Number(Number::Fraction("1.5".to_string()))), None);
}

#[test]
fn a_netbox_only_source_is_refused_by_name() {
    for source in ["vip", "fhrp"] {
        let cfg = PhpIpamConfig {
            sources: strings(&["dns_name", source]),
            ..phpipam("https://ipam.example.com")
        };
        let error = PhpIpamBackend::with_api(&cfg, ()).err().unwrap();
        assert!(
            error.contains(&format!("`{source}` is not a source phpIPAM has")),
            "{error}"
        );
    }
}

fn php() -> PhpIpamBackend<()> {
    PhpIpamBackend::with_api(&phpipam("https://ipam.example.com"), ()).unwrap()
}

fn column(value: &str) -> Vec<(String, Json)> {
    vec![member("custom_acme_allowed_names", text(value))]
}

#[test]
fn a_column_is_split_on_commas() {
    assert_eq!(
        php().column_values(&column(" a.example.com ,,b.example.com, ")),
        strings(&["a.example.com", "b.example.com"])
    );
    assert!(php().column_values(&column(" , ")).is_empty());
    assert!(php().column_values(&vec![]).is_empty());
}

#[test]
fn a_phpipam_404_is_an_unknown_address_and_other_failures_are_not() {
    let missing = search_failed(JsonApiError {
        status: Some(404),
        message: "m".to_string(),
    });
    assert_eq!(missing, Ok(None));
    let broken = search_failed(JsonApiError {
        status: Some(500),
        message: "m".to_string(),
    });
    assert_eq!(broken, Err("m".to_string()));
    let refused = search_failed(JsonApiError::transport("t".to_string()));
    assert_eq!(refused, Err("t".to_string()));

    for nothing in [None, Some(vec![])] {
        match php().names_for("10.0.0.5", Ok(nothing)) {
            PhpIpamLookup::Done(Ok(names)) => assert_eq!(names, AddressNames::Unknown),
            other => panic!("{other:?}"),
        }
    }
    match php().names_for("10.0.0.5", Err("down".to_string())) {
        PhpIpamLookup::Done(Err(error)) => {
            assert_eq!(error.0, "phpIPAM lookup for 10.0.0.5 failed: down");
        }
        other => panic!("{other:?}"),
    }
}

#[test]
fn a_phpipam_device_is_a_fallback() {
    let row = AddressRow {
        hostname: Some("Host.Example.com".to_string()),
        device_id: Some(text("4")),
        fields: vec![],
    };
    let address = PhpIpamAddress::from_row(row);
    assert_eq!(address.device_id, Some(4));
    match php().names_for("10.0.0.5", Ok(Some(vec![address]))) {
        PhpIpamLookup::Device { names, id } => {
            assert_eq!(id, 4);
            match php().add_device_names("10.0.0.5", names, id, Ok(column("m.example.com"))) {
                PhpIpamLookup::Done(Ok(names)) => assert_eq!(
                    listed(&names),
                    strings(&["host.example.com", "m.example.com"])
                ),
                other => panic!("{other:?}"),
            }
        }
        other => panic!("{other:?}"),
    }
    let own = PhpIpamAddress {
        hostname: String::new(),
        fields: column("own.example.com"),
        device_id: Some(4),
    };
    match php().names_for("10.0.0.5", Ok(Some(vec![own]))) {
        PhpIpamLookup::Done(Ok(names)) => assert_eq!(listed(&names), strings(&["own.example.com"])),
        other => panic!("{other:?}"),
    }
    let names = StringSet::new();
    match php().add_device_names("10.0.0.5", names, 4, Err("x".to_string())) {
        PhpIpamLookup::Done(Err(error)) => {
            assert_eq!(error.0, "phpIPAM lookup of device 4 for 10.0.0.5 failed: x");
        }
        other => panic!("{other:?}"),
    }
}

#[test]
fn phpipam_paths_and_complaints() {
    let client = PhpIpamClient::new(&phpipam("https://ipam.example.com"), trusted()).ok().unwrap();
    assert_eq!(client.search_path("10.0.0.5"), "/api/acme/addresses/search/10.0.0.5/");
    assert_eq!(client.device_path(4), "/api/acme/devices/4/");
    assert_eq!(unexpected_search("x"), "unexpected addresses/search response: x");
    assert_eq!(unexpected_rows("x"), "unexpected addresses/search data: x");
    assert_eq!(device_columns("/p/", Json::Null), Ok(vec![]));
    assert_eq!(device_columns("/p/", Json::Array(vec![])), Ok(vec![]));
    assert_eq!(device_columns("/p/", object(column("a"))), Ok(column("a")));
    assert_eq!(
        device_columns("/p/", number(1)),
        Err("unexpected response for /p/: data is a number".to_string())
    );
}

// ------------------------------------------------------------------- custom

fn script(path: &str) -> CustomIpamBackend {
    CustomIpamBackend::from_config(
        &CustomIpamConfig {
            script_path: path.to_string(),
            args: Vec::new(),
        },
        5_000,
    )
    .expect("a real script should build")
}

fn ended(code: Option<i32>, stdout: &str, stderr: &str) -> ScriptRun {
    ScriptRun::Finished(ScriptOutcome {
        code,
        stdout: stdout.as_bytes().to_vec(),
        stderr: stderr.as_bytes().to_vec(),
    })
}

#[test]
fn a_blank_script_path_is_a_startup_error_naming_the_key() {
    for path in ["", "   "] {
        let error = CustomIpamBackend::from_config(
            &CustomIpamConfig {
                script_path: path.to_string(),
                ..CustomIpamConfig::default()
            },
            5_000,
        )
        .err()
        .unwrap();
        assert!(error.contains("ipam.custom.script_path is empty"), "{error}");
    }
}

#[test]
fn the_debug_rendering_names_the_script() {
    let rendered = script("/tmp/ipam-custom/ok.sh").describe();
    assert!(rendered.contains("ok.sh"), "{rendered}");
    assert_eq!(rendered, "CustomIpamBackend { script_path: \"/tmp/ipam-custom/ok.sh\", .. }");
}

#[test]
fn the_ending_of_a_script_is_its_answer() {
    let backend = script("/names.sh");
    assert_eq!(backend.name(), "the custom IPAM script");
    let names = backend
        .names_for(ended(Some(0), "WWW.Example.COM.\n\n  api.example.com  \r\n", ""))
        .unwrap();
    assert_eq!(listed(&names), strings(&["api.example.com", "www.example.com"]));
    assert_eq!(
        backend.names_for(ended(Some(0), "", "")),
        Ok(AddressNames::known())
    );
    assert_eq!(UNKNOWN_ADDRESS_EXIT_CODE, 3);
    assert_eq!(
        backend.names_for(ended(Some(3), "no such address\n", "")),
        Ok(AddressNames::Unknown)
    );
    assert_eq!(
        backend.names_for(ended(Some(1), "inventory unreachable\n", "")),
        Err(IpamError("inventory unreachable".to_string()))
    );
    assert_eq!(
        backend.names_for(ended(Some(4), "\n", "token refused\n")),
        Err(IpamError("token refused".to_string()))
    );
    assert_eq!(
        backend.names_for(ended(Some(9), "", "")),
        Err(IpamError("custom IPAM script exited with status 9".to_string()))
    );
    assert_eq!(
        backend.names_for(ended(None, "", "")),
        Err(IpamError("custom IPAM script exited with status unknown".to_string()))
    );
    assert_eq!(
        backend.names_for(ScriptRun::Failed("timed out after 100 ms".to_string())),
        Err(IpamError("custom IPAM script timed out after 100 ms".to_string()))
    );
}

#[test]
fn ill_formed_output_is_read_with_replacement_characters() {
    let run = ScriptRun::Finished(ScriptOutcome {
        code: Some(0),
        stdout: vec![b'a', 0xff, b'b'],
        stderr: vec![],
    });
    assert_eq!(listed(&script("/s").names_for(run).unwrap()), vec!["a\u{fffd}b".to_string()]);
}

#[test]
fn the_script_is_told_the_address_twice() {
    let request = script("/s").request("203.0.113.5");
    assert_eq!(
        request.envs,
        vec![
            ("ACME_IPAM_HOOK".to_string(), "names_for".to_string()),
            ("ACME_IPAM_CLIENT_IP".to_string(), "203.0.113.5".to_string()),
        ]
    );
    assert_eq!(request.payload.get("client_ip").unwrap().as_str(), Some("203.0.113.5"));
    assert_eq!(request.payload.get("hook").unwrap().as_str(), Some("names_for"));
}

#[test]
fn a_hook_keeps_its_arguments_and_its_deadline() {
    let hook = ScriptHook::new("/s", &strings(&["first", "second"]), 100).unwrap();
    assert_eq!(hook.args, strings(&["first", "second"]));
    assert_eq!(hook.timeout_ms, 100);
    assert!(ScriptHook::new(" \t", &Vec::new(), 100).is_none());
}

fn der(tag: u8, parts: &[Vec<u8>]) -> Vec<u8> {
    let content = parts.concat();
    let mut out = vec![tag, content.len() as u8];
    out.extend(content);
    out
}

/// A certificate of the first version, with this subject and this key.
fn certificate(subject: u8, key: u8) -> Vec<u8> {
    let empty = || der(0x30, &[]);
    let tbs = der(
        0x30,
        &[
            der(0x02, &[vec![1]]),
            empty(),
            empty(),
            empty(),
            der(0x30, &[vec![subject]]),
            der(0x30, &[vec![key]]),
        ],
    );
    der(0x30, &[tbs, empty(), der(0x03, &[vec![0, 1]])])
}

#[test]
fn certificates_are_trusted_in_their_order() {
    let roots = rustls::RootCertStore::empty();
    let store = trusting(roots, "s", "p", &vec![certificate(7, 8), certificate(9, 10)]).unwrap();
    let subjects: Vec<&[u8]> = store.roots.iter().map(|root| root.subject.as_ref()).collect();
    assert_eq!(subjects, [[7], [9]]);
    let roots = rustls::RootCertStore::empty();
    assert!(trusting(roots, "s", "p", &vec![certificate(7, 8), vec![1]]).is_err());
}

#[test]
fn the_first_unusable_certificate_decides() {
    let roots = rustls::RootCertStore::empty();
    let error = trusting(roots, "ipam.netbox.ca_cert_path", "/ca.pem", &vec![vec![1, 2, 3]]);
    let error = error.err().unwrap();
    assert!(
        error.starts_with("ipam.netbox.ca_cert_path: /ca.pem is not a usable CA certificate: "),
        "{error}"
    );
    assert!(error.contains("BadEncoding"), "{error}");
    let roots = rustls::RootCertStore::empty();
    assert!(trusting(roots, "s", "p", &vec![]).unwrap().roots.is_empty());
}

#[test]
fn a_request_that_was_never_sent_says_why() {
    let message = |reply: &Reply| exchange("https://ipam/api", reply, "").unwrap_err().message;
    assert_eq!(
        message(&Reply::Unusable("no host".to_string())),
        "https://ipam/api is not a usable endpoint: no host"
    );
    assert_eq!(message(&Reply::Unconnected("refused".to_string())), "refused");
    assert_eq!(
        message(&Reply::Unbuilt("bad header".to_string())),
        "building the request: bad header"
    );
}
