use std::collections::VecDeque;
use std::sync::{Arc, Mutex};

use sophos_firewall_api::{
    connection_from_settings, default_entry_type, default_publish_on_wan, default_ttl, parse_bool,
    required_setting, setting_value, ApiError, AppState, DnsHostAddress, DnsHostAddressBody,
    DnsHostAddressDto, DnsHostEntryBody, DnsHostEntryCreate, DnsHostEntryDto, DnsHostEntryPatch,
    DnsMutationAction, DnsMutationDto, DnsMutationOutcome, EntryType, Error, FieldMap,
    FirewallClient, FirewallObjectBody, FirewallObjectDto, IpFamily, MutationAction,
    PublishOnWan, ResourceResponse, ResourceResponseDto, ResourceStatus, SophosClient,
    SophosConnection, SophosTransport, UrlGroupBody, UrlGroupDomainAction, UrlGroupDto, Value,
    WebError,
};

#[derive(Clone)]
struct QueueTransport {
    requests: Arc<Mutex<Vec<String>>>,
    responses: Arc<Mutex<VecDeque<String>>>,
}

impl QueueTransport {
    fn new(responses: impl IntoIterator<Item = String>) -> Self {
        Self {
            requests: Arc::new(Mutex::new(Vec::new())),
            responses: Arc::new(Mutex::new(responses.into_iter().collect())),
        }
    }

    fn captured_requests(&self) -> Vec<String> {
        self.requests.lock().expect("requests lock").clone()
    }
}

impl SophosTransport for QueueTransport {
    fn send_xml(&self, _api_url: &str, request_xml: &str) -> sophos_firewall_api::Result<String> {
        self.requests
            .lock()
            .expect("requests lock")
            .push(request_xml.to_string());
        self.responses
            .lock()
            .expect("responses lock")
            .pop_front()
            .ok_or_else(|| Error::Transport("no queued fake response".to_string()))
    }
}

fn client_with(
    responses: impl IntoIterator<Item = String>,
) -> (SophosClient<QueueTransport>, QueueTransport) {
    let transport = QueueTransport::new(responses);
    (
        SophosClient::new(
            SophosConnection::new("firewall.example", "api-user", "secret"),
            transport.clone(),
        ),
        transport,
    )
}

fn response(body: &str) -> String {
    format!("<Response>{body}</Response>")
}

fn success_response(resource: &str) -> String {
    response(&format!(
        "<{resource}><Status code=\"200\">Configuration applied successfully.</Status></{resource}>"
    ))
}

fn zero_records_response(resource: &str) -> String {
    response(&format!(
        "<{resource}><Status>Number of records Zero.</Status></{resource}>"
    ))
}

fn address_body(ip: &str) -> DnsHostAddressBody {
    DnsHostAddressBody {
        entry_type: default_entry_type(),
        ip_family: IpFamily::IPv4,
        ip_address: ip.to_string(),
        ttl: default_ttl(),
        weight: 0,
        publish_on_wan: default_publish_on_wan(),
    }
}

fn ok_response(resource: &str) -> ResourceResponse {
    ResourceResponse {
        name: resource.to_string(),
        status: ResourceStatus {
            code: Some("200".to_string()),
            text: "Configuration applied successfully.".to_string(),
        },
        body_xml: String::new(),
    }
}

#[test]
fn parse_bool_reads_switch_words_in_any_case() {
    for word in ["1", "true", " TRUE ", "Yes", "on"] {
        assert!(parse_bool("FLAG", word).expect("on word"), "{word}");
    }
    for word in ["0", "false", "No", "\tOFF\n"] {
        assert!(!parse_bool("FLAG", word).expect("off word"), "{word}");
    }
    let error = parse_bool("FLAG", "maybe").expect_err("unknown word");
    assert!(matches!(&error, WebError::InvalidConfig(m) if m == "FLAG must be true or false"));
    assert_eq!(
        error.to_string(),
        "invalid configuration: FLAG must be true or false"
    );
}

#[test]
fn blank_settings_count_as_missing() {
    assert_eq!(setting_value(Some("  ".to_string())), None);
    assert_eq!(setting_value(None), None);
    assert_eq!(
        setting_value(Some(" host ".to_string())),
        Some(" host ".to_string())
    );

    let error = required_setting("SOPHOS_FIREWALL_HOST", None).expect_err("missing");
    assert_eq!(
        error.to_string(),
        "missing required environment variable SOPHOS_FIREWALL_HOST"
    );
    assert_eq!(
        required_setting("SOPHOS_FIREWALL_HOST", Some("fw".to_string())).expect("present"),
        "fw"
    );
}

#[test]
fn connection_settings_default_and_override_port_and_tls() {
    let defaults = connection_from_settings("fw", "user", "pw", None, None).expect("defaults");
    assert_eq!(defaults.host, "fw");
    assert_eq!(defaults.username, "user");
    assert_eq!(defaults.password, "pw");
    assert_eq!(defaults.port, 4444);
    assert!(defaults.verify_tls);

    let custom =
        connection_from_settings("fw", "user", "pw", Some("8443"), Some("no")).expect("custom");
    assert_eq!(custom.port, 8443);
    assert!(!custom.verify_tls);

    let plus = connection_from_settings("fw", "user", "pw", Some("+80"), None).expect("plus sign");
    assert_eq!(plus.port, 80);

    for bad in ["70000", "", "-1", "44 4", "port"] {
        let error = connection_from_settings("fw", "user", "pw", Some(bad), Some("maybe"))
            .expect_err("bad port");
        assert_eq!(
            error.to_string(),
            "invalid configuration: SOPHOS_FIREWALL_PORT must be a u16",
            "{bad}"
        );
    }

    let error = connection_from_settings("fw", "user", "pw", Some("65535"), Some("maybe"))
        .expect_err("bad switch");
    assert_eq!(
        error.to_string(),
        "invalid configuration: SOPHOS_FIREWALL_VERIFY_TLS must be true or false"
    );
}

#[test]
fn library_errors_map_to_http_replies() {
    let cases = vec![
        (Error::InvalidRequest("bad".to_string()), 400, "invalid_request"),
        (Error::AuthorizationDenied("no".to_string()), 403, "authorization_denied"),
        (
            Error::ZeroRecords {
                resource: "DNSHostEntry".to_string(),
            },
            404,
            "not_found",
        ),
        (Error::Transport("down".to_string()), 502, "transport_error"),
        (
            Error::ApiError {
                resource: "DNSHostEntry".to_string(),
                code: Some("500".to_string()),
                message: "boom".to_string(),
            },
            502,
            "sophos_api_error",
        ),
        (Error::ResponseParse("junk".to_string()), 502, "response_parse_error"),
    ];
    for (error, status, code) in cases {
        let message = error.to_string();
        let reply = ApiError::from_error(error);
        assert_eq!(reply.status(), status);
        assert_eq!(reply.code(), code);
        assert_eq!(reply.message(), message);
        let body = reply.body();
        assert_eq!(body.error.code, code);
        assert_eq!(body.error.message, message);
    }

    let missing = ApiError::not_found("DNS entry not found".to_string());
    assert_eq!(
        (missing.status(), missing.code(), missing.message()),
        (404, "not_found", "DNS entry not found")
    );
    let internal = ApiError::internal("worker task failed".to_string());
    assert_eq!((internal.status(), internal.code()), (500, "internal_error"));
}

#[test]
fn dns_body_takes_name_from_path_before_body() {
    let body = DnsHostEntryBody {
        host_name: Some("body.local".to_string()),
        addresses: vec![address_body("10.0.0.20")],
        add_reverse_dns_lookup: true,
    };
    let entry = body
        .into_create(Some("Web.Local.".to_string()))
        .expect("valid entry");
    assert_eq!(entry.host_name(), "Web.Local");
    assert_eq!(entry.addresses().len(), 1);
    assert_eq!(entry.addresses()[0].ip_address(), "10.0.0.20");
    assert_eq!(entry.addresses()[0].ttl(), 3600);
    assert!(entry.add_reverse_dns_lookup());

    let from_body = DnsHostEntryBody {
        host_name: Some("body.local".to_string()),
        addresses: vec![address_body("10.0.0.21")],
        add_reverse_dns_lookup: false,
    }
    .into_create(None)
    .expect("name from body");
    assert_eq!(from_body.host_name(), "body.local");
}

#[test]
fn dns_body_refusals_are_bad_requests() {
    let missing = DnsHostEntryBody {
        host_name: None,
        addresses: vec![address_body("10.0.0.20")],
        add_reverse_dns_lookup: false,
    }
    .into_create(None)
    .expect_err("name required");
    assert_eq!(missing.status(), 400);
    assert_eq!(missing.message(), "invalid request: host_name is required");

    let bad_address = DnsHostEntryBody {
        host_name: Some("web.local".to_string()),
        addresses: vec![address_body("10.0.0.20"), address_body("not-an-ip")],
        add_reverse_dns_lookup: false,
    }
    .into_create(None)
    .expect_err("invalid address");
    assert_eq!(bad_address.status(), 400);
    assert!(bad_address.message().contains("not-an-ip"));

    let no_addresses = DnsHostEntryBody {
        host_name: Some("web.local".to_string()),
        addresses: Vec::new(),
        add_reverse_dns_lookup: false,
    }
    .into_create(None)
    .expect_err("addresses required");
    assert_eq!(
        no_addresses.message(),
        "invalid request: addresses must not be empty"
    );
}

#[test]
fn dns_patch_sets_only_given_fields() {
    let only_reverse = DnsHostEntryPatch {
        addresses: None,
        add_reverse_dns_lookup: Some(true),
    }
    .into_update("web.local".to_string())
    .expect("valid patch");
    assert_eq!(only_reverse.host_name(), "web.local");
    assert!(only_reverse.addresses().is_none());
    assert_eq!(only_reverse.add_reverse_dns_lookup(), Some(true));

    let with_addresses = DnsHostEntryPatch {
        addresses: Some(vec![address_body("10.0.0.30")]),
        add_reverse_dns_lookup: None,
    }
    .into_update("web.local".to_string())
    .expect("valid patch");
    assert_eq!(
        with_addresses.addresses().expect("addresses set")[0].ip_address(),
        "10.0.0.30"
    );
    assert_eq!(with_addresses.add_reverse_dns_lookup(), None);

    let empty = DnsHostEntryPatch {
        addresses: Some(Vec::new()),
        add_reverse_dns_lookup: None,
    }
    .into_update("web.local".to_string())
    .expect_err("empty address list");
    assert_eq!(empty.status(), 400);

    let blank_host = DnsHostEntryPatch {
        addresses: None,
        add_reverse_dns_lookup: None,
    }
    .into_update("  ".to_string())
    .expect_err("blank host");
    assert_eq!(blank_host.message(), "invalid request: hostname must not be empty");
}

#[test]
fn url_group_body_needs_a_name_and_domains() {
    let group = UrlGroupBody {
        name: Some("body".to_string()),
        domains: vec!["example.com".to_string(), " example.org ".to_string()],
    }
    .into_create(Some("kids".to_string()))
    .expect("valid group");
    assert_eq!(group.name(), "kids");
    assert_eq!(group.domains(), &["example.com", "example.org"]);

    let missing = UrlGroupBody {
        name: None,
        domains: vec!["example.com".to_string()],
    }
    .into_create(None)
    .expect_err("name required");
    assert_eq!(missing.message(), "invalid request: name is required");

    let blank = UrlGroupBody {
        name: Some("kids".to_string()),
        domains: vec!["   ".to_string()],
    }
    .into_create(None)
    .expect_err("blank domain");
    assert!(blank.message().contains("domain must not be empty"));
}

#[test]
fn firewall_object_body_sets_each_field() {
    let mut fields = FieldMap::new();
    fields.insert("Status".to_string(), Value::from_str("Disable"));
    fields.insert("Description".to_string(), Value::from_str("web"));
    let rule = FirewallObjectBody {
        name: Some("body-name".to_string()),
        fields,
    }
    .into_rule_update(Some("allow-web".to_string()))
    .expect("valid rule");
    assert_eq!(rule.name(), "allow-web");

    let mut bad = FieldMap::new();
    bad.insert("Bad<Tag".to_string(), Value::from_str("x"));
    let error = FirewallObjectBody {
        name: Some("allow-web".to_string()),
        fields: bad,
    }
    .into_rule_create(None)
    .expect_err("invalid tag");
    assert_eq!(error.status(), 400);
    assert!(error.message().contains("invalid XML tag"));

    let missing = FirewallObjectBody {
        name: None,
        fields: FieldMap::new(),
    }
    .into_rule_group_create(None)
    .expect_err("name required");
    assert_eq!(missing.message(), "invalid request: name is required");

    let (name, rest) = FirewallObjectBody {
        name: Some("group-a".to_string()),
        fields: FieldMap::new(),
    }
    .object_name(None)
    .expect("named");
    assert_eq!(name, "group-a");
    assert!(rest.is_empty());
}

#[test]
fn reply_objects_copy_what_the_client_returned() {
    let reply = ResourceResponseDto::from_response(ok_response("FirewallRule"));
    assert_eq!(reply.resource, "FirewallRule");
    assert_eq!(reply.status_code.as_deref(), Some("200"));
    assert_eq!(reply.status, "Configuration applied successfully.");

    let mutation = DnsMutationDto::from_outcome(DnsMutationOutcome {
        action: DnsMutationAction::Updated,
        response: ok_response("DNSHostEntry"),
    });
    assert_eq!(mutation.action, MutationAction::Updated);
    assert_eq!(mutation.response.resource, "DNSHostEntry");

    let address = DnsHostAddress::with_options(
        EntryType::Manual,
        IpFamily::IPv4,
        "10.0.0.10",
        60,
        5,
        PublishOnWan::Enable,
    )
    .expect("valid address");
    let entry = DnsHostEntryCreate::new("app.local", vec![address.clone()]).expect("valid entry");
    let dto = DnsHostEntryDto::from_entry(entry);
    assert_eq!(dto.host_name, "app.local");
    assert_eq!(dto.addresses, vec![DnsHostAddressDto::from_address(&address)]);
    assert_eq!(dto.addresses[0].ttl, 60);
    assert_eq!(dto.addresses[0].weight, 5);
    assert_eq!(dto.addresses[0].publish_on_wan, PublishOnWan::Enable);
    assert!(!dto.add_reverse_dns_lookup);
}

#[test]
fn typed_client_answers_the_http_face() {
    let (client, transport) = client_with([
        zero_records_response("DNSHostEntry"),
        success_response("DNSHostEntry"),
        response(
            "<WebFilterURLGroup><Name>kids</Name><URLlist><URL>a.example</URL></URLlist></WebFilterURLGroup>",
        ),
        success_response("WebFilterURLGroup"),
        response(
            "<FirewallRule><Name>allow-web</Name><Status>Enable</Status></FirewallRule>",
        ),
    ]);
    let state = AppState::new(client);

    let entry = DnsHostEntryBody {
        host_name: None,
        addresses: vec![address_body("10.0.0.20")],
        add_reverse_dns_lookup: false,
    }
    .into_create(Some("web.local".to_string()))
    .expect("valid entry");
    let added = state
        .client()
        .add_dns_entry(entry, true)
        .expect("entry added");
    assert_eq!(added.action, MutationAction::Created);
    assert_eq!(added.response.resource, "DNSHostEntry");

    let updated = state
        .client()
        .update_url_group_domains("kids", UrlGroupDomainAction::Add, vec!["b.example".to_string()])
        .expect("domains added");
    assert_eq!(updated.name, "WebFilterURLGroup");

    let rules = state.client().list_firewall_rules().expect("rules listed");
    let dtos: Vec<FirewallObjectDto> = rules.into_iter().map(FirewallObjectDto::from_rule).collect();
    assert_eq!(dtos.len(), 1);
    assert_eq!(dtos[0].name, "allow-web");
    assert_eq!(
        dtos[0].fields.get("Status"),
        Some(&Value::from_str("Enable"))
    );

    let requests = transport.captured_requests();
    assert_eq!(requests.len(), 5);
    assert!(requests[1].contains("<Set operation=\"add\"><DNSHostEntry>"));
    assert!(requests[3].contains("<URL>a.example</URL>"));
    assert!(requests[3].contains("<URL>b.example</URL>"));
}

#[test]
fn url_group_dto_keeps_domains_in_order() {
    let (client, _) = client_with([response(
        "<WebFilterURLGroup><Name>kids</Name><URLlist><URL>b.example</URL><URL>a.example</URL></URLlist></WebFilterURLGroup>",
    )]);
    let group = client
        .get_url_group("kids")
        .expect("lookup works")
        .expect("group exists");
    let dto = UrlGroupDto::from_group(group);
    assert_eq!(dto.name, "kids");
    assert_eq!(dto.domains, vec!["b.example", "a.example"]);
}
