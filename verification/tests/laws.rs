use std::cell::RefCell;
use std::collections::VecDeque;
use std::rc::Rc;

use sophos_firewall_api::{
    build_request_xml, insert_grouped_value, parse_response_xml, Action, AuthorizationPolicy,
    AuthorizationRule, Decision, DnsHostAddress, DnsHostEntryCreate, EntryType, Error, FieldMap,
    FirewallRuleCreate, FirewallRuleUpdate, IpFamily, IpHostGroupCreate, ObjectScope,
    PublishOnWan, SophosClient, SophosConnection, SophosRequest, SophosTransport, UserCreate,
    Value,
};

#[derive(Clone)]
struct QueueTransport {
    requests: Rc<RefCell<Vec<String>>>,
    responses: Rc<RefCell<VecDeque<String>>>,
}

impl QueueTransport {
    fn new(responses: impl IntoIterator<Item = String>) -> Self {
        Self {
            requests: Rc::new(RefCell::new(Vec::new())),
            responses: Rc::new(RefCell::new(responses.into_iter().collect())),
        }
    }

    fn captured_requests(&self) -> Vec<String> {
        self.requests.borrow().clone()
    }
}

impl SophosTransport for QueueTransport {
    fn send_xml(&self, _api_url: &str, request_xml: &str) -> sophos_firewall_api::Result<String> {
        self.requests.borrow_mut().push(request_xml.to_string());
        self.responses
            .borrow_mut()
            .pop_front()
            .ok_or_else(|| Error::Transport("no queued fake response".to_string()))
    }
}

fn client_with(
    responses: impl IntoIterator<Item = String>,
) -> (SophosClient<QueueTransport>, QueueTransport) {
    let transport = QueueTransport::new(responses);
    (
        SophosClient::new(
            SophosConnection::new("firewall.example", "api-user", "secret"),
            transport.clone(),
        ),
        transport,
    )
}

fn response(body: &str) -> String {
    format!("<Response>{body}</Response>")
}

fn url_group_xml(name: &str, domains: &[&str]) -> String {
    let urls = domains
        .iter()
        .map(|domain| format!("<URL>{domain}</URL>"))
        .collect::<String>();
    format!("<WebFilterURLGroup><Name>{name}</Name><URLlist>{urls}</URLlist></WebFilterURLGroup>")
}

fn url_group_ok() -> String {
    response(
        "<WebFilterURLGroup><Status code=\"200\">Configuration applied successfully.</Status></WebFilterURLGroup>",
    )
}

fn urls_in(xml: &str) -> Vec<String> {
    xml.split("<URL>")
        .skip(1)
        .map(|rest| rest.split("</URL>").next().unwrap_or_default().to_string())
        .collect()
}

fn text(value: &str) -> Value {
    Value::from_str(value)
}

fn object(pairs: Vec<(&str, Value)>) -> Value {
    let mut members = FieldMap::new();
    for (key, value) in pairs {
        members.insert(key.to_string(), value);
    }
    Value::object(members)
}

#[test]
fn adding_members_keeps_existing_order_and_skips_repeats() {
    let (client, transport) = client_with([
        response(&url_group_xml("kids", &["a.example", "b.example"])),
        url_group_ok(),
    ]);

    client
        .url_groups()
        .add_domains("kids", vec!["b.example", "c.example", "c.example"])
        .expect("domains added");

    assert_eq!(
        urls_in(&transport.captured_requests()[1]),
        vec!["a.example", "b.example", "c.example"]
    );
}

#[test]
fn adding_members_already_there_changes_nothing() {
    let (client, transport) = client_with([
        response(&url_group_xml("kids", &["a.example", "b.example"])),
        url_group_ok(),
    ]);

    client
        .url_groups()
        .add_domains("kids", vec!["b.example", "a.example"])
        .expect("domains added");

    assert_eq!(
        urls_in(&transport.captured_requests()[1]),
        vec!["a.example", "b.example"]
    );
}

#[test]
fn removing_what_was_added_restores_the_members() {
    let (client, transport) = client_with([
        response(&url_group_xml("kids", &["a.example"])),
        url_group_ok(),
        response(&url_group_xml("kids", &["a.example", "x.example"])),
        url_group_ok(),
    ]);

    client
        .url_groups()
        .add_domains("kids", vec!["x.example"])
        .expect("domain added");
    client
        .url_groups()
        .remove_domains("kids", vec!["x.example"])
        .expect("domain removed");

    let requests = transport.captured_requests();
    assert_eq!(urls_in(&requests[1]), vec!["a.example", "x.example"]);
    assert_eq!(urls_in(&requests[3]), vec!["a.example"]);
}

#[test]
fn a_request_is_allowed_only_through_a_matching_rule() {
    let policy = AuthorizationPolicy::new(vec![
        AuthorizationRule::allow(
            "agent:dns",
            "DNSHostEntry",
            ObjectScope::Any,
            vec![Action::Read],
        ),
        AuthorizationRule::allow(
            "agent:dns",
            "DNSHostEntry",
            ObjectScope::named(vec!["app.local"]),
            vec![Action::Update],
        ),
    ]);

    let allowed = SophosRequest::update("DNSHostEntry", "app.local");
    assert_eq!(policy.decide("agent:dns", &allowed), Decision::Allow);

    let other_object = SophosRequest::update("DNSHostEntry", "db.local");
    assert!(matches!(
        policy.decide("agent:dns", &other_object),
        Decision::Deny(reason) if reason.contains("db.local")
    ));

    let other_subject = SophosRequest::read("DNSHostEntry");
    assert!(matches!(
        policy.decide("agent:web", &other_subject),
        Decision::Deny(reason) if reason.contains("has no rule")
    ));

    let other_action = SophosRequest::new(Action::Delete, "DNSHostEntry").for_object("app.local");
    assert!(matches!(
        policy.decide("agent:dns", &other_action),
        Decision::Deny(reason) if reason.contains("Delete")
    ));

    assert!(matches!(
        policy.authorize("agent:dns", &other_action),
        Err(Error::AuthorizationDenied(_))
    ));
    assert!(policy.authorize("agent:dns", &allowed).is_ok());
}

#[test]
fn an_empty_policy_denies_everything() {
    let policy = AuthorizationPolicy::empty();
    for request in [
        SophosRequest::read("DNSHostEntry"),
        SophosRequest::update("WebFilterPolicy", "Default Policy"),
    ] {
        assert!(matches!(
            policy.decide("agent:any", &request),
            Decision::Deny(_)
        ));
    }
}

#[test]
fn the_first_failing_resource_is_the_reported_error() {
    let xml = "<Response><A><Status code=\"500\">first</Status></A><B><Status code=\"400\">second</Status></B></Response>";

    let error = parse_response_xml(xml).expect_err("failing statuses");

    assert_eq!(
        error,
        Error::ApiError {
            resource: "A".to_string(),
            code: Some("500".to_string()),
            message: "first".to_string(),
        }
    );
}

#[test]
fn escaped_values_carry_no_markup() {
    let connection = SophosConnection::new("fw", "api-user", "secret");
    let mut payload = FieldMap::new();
    payload.insert(
        "Description".to_string(),
        text("<b onclick='x'>\"a\" & b</b>"),
    );
    let request = SophosRequest::update("WebFilterPolicy", "Allowed Policy")
        .with_payload(Value::object(payload));

    let xml = build_request_xml(&connection, &request).expect("valid request");

    let start = xml.find("<Description>").expect("description written") + "<Description>".len();
    let end = xml.find("</Description>").expect("description closed");
    let content = &xml[start..end];
    assert_eq!(
        content,
        "&lt;b onclick=&apos;x&apos;&gt;&quot;a&quot; &amp; b&lt;/b&gt;"
    );
    assert!(!content.contains(['<', '>', '\'', '"']));
}

#[test]
fn updates_keep_unmentioned_fields_and_merge_objects() {
    let existing = "<FirewallRule><Name>allow-web</Name><Description>kept</Description><Status>Enable</Status><Label>old</Label><NetworkPolicy><Action>Drop</Action><LogTraffic>Enable</LogTraffic></NetworkPolicy></FirewallRule>";
    let (client, transport) = client_with([
        response(existing),
        response(
            "<FirewallRule><Status code=\"200\">Configuration applied successfully.</Status></FirewallRule>",
        ),
    ]);
    let update = FirewallRuleUpdate::new("allow-web")
        .expect("valid name")
        .with_field("Status", text("Disable"))
        .expect("valid field")
        .with_field("Label", object(vec![("Text", text("new"))]))
        .expect("valid field")
        .with_field(
            "NetworkPolicy",
            object(vec![("Action", text("Accept")), ("Schedule", text("All"))]),
        )
        .expect("valid field");

    client.firewall().update_rule(update).expect("rule updated");

    let request = &transport.captured_requests()[1];
    assert!(request.contains("<Description>kept</Description>"));
    assert!(request.contains("<Status>Disable</Status>"));
    assert!(!request.contains("<Status>Enable</Status>"));
    assert!(request.contains("<Label><Text>new</Text></Label>"));
    assert!(request.contains("<Action>Accept</Action>"));
    assert!(request.contains("<LogTraffic>Enable</LogTraffic>"));
    assert!(request.contains("<Schedule>All</Schedule>"));
    assert!(!request.contains("<Action>Drop</Action>"));
}

#[test]
fn names_are_normalized_once_and_for_all() {
    let user = UserCreate::new("  alice  ").expect("valid user");
    assert_eq!(user.name(), "alice");

    let rule = FirewallRuleCreate::new("\tallow-web \n").expect("valid rule");
    assert_eq!(rule.name(), "allow-web");
    let again = FirewallRuleCreate::new(rule.name()).expect("valid rule");
    assert_eq!(again.name(), "allow-web");

    let (client, transport) = client_with([response(
        "<User><Status code=\"200\">Configuration applied successfully.</Status></User>",
    )]);
    client.users().create_user(user).expect("user created");
    let request = &transport.captured_requests()[0];
    assert!(request.contains("<Name>alice</Name>"));
    assert!(request.contains("<Username>alice</Username>"));

    let blank = FirewallRuleCreate::new("   ").expect_err("blank name");
    assert_eq!(
        blank.to_string(),
        "invalid request: firewall rule name must not be empty"
    );
}

#[test]
fn status_text_and_attributes_are_read_as_xml() {
    let xml = "<Response><X><Status code=\"2&#48;0\">line one\r\nline two</Status></X><Y><Status code=\"200\"><![CDATA[ applied\r\n<ok> ]]></Status></Y></Response>";

    let parsed = parse_response_xml(xml).expect("valid reply");

    let x = parsed.resource("X").expect("X read");
    assert_eq!(x.status.code.as_deref(), Some("200"));
    assert_eq!(x.status.text, "line one\nline two");
    let y = parsed.resource("Y").expect("Y read");
    assert_eq!(y.status.text, "applied\n<ok>");
}

#[test]
fn an_unknown_set_operation_is_named_quoted() {
    let connection = SophosConnection::new("fw", "api-user", "secret");
    let request = SophosRequest::update("WebFilterPolicy", "Allowed Policy").with_set_operation("bo\"gus");

    let error = build_request_xml(&connection, &request).expect_err("unknown operation");

    assert_eq!(
        error.to_string(),
        "invalid request: invalid Set operation \"bo\\\"gus\""
    );
}

#[test]
fn addresses_are_normalized_once_and_for_all() {
    let host = sophos_firewall_api::IpHostCreate::new(" web ", " 10.0.0.1\t").expect("valid host");
    assert_eq!(host.ip_address(), "10.0.0.1");
    let again = sophos_firewall_api::IpHostCreate::new(host.name(), host.ip_address())
        .expect("still valid");
    assert_eq!(again.ip_address(), "10.0.0.1");
    assert_eq!(again.name(), "web");

    let leading_zero = sophos_firewall_api::IpHostCreate::new("web", "10.0.0.01")
        .expect_err("leading zeros are not an address");
    assert_eq!(
        leading_zero.to_string(),
        "invalid request: ip_address must be an IPv4 address"
    );
}

#[test]
fn host_names_are_normalized_once_and_for_all() {
    let address = sophos_firewall_api::DnsHostAddress::new(
        sophos_firewall_api::EntryType::Manual,
        sophos_firewall_api::IpFamily::IPv4,
        "10.0.0.7",
    )
    .expect("valid address");
    let entry = sophos_firewall_api::DnsHostEntryCreate::new(" app.local.. ", vec![address.clone()])
        .expect("valid entry");
    assert_eq!(entry.host_name(), "app.local");
    let again = sophos_firewall_api::DnsHostEntryCreate::new(entry.host_name(), vec![address])
        .expect("still valid");
    assert_eq!(again.host_name(), "app.local");
}

fn refusal(request: &SophosRequest) -> String {
    let connection = SophosConnection::new("firewall.example", "api-user", "secret");
    match build_request_xml(&connection, request) {
        Err(Error::InvalidRequest(m)) => m,
        other => panic!("expected a refusal, got {other:?}"),
    }
}

#[test]
fn the_builder_refuses_exactly_the_listed_requests() {
    assert_eq!(refusal(&SophosRequest::read("1Bad")), "invalid XML tag \"1Bad\"");
    assert_eq!(
        refusal(&SophosRequest::read("IPHost").for_object("web").with_object_key("Bad Key")),
        "invalid XML tag \"Bad Key\""
    );
    assert_eq!(
        refusal(&SophosRequest::update("IPHost", "web").with_set_operation("merge")),
        "invalid Set operation \"merge\""
    );
    assert_eq!(refusal(&SophosRequest::update("IPHost", "  ")), "object_name must not be empty");
    assert_eq!(refusal(&SophosRequest::new(Action::Delete, "IPHost")), "delete requires object_name");
    assert_eq!(
        refusal(&SophosRequest::new(Action::Create, "IPHost").with_payload(text("x"))),
        "payload must be a JSON object"
    );
    assert_eq!(
        refusal(
            &SophosRequest::new(Action::Create, "IPHost")
                .with_payload(object(vec![("Outer", object(vec![("bad tag", text("x"))]))]))
        ),
        "invalid XML tag \"bad tag\""
    );
    assert_eq!(
        refusal(&SophosRequest::raw_xml("IPHost", None, "<Get/>").with_payload(Value::Null)),
        "raw XML payload must be a string"
    );
    let connection = SophosConnection::new("firewall.example", "api-user", "secret");
    assert!(build_request_xml(&connection, &SophosRequest::update("IPHost", "web")).is_ok());
    assert!(build_request_xml(&connection, &SophosRequest::new(Action::Create, "IPHost").with_payload(Value::Null)).is_ok());
}

#[test]
fn parsed_replies_skip_status_and_keep_only_passing_resources() {
    let xml = response(
        "<Status code=\"200\">ok</Status><IPHost><Status code=\"200\">done</Status></IPHost><Zone/>",
    );
    let parsed = parse_response_xml(&xml).expect("reply parses");
    let names: Vec<&str> = parsed.resources.iter().map(|r| r.name.as_str()).collect();
    assert_eq!(names, vec!["IPHost", "Zone"]);
    assert_eq!(parsed.raw_xml, xml);
    let refused = parse_response_xml(&response(
        "<IPHost><Status code=\"200\">ok</Status></IPHost><Zone><Status code=\"404\">missing</Status></Zone>",
    ));
    assert!(matches!(refused, Err(Error::ApiError { ref resource, .. }) if resource == "Zone"));
}

#[test]
fn repeated_keys_group_into_an_array_in_order() {
    let mut fields = FieldMap::new();
    insert_grouped_value(&mut fields, "Host".to_string(), text("a"));
    assert_eq!(fields.get("Host"), Some(&text("a")));
    insert_grouped_value(&mut fields, "Host".to_string(), text("b"));
    insert_grouped_value(&mut fields, "Other".to_string(), text("x"));
    insert_grouped_value(&mut fields, "Host".to_string(), text("c"));
    assert_eq!(
        fields.get("Host"),
        Some(&Value::Array(vec![text("a"), text("b"), text("c")]))
    );
    assert_eq!(fields.get("Other"), Some(&text("x")));
}

#[test]
fn group_members_keep_their_first_occurrences_in_order() {
    let (client, transport) = client_with([response(
        "<IPHostGroup><Status code=\"200\">Configuration applied successfully.</Status></IPHostGroup>",
    )]);
    let group = IpHostGroupCreate::new("hosts", vec!["b", " a ", "b", "a"]).expect("members are valid");
    client.network().create_ip_host_group(group).expect("group is created");
    let sent = &transport.captured_requests()[0];
    let hosts: Vec<&str> = sent.split("<Host>").skip(1).map(|r| r.split("</Host>").next().unwrap()).collect();
    assert_eq!(hosts, vec!["b", "a"]);
}

#[test]
fn host_name_labels_and_addresses_follow_the_rules() {
    let address = DnsHostAddress::new(EntryType::Manual, IpFamily::IPv4, "192.0.2.10").expect("valid address");
    let error = DnsHostEntryCreate::new("-bad.example", vec![address]).expect_err("label starts with a hyphen");
    assert_eq!(error, Error::InvalidRequest("invalid hostname label: -bad".to_string()));
    let long = format!("{}.example", "a".repeat(250));
    let address = DnsHostAddress::new(EntryType::Manual, IpFamily::IPv4, "192.0.2.10").expect("valid address");
    let error = DnsHostEntryCreate::new(&long, vec![address]).expect_err("too long");
    assert_eq!(error, Error::InvalidRequest("hostname must be 253 characters or less".to_string()));
    let error = DnsHostAddress::with_options(EntryType::Manual, IpFamily::IPv4, "192.0.2.10", 0, 0, PublishOnWan::Disable)
        .expect_err("zero TTL");
    assert_eq!(error, Error::InvalidRequest("ttl must be between 1 and 604800".to_string()));
    assert!(DnsHostAddress::with_options(EntryType::InterfaceIp, IpFamily::IPv4, "not an address", 604800, 3, PublishOnWan::Enable).is_ok());
}

#[test]
fn object_scopes_cover_any_object_or_exactly_the_named_ones() {
    let any = AuthorizationPolicy::new(vec![AuthorizationRule::allow(
        "bot",
        "IPHost",
        ObjectScope::Any,
        vec![Action::Read],
    )]);
    assert_eq!(any.decide("bot", &SophosRequest::read("IPHost")), Decision::Allow);
    let named = AuthorizationPolicy::new(vec![AuthorizationRule::allow(
        "bot",
        "IPHost",
        ObjectScope::named(vec!["web", "api"]),
        vec![Action::Read],
    )]);
    assert_eq!(
        named.decide("bot", &SophosRequest::read("IPHost")),
        Decision::Deny("rule requires a named object but request has no object".to_string())
    );
    assert_eq!(named.decide("bot", &SophosRequest::read("IPHost").for_object("api")), Decision::Allow);
    assert_eq!(
        named.decide("bot", &SophosRequest::read("IPHost").for_object("db")),
        Decision::Deny("object \"db\" is outside allowed scope".to_string())
    );
}
