use std::cell::RefCell;
use std::rc::Rc;

use sophos_firewall_api::{
    build_request_xml, nodes_from_events, parse_response_xml, parse_xml_nodes,
    resources_from_events, Action, AuthorizationPolicy, AuthorizationRule, Error, ObjectScope,
    SophosClient, SophosConnection, SophosRequest, SophosTransport,
};

#[derive(Clone)]
struct FakeTransport {
    requests: Rc<RefCell<Vec<String>>>,
    response_xml: String,
}

impl FakeTransport {
    fn new(response_xml: impl Into<String>) -> Self {
        Self {
            requests: Rc::new(RefCell::new(Vec::new())),
            response_xml: response_xml.into(),
        }
    }

    fn captured_requests(&self) -> Vec<String> {
        self.requests.borrow().clone()
    }
}

impl SophosTransport for FakeTransport {
    fn send_xml(&self, _api_url: &str, request_xml: &str) -> sophos_firewall_api::Result<String> {
        self.requests.borrow_mut().push(request_xml.to_string());
        Ok(self.response_xml.clone())
    }
}

fn connection() -> SophosConnection {
    SophosConnection::new("firewall.example", "api-user", "secret")
}

#[test]
fn client_sends_safe_xml_to_transport_and_returns_response() {
    let success_xml = "<Response><WebFilterPolicy><Status code=\"200\">Configuration applied successfully.</Status><Name>Default Policy</Name></WebFilterPolicy></Response>";
    let transport = FakeTransport::new(success_xml);
    let client = SophosClient::new(connection(), transport.clone());
    let request = SophosRequest::update("WebFilterPolicy", "Default Policy");

    let response = client.execute(&request).expect("success response parses");

    let captured = transport.captured_requests();
    assert_eq!(captured.len(), 1);
    let xml = &captured[0];
    assert!(xml.contains("<Request>"));
    assert!(
        xml.contains("<Login><Username>api-user</Username><Password>secret</Password></Login>")
    );
    assert!(xml.contains("<Set operation=\"update\"><WebFilterPolicy>"));
    assert!(xml.contains("<Name>Default Policy</Name>"));

    let resource = response
        .resource("WebFilterPolicy")
        .expect("resource response is exposed");
    assert_eq!(resource.status.code.as_deref(), Some("200"));
    assert_eq!(resource.status.text, "Configuration applied successfully.");
    assert!(resource.body_xml.contains("<Name>Default Policy</Name>"));
}

#[test]
fn response_parser_maps_zero_records_to_zero_records_error() {
    let xml = "<Response><DNSHostEntry><Status>Number of records Zero.</Status></DNSHostEntry></Response>";

    let error = parse_response_xml(xml).expect_err("zero records should be structured");

    assert_eq!(
        error,
        Error::ZeroRecords {
            resource: "DNSHostEntry".to_string()
        }
    );
}

#[test]
fn response_parser_maps_non_2xx_resource_status_to_api_error() {
    let xml = "<Response><DNSHostEntry><Status code=\"500\">Missing or invalid host parameters.</Status></DNSHostEntry></Response>";

    let error = parse_response_xml(xml).expect_err("non-2xx status should be structured");

    assert_eq!(
        error,
        Error::ApiError {
            resource: "DNSHostEntry".to_string(),
            code: Some("500".to_string()),
            message: "Missing or invalid host parameters.".to_string()
        }
    );
}

#[test]
fn client_authorizes_before_sending_xml() {
    let transport = FakeTransport::new("<Response/>");
    let client = SophosClient::new(connection(), transport.clone())
        .with_authorization("agent:webfilter-bot", AuthorizationPolicy::default());
    let request = SophosRequest::update("WebFilterPolicy", "Default Policy");

    let error = client
        .execute(&request)
        .expect_err("empty policy denies request");

    assert!(matches!(error, Error::AuthorizationDenied(_)));
    assert!(
        transport.captured_requests().is_empty(),
        "denied request must not reach transport"
    );
}

#[test]
fn authorized_client_sends_an_allowed_request_once() {
    let success_xml = "<Response><WebFilterPolicy><Status code=\"200\">ok</Status></WebFilterPolicy></Response>";
    let transport = FakeTransport::new(success_xml);
    let policy = AuthorizationPolicy::new(vec![AuthorizationRule::allow(
        "agent:webfilter-bot",
        "WebFilterPolicy",
        ObjectScope::named(vec!["Default Policy"]),
        vec![Action::Update],
    )]);
    let client = SophosClient::new(connection(), transport.clone())
        .with_authorization("agent:webfilter-bot", policy);
    let request = SophosRequest::update("WebFilterPolicy", "Default Policy");

    let response = client.execute(&request).expect("allowed request is sent");
    assert_eq!(response.raw_xml, success_xml);
    let captured = transport.captured_requests();
    assert_eq!(captured.len(), 1);
    assert_eq!(captured[0], build_request_xml(&connection(), &request).unwrap());
}

#[test]
fn invalid_request_is_refused_before_sending() {
    let transport = FakeTransport::new("<Response/>");
    let client = SophosClient::new(connection(), transport.clone());
    let request = SophosRequest::read("Bad Tag");
    let error = client.execute(&request).expect_err("tag with a space is refused");
    assert!(matches!(error, Error::InvalidRequest(_)));
    assert!(transport.captured_requests().is_empty());
}

#[test]
fn raw_xml_request_sends_its_payload_as_body() {
    let request = SophosRequest::raw_xml("IPHost", Some("web"), "<Get><IPHost/></Get>");
    let xml = build_request_xml(&connection(), &request).unwrap();
    assert_eq!(
        xml,
        "<Request><Login><Username>api-user</Username><Password>secret</Password></Login><Get><IPHost/></Get></Request>"
    );
}

#[test]
fn api_error_before_a_broken_tag_is_reported_first() {
    let xml = "<Response><IPHost><Status code=\"500\">Operation failed.</Status></IPHost></Broken></Response>";
    let error = parse_response_xml(xml).expect_err("the reply is rejected");
    assert!(matches!(error, Error::ApiError { ref resource, .. } if resource == "IPHost"));
}

#[test]
fn read_error_after_the_events_is_reported_when_they_pass() {
    let events = vec!["<Response>".to_string()];
    let error = resources_from_events(&events, Some("ill-formed document".to_string()))
        .expect_err("the read error stands");
    assert_eq!(error, Error::ResponseParse("ill-formed document".to_string()));
}

#[test]
fn events_of_a_reply_give_its_resources_in_order() {
    let events: Vec<String> = [
        "<Response>",
        "<IPHost>",
        "<Status code=\"200\">",
        "ok",
        "</Status>",
        "</IPHost>",
        "<Zone/>",
        "</Response>",
    ]
    .iter()
    .map(|s| s.to_string())
    .collect();
    let resources = resources_from_events(&events, None).expect("events parse");
    assert_eq!(resources.len(), 2);
    assert_eq!(resources[0].name, "IPHost");
    assert_eq!(resources[0].status.code.as_deref(), Some("200"));
    assert_eq!(resources[0].status.text, "ok");
    assert_eq!(resources[1].name, "Zone");
}

#[test]
fn tree_events_build_nested_nodes() {
    let events: Vec<String> = ["<A>", "<B>", "x", "</B>", "</A>"].iter().map(|s| s.to_string()).collect();
    let nodes = nodes_from_events(&events, None).expect("events build");
    assert_eq!(nodes.len(), 1);
    assert_eq!(nodes[0].child_text("B").as_deref(), Some("x"));
    let parsed = parse_xml_nodes("<A><B>x</B></A>").expect("document parses");
    assert_eq!(parsed.len(), 1);
    let error = nodes_from_events(&events, Some("bad".to_string())).expect_err("read error");
    assert_eq!(error, Error::ResponseParse("bad".to_string()));
}
