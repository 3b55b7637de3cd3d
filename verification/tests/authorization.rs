use sophos_firewall_api::{
    Action, AuthorizationPolicy, AuthorizationRule, Decision, FieldMap, ObjectScope, SophosRequest,
    Value,
};

fn webfilter_one_object_policy() -> AuthorizationPolicy {
    AuthorizationPolicy::new(vec![AuthorizationRule::allow(
        "agent:webfilter-bot",
        "WebFilterPolicy",
        ObjectScope::named(vec!["Allowed Policy"]),
        vec![Action::Read, Action::Update],
    )])
}

fn description(text: &str) -> Value {
    let mut members = FieldMap::new();
    members.insert("Description".to_string(), Value::from_str(text));
    Value::object(members)
}

#[test]
fn allows_agent_to_update_one_named_policy_object() {
    let request = SophosRequest::update("WebFilterPolicy", "Allowed Policy")
        .with_payload(description("managed by agent"));

    assert_eq!(
        webfilter_one_object_policy().decide("agent:webfilter-bot", &request),
        Decision::Allow
    );
}

#[test]
fn denies_agent_update_to_any_other_policy_object() {
    let request = SophosRequest::update("WebFilterPolicy", "Default Policy")
        .with_payload(description("should not happen"));

    assert!(matches!(
        webfilter_one_object_policy().decide("agent:webfilter-bot", &request),
        Decision::Deny(reason) if reason.contains("Default Policy")
    ));
}

#[test]
fn denies_unscoped_update_when_rule_requires_named_object() {
    let request = SophosRequest::new(Action::Update, "WebFilterPolicy");

    assert!(matches!(
        webfilter_one_object_policy().decide("agent:webfilter-bot", &request),
        Decision::Deny(reason) if reason.contains("object")
    ));
}

#[test]
fn denies_raw_xml_even_if_claimed_object_is_allowed() {
    let request = SophosRequest::raw_xml("WebFilterPolicy", Some("Allowed Policy"), "<Set />");

    assert!(matches!(
        webfilter_one_object_policy().decide("agent:webfilter-bot", &request),
        Decision::Deny(reason) if reason.contains("raw XML")
    ));
}

#[test]
fn raw_xml_denial_gives_the_reason_in_full() {
    let request = SophosRequest::raw_xml("WebFilterPolicy", None, "<Get />");
    assert_eq!(
        AuthorizationPolicy::default().decide("anyone", &request),
        Decision::Deny(
            "raw XML requests are denied because object scope cannot be trusted without XML inspection"
                .to_string()
        )
    );
}

#[test]
fn empty_policy_denies_for_want_of_a_rule() {
    let request = SophosRequest::update("WebFilterPolicy", "Default Policy");
    assert_eq!(
        AuthorizationPolicy::default().decide("agent:webfilter-bot", &request),
        Decision::Deny(
            "subject \"agent:webfilter-bot\" has no rule for Update WebFilterPolicy Some(\"Default Policy\")"
                .to_string()
        )
    );
}
