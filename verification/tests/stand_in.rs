use std::sync::{Arc, Mutex};

use sophos_firewall_api::{
    AppState, DnsHostAddressBody, DnsHostEntryBody, DnsHostEntryCreate, DnsHostEntryUpdate,
    DnsMutationDto, EntryType, FieldMap, FirewallClient, FirewallObjectBody, FirewallRule,
    FirewallRuleCreate, FirewallRuleGroup, FirewallRuleGroupCreate, FirewallRuleGroupUpdate,
    FirewallRuleUpdate, IpFamily, MutationAction, PublishOnWan, ResourceResponse,
    ResourceResponseDto, ResourceStatus, UrlGroup, UrlGroupCreate, UrlGroupDomainAction, Value,
};

#[derive(Clone, Default)]
struct FakeClient {
    calls: Arc<Mutex<Vec<String>>>,
}

impl FakeClient {
    fn calls(&self) -> Vec<String> {
        self.calls.lock().expect("calls lock").clone()
    }

    fn record(&self, call: impl Into<String>) {
        self.calls.lock().expect("calls lock").push(call.into());
    }
}

fn ok_response(resource: &str) -> ResourceResponse {
    ResourceResponse {
        name: resource.to_string(),
        status: ResourceStatus {
            code: Some("200".to_string()),
            text: "Configuration applied successfully.".to_string(),
        },
        body_xml: String::new(),
    }
}

impl FirewallClient for FakeClient {
    fn list_dns_entries(&self) -> sophos_firewall_api::Result<Vec<DnsHostEntryCreate>> {
        self.record("list_dns_entries");
        Ok(Vec::new())
    }

    fn get_dns_entry(&self, host_name: &str) -> sophos_firewall_api::Result<Option<DnsHostEntryCreate>> {
        self.record(format!("get_dns_entry:{host_name}"));
        Ok(None)
    }

    fn add_dns_entry(
        &self,
        entry: DnsHostEntryCreate,
        force: bool,
    ) -> sophos_firewall_api::Result<DnsMutationDto> {
        self.record(format!("add_dns_entry:{}:{force}", entry.host_name()));
        Ok(DnsMutationDto {
            action: MutationAction::Created,
            response: ResourceResponseDto::from_response(ok_response("DNSHostEntry")),
        })
    }

    fn update_dns_entry(&self, entry: DnsHostEntryUpdate) -> sophos_firewall_api::Result<ResourceResponse> {
        self.record(format!("update_dns_entry:{}", entry.host_name()));
        Ok(ok_response("DNSHostEntry"))
    }

    fn delete_dns_entry(&self, host_name: &str) -> sophos_firewall_api::Result<ResourceResponse> {
        self.record(format!("delete_dns_entry:{host_name}"));
        Ok(ok_response("DNSHostEntry"))
    }

    fn list_url_groups(&self) -> sophos_firewall_api::Result<Vec<UrlGroup>> {
        self.record("list_url_groups");
        Ok(Vec::new())
    }

    fn get_url_group(&self, name: &str) -> sophos_firewall_api::Result<Option<UrlGroup>> {
        self.record(format!("get_url_group:{name}"));
        Ok(None)
    }

    fn create_url_group(&self, group: UrlGroupCreate) -> sophos_firewall_api::Result<ResourceResponse> {
        self.record(format!("create_url_group:{}", group.name()));
        Ok(ok_response("WebFilterURLGroup"))
    }

    fn update_url_group_domains(
        &self,
        name: &str,
        action: UrlGroupDomainAction,
        domains: Vec<String>,
    ) -> sophos_firewall_api::Result<ResourceResponse> {
        let action = match action {
            UrlGroupDomainAction::Add => "add",
            UrlGroupDomainAction::Remove => "remove",
            UrlGroupDomainAction::Replace => "replace",
        };
        self.record(format!(
            "update_url_group_domains:{name}:{action}:{}",
            domains.join(",")
        ));
        Ok(ok_response("WebFilterURLGroup"))
    }

    fn delete_url_group(&self, name: &str) -> sophos_firewall_api::Result<ResourceResponse> {
        self.record(format!("delete_url_group:{name}"));
        Ok(ok_response("WebFilterURLGroup"))
    }

    fn list_firewall_rules(&self) -> sophos_firewall_api::Result<Vec<FirewallRule>> {
        self.record("list_firewall_rules");
        Ok(Vec::new())
    }

    fn get_firewall_rule(&self, name: &str) -> sophos_firewall_api::Result<Option<FirewallRule>> {
        self.record(format!("get_firewall_rule:{name}"));
        Ok(None)
    }

    fn create_firewall_rule(&self, rule: FirewallRuleCreate) -> sophos_firewall_api::Result<ResourceResponse> {
        self.record(format!("create_firewall_rule:{}", rule.name()));
        Ok(ok_response("FirewallRule"))
    }

    fn update_firewall_rule(&self, rule: FirewallRuleUpdate) -> sophos_firewall_api::Result<ResourceResponse> {
        self.record(format!("update_firewall_rule:{}", rule.name()));
        Ok(ok_response("FirewallRule"))
    }

    fn delete_firewall_rule(&self, name: &str) -> sophos_firewall_api::Result<ResourceResponse> {
        self.record(format!("delete_firewall_rule:{name}"));
        Ok(ok_response("FirewallRule"))
    }

    fn list_firewall_rule_groups(&self) -> sophos_firewall_api::Result<Vec<FirewallRuleGroup>> {
        self.record("list_firewall_rule_groups");
        Ok(Vec::new())
    }

    fn get_firewall_rule_group(&self, name: &str) -> sophos_firewall_api::Result<Option<FirewallRuleGroup>> {
        self.record(format!("get_firewall_rule_group:{name}"));
        Ok(None)
    }

    fn create_firewall_rule_group(
        &self,
        group: FirewallRuleGroupCreate,
    ) -> sophos_firewall_api::Result<ResourceResponse> {
        self.record(format!("create_firewall_rule_group:{}", group.name()));
        Ok(ok_response("FirewallRuleGroup"))
    }

    fn update_firewall_rule_group(
        &self,
        group: FirewallRuleGroupUpdate,
    ) -> sophos_firewall_api::Result<ResourceResponse> {
        self.record(format!("update_firewall_rule_group:{}", group.name()));
        Ok(ok_response("FirewallRuleGroup"))
    }

    fn delete_firewall_rule_group(&self, name: &str) -> sophos_firewall_api::Result<ResourceResponse> {
        self.record(format!("delete_firewall_rule_group:{name}"));
        Ok(ok_response("FirewallRuleGroup"))
    }
}

#[test]
fn an_upsert_takes_its_name_from_the_path_and_forces_the_update() {
    let client = FakeClient::default();
    let state = AppState::new(client.clone());
    let body = DnsHostEntryBody {
        host_name: None,
        addresses: vec![DnsHostAddressBody {
            entry_type: EntryType::Manual,
            ip_family: IpFamily::IPv4,
            ip_address: "10.0.0.20".to_string(),
            ttl: 3600,
            weight: 0,
            publish_on_wan: PublishOnWan::Disable,
        }],
        add_reverse_dns_lookup: false,
    };

    let entry = body
        .into_create(Some("web.local".to_string()))
        .expect("valid entry");
    let outcome = state.client().add_dns_entry(entry, true).expect("added");

    assert_eq!(outcome.action, MutationAction::Created);
    assert_eq!(client.calls(), vec!["add_dns_entry:web.local:true"]);
}

#[test]
fn a_domain_patch_reaches_the_client_with_its_operation() {
    let client = FakeClient::default();
    let state = AppState::new(client.clone());

    let response = state
        .client()
        .update_url_group_domains("kids", UrlGroupDomainAction::Add, vec!["example.com".to_string()])
        .expect("patched");

    assert_eq!(response.name, "WebFilterURLGroup");
    assert_eq!(
        client.calls(),
        vec!["update_url_group_domains:kids:add:example.com"]
    );
}

#[test]
fn a_rule_patch_passes_the_path_name_and_fields() {
    let client = FakeClient::default();
    let state = AppState::new(client.clone());
    let mut fields = FieldMap::new();
    fields.insert("Status".to_string(), Value::from_str("Disable"));

    let rule = FirewallObjectBody { name: None, fields }
        .into_rule_update(Some("allow-web".to_string()))
        .expect("valid rule");
    let response = state.client().update_firewall_rule(rule).expect("updated");

    assert_eq!(response.name, "FirewallRule");
    assert_eq!(client.calls(), vec!["update_firewall_rule:allow-web"]);
}
