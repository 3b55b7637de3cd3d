//! Typed access to the Sophos Firewall XML API: request building, response
//! parsing, authorization decisions and resource helpers.

mod admin;
mod api;
mod authz;
mod client;
mod common;
mod dns;
mod error;
mod events;
mod firewall;
mod ip;
mod json;
mod laws;
mod readback;
mod network;
mod objects;
mod request;
mod response;
mod service;
mod system;
mod text;
mod transport;
mod tree;
mod user;
mod web;
mod webfilter;
mod xml;
mod zone;

pub use authz::{AuthorizationPolicy, AuthorizationRule, Decision, DecisionView, ObjectScope};
pub use error::{Error, ErrorView, Result};
pub use json::{FieldMap, Json, Value};
pub use request::{Action, SophosConnection, SophosRequest};
pub use text::{chars_of, string_of};
pub use xml::build_request_xml;
pub use client::{
    document_of, exchange, outcome_of, reply_outcome, response_from_reply, Link, Outcome, Reply,
    SophosClient,
};
pub use response::{
    parse_response_xml, resources_from_events, ResourceResponse, ResourceStatus, SophosResponse,
};
pub use tree::{insert_grouped_value, nodes_from_events, parse_xml_nodes, XmlNode};
pub use transport::{http_status_error, transport_error, SophosTransport};
pub use service::{
    Service, ServiceCreate, ServiceEntry, ServiceGroup, ServiceGroupCreate, ServiceGroupUpdate,
    ServiceGroupUpdateAction, ServiceGroupsApi, ServiceType, ServiceUpdate, ServiceUpdateAction,
    ServicesApi, UrlGroup, UrlGroupCreate, UrlGroupsApi,
};
pub use network::{
    FqdnHost, FqdnHostCreate, FqdnHostGroup, FqdnHostGroupCreate, FqdnHostGroupUpdate,
    FqdnHostUpdate, IpHost, IpHostCreate, IpHostGroup, IpHostGroupCreate, IpHostGroupUpdate,
    IpNetwork, IpNetworkCreate, IpRange, IpRangeCreate, NetworkApi, NetworkGroupUpdateAction,
};
pub use dns::{
    DnsApi, DnsBulkMutationResult, DnsHostAddress, DnsHostEntryCreate, DnsHostEntryUpdate,
    DnsMutationAction, DnsMutationOutcome, EntryType, IpFamily, PublishOnWan,
};
pub use firewall::{
    FirewallApi, FirewallRule, FirewallRuleCreate, FirewallRuleGroup, FirewallRuleGroupCreate,
    FirewallRuleGroupUpdate, FirewallRuleUpdate, LocalServiceAcl, LocalServiceAclCreate,
    LocalServiceAclUpdate,
};
pub use webfilter::{
    UserActivity, UserActivityCreate, WebFilterApi, WebFilterPolicy, WebFilterPolicyCreate,
    WebFilterPolicyUpdate,
};
pub use zone::{DnsForwarders, Interface, Vlan, Zone, ZoneCreate, ZoneUpdate, ZonesApi};
pub use admin::{
    AdminApi, AdminAuthentication, AdminProfile, AdminProfileCreate, AdminProfileUpdate,
    AdminSettings,
};
pub use system::{
    BackupSettings, BackupUpdate, Notification, NotificationListItem, ReportsRetention, SystemApi,
};
pub use user::{User, UserCreate, UsersApi};
pub use web::{
    addresses_from_bodies, connection_from_settings, default_entry_type, default_publish_on_wan,
    default_ttl, parse_bool, required_setting, setting_value, ApiError, AppState, DnsHostAddressBody,
    DnsHostAddressDto, DnsHostEntryBody, DnsHostEntryDto, DnsHostEntryPatch, DnsMutationDto,
    ErrorBody, ErrorDetail, FirewallClient, FirewallObjectBody, FirewallObjectDto, MutationAction,
    ResourceResponseDto, UrlGroupBody, UrlGroupDomainAction, UrlGroupDomainsBody, UrlGroupDto,
    WebError, WebResult,
};
