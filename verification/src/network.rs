//! IP hosts, networks and ranges, IP host groups, FQDN hosts and FQDN host groups.

use vstd::prelude::*;
use crate::api::{
    empty_object, get_item, get_outcome, list_items, list_outcome, list_view, missing_error,
    missing_error_exec, named_request, opt_result_view, read_request, write_item, write_outcome,
    write_view, Named,
};
use crate::client::{Link, exchange, Reply, SophosClient};
use crate::common::{
    add_unique_values, name_of, named_list_of, normalize_name, normalize_named_list, read_view,
    remove_requested_values, seq_views, str_views,
};
use crate::error::{Error, ErrorView, Result};
use crate::ip::{ipv4_number, ipv4_octets, ipv4_of, normalize_ipv4, parse_ipv4};
use crate::json::{jinsert, FieldMap, Json, Value};
use crate::request::{Action, SophosConnection};
use crate::response::{ResourceResponse, ResourceView};
use crate::service::{
    jstr, str_array, strings_value, text_or, updated_values, values_from_children,
    values_of_children, GroupView,
};
use crate::text::{chars_of, opt_view, string_of, trim, trim_chars};
use crate::transport::SophosTransport;
use crate::tree::{child_text_of, find_child, NodeView, XmlNode};

verus! {

/// The resource name of IP hosts, networks and ranges.
pub open spec fn ip_host_resource() -> Seq<char> {
    "IPHost"@
}

/// A single IPv4 address object.
#[derive(Debug, Clone, PartialEq, Eq)]
pub struct IpHost {
    name: String,
    ip_address: String,
}

/// An IP host's name and address.
pub struct IpHostView {
    pub name: Seq<char>,
    pub ip_address: Seq<char>,
}

impl View for IpHost {
    type V = IpHostView;

    closed spec fn view(&self) -> IpHostView {
        IpHostView { name: self.name@, ip_address: self.ip_address@ }
    }
}

impl IpHost {
    /// The name.
    pub fn name(&self) -> (r: &str)
        ensures
            r@ == self@.name,
    {
        self.name.as_str()
    }

    /// The address.
    pub fn ip_address(&self) -> (r: &str)
        ensures
            r@ == self@.ip_address,
    {
        self.ip_address.as_str()
    }
}

/// An IP host to create or update: a name and an IPv4 address, normalized.
#[derive(Debug, Clone, PartialEq, Eq)]
pub struct IpHostCreate {
    name: String,
    ip_address: String,
}

impl View for IpHostCreate {
    type V = IpHostView;

    closed spec fn view(&self) -> IpHostView {
        IpHostView { name: self.name@, ip_address: self.ip_address@ }
    }
}

/// The host `name` at `ip`, normalized, or why it is refused.
pub open spec fn ip_host_create_of(name: Seq<char>, ip: Seq<char>) -> core::result::Result<IpHostView, ErrorView> {
    match name_of("IP host name"@, name) {
        Err(e) => Err(e),
        Ok(n) => match ipv4_of("ip_address"@, ip) {
            Err(e) => Err(e),
            Ok(a) => Ok(IpHostView { name: n, ip_address: a }),
        },
    }
}

impl IpHostCreate {
    /// A host (see [`ip_host_create_of`]).
    pub fn new(name: &str, ip_address: &str) -> (r: Result<IpHostCreate>)
        ensures
            match ip_host_create_of(name@, ip_address@) {
                Ok(v) => r matches Ok(c) && c@ == v,
                Err(e) => r matches Err(x) && x@ == e,
            },
    {
        let n = match normalize_name("IP host name", name) {
            Ok(n) => n,
            Err(e) => return Err(e),
        };
        let a = match normalize_ipv4("ip_address", ip_address) {
            Ok(a) => a,
            Err(e) => return Err(e),
        };
        Ok(IpHostCreate { name: n, ip_address: a })
    }

    /// The name.
    pub fn name(&self) -> (r: &str)
        ensures
            r@ == self@.name,
    {
        self.name.as_str()
    }

    /// The address.
    pub fn ip_address(&self) -> (r: &str)
        ensures
            r@ == self@.ip_address,
    {
        self.ip_address.as_str()
    }
}

/// An IPv4 network object.
#[derive(Debug, Clone, PartialEq, Eq)]
pub struct IpNetwork {
    name: String,
    ip_address: String,
    subnet: String,
}

/// An IP network's name, address and mask.
pub struct IpNetworkView {
    pub name: Seq<char>,
    pub ip_address: Seq<char>,
    pub subnet: Seq<char>,
}

impl View for IpNetwork {
    type V = IpNetworkView;

    closed spec fn view(&self) -> IpNetworkView {
        IpNetworkView { name: self.name@, ip_address: self.ip_address@, subnet: self.subnet@ }
    }
}

impl IpNetwork {
    /// The name.
    pub fn name(&self) -> (r: &str)
        ensures
            r@ == self@.name,
    {
        self.name.as_str()
    }

    /// The network address.
    pub fn ip_address(&self) -> (r: &str)
        ensures
            r@ == self@.ip_address,
    {
        self.ip_address.as_str()
    }

    /// The mask.
    pub fn subnet(&self) -> (r: &str)
        ensures
            r@ == self@.subnet,
    {
        self.subnet.as_str()
    }
}

/// An IP network to create or update: a name, an address and a mask, normalized.
#[derive(Debug, Clone, PartialEq, Eq)]
pub struct IpNetworkCreate {
    name: String,
    ip_address: String,
    subnet: String,
}

impl View for IpNetworkCreate {
    type V = IpNetworkView;

    closed spec fn view(&self) -> IpNetworkView {
        IpNetworkView { name: self.name@, ip_address: self.ip_address@, subnet: self.subnet@ }
    }
}

/// The network `name` at `ip` with mask `subnet`, normalized, or why it is refused.
pub open spec fn ip_network_create_of(name: Seq<char>, ip: Seq<char>, subnet: Seq<char>) -> core::result::Result<IpNetworkView, ErrorView> {
    match name_of("IP network name"@, name) {
        Err(e) => Err(e),
        Ok(n) => match ipv4_of("ip_address"@, ip) {
            Err(e) => Err(e),
            Ok(a) => match ipv4_of("subnet"@, subnet) {
                Err(e) => Err(e),
                Ok(m) => Ok(IpNetworkView { name: n, ip_address: a, subnet: m }),
            },
        },
    }
}

impl IpNetworkCreate {
    /// A network (see [`ip_network_create_of`]).
    pub fn new(name: &str, ip_address: &str, subnet: &str) -> (r: Result<IpNetworkCreate>)
        ensures
            match ip_network_create_of(name@, ip_address@, subnet@) {
                Ok(v) => r matches Ok(c) && c@ == v,
                Err(e) => r matches Err(x) && x@ == e,
            },
    {
        let n = match normalize_name("IP network name", name) {
            Ok(n) => n,
            Err(e) => return Err(e),
        };
        let a = match normalize_ipv4("ip_address", ip_address) {
            Ok(a) => a,
            Err(e) => return Err(e),
        };
        let m = match normalize_ipv4("subnet", subnet) {
            Ok(m) => m,
            Err(e) => return Err(e),
        };
        Ok(IpNetworkCreate { name: n, ip_address: a, subnet: m })
    }

    /// The name.
    pub fn name(&self) -> (r: &str)
        ensures
            r@ == self@.name,
    {
        self.name.as_str()
    }

    /// The network address.
    pub fn ip_address(&self) -> (r: &str)
        ensures
            r@ == self@.ip_address,
    {
        self.ip_address.as_str()
    }

    /// The mask.
    pub fn subnet(&self) -> (r: &str)
        ensures
            r@ == self@.subnet,
    {
        self.subnet.as_str()
    }
}

/// An IPv4 address range object.
#[derive(Debug, Clone, PartialEq, Eq)]
pub struct IpRange {
    name: String,
    start_ip: String,
    end_ip: String,
}

/// An IP range's name and bounds.
pub struct IpRangeView {
    pub name: Seq<char>,
    pub start_ip: Seq<char>,
    pub end_ip: Seq<char>,
}

impl View for IpRange {
    type V = IpRangeView;

    closed spec fn view(&self) -> IpRangeView {
        IpRangeView { name: self.name@, start_ip: self.start_ip@, end_ip: self.end_ip@ }
    }
}

impl IpRange {
    /// The name.
    pub fn name(&self) -> (r: &str)
        ensures
            r@ == self@.name,
    {
        self.name.as_str()
    }

    /// The first address.
    pub fn start_ip(&self) -> (r: &str)
        ensures
            r@ == self@.start_ip,
    {
        self.start_ip.as_str()
    }

    /// The last address.
    pub fn end_ip(&self) -> (r: &str)
        ensures
            r@ == self@.end_ip,
    {
        self.end_ip.as_str()
    }
}

/// An IP range to create or update: a name and two ordered addresses, normalized.
#[derive(Debug, Clone, PartialEq, Eq)]
pub struct IpRangeCreate {
    name: String,
    start_ip: String,
    end_ip: String,
}

impl View for IpRangeCreate {
    type V = IpRangeView;

    closed spec fn view(&self) -> IpRangeView {
        IpRangeView { name: self.name@, start_ip: self.start_ip@, end_ip: self.end_ip@ }
    }
}

/// The range `name` from `start` to `end`, normalized, or why it is refused: the bounds
/// are checked first, then their order, then the name.
pub open spec fn ip_range_create_of(name: Seq<char>, start: Seq<char>, end: Seq<char>) -> core::result::Result<IpRangeView, ErrorView> {
    match ipv4_of("start_ip"@, start) {
        Err(e) => Err(e),
        Ok(s) => match ipv4_of("end_ip"@, end) {
            Err(e) => Err(e),
            Ok(t) => if ipv4_number(ipv4_octets(s)->Some_0) > ipv4_number(ipv4_octets(t)->Some_0) {
                Err(ErrorView::InvalidRequest("start_ip must be less than or equal to end_ip"@))
            } else {
                match name_of("IP range name"@, name) {
                    Err(e) => Err(e),
                    Ok(n) => Ok(IpRangeView { name: n, start_ip: s, end_ip: t }),
                }
            },
        },
    }
}

impl IpRangeCreate {
    /// A range (see [`ip_range_create_of`]).
    pub fn new(name: &str, start_ip: &str, end_ip: &str) -> (r: Result<IpRangeCreate>)
        ensures
            match ip_range_create_of(name@, start_ip@, end_ip@) {
                Ok(v) => r matches Ok(c) && c@ == v,
                Err(e) => r matches Err(x) && x@ == e,
            },
    {
        let s = match normalize_ipv4("start_ip", start_ip) {
            Ok(s) => s,
            Err(e) => return Err(e),
        };
        let t = match normalize_ipv4("end_ip", end_ip) {
            Ok(t) => t,
            Err(e) => return Err(e),
        };
        let a = match parse_ipv4(s.as_str()) {
            Some(a) => a,
            None => return Err(Error::InvalidRequest("start_ip must be an IPv4 address".to_owned())),
        };
        let b = match parse_ipv4(t.as_str()) {
            Some(b) => b,
            None => return Err(Error::InvalidRequest("end_ip must be an IPv4 address".to_owned())),
        };
        if a > b {
            return Err(Error::InvalidRequest("start_ip must be less than or equal to end_ip".to_owned()));
        }
        let n = match normalize_name("IP range name", name) {
            Ok(n) => n,
            Err(e) => return Err(e),
        };
        Ok(IpRangeCreate { name: n, start_ip: s, end_ip: t })
    }

    /// The name.
    pub fn name(&self) -> (r: &str)
        ensures
            r@ == self@.name,
    {
        self.name.as_str()
    }

    /// The first address.
    pub fn start_ip(&self) -> (r: &str)
        ensures
            r@ == self@.start_ip,
    {
        self.start_ip.as_str()
    }

    /// The last address.
    pub fn end_ip(&self) -> (r: &str)
        ensures
            r@ == self@.end_ip,
    {
        self.end_ip.as_str()
    }
}

/// A JSON object of IP host fields: the name, the host type, the IPv4 family, then the
/// given members.
pub open spec fn ip_object(name: Seq<char>, host_type: Seq<char>) -> Seq<(Seq<char>, Json)> {
    jinsert(jinsert(jinsert(Seq::empty(), "Name"@, jstr(name)), "HostType"@, jstr(host_type)), "IPFamily"@, jstr("IPv4"@))
}

/// The payload of an IP host.
pub open spec fn ip_host_json(h: IpHostView) -> Json {
    Json::Object(jinsert(ip_object(h.name, "IP"@), "IPAddress"@, jstr(h.ip_address)))
}

/// The payload of an IP network.
pub open spec fn ip_network_json(n: IpNetworkView) -> Json {
    Json::Object(jinsert(jinsert(ip_object(n.name, "Network"@), "IPAddress"@, jstr(n.ip_address)), "Subnet"@, jstr(n.subnet)))
}

/// The payload of an IP range.
pub open spec fn ip_range_json(r: IpRangeView) -> Json {
    Json::Object(
        jinsert(jinsert(ip_object(r.name, "IPRange"@), "StartIPAddress"@, jstr(r.start_ip)), "EndIPAddress"@, jstr(r.end_ip)),
    )
}

/// The common IP host members (see [`ip_object`]).
fn ip_object_exec(name: &str, host_type: &str) -> (m: FieldMap)
    ensures
        m@ == ip_object(name@, host_type@),
{
    let mut m = FieldMap::new();
    m.insert("Name".to_owned(), Value::String(name.to_owned()));
    m.insert("HostType".to_owned(), Value::String(host_type.to_owned()));
    m.insert("IPFamily".to_owned(), Value::String("IPv4".to_owned()));
    m
}

/// The payload of an IP host (see [`ip_host_json`]).
pub fn ip_host_payload(host: &IpHostCreate) -> (v: Value)
    ensures
        v@ == ip_host_json(host@),
{
    let mut m = ip_object_exec(host.name.as_str(), "IP");
    m.insert("IPAddress".to_owned(), Value::String(host.ip_address.clone()));
    Value::Object(m)
}

/// The payload of an IP network (see [`ip_network_json`]).
pub fn ip_network_payload(network: &IpNetworkCreate) -> (v: Value)
    ensures
        v@ == ip_network_json(network@),
{
    let mut m = ip_object_exec(network.name.as_str(), "Network");
    m.insert("IPAddress".to_owned(), Value::String(network.ip_address.clone()));
    m.insert("Subnet".to_owned(), Value::String(network.subnet.clone()));
    Value::Object(m)
}

/// The payload of an IP range (see [`ip_range_json`]).
pub fn ip_range_payload(range: &IpRangeCreate) -> (v: Value)
    ensures
        v@ == ip_range_json(range@),
{
    let mut m = ip_object_exec(range.name.as_str(), "IPRange");
    m.insert("StartIPAddress".to_owned(), Value::String(range.start_ip.clone()));
    m.insert("EndIPAddress".to_owned(), Value::String(range.end_ip.clone()));
    Value::Object(m)
}

/// The kind of an IP host record.
#[derive(Debug, Clone, Copy, PartialEq, Eq, Structural)]
pub enum IpHostVariant {
    Host,
    Network,
    Range,
}

/// An IP host record as read: its kind, name and whichever addresses it carries.
#[derive(Debug)]
pub struct ParsedIpHost {
    variant: IpHostVariant,
    name: String,
    ip_address: Option<String>,
    subnet: Option<String>,
    start_ip: Option<String>,
    end_ip: Option<String>,
}

/// A [`ParsedIpHost`] with its texts as character sequences.
pub struct ParsedIpHostView {
    pub variant: IpHostVariant,
    pub name: Seq<char>,
    pub ip_address: Option<Seq<char>>,
    pub subnet: Option<Seq<char>>,
    pub start_ip: Option<Seq<char>>,
    pub end_ip: Option<Seq<char>>,
}

impl View for ParsedIpHost {
    type V = ParsedIpHostView;

    closed spec fn view(&self) -> ParsedIpHostView {
        ParsedIpHostView {
            variant: self.variant,
            name: self.name@,
            ip_address: opt_view(self.ip_address),
            subnet: opt_view(self.subnet),
            start_ip: opt_view(self.start_ip),
            end_ip: opt_view(self.end_ip),
        }
    }
}

impl Named for ParsedIpHost {
    open spec fn key_of(v: ParsedIpHostView) -> Seq<char> {
        v.name
    }

    fn key(&self) -> (k: &str) {
        self.name.as_str()
    }
}

/// The address in the child `child` of `n`: none when absent, else it must be IPv4.
pub open spec fn child_ipv4_of(n: NodeView, child: Seq<char>) -> core::result::Result<Option<Seq<char>>, ErrorView> {
    match child_text_of(n, child) {
        None => Ok(None),
        Some(v) => match ipv4_of(child, v) {
            Ok(a) => Ok(Some(a)),
            Err(e) => Err(e),
        },
    }
}

/// The record an element `IPHost` describes: none for a family other than IPv4, without
/// a name or host type, or for an unknown host type; the addresses its type uses, each
/// checked.
pub open spec fn ip_host_of_node(n: NodeView) -> core::result::Result<Option<ParsedIpHostView>, ErrorView> {
    if child_text_of(n, "IPFamily"@) is Some && child_text_of(n, "IPFamily"@)->Some_0 != "IPv4"@ {
        Ok(None)
    } else {
        match child_text_of(n, "Name"@) {
            None => Ok(None),
            Some(name) => match child_text_of(n, "HostType"@) {
                None => Ok(None),
                Some(ht) => match name_of("IP host name"@, name) {
                    Err(e) => Err(e),
                    Ok(nm) => {
                        let blank = ParsedIpHostView {
                            variant: IpHostVariant::Host,
                            name: nm,
                            ip_address: None,
                            subnet: None,
                            start_ip: None,
                            end_ip: None,
                        };
                        if ht == "IP"@ {
                            match child_ipv4_of(n, "IPAddress"@) {
                                Err(e) => Err(e),
                                Ok(ip) => Ok(Some(ParsedIpHostView { ip_address: ip, ..blank })),
                            }
                        } else if ht == "Network"@ {
                            match child_ipv4_of(n, "IPAddress"@) {
                                Err(e) => Err(e),
                                Ok(ip) => match child_ipv4_of(n, "Subnet"@) {
                                    Err(e) => Err(e),
                                    Ok(sn) => Ok(
                                        Some(
                                            ParsedIpHostView {
                                                variant: IpHostVariant::Network,
                                                ip_address: ip,
                                                subnet: sn,
                                                ..blank
                                            },
                                        ),
                                    ),
                                },
                            }
                        } else if ht == "IPRange"@ {
                            match child_ipv4_of(n, "StartIPAddress"@) {
                                Err(e) => Err(e),
                                Ok(s) => match child_ipv4_of(n, "EndIPAddress"@) {
                                    Err(e) => Err(e),
                                    Ok(t) => Ok(
                                        Some(
                                            ParsedIpHostView {
                                                variant: IpHostVariant::Range,
                                                start_ip: s,
                                                end_ip: t,
                                                ..blank
                                            },
                                        ),
                                    ),
                                },
                            }
                        } else {
                            Ok(None)
                        }
                    },
                },
            },
        }
    }
}

/// [`ip_host_of_node`] as a value.
pub open spec fn ip_host_reader() -> spec_fn(NodeView) -> core::result::Result<Option<ParsedIpHostView>, ErrorView> {
    |n: NodeView| ip_host_of_node(n)
}

/// The address in the child `child` of `node` (see [`child_ipv4_of`]).
fn child_ipv4(node: &XmlNode, child: &str) -> (r: Result<Option<String>>)
    ensures
        match child_ipv4_of(node@, child@) {
            Ok(x) => r matches Ok(y) && opt_view(y) == x,
            Err(e) => r matches Err(y) && y@ == e,
        },
{
    match node.child_text(child) {
        None => Ok(None),
        Some(v) => match normalize_ipv4(child, v.as_str()) {
            Ok(a) => Ok(Some(a)),
            Err(e) => Err(e),
        },
    }
}

/// The record an element `IPHost` describes (see [`ip_host_of_node`]).
pub fn ip_host_from_node(node: &XmlNode) -> (r: Result<Option<ParsedIpHost>>)
    ensures
        read_view(r) == ip_host_of_node(node@),
{
    match node.child_text("IPFamily") {
        Some(f) => {
            if !crate::text::str_eq(f.as_str(), "IPv4") {
                return Ok(None);
            }
        },
        None => {},
    }
    let name = match node.child_text("Name") {
        Some(n) => n,
        None => return Ok(None),
    };
    let ht = match node.child_text("HostType") {
        Some(t) => t,
        None => return Ok(None),
    };
    let nm = match normalize_name("IP host name", name.as_str()) {
        Ok(n) => n,
        Err(e) => return Err(e),
    };
    if crate::text::str_eq(ht.as_str(), "IP") {
        let ip = match child_ipv4(node, "IPAddress") {
            Ok(ip) => ip,
            Err(e) => return Err(e),
        };
        Ok(Some(ParsedIpHost { variant: IpHostVariant::Host, name: nm, ip_address: ip, subnet: None, start_ip: None, end_ip: None }))
    } else if crate::text::str_eq(ht.as_str(), "Network") {
        let ip = match child_ipv4(node, "IPAddress") {
            Ok(ip) => ip,
            Err(e) => return Err(e),
        };
        let sn = match child_ipv4(node, "Subnet") {
            Ok(sn) => sn,
            Err(e) => return Err(e),
        };
        Ok(Some(ParsedIpHost { variant: IpHostVariant::Network, name: nm, ip_address: ip, subnet: sn, start_ip: None, end_ip: None }))
    } else if crate::text::str_eq(ht.as_str(), "IPRange") {
        let s = match child_ipv4(node, "StartIPAddress") {
            Ok(s) => s,
            Err(e) => return Err(e),
        };
        let t = match child_ipv4(node, "EndIPAddress") {
            Ok(t) => t,
            Err(e) => return Err(e),
        };
        Ok(Some(ParsedIpHost { variant: IpHostVariant::Range, name: nm, ip_address: None, subnet: None, start_ip: s, end_ip: t }))
    } else {
        Ok(None)
    }
}

/// The host a record stands for: a host record with an address.
pub open spec fn as_host(p: ParsedIpHostView) -> Option<IpHostView> {
    if p.variant == IpHostVariant::Host && p.ip_address is Some {
        Some(IpHostView { name: p.name, ip_address: p.ip_address->Some_0 })
    } else {
        None
    }
}

/// The network a record stands for: a network record with address and mask.
pub open spec fn as_network(p: ParsedIpHostView) -> Option<IpNetworkView> {
    if p.variant == IpHostVariant::Network && p.ip_address is Some && p.subnet is Some {
        Some(IpNetworkView { name: p.name, ip_address: p.ip_address->Some_0, subnet: p.subnet->Some_0 })
    } else {
        None
    }
}

/// The range a record stands for: a range record with both bounds.
pub open spec fn as_range(p: ParsedIpHostView) -> Option<IpRangeView> {
    if p.variant == IpHostVariant::Range && p.start_ip is Some && p.end_ip is Some {
        Some(IpRangeView { name: p.name, start_ip: p.start_ip->Some_0, end_ip: p.end_ip->Some_0 })
    } else {
        None
    }
}

/// The values `f` gives for the items of `xs`, in order, where it gives one.
pub open spec fn keep_some<A, B>(xs: Seq<A>, f: spec_fn(A) -> Option<B>) -> Seq<B>
    decreases xs.len(),
{
    if xs.len() == 0 {
        Seq::empty()
    } else {
        let front = keep_some(xs.drop_last(), f);
        match f(xs.last()) {
            Some(y) => front.push(y),
            None => front,
        }
    }
}

/// The result `f` applied to the values of `r`.
pub open spec fn map_list<A, B>(r: core::result::Result<Seq<A>, ErrorView>, f: spec_fn(A) -> Option<B>) -> core::result::Result<Seq<B>, ErrorView> {
    match r {
        Ok(xs) => Ok(keep_some(xs, f)),
        Err(e) => Err(e),
    }
}

/// The result `f` applied to the value of `r`.
pub open spec fn map_opt<A, B>(r: core::result::Result<Option<A>, ErrorView>, f: spec_fn(A) -> Option<B>) -> core::result::Result<Option<B>, ErrorView> {
    match r {
        Ok(Some(x)) => Ok(f(x)),
        Ok(None) => Ok(None),
        Err(e) => Err(e),
    }
}

impl ParsedIpHost {
    /// The host the record stands for (see [`as_host`]).
    fn into_host(self) -> (r: Option<IpHost>)
        ensures
            match as_host(self@) {
                Some(h) => r matches Some(x) && x@ == h,
                None => r is None,
            },
    {
        if self.variant != IpHostVariant::Host {
            return None;
        }
        match self.ip_address {
            Some(ip) => Some(IpHost { name: self.name, ip_address: ip }),
            None => None,
        }
    }

    /// The network the record stands for (see [`as_network`]).
    fn into_network(self) -> (r: Option<IpNetwork>)
        ensures
            match as_network(self@) {
                Some(h) => r matches Some(x) && x@ == h,
                None => r is None,
            },
    {
        if self.variant != IpHostVariant::Network {
            return None;
        }
        match (self.ip_address, self.subnet) {
            (Some(ip), Some(sn)) => Some(IpNetwork { name: self.name, ip_address: ip, subnet: sn }),
            _ => None,
        }
    }

    /// The range the record stands for (see [`as_range`]).
    fn into_range(self) -> (r: Option<IpRange>)
        ensures
            match as_range(self@) {
                Some(h) => r matches Some(x) && x@ == h,
                None => r is None,
            },
    {
        if self.variant != IpHostVariant::Range {
            return None;
        }
        match (self.start_ip, self.end_ip) {
            (Some(s), Some(t)) => Some(IpRange { name: self.name, start_ip: s, end_ip: t }),
            _ => None,
        }
    }
}

/// The hosts among `records` (see [`as_host`]).
fn hosts_of(records: Vec<ParsedIpHost>) -> (r: Vec<IpHost>)
    ensures
        seq_views(r@) == keep_some(seq_views(records@), |p: ParsedIpHostView| as_host(p)),
{
    let ghost ps = seq_views(records@);
    let n = records.len();
    let mut out: Vec<IpHost> = Vec::new();
    let mut rest = records;
    let mut i: usize = 0;
    assert(ps.take(0) =~= Seq::<ParsedIpHostView>::empty());
    assert(seq_views(out@) =~= Seq::<IpHostView>::empty());
    assert(seq_views(rest@) =~= ps.skip(0));
    while rest.len() > 0
        invariant
            i + rest@.len() == n,
            ps.len() == n,
            ps == seq_views(records@),
            seq_views(rest@) == ps.skip(i as int),
            seq_views(out@) == keep_some(ps.take(i as int), |p: ParsedIpHostView| as_host(p)),
        decreases rest@.len(),
    {
        let ghost old_rest = rest@;
        let x = rest.remove(0);
        assert(seq_views(rest@) =~= seq_views(old_rest).drop_first());
        assert(x@ == ps[i as int]) by {
            assert(ps.skip(i as int)[0] == ps[i as int]);
        }
        assert(ps.take(i + 1).drop_last() =~= ps.take(i as int));
        assert(ps.take(i + 1).last() == ps[i as int]);
        let ghost before = out@;
        match x.into_host() {
            Some(h) => {
                let ghost hv = h@;
                out.push(h);
                assert(seq_views(out@) =~= seq_views(before).push(hv));
            },
            None => {},
        }
        assert(seq_views(rest@) =~= ps.skip(i + 1));
        i = i + 1;
    }
    assert(ps.take(i as int) =~= ps);
    out
}

/// The networks among `records` (see [`as_network`]).
fn networks_of(records: Vec<ParsedIpHost>) -> (r: Vec<IpNetwork>)
    ensures
        seq_views(r@) == keep_some(seq_views(records@), |p: ParsedIpHostView| as_network(p)),
{
    let ghost ps = seq_views(records@);
    let n = records.len();
    let mut out: Vec<IpNetwork> = Vec::new();
    let mut rest = records;
    let mut i: usize = 0;
    assert(ps.take(0) =~= Seq::<ParsedIpHostView>::empty());
    assert(seq_views(out@) =~= Seq::<IpNetworkView>::empty());
    assert(seq_views(rest@) =~= ps.skip(0));
    while rest.len() > 0
        invariant
            i + rest@.len() == n,
            ps.len() == n,
            ps == seq_views(records@),
            seq_views(rest@) == ps.skip(i as int),
            seq_views(out@) == keep_some(ps.take(i as int), |p: ParsedIpHostView| as_network(p)),
        decreases rest@.len(),
    {
        let ghost old_rest = rest@;
        let x = rest.remove(0);
        assert(seq_views(rest@) =~= seq_views(old_rest).drop_first());
        assert(x@ == ps[i as int]) by {
            assert(ps.skip(i as int)[0] == ps[i as int]);
        }
        assert(ps.take(i + 1).drop_last() =~= ps.take(i as int));
        assert(ps.take(i + 1).last() == ps[i as int]);
        let ghost before = out@;
        match x.into_network() {
            Some(h) => {
                let ghost hv = h@;
                out.push(h);
                assert(seq_views(out@) =~= seq_views(before).push(hv));
            },
            None => {},
        }
        assert(seq_views(rest@) =~= ps.skip(i + 1));
        i = i + 1;
    }
    assert(ps.take(i as int) =~= ps);
    out
}

/// The ranges among `records` (see [`as_range`]).
fn ranges_of(records: Vec<ParsedIpHost>) -> (r: Vec<IpRange>)
    ensures
        seq_views(r@) == keep_some(seq_views(records@), |p: ParsedIpHostView| as_range(p)),
{
    let ghost ps = seq_views(records@);
    let n = records.len();
    let mut out: Vec<IpRange> = Vec::new();
    let mut rest = records;
    let mut i: usize = 0;
    assert(ps.take(0) =~= Seq::<ParsedIpHostView>::empty());
    assert(seq_views(out@) =~= Seq::<IpRangeView>::empty());
    assert(seq_views(rest@) =~= ps.skip(0));
    while rest.len() > 0
        invariant
            i + rest@.len() == n,
            ps.len() == n,
            ps == seq_views(records@),
            seq_views(rest@) == ps.skip(i as int),
            seq_views(out@) == keep_some(ps.take(i as int), |p: ParsedIpHostView| as_range(p)),
        decreases rest@.len(),
    {
        let ghost old_rest = rest@;
        let x = rest.remove(0);
        assert(seq_views(rest@) =~= seq_views(old_rest).drop_first());
        assert(x@ == ps[i as int]) by {
            assert(ps.skip(i as int)[0] == ps[i as int]);
        }
        assert(ps.take(i + 1).drop_last() =~= ps.take(i as int));
        assert(ps.take(i + 1).last() == ps[i as int]);
        let ghost before = out@;
        match x.into_range() {
            Some(h) => {
                let ghost hv = h@;
                out.push(h);
                assert(seq_views(out@) =~= seq_views(before).push(hv));
            },
            None => {},
        }
        assert(seq_views(rest@) =~= ps.skip(i + 1));
        i = i + 1;
    }
    assert(ps.take(i as int) =~= ps);
    out
}

/// Whether a record stands for an object of the kind `v`.
pub open spec fn present_as(p: ParsedIpHostView, v: IpHostVariant) -> bool {
    match v {
        IpHostVariant::Host => as_host(p) is Some,
        IpHostVariant::Network => as_network(p) is Some,
        IpHostVariant::Range => as_range(p) is Some,
    }
}

/// The records a read of every IP host gives when answered `reply`.
pub open spec fn ip_records_list(conn: Link, reply: Reply) -> core::result::Result<Seq<ParsedIpHostView>, ErrorView> {
    list_outcome(exchange(conn, read_request(ip_host_resource()), reply), ip_host_resource(), ip_host_reader())
}

/// The record a read of the IP host `name` gives when answered `reply`.
pub open spec fn ip_record_get(conn: Link, name: Seq<char>, reply: Reply) -> core::result::Result<Option<ParsedIpHostView>, ErrorView> {
    get_outcome::<ParsedIpHost>(
        exchange(conn, named_request(Action::Read, ip_host_resource(), "Name"@, name, None, empty_object()), reply),
        ip_host_resource(),
        name,
        ip_host_reader(),
    )
}

/// What deleting the IP host record `name` of kind `v` gives: the lookup's error, the
/// error for a record that is missing or of another kind (then nothing is deleted), or
/// the delete's reply.
pub open spec fn ip_delete_outcome(
    conn: Link,
    label: Seq<char>,
    name: Seq<char>,
    v: IpHostVariant,
    first: Reply,
    second: Reply,
) -> core::result::Result<ResourceView, ErrorView> {
    match ip_record_get(conn, name, first) {
        Err(e) => Err(e),
        Ok(p) => if p is Some && present_as(p->Some_0, v) {
            write_outcome(
                exchange(conn, named_request(Action::Delete, ip_host_resource(), "Name"@, name, None, empty_object()), second),
                ip_host_resource(),
            )
        } else {
            Err(missing_error(label, name))
        },
    }
}

/// What writing an IP host record with `action` and `payload` gives when answered `reply`.
pub open spec fn ip_write_outcome(conn: Link, action: Action, name: Seq<char>, payload: Json, reply: Reply) -> core::result::Result<
    ResourceView,
    ErrorView,
> {
    write_outcome(exchange(conn, named_request(action, ip_host_resource(), "Name"@, name, None, payload), reply), ip_host_resource())
}

/// The network object operations of a client.
pub struct NetworkApi<'a, T> {
    client: &'a SophosClient<T>,
}

impl<'a, T: SophosTransport> NetworkApi<'a, T> {
    /// The connection of the client and what its transport answers.
    pub closed spec fn conn(&self) -> Link {
        self.client.conn()
    }
}

impl<T: SophosTransport> SophosClient<T> {
    /// The network object operations.
    pub fn network(&self) -> (a: NetworkApi<'_, T>)
        ensures
            a.conn() == self.conn(),
    {
        NetworkApi { client: self }
    }
}

impl<'a, T: SophosTransport> NetworkApi<'a, T> {
    /// Every IP host record; zero records is an empty list.
    fn ip_records(&self) -> (r: Result<Vec<ParsedIpHost>>)
        ensures
            exists|reply: Reply| list_view(r) == ip_records_list(self.conn(), reply),
    {
        let r = list_items(self.client, "IPHost", ip_host_from_node, Ghost(ip_host_reader()));
        let ghost reply = choose|reply: Reply|
            list_view(r) == list_outcome(exchange(self.client.conn(), read_request("IPHost"@), reply), "IPHost"@, ip_host_reader());
        assert(list_view(r) == ip_records_list(self.conn(), reply));
        r
    }

    /// The IP host record `name`.
    fn ip_record(&self, name: &str) -> (r: Result<Option<ParsedIpHost>>)
        ensures
            exists|reply: Reply| opt_result_view(r) == ip_record_get(self.conn(), name@, reply),
    {
        let r = get_item(self.client, "IPHost", "Name", name, ip_host_from_node, Ghost(ip_host_reader()));
        let ghost reply = choose|reply: Reply|
            opt_result_view(r) == get_outcome::<ParsedIpHost>(
                exchange(self.client.conn(), named_request(Action::Read, "IPHost"@, "Name"@, name@, None, Json::Object(Seq::empty())), reply),
                "IPHost"@,
                name@,
                ip_host_reader(),
            );
        assert(opt_result_view(r) == ip_record_get(self.conn(), name@, reply));
        r
    }

    /// Writes an IP host record.
    fn write_ip(&self, action: Action, name: &str, payload: Value) -> (r: Result<ResourceResponse>)
        ensures
            exists|reply: Reply| write_view(r) == ip_write_outcome(self.conn(), action, name@, payload@, reply),
    {
        let ghost pv = payload@;
        let r = write_item(self.client, action, "IPHost", "Name", name, None, payload);
        let ghost reply = choose|reply: Reply|
            write_view(r) == write_outcome(
                exchange(self.client.conn(), named_request(action, "IPHost"@, "Name"@, name@, crate::xml::opt_str_view(None), pv), reply),
                "IPHost"@,
            );
        assert(write_view(r) == ip_write_outcome(self.conn(), action, name@, pv, reply));
        r
    }

    /// Deletes the IP host record `name` when it stands for an object of kind `variant`.
    fn delete_ip(&self, label: &str, name: &str, variant: IpHostVariant) -> (r: Result<ResourceResponse>)
        ensures
            exists|first: Reply, second: Reply|
                write_view(r) == #[trigger] ip_delete_outcome(self.conn(), label@, name@, variant, first, second),
    {
        let existing = self.ip_record(name);
        let ghost first = choose|reply: Reply| opt_result_view(existing) == ip_record_get(self.conn(), name@, reply);
        match existing {
            Err(e) => {
                assert(write_view(Err(e)) == ip_delete_outcome(self.conn(), label@, name@, variant, first, first));
                Err(e)
            },
            Ok(p) => {
                let present = match p {
                    Some(x) => match variant {
                        IpHostVariant::Host => x.into_host().is_some(),
                        IpHostVariant::Network => x.into_network().is_some(),
                        IpHostVariant::Range => x.into_range().is_some(),
                    },
                    None => false,
                };
                if !present {
                    let e = missing_error_exec(label, name);
                    assert(write_view(Err(e)) == ip_delete_outcome(self.conn(), label@, name@, variant, first, first));
                    return Err(e);
                }
                let r = write_item(self.client, Action::Delete, "IPHost", "Name", name, None, Value::Object(FieldMap::new()));
                let ghost second = choose|reply: Reply|
                    write_view(r) == write_outcome(
                        exchange(self.client.conn(), named_request(Action::Delete, "IPHost"@, "Name"@, name@, crate::xml::opt_str_view(None), Json::Object(Seq::empty())), reply),
                        "IPHost"@,
                    );
                assert(write_view(r) == ip_delete_outcome(self.conn(), label@, name@, variant, first, second));
                r
            },
        }
    }

    /// Every IP host (records of other kinds are left out); zero records is an empty list.
    pub fn list_ip_hosts(&self) -> (r: Result<Vec<IpHost>>)
        ensures
            exists|reply: Reply| list_view(r) == map_list(ip_records_list(self.conn(), reply), |p: ParsedIpHostView| as_host(p)),
    {
        match self.ip_records() {
            Ok(records) => Ok(hosts_of(records)),
            Err(e) => Err(e),
        }
    }

    /// The IP host `name` (trimmed); zero records, or a record of another kind, is none.
    pub fn get_ip_host(&self, name: &str) -> (r: Result<Option<IpHost>>)
        ensures
            match name_of("IP host name"@, name@) {
                Err(e) => r matches Err(x) && x@ == e,
                Ok(n) => exists|reply: Reply|
                    opt_result_view(r) == map_opt(ip_record_get(self.conn(), n, reply), |p: ParsedIpHostView| as_host(p)),
            },
    {
        let n = match normalize_name("IP host name", name) {
            Ok(n) => n,
            Err(e) => return Err(e),
        };
        match self.ip_record(n.as_str()) {
            Ok(Some(p)) => Ok(p.into_host()),
            Ok(None) => Ok(None),
            Err(e) => Err(e),
        }
    }

    /// Creates the IP host `host`.
    pub fn create_ip_host(&self, host: IpHostCreate) -> (r: Result<ResourceResponse>)
        ensures
            exists|reply: Reply| write_view(r) == ip_write_outcome(self.conn(), Action::Create, host@.name, ip_host_json(host@), reply),
    {
        self.write_ip(Action::Create, host.name.as_str(), ip_host_payload(&host))
    }

    /// Updates the IP host `host`.
    pub fn update_ip_host(&self, host: IpHostCreate) -> (r: Result<ResourceResponse>)
        ensures
            exists|reply: Reply| write_view(r) == ip_write_outcome(self.conn(), Action::Update, host@.name, ip_host_json(host@), reply),
    {
        self.write_ip(Action::Update, host.name.as_str(), ip_host_payload(&host))
    }

    /// Deletes the IP host `name` (trimmed) after checking that it exists as a host.
    pub fn delete_ip_host(&self, name: &str) -> (r: Result<ResourceResponse>)
        ensures
            match name_of("IP host name"@, name@) {
                Err(e) => r matches Err(x) && x@ == e,
                Ok(n) => exists|first: Reply, second: Reply|
                    write_view(r) == #[trigger] ip_delete_outcome(self.conn(), "IP host"@, n, IpHostVariant::Host, first, second),
            },
    {
        let n = match normalize_name("IP host name", name) {
            Ok(n) => n,
            Err(e) => return Err(e),
        };
        self.delete_ip("IP host", n.as_str(), IpHostVariant::Host)
    }

    /// Every IP network; zero records is an empty list.
    pub fn list_ip_networks(&self) -> (r: Result<Vec<IpNetwork>>)
        ensures
            exists|reply: Reply| list_view(r) == map_list(ip_records_list(self.conn(), reply), |p: ParsedIpHostView| as_network(p)),
    {
        match self.ip_records() {
            Ok(records) => Ok(networks_of(records)),
            Err(e) => Err(e),
        }
    }

    /// The IP network `name` (trimmed); zero records, or a record of another kind, is none.
    pub fn get_ip_network(&self, name: &str) -> (r: Result<Option<IpNetwork>>)
        ensures
            match name_of("IP network name"@, name@) {
                Err(e) => r matches Err(x) && x@ == e,
                Ok(n) => exists|reply: Reply|
                    opt_result_view(r) == map_opt(ip_record_get(self.conn(), n, reply), |p: ParsedIpHostView| as_network(p)),
            },
    {
        let n = match normalize_name("IP network name", name) {
            Ok(n) => n,
            Err(e) => return Err(e),
        };
        match self.ip_record(n.as_str()) {
            Ok(Some(p)) => Ok(p.into_network()),
            Ok(None) => Ok(None),
            Err(e) => Err(e),
        }
    }

    /// Creates the IP network `network`.
    pub fn create_ip_network(&self, network: IpNetworkCreate) -> (r: Result<ResourceResponse>)
        ensures
            exists|reply: Reply| write_view(r) == ip_write_outcome(self.conn(), Action::Create, network@.name, ip_network_json(network@), reply),
    {
        self.write_ip(Action::Create, network.name.as_str(), ip_network_payload(&network))
    }

    /// Updates the IP network `network`.
    pub fn update_ip_network(&self, network: IpNetworkCreate) -> (r: Result<ResourceResponse>)
        ensures
            exists|reply: Reply| write_view(r) == ip_write_outcome(self.conn(), Action::Update, network@.name, ip_network_json(network@), reply),
    {
        self.write_ip(Action::Update, network.name.as_str(), ip_network_payload(&network))
    }

    /// Deletes the IP network `name` (trimmed) after checking that it exists as a network.
    pub fn delete_ip_network(&self, name: &str) -> (r: Result<ResourceResponse>)
        ensures
            match name_of("IP network name"@, name@) {
                Err(e) => r matches Err(x) && x@ == e,
                Ok(n) => exists|first: Reply, second: Reply|
                    write_view(r) == #[trigger] ip_delete_outcome(self.conn(), "IP network"@, n, IpHostVariant::Network, first, second),
            },
    {
        let n = match normalize_name("IP network name", name) {
            Ok(n) => n,
            Err(e) => return Err(e),
        };
        self.delete_ip("IP network", n.as_str(), IpHostVariant::Network)
    }

    /// Every IP range; zero records is an empty list.
    pub fn list_ip_ranges(&self) -> (r: Result<Vec<IpRange>>)
        ensures
            exists|reply: Reply| list_view(r) == map_list(ip_records_list(self.conn(), reply), |p: ParsedIpHostView| as_range(p)),
    {
        match self.ip_records() {
            Ok(records) => Ok(ranges_of(records)),
            Err(e) => Err(e),
        }
    }

    /// The IP range `name` (trimmed); zero records, or a record of another kind, is none.
    pub fn get_ip_range(&self, name: &str) -> (r: Result<Option<IpRange>>)
        ensures
            match name_of("IP range name"@, name@) {
                Err(e) => r matches Err(x) && x@ == e,
                Ok(n) => exists|reply: Reply|
                    opt_result_view(r) == map_opt(ip_record_get(self.conn(), n, reply), |p: ParsedIpHostView| as_range(p)),
            },
    {
        let n = match normalize_name("IP range name", name) {
            Ok(n) => n,
            Err(e) => return Err(e),
        };
        match self.ip_record(n.as_str()) {
            Ok(Some(p)) => Ok(p.into_range()),
            Ok(None) => Ok(None),
            Err(e) => Err(e),
        }
    }

    /// Creates the IP range `range`.
    pub fn create_ip_range(&self, range: IpRangeCreate) -> (r: Result<ResourceResponse>)
        ensures
            exists|reply: Reply| write_view(r) == ip_write_outcome(self.conn(), Action::Create, range@.name, ip_range_json(range@), reply),
    {
        self.write_ip(Action::Create, range.name.as_str(), ip_range_payload(&range))
    }

    /// Updates the IP range `range`.
    pub fn update_ip_range(&self, range: IpRangeCreate) -> (r: Result<ResourceResponse>)
        ensures
            exists|reply: Reply| write_view(r) == ip_write_outcome(self.conn(), Action::Update, range@.name, ip_range_json(range@), reply),
    {
        self.write_ip(Action::Update, range.name.as_str(), ip_range_payload(&range))
    }

    /// Deletes the IP range `name` (trimmed) after checking that it exists as a range.
    pub fn delete_ip_range(&self, name: &str) -> (r: Result<ResourceResponse>)
        ensures
            match name_of("IP range name"@, name@) {
                Err(e) => r matches Err(x) && x@ == e,
                Ok(n) => exists|first: Reply, second: Reply|
                    write_view(r) == #[trigger] ip_delete_outcome(self.conn(), "IP range"@, n, IpHostVariant::Range, first, second),
            },
    {
        let n = match normalize_name("IP range name", name) {
            Ok(n) => n,
            Err(e) => return Err(e),
        };
        self.delete_ip("IP range", n.as_str(), IpHostVariant::Range)
    }
}

/// How a network group update combines the requested members with the existing ones.
#[derive(Debug, Clone, Copy, PartialEq, Eq, Structural)]
pub enum NetworkGroupUpdateAction {
    Add,
    Remove,
    Replace,
}

/// A network group update's name, members, action and description.
pub struct NetworkGroupUpdateView {
    pub name: Seq<char>,
    pub members: Seq<Seq<char>>,
    pub action: NetworkGroupUpdateAction,
    pub description: Option<Seq<char>>,
}

/// A copy of `s` without surrounding white space.
fn trim_str_owned(s: &str) -> (r: String)
    ensures
        r@ == trim(s@),
{
    let c = chars_of(s);
    let t = trim_chars(c.as_slice());
    string_of(t.as_slice())
}

/// The group an element describes: none for a family other than IPv4 (when only IPv4
/// groups are read) or without a name; its members are the `member` values under `list`,
/// its description the `Description` text.
pub open spec fn group_of_node(
    n: NodeView,
    label: Seq<char>,
    list: Seq<char>,
    member: Seq<char>,
    ipv4_only: bool,
) -> core::result::Result<Option<GroupView>, ErrorView> {
    if ipv4_only && child_text_of(n, "IPFamily"@) is Some && child_text_of(n, "IPFamily"@)->Some_0 != "IPv4"@ {
        Ok(None)
    } else {
        match child_text_of(n, "Name"@) {
            None => Ok(None),
            Some(name) => {
                let members = match find_child(n.children, list) {
                    Some(l) => values_of_children(l.children, member),
                    None => Seq::empty(),
                };
                match name_of(label, name) {
                    Err(e) => Err(e),
                    Ok(nm) => Ok(Some(GroupView { name: nm, members, description: child_text_of(n, "Description"@) })),
                }
            },
        }
    }
}

/// The name, members and description of a group element (see [`group_of_node`]).
fn group_parts_from_node(node: &XmlNode, label: &str, list: &str, member: &str, ipv4_only: bool) -> (r: Result<Option<(String, Vec<String>, Option<String>)>>)
    ensures
        match group_of_node(node@, label@, list@, member@, ipv4_only) {
            Ok(Some(g)) => r matches Ok(Some(x)) && x.0@ == g.name && seq_views(x.1@) == g.members && opt_view(x.2) == g.description,
            Ok(None) => r matches Ok(None),
            Err(e) => r matches Err(x) && x@ == e,
        },
{
    if ipv4_only {
        match node.child_text("IPFamily") {
            Some(f) => {
                if !crate::text::str_eq(f.as_str(), "IPv4") {
                    return Ok(None);
                }
            },
            None => {},
        }
    }
    let name = match node.child_text("Name") {
        Some(n) => n,
        None => return Ok(None),
    };
    let members = match node.child(list) {
        Some(l) => values_from_children(l, member),
        None => {
            let v: Vec<String> = Vec::new();
            assert(seq_views(v@) =~= Seq::<Seq<char>>::empty());
            v
        },
    };
    let description = node.child_text("Description");
    let nm = match normalize_name(label, name.as_str()) {
        Ok(n) => n,
        Err(e) => return Err(e),
    };
    Ok(Some((nm, members, description)))
}

/// The payload of an IP host group: name, IPv4 family, description (empty when none) and
/// member hosts.
pub open spec fn ip_host_group_json(name: Seq<char>, hosts: Seq<Seq<char>>, description: Option<Seq<char>>) -> Json {
    Json::Object(
        jinsert(
            jinsert(
                jinsert(jinsert(Seq::empty(), "Name"@, jstr(name)), "IPFamily"@, jstr("IPv4"@)),
                "Description"@,
                jstr(text_or(description, Seq::empty())),
            ),
            "HostList"@,
            Json::Object(jinsert(Seq::empty(), "Host"@, str_array(hosts))),
        ),
    )
}

/// The payload of an IP host group (see [`ip_host_group_json`]).
pub fn ip_host_group_payload(name: &str, hosts: &Vec<String>, description: Option<&str>) -> (v: Value)
    ensures
        v@ == ip_host_group_json(name@, seq_views(hosts@), crate::xml::opt_str_view(description)),
{
    proof {
        reveal_strlit("");
        assert(""@ =~= Seq::<char>::empty());
    }
    let d = match description {
        Some(d) => d.to_owned(),
        None => "".to_owned(),
    };
    let mut inner = FieldMap::new();
    inner.insert("Host".to_owned(), strings_value(hosts));
    let mut m = FieldMap::new();
    m.insert("Name".to_owned(), Value::String(name.to_owned()));
    m.insert("IPFamily".to_owned(), Value::String("IPv4".to_owned()));
    m.insert("Description".to_owned(), Value::String(d));
    m.insert("HostList".to_owned(), Value::Object(inner));
    Value::Object(m)
}

/// The payload of an FQDN host group: name, description (empty when none) and member
/// hosts.
pub open spec fn fqdn_host_group_json(name: Seq<char>, hosts: Seq<Seq<char>>, description: Option<Seq<char>>) -> Json {
    Json::Object(
        jinsert(
            jinsert(jinsert(Seq::empty(), "Name"@, jstr(name)), "Description"@, jstr(text_or(description, Seq::empty()))),
            "FQDNHostList"@,
            Json::Object(jinsert(Seq::empty(), "FQDNHost"@, str_array(hosts))),
        ),
    )
}

/// The payload of an FQDN host group (see [`fqdn_host_group_json`]).
pub fn fqdn_host_group_payload(name: &str, hosts: &Vec<String>, description: Option<&str>) -> (v: Value)
    ensures
        v@ == fqdn_host_group_json(name@, seq_views(hosts@), crate::xml::opt_str_view(description)),
{
    proof {
        reveal_strlit("");
        assert(""@ =~= Seq::<char>::empty());
    }
    let d = match description {
        Some(d) => d.to_owned(),
        None => "".to_owned(),
    };
    let mut inner = FieldMap::new();
    inner.insert("FQDNHost".to_owned(), strings_value(hosts));
    let mut m = FieldMap::new();
    m.insert("Name".to_owned(), Value::String(name.to_owned()));
    m.insert("Description".to_owned(), Value::String(d));
    m.insert("FQDNHostList".to_owned(), Value::Object(inner));
    Value::Object(m)
}

/// A group of IPv4 hosts.
#[derive(Debug, Clone, PartialEq, Eq)]
pub struct IpHostGroup {
    name: String,
    hosts: Vec<String>,
    description: Option<String>,
}

impl View for IpHostGroup {
    type V = GroupView;

    closed spec fn view(&self) -> GroupView {
        GroupView { name: self.name@, members: seq_views(self.hosts@), description: opt_view(self.description) }
    }
}

impl Named for IpHostGroup {
    open spec fn key_of(v: GroupView) -> Seq<char> {
        v.name
    }

    fn key(&self) -> (k: &str) {
        self.name.as_str()
    }
}

impl IpHostGroup {
    /// The name.
    pub fn name(&self) -> (r: &str)
        ensures
            r@ == self@.name,
    {
        self.name.as_str()
    }

    /// The member hosts.
    pub fn hosts(&self) -> (r: &[String])
        ensures
            seq_views(r@) == self@.members,
    {
        self.hosts.as_slice()
    }

    /// The description, when there is one.
    pub fn description(&self) -> (r: Option<&str>)
        ensures
            crate::xml::opt_str_view(r) == self@.description,
    {
        match &self.description {
            Some(d) => Some(d.as_str()),
            None => None,
        }
    }
}

/// The group an element `IPHostGroup` describes (see [`group_of_node`]).
pub open spec fn ip_host_group_of_node(n: NodeView) -> core::result::Result<Option<GroupView>, ErrorView> {
    group_of_node(n, "IP host group name"@, "HostList"@, "Host"@, true)
}

/// [`ip_host_group_of_node`] as a value.
pub open spec fn ip_host_group_reader() -> spec_fn(NodeView) -> core::result::Result<Option<GroupView>, ErrorView> {
    |n: NodeView| ip_host_group_of_node(n)
}

/// The group an element `IPHostGroup` describes.
pub fn ip_host_group_from_node(node: &XmlNode) -> (r: Result<Option<IpHostGroup>>)
    ensures
        read_view(r) == ip_host_group_of_node(node@),
{
    match group_parts_from_node(node, "IP host group name", "HostList", "Host", true) {
        Ok(Some((name, hosts, description))) => Ok(Some(IpHostGroup { name, hosts, description })),
        Ok(None) => Ok(None),
        Err(e) => Err(e),
    }
}

/// A IP host group to create: a name and at least one member, normalized.
#[derive(Debug, Clone, PartialEq, Eq)]
pub struct IpHostGroupCreate {
    name: String,
    hosts: Vec<String>,
    description: Option<String>,
}

impl View for IpHostGroupCreate {
    type V = GroupView;

    closed spec fn view(&self) -> GroupView {
        GroupView { name: self.name@, members: seq_views(self.hosts@), description: opt_view(self.description) }
    }
}

impl IpHostGroupCreate {
    /// A group to create, with members `hosts`.
    pub fn new(name: &str, hosts: Vec<&str>) -> (r: Result<IpHostGroupCreate>)
        ensures
            match crate::service::group_of("IP host group name"@, "host"@, name@, str_views(hosts@)) {
                Ok(v) => r matches Ok(c) && c@ == v,
                Err(e) => r matches Err(x) && x@ == e,
            },
    {
        let n = match normalize_name("IP host group name", name) {
            Ok(n) => n,
            Err(e) => return Err(e),
        };
        let hs = match normalize_named_list("host", &hosts, true) {
            Ok(hs) => hs,
            Err(e) => return Err(e),
        };
        Ok(IpHostGroupCreate { name: n, hosts: hs, description: None })
    }

    /// The group with description `description`, trimmed.
    pub fn with_description(self, description: &str) -> (r: IpHostGroupCreate)
        ensures
            r@ == (GroupView { description: Some(trim(description@)), ..self@ }),
    {
        let mut r = self;
        r.description = Some(trim_str_owned(description));
        r
    }
}

/// A change to the members (and maybe the description) of a IP host group.
#[derive(Debug, Clone, PartialEq, Eq)]
pub struct IpHostGroupUpdate {
    name: String,
    hosts: Vec<String>,
    action: NetworkGroupUpdateAction,
    description: Option<String>,
}

impl View for IpHostGroupUpdate {
    type V = NetworkGroupUpdateView;

    closed spec fn view(&self) -> NetworkGroupUpdateView {
        NetworkGroupUpdateView {
            name: self.name@,
            members: seq_views(self.hosts@),
            action: self.action,
            description: opt_view(self.description),
        }
    }
}

impl IpHostGroupUpdate {
    /// A change to the members of `name`; no description.
    pub fn new(name: &str, hosts: Vec<&str>, action: NetworkGroupUpdateAction) -> (r: Result<IpHostGroupUpdate>)
        ensures
            match crate::service::group_of("IP host group name"@, "host"@, name@, str_views(hosts@)) {
                Ok(v) => r matches Ok(u) && u@ == (NetworkGroupUpdateView { name: v.name, members: v.members, action, description: None }),
                Err(e) => r matches Err(x) && x@ == e,
            },
    {
        match IpHostGroupCreate::new(name, hosts) {
            Ok(c) => Ok(IpHostGroupUpdate { name: c.name, hosts: c.hosts, action, description: None }),
            Err(e) => Err(e),
        }
    }

    /// The update with description `description`, trimmed.
    pub fn with_description(self, description: &str) -> (r: IpHostGroupUpdate)
        ensures
            r@ == (NetworkGroupUpdateView { description: Some(trim(description@)), ..self@ }),
    {
        let mut r = self;
        r.description = Some(trim_str_owned(description));
        r
    }
}

/// The resource name of IP host groups.
pub open spec fn ip_host_group_resource() -> Seq<char> {
    "IPHostGroup"@
}

/// What updating the IP host group `u.name` gives when the lookup is answered `first` and the
/// update `second`: the lookup's error, a missing group (then nothing is sent), or the
/// reply to the update that writes the combined members with the given description,
/// else the existing one.
pub open spec fn ip_host_group_update_outcome(
    conn: Link,
    u: NetworkGroupUpdateView,
    first: Reply,
    second: Reply,
) -> core::result::Result<ResourceView, ErrorView> {
    match get_outcome::<IpHostGroup>(
        exchange(conn, named_request(Action::Read, ip_host_group_resource(), "Name"@, u.name, None, empty_object()), first),
        ip_host_group_resource(),
        u.name,
        ip_host_group_reader(),
    ) {
        Err(e) => Err(e),
        Ok(None) => Err(missing_error("IP host group"@, u.name)),
        Ok(Some(existing)) => write_outcome(
            exchange(
                conn,
                named_request(
                    Action::Update,
                    ip_host_group_resource(),
                    "Name"@,
                    u.name,
                    None,
                    ip_host_group_json(
                        u.name,
                        updated_values(existing.members, u.members, u.action is Add, u.action is Remove),
                        match u.description {
                            Some(d) => Some(d),
                            None => existing.description,
                        },
                    ),
                ),
                second,
            ),
            ip_host_group_resource(),
        ),
    }
}

impl<'a, T: SophosTransport> NetworkApi<'a, T> {
    /// Every IP host group; zero records is an empty list.
    pub fn list_ip_host_groups(&self) -> (r: Result<Vec<IpHostGroup>>)
        ensures
            exists|reply: Reply|
                list_view(r) == list_outcome(
                    exchange(self.conn(), read_request(ip_host_group_resource()), reply),
                    ip_host_group_resource(),
                    ip_host_group_reader(),
                ),
    {
        let r = list_items(self.client, "IPHostGroup", ip_host_group_from_node, Ghost(ip_host_group_reader()));
        let ghost reply = choose|reply: Reply|
            list_view(r) == list_outcome(exchange(self.client.conn(), read_request("IPHostGroup"@), reply), "IPHostGroup"@, ip_host_group_reader());
        assert(list_view(r) == list_outcome(exchange(self.conn(), read_request(ip_host_group_resource()), reply), ip_host_group_resource(), ip_host_group_reader()));
        r
    }

    /// The IP host group named `name` (trimmed); zero records is none.
    pub fn get_ip_host_group(&self, name: &str) -> (r: Result<Option<IpHostGroup>>)
        ensures
            match name_of("IP host group name"@, name@) {
                Err(e) => r matches Err(x) && x@ == e,
                Ok(n) => exists|reply: Reply|
                    opt_result_view(r) == get_outcome::<IpHostGroup>(
                        exchange(self.conn(), named_request(Action::Read, ip_host_group_resource(), "Name"@, n, None, empty_object()), reply),
                        ip_host_group_resource(),
                        n,
                        ip_host_group_reader(),
                    ),
            },
    {
        let n = match normalize_name("IP host group name", name) {
            Ok(n) => n,
            Err(e) => return Err(e),
        };
        self.get_ip_host_group_named(n.as_str())
    }

    /// The IP host group named exactly `name`.
    fn get_ip_host_group_named(&self, name: &str) -> (r: Result<Option<IpHostGroup>>)
        ensures
            exists|reply: Reply|
                opt_result_view(r) == get_outcome::<IpHostGroup>(
                    exchange(self.conn(), named_request(Action::Read, ip_host_group_resource(), "Name"@, name@, None, empty_object()), reply),
                    ip_host_group_resource(),
                    name@,
                    ip_host_group_reader(),
                ),
    {
        let r = get_item(self.client, "IPHostGroup", "Name", name, ip_host_group_from_node, Ghost(ip_host_group_reader()));
        let ghost reply = choose|reply: Reply|
            opt_result_view(r) == get_outcome::<IpHostGroup>(
                exchange(self.client.conn(), named_request(Action::Read, "IPHostGroup"@, "Name"@, name@, None, Json::Object(Seq::empty())), reply),
                "IPHostGroup"@,
                name@,
                ip_host_group_reader(),
            );
        assert(opt_result_view(r) == get_outcome::<IpHostGroup>(
            exchange(self.conn(), named_request(Action::Read, ip_host_group_resource(), "Name"@, name@, None, empty_object()), reply),
            ip_host_group_resource(),
            name@,
            ip_host_group_reader(),
        ));
        r
    }

    /// Creates `group`.
    pub fn create_ip_host_group(&self, group: IpHostGroupCreate) -> (r: Result<ResourceResponse>)
        ensures
            exists|reply: Reply|
                write_view(r) == write_outcome(
                    exchange(
                        self.conn(),
                        named_request(
                            Action::Create,
                            ip_host_group_resource(),
                            "Name"@,
                            group@.name,
                            None,
                            ip_host_group_json(group@.name, group@.members, group@.description),
                        ),
                        reply,
                    ),
                    ip_host_group_resource(),
                ),
    {
        let d = match &group.description {
            Some(d) => Some(d.as_str()),
            None => None,
        };
        let payload = ip_host_group_payload(group.name.as_str(), &group.hosts, d);
        let ghost pv = payload@;
        let r = write_item(self.client, Action::Create, "IPHostGroup", "Name", group.name.as_str(), None, payload);
        let ghost reply = choose|reply: Reply|
            write_view(r) == write_outcome(
                exchange(self.client.conn(), named_request(Action::Create, "IPHostGroup"@, "Name"@, group.name@, crate::xml::opt_str_view(None), pv), reply),
                "IPHostGroup"@,
            );
        assert(write_view(r) == write_outcome(
            exchange(
                self.conn(),
                named_request(Action::Create, ip_host_group_resource(), "Name"@, group@.name, None, ip_host_group_json(group@.name, group@.members, group@.description)),
                reply,
            ),
            ip_host_group_resource(),
        ));
        r
    }

    /// Applies `update` to the existing group (see [`ip_host_group_update_outcome`]).
    pub fn update_ip_host_group(&self, update: IpHostGroupUpdate) -> (r: Result<ResourceResponse>)
        ensures
            exists|first: Reply, second: Reply|
                write_view(r) == #[trigger] ip_host_group_update_outcome(self.conn(), update@, first, second),
    {
        let ghost uv = update@;
        let existing = self.get_ip_host_group_named(update.name.as_str());
        let ghost first = choose|reply: Reply|
            opt_result_view(existing) == get_outcome::<IpHostGroup>(
                exchange(self.conn(), named_request(Action::Read, ip_host_group_resource(), "Name"@, uv.name, None, empty_object()), reply),
                ip_host_group_resource(),
                uv.name,
                ip_host_group_reader(),
            );
        match existing {
            Err(e) => {
                assert(write_view(Err(e)) == ip_host_group_update_outcome(self.conn(), uv, first, first));
                Err(e)
            },
            Ok(None) => {
                let e = missing_error_exec("IP host group", update.name.as_str());
                assert(write_view(Err(e)) == ip_host_group_update_outcome(self.conn(), uv, first, first));
                Err(e)
            },
            Ok(Some(ex)) => {
                let updated = match update.action {
                    NetworkGroupUpdateAction::Add => add_unique_values(ex.hosts, update.hosts),
                    NetworkGroupUpdateAction::Remove => remove_requested_values(ex.hosts, &update.hosts),
                    NetworkGroupUpdateAction::Replace => update.hosts,
                };
                let d = match update.description {
                    Some(d) => Some(d),
                    None => ex.description,
                };
                let ds = match &d {
                    Some(x) => Some(x.as_str()),
                    None => None,
                };
                let payload = ip_host_group_payload(update.name.as_str(), &updated, ds);
                let ghost pv = payload@;
                let r = write_item(self.client, Action::Update, "IPHostGroup", "Name", update.name.as_str(), None, payload);
                let ghost second = choose|reply: Reply|
                    write_view(r) == write_outcome(
                        exchange(self.client.conn(), named_request(Action::Update, "IPHostGroup"@, "Name"@, uv.name, crate::xml::opt_str_view(None), pv), reply),
                        "IPHostGroup"@,
                    );
                assert(write_view(r) == ip_host_group_update_outcome(self.conn(), uv, first, second));
                r
            },
        }
    }

    /// Deletes the IP host group `name` (trimmed) after checking that it exists.
    pub fn delete_ip_host_group(&self, name: &str) -> (r: Result<ResourceResponse>)
        ensures
            match name_of("IP host group name"@, name@) {
                Err(e) => r matches Err(x) && x@ == e,
                Ok(n) => exists|first: Reply, second: Reply|
                    write_view(r) == #[trigger] crate::api::delete_outcome::<IpHostGroup>(
                        self.conn(),
                        ip_host_group_resource(),
                        "Name"@,
                        "IP host group"@,
                        n,
                        ip_host_group_reader(),
                        first,
                        second,
                    ),
            },
    {
        let n = match normalize_name("IP host group name", name) {
            Ok(n) => n,
            Err(e) => return Err(e),
        };
        let r = crate::api::delete_item(self.client, "IPHostGroup", "Name", "IP host group", n.as_str(), ip_host_group_from_node, Ghost(ip_host_group_reader()));
        let ghost (first, second) = choose|first: Reply, second: Reply|
            write_view(r) == #[trigger] crate::api::delete_outcome::<IpHostGroup>(self.client.conn(), "IPHostGroup"@, "Name"@, "IP host group"@, n@, ip_host_group_reader(), first, second);
        assert(write_view(r) == crate::api::delete_outcome::<IpHostGroup>(self.conn(), ip_host_group_resource(), "Name"@, "IP host group"@, n@, ip_host_group_reader(), first, second));
        r
    }
}

/// A group of FQDN hosts.
#[derive(Debug, Clone, PartialEq, Eq)]
pub struct FqdnHostGroup {
    name: String,
    hosts: Vec<String>,
    description: Option<String>,
}

impl View for FqdnHostGroup {
    type V = GroupView;

    closed spec fn view(&self) -> GroupView {
        GroupView { name: self.name@, members: seq_views(self.hosts@), description: opt_view(self.description) }
    }
}

impl Named for FqdnHostGroup {
    open spec fn key_of(v: GroupView) -> Seq<char> {
        v.name
    }

    fn key(&self) -> (k: &str) {
        self.name.as_str()
    }
}

impl FqdnHostGroup {
    /// The name.
    pub fn name(&self) -> (r: &str)
        ensures
            r@ == self@.name,
    {
        self.name.as_str()
    }

    /// The member hosts.
    pub fn hosts(&self) -> (r: &[String])
        ensures
            seq_views(r@) == self@.members,
    {
        self.hosts.as_slice()
    }

    /// The description, when there is one.
    pub fn description(&self) -> (r: Option<&str>)
        ensures
            crate::xml::opt_str_view(r) == self@.description,
    {
        match &self.description {
            Some(d) => Some(d.as_str()),
            None => None,
        }
    }
}

/// The group an element `FQDNHostGroup` describes (see [`group_of_node`]).
pub open spec fn fqdn_host_group_of_node(n: NodeView) -> core::result::Result<Option<GroupView>, ErrorView> {
    group_of_node(n, "FQDN host group name"@, "FQDNHostList"@, "FQDNHost"@, false)
}

/// [`fqdn_host_group_of_node`] as a value.
pub open spec fn fqdn_host_group_reader() -> spec_fn(NodeView) -> core::result::Result<Option<GroupView>, ErrorView> {
    |n: NodeView| fqdn_host_group_of_node(n)
}

/// The group an element `FQDNHostGroup` describes.
pub fn fqdn_host_group_from_node(node: &XmlNode) -> (r: Result<Option<FqdnHostGroup>>)
    ensures
        read_view(r) == fqdn_host_group_of_node(node@),
{
    match group_parts_from_node(node, "FQDN host group name", "FQDNHostList", "FQDNHost", false) {
        Ok(Some((name, hosts, description))) => Ok(Some(FqdnHostGroup { name, hosts, description })),
        Ok(None) => Ok(None),
        Err(e) => Err(e),
    }
}

/// A FQDN host group to create: a name and at least one member, normalized.
#[derive(Debug, Clone, PartialEq, Eq)]
pub struct FqdnHostGroupCreate {
    name: String,
    hosts: Vec<String>,
    description: Option<String>,
}

impl View for FqdnHostGroupCreate {
    type V = GroupView;

    closed spec fn view(&self) -> GroupView {
        GroupView { name: self.name@, members: seq_views(self.hosts@), description: opt_view(self.description) }
    }
}

impl FqdnHostGroupCreate {
    /// A group to create, with members `hosts`.
    pub fn new(name: &str, hosts: Vec<&str>) -> (r: Result<FqdnHostGroupCreate>)
        ensures
            match crate::service::group_of("FQDN host group name"@, "FQDN host"@, name@, str_views(hosts@)) {
                Ok(v) => r matches Ok(c) && c@ == v,
                Err(e) => r matches Err(x) && x@ == e,
            },
    {
        let n = match normalize_name("FQDN host group name", name) {
            Ok(n) => n,
            Err(e) => return Err(e),
        };
        let hs = match normalize_named_list("FQDN host", &hosts, true) {
            Ok(hs) => hs,
            Err(e) => return Err(e),
        };
        Ok(FqdnHostGroupCreate { name: n, hosts: hs, description: None })
    }

    /// The group with description `description`, trimmed.
    pub fn with_description(self, description: &str) -> (r: FqdnHostGroupCreate)
        ensures
            r@ == (GroupView { description: Some(trim(description@)), ..self@ }),
    {
        let mut r = self;
        r.description = Some(trim_str_owned(description));
        r
    }
}

/// A change to the members (and maybe the description) of a FQDN host group.
#[derive(Debug, Clone, PartialEq, Eq)]
pub struct FqdnHostGroupUpdate {
    name: String,
    hosts: Vec<String>,
    action: NetworkGroupUpdateAction,
    description: Option<String>,
}

impl View for FqdnHostGroupUpdate {
    type V = NetworkGroupUpdateView;

    closed spec fn view(&self) -> NetworkGroupUpdateView {
        NetworkGroupUpdateView {
            name: self.name@,
            members: seq_views(self.hosts@),
            action: self.action,
            description: opt_view(self.description),
        }
    }
}

impl FqdnHostGroupUpdate {
    /// A change to the members of `name`; no description.
    pub fn new(name: &str, hosts: Vec<&str>, action: NetworkGroupUpdateAction) -> (r: Result<FqdnHostGroupUpdate>)
        ensures
            match crate::service::group_of("FQDN host group name"@, "FQDN host"@, name@, str_views(hosts@)) {
                Ok(v) => r matches Ok(u) && u@ == (NetworkGroupUpdateView { name: v.name, members: v.members, action, description: None }),
                Err(e) => r matches Err(x) && x@ == e,
            },
    {
        match FqdnHostGroupCreate::new(name, hosts) {
            Ok(c) => Ok(FqdnHostGroupUpdate { name: c.name, hosts: c.hosts, action, description: None }),
            Err(e) => Err(e),
        }
    }

    /// The update with description `description`, trimmed.
    pub fn with_description(self, description: &str) -> (r: FqdnHostGroupUpdate)
        ensures
            r@ == (NetworkGroupUpdateView { description: Some(trim(description@)), ..self@ }),
    {
        let mut r = self;
        r.description = Some(trim_str_owned(description));
        r
    }
}

/// The resource name of FQDN host groups.
pub open spec fn fqdn_host_group_resource() -> Seq<char> {
    "FQDNHostGroup"@
}

/// What updating the FQDN host group `u.name` gives when the lookup is answered `first` and the
/// update `second`: the lookup's error, a missing group (then nothing is sent), or the
/// reply to the update that writes the combined members with the given description,
/// else the existing one.
pub open spec fn fqdn_host_group_update_outcome(
    conn: Link,
    u: NetworkGroupUpdateView,
    first: Reply,
    second: Reply,
) -> core::result::Result<ResourceView, ErrorView> {
    match get_outcome::<FqdnHostGroup>(
        exchange(conn, named_request(Action::Read, fqdn_host_group_resource(), "Name"@, u.name, None, empty_object()), first),
        fqdn_host_group_resource(),
        u.name,
        fqdn_host_group_reader(),
    ) {
        Err(e) => Err(e),
        Ok(None) => Err(missing_error("FQDN host group"@, u.name)),
        Ok(Some(existing)) => write_outcome(
            exchange(
                conn,
                named_request(
                    Action::Update,
                    fqdn_host_group_resource(),
                    "Name"@,
                    u.name,
                    None,
                    fqdn_host_group_json(
                        u.name,
                        updated_values(existing.members, u.members, u.action is Add, u.action is Remove),
                        match u.description {
                            Some(d) => Some(d),
                            None => existing.description,
                        },
                    ),
                ),
                second,
            ),
            fqdn_host_group_resource(),
        ),
    }
}

impl<'a, T: SophosTransport> NetworkApi<'a, T> {
    /// Every FQDN host group; zero records is an empty list.
    pub fn list_fqdn_host_groups(&self) -> (r: Result<Vec<FqdnHostGroup>>)
        ensures
            exists|reply: Reply|
                list_view(r) == list_outcome(
                    exchange(self.conn(), read_request(fqdn_host_group_resource()), reply),
                    fqdn_host_group_resource(),
                    fqdn_host_group_reader(),
                ),
    {
        let r = list_items(self.client, "FQDNHostGroup", fqdn_host_group_from_node, Ghost(fqdn_host_group_reader()));
        let ghost reply = choose|reply: Reply|
            list_view(r) == list_outcome(exchange(self.client.conn(), read_request("FQDNHostGroup"@), reply), "FQDNHostGroup"@, fqdn_host_group_reader());
        assert(list_view(r) == list_outcome(exchange(self.conn(), read_request(fqdn_host_group_resource()), reply), fqdn_host_group_resource(), fqdn_host_group_reader()));
        r
    }

    /// The FQDN host group named `name` (trimmed); zero records is none.
    pub fn get_fqdn_host_group(&self, name: &str) -> (r: Result<Option<FqdnHostGroup>>)
        ensures
            match name_of("FQDN host group name"@, name@) {
                Err(e) => r matches Err(x) && x@ == e,
                Ok(n) => exists|reply: Reply|
                    opt_result_view(r) == get_outcome::<FqdnHostGroup>(
                        exchange(self.conn(), named_request(Action::Read, fqdn_host_group_resource(), "Name"@, n, None, empty_object()), reply),
                        fqdn_host_group_resource(),
                        n,
                        fqdn_host_group_reader(),
                    ),
            },
    {
        let n = match normalize_name("FQDN host group name", name) {
            Ok(n) => n,
            Err(e) => return Err(e),
        };
        self.get_fqdn_host_group_named(n.as_str())
    }

    /// The FQDN host group named exactly `name`.
    fn get_fqdn_host_group_named(&self, name: &str) -> (r: Result<Option<FqdnHostGroup>>)
        ensures
            exists|reply: Reply|
                opt_result_view(r) == get_outcome::<FqdnHostGroup>(
                    exchange(self.conn(), named_request(Action::Read, fqdn_host_group_resource(), "Name"@, name@, None, empty_object()), reply),
                    fqdn_host_group_resource(),
                    name@,
                    fqdn_host_group_reader(),
                ),
    {
        let r = get_item(self.client, "FQDNHostGroup", "Name", name, fqdn_host_group_from_node, Ghost(fqdn_host_group_reader()));
        let ghost reply = choose|reply: Reply|
            opt_result_view(r) == get_outcome::<FqdnHostGroup>(
                exchange(self.client.conn(), named_request(Action::Read, "FQDNHostGroup"@, "Name"@, name@, None, Json::Object(Seq::empty())), reply),
                "FQDNHostGroup"@,
                name@,
                fqdn_host_group_reader(),
            );
        assert(opt_result_view(r) == get_outcome::<FqdnHostGroup>(
            exchange(self.conn(), named_request(Action::Read, fqdn_host_group_resource(), "Name"@, name@, None, empty_object()), reply),
            fqdn_host_group_resource(),
            name@,
            fqdn_host_group_reader(),
        ));
        r
    }

    /// Creates `group`.
    pub fn create_fqdn_host_group(&self, group: FqdnHostGroupCreate) -> (r: Result<ResourceResponse>)
        ensures
            exists|reply: Reply|
                write_view(r) == write_outcome(
                    exchange(
                        self.conn(),
                        named_request(
                            Action::Create,
                            fqdn_host_group_resource(),
                            "Name"@,
                            group@.name,
                            None,
                            fqdn_host_group_json(group@.name, group@.members, group@.description),
                        ),
                        reply,
                    ),
                    fqdn_host_group_resource(),
                ),
    {
        let d = match &group.description {
            Some(d) => Some(d.as_str()),
            None => None,
        };
        let payload = fqdn_host_group_payload(group.name.as_str(), &group.hosts, d);
        let ghost pv = payload@;
        let r = write_item(self.client, Action::Create, "FQDNHostGroup", "Name", group.name.as_str(), None, payload);
        let ghost reply = choose|reply: Reply|
            write_view(r) == write_outcome(
                exchange(self.client.conn(), named_request(Action::Create, "FQDNHostGroup"@, "Name"@, group.name@, crate::xml::opt_str_view(None), pv), reply),
                "FQDNHostGroup"@,
            );
        assert(write_view(r) == write_outcome(
            exchange(
                self.conn(),
                named_request(Action::Create, fqdn_host_group_resource(), "Name"@, group@.name, None, fqdn_host_group_json(group@.name, group@.members, group@.description)),
                reply,
            ),
            fqdn_host_group_resource(),
        ));
        r
    }

    /// Applies `update` to the existing group (see [`fqdn_host_group_update_outcome`]).
    pub fn update_fqdn_host_group(&self, update: FqdnHostGroupUpdate) -> (r: Result<ResourceResponse>)
        ensures
            exists|first: Reply, second: Reply|
                write_view(r) == #[trigger] fqdn_host_group_update_outcome(self.conn(), update@, first, second),
    {
        let ghost uv = update@;
        let existing = self.get_fqdn_host_group_named(update.name.as_str());
        let ghost first = choose|reply: Reply|
            opt_result_view(existing) == get_outcome::<FqdnHostGroup>(
                exchange(self.conn(), named_request(Action::Read, fqdn_host_group_resource(), "Name"@, uv.name, None, empty_object()), reply),
                fqdn_host_group_resource(),
                uv.name,
                fqdn_host_group_reader(),
            );
        match existing {
            Err(e) => {
                assert(write_view(Err(e)) == fqdn_host_group_update_outcome(self.conn(), uv, first, first));
                Err(e)
            },
            Ok(None) => {
                let e = missing_error_exec("FQDN host group", update.name.as_str());
                assert(write_view(Err(e)) == fqdn_host_group_update_outcome(self.conn(), uv, first, first));
                Err(e)
            },
            Ok(Some(ex)) => {
                let updated = match update.action {
                    NetworkGroupUpdateAction::Add => add_unique_values(ex.hosts, update.hosts),
                    NetworkGroupUpdateAction::Remove => remove_requested_values(ex.hosts, &update.hosts),
                    NetworkGroupUpdateAction::Replace => update.hosts,
                };
                let d = match update.description {
                    Some(d) => Some(d),
                    None => ex.description,
                };
                let ds = match &d {
                    Some(x) => Some(x.as_str()),
                    None => None,
                };
                let payload = fqdn_host_group_payload(update.name.as_str(), &updated, ds);
                let ghost pv = payload@;
                let r = write_item(self.client, Action::Update, "FQDNHostGroup", "Name", update.name.as_str(), None, payload);
                let ghost second = choose|reply: Reply|
                    write_view(r) == write_outcome(
                        exchange(self.client.conn(), named_request(Action::Update, "FQDNHostGroup"@, "Name"@, uv.name, crate::xml::opt_str_view(None), pv), reply),
                        "FQDNHostGroup"@,
                    );
                assert(write_view(r) == fqdn_host_group_update_outcome(self.conn(), uv, first, second));
                r
            },
        }
    }

    /// Deletes the FQDN host group `name` (trimmed) after checking that it exists.
    pub fn delete_fqdn_host_group(&self, name: &str) -> (r: Result<ResourceResponse>)
        ensures
            match name_of("FQDN host group name"@, name@) {
                Err(e) => r matches Err(x) && x@ == e,
                Ok(n) => exists|first: Reply, second: Reply|
                    write_view(r) == #[trigger] crate::api::delete_outcome::<FqdnHostGroup>(
                        self.conn(),
                        fqdn_host_group_resource(),
                        "Name"@,
                        "FQDN host group"@,
                        n,
                        fqdn_host_group_reader(),
                        first,
                        second,
                    ),
            },
    {
        let n = match normalize_name("FQDN host group name", name) {
            Ok(n) => n,
            Err(e) => return Err(e),
        };
        let r = crate::api::delete_item(self.client, "FQDNHostGroup", "Name", "FQDN host group", n.as_str(), fqdn_host_group_from_node, Ghost(fqdn_host_group_reader()));
        let ghost (first, second) = choose|first: Reply, second: Reply|
            write_view(r) == #[trigger] crate::api::delete_outcome::<FqdnHostGroup>(self.client.conn(), "FQDNHostGroup"@, "Name"@, "FQDN host group"@, n@, fqdn_host_group_reader(), first, second);
        assert(write_view(r) == crate::api::delete_outcome::<FqdnHostGroup>(self.conn(), fqdn_host_group_resource(), "Name"@, "FQDN host group"@, n@, fqdn_host_group_reader(), first, second));
        r
    }
}

/// A host named by its fully qualified domain name.
#[derive(Debug, Clone, PartialEq, Eq)]
pub struct FqdnHost {
    name: String,
    fqdn: String,
    groups: Vec<String>,
    description: Option<String>,
}

/// An FQDN host's name, domain name, groups and description.
pub struct FqdnHostView {
    pub name: Seq<char>,
    pub fqdn: Seq<char>,
    pub groups: Seq<Seq<char>>,
    pub description: Option<Seq<char>>,
}

impl View for FqdnHost {
    type V = FqdnHostView;

    closed spec fn view(&self) -> FqdnHostView {
        FqdnHostView { name: self.name@, fqdn: self.fqdn@, groups: seq_views(self.groups@), description: opt_view(self.description) }
    }
}

impl Named for FqdnHost {
    open spec fn key_of(v: FqdnHostView) -> Seq<char> {
        v.name
    }

    fn key(&self) -> (k: &str) {
        self.name.as_str()
    }
}

impl FqdnHost {
    /// The name.
    pub fn name(&self) -> (r: &str)
        ensures
            r@ == self@.name,
    {
        self.name.as_str()
    }

    /// The domain name.
    pub fn fqdn(&self) -> (r: &str)
        ensures
            r@ == self@.fqdn,
    {
        self.fqdn.as_str()
    }

    /// The FQDN host groups it belongs to.
    pub fn groups(&self) -> (r: &[String])
        ensures
            seq_views(r@) == self@.groups,
    {
        self.groups.as_slice()
    }

    /// The description, when there is one.
    pub fn description(&self) -> (r: Option<&str>)
        ensures
            crate::xml::opt_str_view(r) == self@.description,
    {
        match &self.description {
            Some(d) => Some(d.as_str()),
            None => None,
        }
    }
}

/// The host an element `FQDNHost` describes: none without a name or a domain name; its
/// groups are the `FQDNHostGroup` values under `FQDNHostGroupList`.
pub open spec fn fqdn_host_of_node(n: NodeView) -> core::result::Result<Option<FqdnHostView>, ErrorView> {
    match child_text_of(n, "Name"@) {
        None => Ok(None),
        Some(name) => match child_text_of(n, "FQDN"@) {
            None => Ok(None),
            Some(fqdn) => match name_of("FQDN host name"@, name) {
                Err(e) => Err(e),
                Ok(nm) => match name_of("FQDN"@, fqdn) {
                    Err(e) => Err(e),
                    Ok(f) => Ok(
                        Some(
                            FqdnHostView {
                                name: nm,
                                fqdn: f,
                                groups: match find_child(n.children, "FQDNHostGroupList"@) {
                                    Some(l) => values_of_children(l.children, "FQDNHostGroup"@),
                                    None => Seq::empty(),
                                },
                                description: child_text_of(n, "Description"@),
                            },
                        ),
                    ),
                },
            },
        },
    }
}

/// [`fqdn_host_of_node`] as a value.
pub open spec fn fqdn_host_reader() -> spec_fn(NodeView) -> core::result::Result<Option<FqdnHostView>, ErrorView> {
    |n: NodeView| fqdn_host_of_node(n)
}

/// The host an element `FQDNHost` describes (see [`fqdn_host_of_node`]).
pub fn fqdn_host_from_node(node: &XmlNode) -> (r: Result<Option<FqdnHost>>)
    ensures
        read_view(r) == fqdn_host_of_node(node@),
{
    let name = match node.child_text("Name") {
        Some(n) => n,
        None => return Ok(None),
    };
    let fqdn = match node.child_text("FQDN") {
        Some(f) => f,
        None => return Ok(None),
    };
    let groups = match node.child("FQDNHostGroupList") {
        Some(l) => values_from_children(l, "FQDNHostGroup"),
        None => {
            let v: Vec<String> = Vec::new();
            assert(seq_views(v@) =~= Seq::<Seq<char>>::empty());
            v
        },
    };
    let description = node.child_text("Description");
    let nm = match normalize_name("FQDN host name", name.as_str()) {
        Ok(n) => n,
        Err(e) => return Err(e),
    };
    let f = match normalize_name("FQDN", fqdn.as_str()) {
        Ok(f) => f,
        Err(e) => return Err(e),
    };
    Ok(Some(FqdnHost { name: nm, fqdn: f, groups, description }))
}

/// An FQDN host to create: a name, a domain name, groups and a description, normalized.
#[derive(Debug, Clone, PartialEq, Eq)]
pub struct FqdnHostCreate {
    name: String,
    fqdn: String,
    groups: Vec<String>,
    description: Option<String>,
}

impl View for FqdnHostCreate {
    type V = FqdnHostView;

    closed spec fn view(&self) -> FqdnHostView {
        FqdnHostView { name: self.name@, fqdn: self.fqdn@, groups: seq_views(self.groups@), description: opt_view(self.description) }
    }
}

/// The host `name` for `fqdn`, both trimmed, with no groups and no description, or why it
/// is refused.
pub open spec fn fqdn_host_create_of(name: Seq<char>, fqdn: Seq<char>) -> core::result::Result<FqdnHostView, ErrorView> {
    match name_of("FQDN host name"@, name) {
        Err(e) => Err(e),
        Ok(n) => match name_of("FQDN"@, fqdn) {
            Err(e) => Err(e),
            Ok(f) => Ok(FqdnHostView { name: n, fqdn: f, groups: Seq::empty(), description: None }),
        },
    }
}

impl FqdnHostCreate {
    /// A host to create (see [`fqdn_host_create_of`]).
    pub fn new(name: &str, fqdn: &str) -> (r: Result<FqdnHostCreate>)
        ensures
            match fqdn_host_create_of(name@, fqdn@) {
                Ok(v) => r matches Ok(c) && c@ == v,
                Err(e) => r matches Err(x) && x@ == e,
            },
    {
        let n = match normalize_name("FQDN host name", name) {
            Ok(n) => n,
            Err(e) => return Err(e),
        };
        let f = match normalize_name("FQDN", fqdn) {
            Ok(f) => f,
            Err(e) => return Err(e),
        };
        let groups: Vec<String> = Vec::new();
        assert(seq_views(groups@) =~= Seq::<Seq<char>>::empty());
        Ok(FqdnHostCreate { name: n, fqdn: f, groups, description: None })
    }

    /// The host with description `description`, trimmed.
    pub fn with_description(self, description: &str) -> (r: FqdnHostCreate)
        ensures
            r@ == (FqdnHostView { description: Some(trim(description@)), ..self@ }),
    {
        let mut r = self;
        r.description = Some(trim_str_owned(description));
        r
    }

    /// The host in the groups `groups`, trimmed and without repeats; a blank group name
    /// is an error.
    pub fn with_groups(self, groups: Vec<&str>) -> (r: Result<FqdnHostCreate>)
        ensures
            match named_list_of("FQDN host group"@, str_views(groups@), false) {
                Ok(g) => r matches Ok(c) && c@ == (FqdnHostView { groups: g, ..self@ }),
                Err(e) => r matches Err(x) && x@ == e,
            },
    {
        let g = match normalize_named_list("FQDN host group", &groups, false) {
            Ok(g) => g,
            Err(e) => return Err(e),
        };
        let mut r = self;
        r.groups = g;
        Ok(r)
    }
}

/// A change to an FQDN host: only the given fields change.
#[derive(Debug, Clone, PartialEq, Eq)]
pub struct FqdnHostUpdate {
    name: String,
    fqdn: Option<String>,
    groups: Option<Vec<String>>,
    description: Option<String>,
}

/// An [`FqdnHostUpdate`]'s name and the fields it sets.
pub struct FqdnHostUpdateView {
    pub name: Seq<char>,
    pub fqdn: Option<Seq<char>>,
    pub groups: Option<Seq<Seq<char>>>,
    pub description: Option<Seq<char>>,
}

impl View for FqdnHostUpdate {
    type V = FqdnHostUpdateView;

    closed spec fn view(&self) -> FqdnHostUpdateView {
        FqdnHostUpdateView {
            name: self.name@,
            fqdn: opt_view(self.fqdn),
            groups: match self.groups {
                Some(g) => Some(seq_views(g@)),
                None => None,
            },
            description: opt_view(self.description),
        }
    }
}

impl FqdnHostUpdate {
    /// A change to the host `name` (trimmed) that sets nothing yet.
    pub fn new(name: &str) -> (r: Result<FqdnHostUpdate>)
        ensures
            match name_of("FQDN host name"@, name@) {
                Ok(n) => r matches Ok(u) && u@ == (FqdnHostUpdateView { name: n, fqdn: None, groups: None, description: None }),
                Err(e) => r matches Err(x) && x@ == e,
            },
    {
        match normalize_name("FQDN host name", name) {
            Ok(n) => Ok(FqdnHostUpdate { name: n, fqdn: None, groups: None, description: None }),
            Err(e) => Err(e),
        }
    }

    /// The change that also sets the domain name to `fqdn`, trimmed.
    pub fn with_fqdn(self, fqdn: &str) -> (r: Result<FqdnHostUpdate>)
        ensures
            match name_of("FQDN"@, fqdn@) {
                Ok(f) => r matches Ok(u) && u@ == (FqdnHostUpdateView { fqdn: Some(f), ..self@ }),
                Err(e) => r matches Err(x) && x@ == e,
            },
    {
        match normalize_name("FQDN", fqdn) {
            Ok(f) => {
                let mut r = self;
                r.fqdn = Some(f);
                Ok(r)
            },
            Err(e) => Err(e),
        }
    }

    /// The change that also sets the description to `description`, trimmed.
    pub fn with_description(self, description: &str) -> (r: FqdnHostUpdate)
        ensures
            r@ == (FqdnHostUpdateView { description: Some(trim(description@)), ..self@ }),
    {
        let mut r = self;
        r.description = Some(trim_str_owned(description));
        r
    }

    /// The change that also sets the groups to `groups`, trimmed and without repeats.
    pub fn with_groups(self, groups: Vec<&str>) -> (r: Result<FqdnHostUpdate>)
        ensures
            match named_list_of("FQDN host group"@, str_views(groups@), false) {
                Ok(g) => r matches Ok(u) && u@ == (FqdnHostUpdateView { groups: Some(g), ..self@ }),
                Err(e) => r matches Err(x) && x@ == e,
            },
    {
        match normalize_named_list("FQDN host group", &groups, false) {
            Ok(g) => {
                let mut r = self;
                r.groups = Some(g);
                Ok(r)
            },
            Err(e) => Err(e),
        }
    }
}

/// The payload of an FQDN host: name, description (empty when none), domain name and
/// groups.
pub open spec fn fqdn_host_json(name: Seq<char>, fqdn: Seq<char>, groups: Seq<Seq<char>>, description: Option<Seq<char>>) -> Json {
    Json::Object(
        jinsert(
            jinsert(
                jinsert(jinsert(Seq::empty(), "Name"@, jstr(name)), "Description"@, jstr(text_or(description, Seq::empty()))),
                "FQDN"@,
                jstr(fqdn),
            ),
            "FQDNHostGroupList"@,
            Json::Object(jinsert(Seq::empty(), "FQDNHostGroup"@, str_array(groups))),
        ),
    )
}

/// The payload of an FQDN host (see [`fqdn_host_json`]).
pub fn fqdn_host_payload(name: &str, fqdn: &str, groups: &Vec<String>, description: Option<&str>) -> (v: Value)
    ensures
        v@ == fqdn_host_json(name@, fqdn@, seq_views(groups@), crate::xml::opt_str_view(description)),
{
    proof {
        reveal_strlit("");
        assert(""@ =~= Seq::<char>::empty());
    }
    let d = match description {
        Some(d) => d.to_owned(),
        None => "".to_owned(),
    };
    let mut inner = FieldMap::new();
    inner.insert("FQDNHostGroup".to_owned(), strings_value(groups));
    let mut m = FieldMap::new();
    m.insert("Name".to_owned(), Value::String(name.to_owned()));
    m.insert("Description".to_owned(), Value::String(d));
    m.insert("FQDN".to_owned(), Value::String(fqdn.to_owned()));
    m.insert("FQDNHostGroupList".to_owned(), Value::Object(inner));
    Value::Object(m)
}

/// The resource name of FQDN hosts.
pub open spec fn fqdn_host_resource() -> Seq<char> {
    "FQDNHost"@
}

/// What updating the FQDN host `u.name` gives when the lookup is answered `first` and the
/// update `second`: the lookup's error, a missing host (then nothing is sent), or the
/// reply to the update that writes each field given in `u`, else the existing one.
pub open spec fn fqdn_host_update_outcome(
    conn: Link,
    u: FqdnHostUpdateView,
    first: Reply,
    second: Reply,
) -> core::result::Result<ResourceView, ErrorView> {
    match get_outcome::<FqdnHost>(
        exchange(conn, named_request(Action::Read, fqdn_host_resource(), "Name"@, u.name, None, empty_object()), first),
        fqdn_host_resource(),
        u.name,
        fqdn_host_reader(),
    ) {
        Err(e) => Err(e),
        Ok(None) => Err(missing_error("FQDN host"@, u.name)),
        Ok(Some(existing)) => write_outcome(
            exchange(
                conn,
                named_request(
                    Action::Update,
                    fqdn_host_resource(),
                    "Name"@,
                    u.name,
                    None,
                    fqdn_host_json(
                        u.name,
                        text_or(u.fqdn, existing.fqdn),
                        match u.groups {
                            Some(g) => g,
                            None => existing.groups,
                        },
                        match u.description {
                            Some(d) => Some(d),
                            None => existing.description,
                        },
                    ),
                ),
                second,
            ),
            fqdn_host_resource(),
        ),
    }
}

impl<'a, T: SophosTransport> NetworkApi<'a, T> {
    /// Every FQDN host; zero records is an empty list.
    pub fn list_fqdn_hosts(&self) -> (r: Result<Vec<FqdnHost>>)
        ensures
            exists|reply: Reply|
                list_view(r) == list_outcome(
                    exchange(self.conn(), read_request(fqdn_host_resource()), reply),
                    fqdn_host_resource(),
                    fqdn_host_reader(),
                ),
    {
        let r = list_items(self.client, "FQDNHost", fqdn_host_from_node, Ghost(fqdn_host_reader()));
        let ghost reply = choose|reply: Reply|
            list_view(r) == list_outcome(exchange(self.client.conn(), read_request("FQDNHost"@), reply), "FQDNHost"@, fqdn_host_reader());
        assert(list_view(r) == list_outcome(exchange(self.conn(), read_request(fqdn_host_resource()), reply), fqdn_host_resource(), fqdn_host_reader()));
        r
    }

    /// The FQDN host named `name` (trimmed); zero records is none.
    pub fn get_fqdn_host(&self, name: &str) -> (r: Result<Option<FqdnHost>>)
        ensures
            match name_of("FQDN host name"@, name@) {
                Err(e) => r matches Err(x) && x@ == e,
                Ok(n) => exists|reply: Reply|
                    opt_result_view(r) == get_outcome::<FqdnHost>(
                        exchange(self.conn(), named_request(Action::Read, fqdn_host_resource(), "Name"@, n, None, empty_object()), reply),
                        fqdn_host_resource(),
                        n,
                        fqdn_host_reader(),
                    ),
            },
    {
        let n = match normalize_name("FQDN host name", name) {
            Ok(n) => n,
            Err(e) => return Err(e),
        };
        self.get_fqdn_host_named(n.as_str())
    }

    /// The FQDN host named exactly `name`.
    fn get_fqdn_host_named(&self, name: &str) -> (r: Result<Option<FqdnHost>>)
        ensures
            exists|reply: Reply|
                opt_result_view(r) == get_outcome::<FqdnHost>(
                    exchange(self.conn(), named_request(Action::Read, fqdn_host_resource(), "Name"@, name@, None, empty_object()), reply),
                    fqdn_host_resource(),
                    name@,
                    fqdn_host_reader(),
                ),
    {
        let r = get_item(self.client, "FQDNHost", "Name", name, fqdn_host_from_node, Ghost(fqdn_host_reader()));
        let ghost reply = choose|reply: Reply|
            opt_result_view(r) == get_outcome::<FqdnHost>(
                exchange(self.client.conn(), named_request(Action::Read, "FQDNHost"@, "Name"@, name@, None, Json::Object(Seq::empty())), reply),
                "FQDNHost"@,
                name@,
                fqdn_host_reader(),
            );
        assert(opt_result_view(r) == get_outcome::<FqdnHost>(
            exchange(self.conn(), named_request(Action::Read, fqdn_host_resource(), "Name"@, name@, None, empty_object()), reply),
            fqdn_host_resource(),
            name@,
            fqdn_host_reader(),
        ));
        r
    }

    /// Creates `host`.
    pub fn create_fqdn_host(&self, host: FqdnHostCreate) -> (r: Result<ResourceResponse>)
        ensures
            exists|reply: Reply|
                write_view(r) == write_outcome(
                    exchange(
                        self.conn(),
                        named_request(
                            Action::Create,
                            fqdn_host_resource(),
                            "Name"@,
                            host@.name,
                            None,
                            fqdn_host_json(host@.name, host@.fqdn, host@.groups, host@.description),
                        ),
                        reply,
                    ),
                    fqdn_host_resource(),
                ),
    {
        let d = match &host.description {
            Some(d) => Some(d.as_str()),
            None => None,
        };
        let payload = fqdn_host_payload(host.name.as_str(), host.fqdn.as_str(), &host.groups, d);
        let ghost pv = payload@;
        let r = write_item(self.client, Action::Create, "FQDNHost", "Name", host.name.as_str(), None, payload);
        let ghost reply = choose|reply: Reply|
            write_view(r) == write_outcome(
                exchange(self.client.conn(), named_request(Action::Create, "FQDNHost"@, "Name"@, host.name@, crate::xml::opt_str_view(None), pv), reply),
                "FQDNHost"@,
            );
        assert(write_view(r) == write_outcome(
            exchange(
                self.conn(),
                named_request(Action::Create, fqdn_host_resource(), "Name"@, host@.name, None, fqdn_host_json(host@.name, host@.fqdn, host@.groups, host@.description)),
                reply,
            ),
            fqdn_host_resource(),
        ));
        r
    }

    /// Applies `update` to the existing host (see [`fqdn_host_update_outcome`]).
    pub fn update_fqdn_host(&self, update: FqdnHostUpdate) -> (r: Result<ResourceResponse>)
        ensures
            exists|first: Reply, second: Reply|
                write_view(r) == #[trigger] fqdn_host_update_outcome(self.conn(), update@, first, second),
    {
        let ghost uv = update@;
        let existing = self.get_fqdn_host_named(update.name.as_str());
        let ghost first = choose|reply: Reply|
            opt_result_view(existing) == get_outcome::<FqdnHost>(
                exchange(self.conn(), named_request(Action::Read, fqdn_host_resource(), "Name"@, uv.name, None, empty_object()), reply),
                fqdn_host_resource(),
                uv.name,
                fqdn_host_reader(),
            );
        match existing {
            Err(e) => {
                assert(write_view(Err(e)) == fqdn_host_update_outcome(self.conn(), uv, first, first));
                Err(e)
            },
            Ok(None) => {
                let e = missing_error_exec("FQDN host", update.name.as_str());
                assert(write_view(Err(e)) == fqdn_host_update_outcome(self.conn(), uv, first, first));
                Err(e)
            },
            Ok(Some(ex)) => {
                let fqdn = match update.fqdn {
                    Some(f) => f,
                    None => ex.fqdn,
                };
                let groups = match update.groups {
                    Some(g) => g,
                    None => ex.groups,
                };
                let d = match update.description {
                    Some(d) => Some(d),
                    None => ex.description,
                };
                let ds = match &d {
                    Some(x) => Some(x.as_str()),
                    None => None,
                };
                let payload = fqdn_host_payload(update.name.as_str(), fqdn.as_str(), &groups, ds);
                let ghost pv = payload@;
                let r = write_item(self.client, Action::Update, "FQDNHost", "Name", update.name.as_str(), None, payload);
                let ghost second = choose|reply: Reply|
                    write_view(r) == write_outcome(
                        exchange(self.client.conn(), named_request(Action::Update, "FQDNHost"@, "Name"@, uv.name, crate::xml::opt_str_view(None), pv), reply),
                        "FQDNHost"@,
                    );
                assert(write_view(r) == fqdn_host_update_outcome(self.conn(), uv, first, second));
                r
            },
        }
    }

    /// Deletes the FQDN host `name` (trimmed) after checking that it exists.
    pub fn delete_fqdn_host(&self, name: &str) -> (r: Result<ResourceResponse>)
        ensures
            match name_of("FQDN host name"@, name@) {
                Err(e) => r matches Err(x) && x@ == e,
                Ok(n) => exists|first: Reply, second: Reply|
                    write_view(r) == #[trigger] crate::api::delete_outcome::<FqdnHost>(
                        self.conn(),
                        fqdn_host_resource(),
                        "Name"@,
                        "FQDN host"@,
                        n,
                        fqdn_host_reader(),
                        first,
                        second,
                    ),
            },
    {
        let n = match normalize_name("FQDN host name", name) {
            Ok(n) => n,
            Err(e) => return Err(e),
        };
        let r = crate::api::delete_item(self.client, "FQDNHost", "Name", "FQDN host", n.as_str(), fqdn_host_from_node, Ghost(fqdn_host_reader()));
        let ghost (first, second) = choose|first: Reply, second: Reply|
            write_view(r) == #[trigger] crate::api::delete_outcome::<FqdnHost>(self.client.conn(), "FQDNHost"@, "Name"@, "FQDN host"@, n@, fqdn_host_reader(), first, second);
        assert(write_view(r) == crate::api::delete_outcome::<FqdnHost>(self.conn(), fqdn_host_resource(), "Name"@, "FQDN host"@, n@, fqdn_host_reader(), first, second));
        r
    }
}

} // verus!
