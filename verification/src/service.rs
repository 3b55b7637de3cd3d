//! Services, service groups and URL groups.

use vstd::prelude::*;
use crate::api::{
    delete_item, delete_outcome, empty_object, get_item, get_outcome, list_items, list_outcome,
    list_view, missing_error, missing_error_exec, named_request, opt_result_view, read_request,
    write_item, write_outcome, write_view, Named,
};
use crate::client::{Link, exchange, Reply, SophosClient};
use crate::common::{
    add_unique, add_unique_values, contains_value, items_from_response, items_in_resources,
    name_of, named_list_of, normalize_name, normalize_named_list, push_unique, read_view,
    remove_requested, remove_requested_values, seq_views, str_views, SameValue,
};
use crate::request::{Action, SophosConnection};
use crate::response::{ResourceResponse, ResourceView};
use crate::transport::SophosTransport;
use crate::tree::{child_text_of, find_child, NodeView, XmlNode};
use crate::error::{Error, ErrorView, Result};
use crate::json::{jinsert, FieldMap, Json, Value};
use crate::text::{chars_of, opt_view, push_str, string_of, trim, trim_chars};

verus! {

/// The source port range used when none is given.
pub open spec fn default_source_port() -> Seq<char> {
    "1:65535"@
}

/// The kind of a service, which decides what its entries hold.
#[derive(Debug, Clone, Copy, PartialEq, Eq, Structural)]
pub enum ServiceType {
    TcpOrUdp,
    Ip,
    Icmp,
    IcmpV6,
}

/// The API's name for a service type.
pub open spec fn type_text(t: ServiceType) -> Seq<char> {
    match t {
        ServiceType::TcpOrUdp => "TCPorUDP"@,
        ServiceType::Ip => "IP"@,
        ServiceType::Icmp => "ICMP"@,
        ServiceType::IcmpV6 => "ICMPv6"@,
    }
}

/// The service type the API calls `s`, if any.
pub open spec fn type_from_text(s: Seq<char>) -> Option<ServiceType> {
    if s == "TCPorUDP"@ {
        Some(ServiceType::TcpOrUdp)
    } else if s == "IP"@ {
        Some(ServiceType::Ip)
    } else if s == "ICMP"@ {
        Some(ServiceType::Icmp)
    } else if s == "ICMPv6"@ {
        Some(ServiceType::IcmpV6)
    } else {
        None
    }
}

impl ServiceType {
    /// The API's name for the type.
    pub fn as_xml(self) -> (s: &'static str)
        ensures
            s@ == type_text(self),
    {
        match self {
            ServiceType::TcpOrUdp => "TCPorUDP",
            ServiceType::Ip => "IP",
            ServiceType::Icmp => "ICMP",
            ServiceType::IcmpV6 => "ICMPv6",
        }
    }

    /// The type the API calls `value`.
    pub fn from_xml(value: &str) -> (t: Option<ServiceType>)
        ensures
            t == type_from_text(value@),
    {
        if crate::text::str_eq(value, "TCPorUDP") {
            Some(ServiceType::TcpOrUdp)
        } else if crate::text::str_eq(value, "IP") {
            Some(ServiceType::Ip)
        } else if crate::text::str_eq(value, "ICMP") {
            Some(ServiceType::Icmp)
        } else if crate::text::str_eq(value, "ICMPv6") {
            Some(ServiceType::IcmpV6)
        } else {
            None
        }
    }
}

/// One protocol/port or ICMP type/code line of a service.
#[derive(Debug, Clone, PartialEq, Eq)]
pub struct ServiceEntry {
    protocol: Option<String>,
    src_port: Option<String>,
    dst_port: Option<String>,
    icmp_type: Option<String>,
    icmp_code: Option<String>,
}

/// A [`ServiceEntry`] with its texts as character sequences.
pub struct EntryView {
    pub protocol: Option<Seq<char>>,
    pub src_port: Option<Seq<char>>,
    pub dst_port: Option<Seq<char>>,
    pub icmp_type: Option<Seq<char>>,
    pub icmp_code: Option<Seq<char>>,
}

impl View for ServiceEntry {
    type V = EntryView;

    closed spec fn view(&self) -> EntryView {
        EntryView {
            protocol: opt_view(self.protocol),
            src_port: opt_view(self.src_port),
            dst_port: opt_view(self.dst_port),
            icmp_type: opt_view(self.icmp_type),
            icmp_code: opt_view(self.icmp_code),
        }
    }
}

/// An entry with no field set.
pub open spec fn blank_entry() -> EntryView {
    EntryView { protocol: None, src_port: None, dst_port: None, icmp_type: None, icmp_code: None }
}

/// Whether two optional strings hold the same text.
fn same_opt(a: &Option<String>, b: &Option<String>) -> (r: bool)
    ensures
        r == (opt_view(*a) == opt_view(*b)),
{
    match (a, b) {
        (Some(x), Some(y)) => crate::text::str_eq(x.as_str(), y.as_str()),
        (None, None) => true,
        _ => false,
    }
}

/// An optional string slice of an optional string.
fn opt_str(o: &Option<String>) -> (r: Option<&str>)
    ensures
        crate::xml::opt_str_view(r) == opt_view(*o),
{
    match o {
        Some(s) => Some(s.as_str()),
        None => None,
    }
}

impl SameValue for ServiceEntry {
    fn same_as(&self, other: &Self) -> (b: bool) {
        same_opt(&self.protocol, &other.protocol) && same_opt(&self.src_port, &other.src_port)
            && same_opt(&self.dst_port, &other.dst_port) && same_opt(&self.icmp_type, &other.icmp_type)
            && same_opt(&self.icmp_code, &other.icmp_code)
    }
}

impl ServiceEntry {
    /// An entry with no field set.
    pub fn new() -> (e: ServiceEntry)
        ensures
            e@ == blank_entry(),
    {
        ServiceEntry { protocol: None, src_port: None, dst_port: None, icmp_type: None, icmp_code: None }
    }

    /// A TCP or UDP entry from the default source ports to `dst_port`.
    pub fn tcp_udp(protocol: &str, dst_port: &str) -> (e: ServiceEntry)
        ensures
            e@ == (EntryView {
                protocol: Some(protocol@),
                src_port: Some(default_source_port()),
                dst_port: Some(dst_port@),
                ..blank_entry()
            }),
    {
        ServiceEntry::new().with_protocol(protocol).with_source_port("1:65535").with_destination_port(dst_port)
    }

    /// A TCP or UDP entry from `src_port` to `dst_port`.
    pub fn tcp_udp_with_source(protocol: &str, src_port: &str, dst_port: &str) -> (e: ServiceEntry)
        ensures
            e@ == (EntryView {
                protocol: Some(protocol@),
                src_port: Some(src_port@),
                dst_port: Some(dst_port@),
                ..blank_entry()
            }),
    {
        ServiceEntry::new().with_protocol(protocol).with_source_port(src_port).with_destination_port(dst_port)
    }

    /// An IP entry for `protocol`.
    pub fn ip(protocol: &str) -> (e: ServiceEntry)
        ensures
            e@ == (EntryView { protocol: Some(protocol@), ..blank_entry() }),
    {
        ServiceEntry::new().with_protocol(protocol)
    }

    /// An ICMP entry for `icmp_type` and `icmp_code`.
    pub fn icmp(icmp_type: &str, icmp_code: &str) -> (e: ServiceEntry)
        ensures
            e@ == (EntryView { icmp_type: Some(icmp_type@), icmp_code: Some(icmp_code@), ..blank_entry() }),
    {
        ServiceEntry::new().with_icmp_type(icmp_type).with_icmp_code(icmp_code)
    }

    /// An ICMPv6 entry for `icmp_type` and `icmp_code`.
    pub fn icmp_v6(icmp_type: &str, icmp_code: &str) -> (e: ServiceEntry)
        ensures
            e@ == (EntryView { icmp_type: Some(icmp_type@), icmp_code: Some(icmp_code@), ..blank_entry() }),
    {
        ServiceEntry::icmp(icmp_type, icmp_code)
    }

    /// The entry with protocol `protocol`.
    pub fn with_protocol(self, protocol: &str) -> (e: ServiceEntry)
        ensures
            e@ == (EntryView { protocol: Some(protocol@), ..self@ }),
    {
        let mut e = self;
        e.protocol = Some(protocol.to_owned());
        e
    }

    /// The entry with source ports `src_port`.
    pub fn with_source_port(self, src_port: &str) -> (e: ServiceEntry)
        ensures
            e@ == (EntryView { src_port: Some(src_port@), ..self@ }),
    {
        let mut e = self;
        e.src_port = Some(src_port.to_owned());
        e
    }

    /// The entry with destination ports `dst_port`.
    pub fn with_destination_port(self, dst_port: &str) -> (e: ServiceEntry)
        ensures
            e@ == (EntryView { dst_port: Some(dst_port@), ..self@ }),
    {
        let mut e = self;
        e.dst_port = Some(dst_port.to_owned());
        e
    }

    /// The entry with ICMP type `icmp_type`.
    pub fn with_icmp_type(self, icmp_type: &str) -> (e: ServiceEntry)
        ensures
            e@ == (EntryView { icmp_type: Some(icmp_type@), ..self@ }),
    {
        let mut e = self;
        e.icmp_type = Some(icmp_type.to_owned());
        e
    }

    /// The entry with ICMP code `icmp_code`.
    pub fn with_icmp_code(self, icmp_code: &str) -> (e: ServiceEntry)
        ensures
            e@ == (EntryView { icmp_code: Some(icmp_code@), ..self@ }),
    {
        let mut e = self;
        e.icmp_code = Some(icmp_code.to_owned());
        e
    }

    /// The protocol.
    pub fn protocol(&self) -> (r: Option<&str>)
        ensures
            crate::xml::opt_str_view(r) == self@.protocol,
    {
        opt_str(&self.protocol)
    }

    /// The source ports.
    pub fn src_port(&self) -> (r: Option<&str>)
        ensures
            crate::xml::opt_str_view(r) == self@.src_port,
    {
        opt_str(&self.src_port)
    }

    /// The destination ports.
    pub fn dst_port(&self) -> (r: Option<&str>)
        ensures
            crate::xml::opt_str_view(r) == self@.dst_port,
    {
        opt_str(&self.dst_port)
    }

    /// The ICMP type.
    pub fn icmp_type(&self) -> (r: Option<&str>)
        ensures
            crate::xml::opt_str_view(r) == self@.icmp_type,
    {
        opt_str(&self.icmp_type)
    }

    /// The ICMP code.
    pub fn icmp_code(&self) -> (r: Option<&str>)
        ensures
            crate::xml::opt_str_view(r) == self@.icmp_code,
    {
        opt_str(&self.icmp_code)
    }
}

/// `v` trimmed when it holds more than white space, else the error `message`.
pub open spec fn required_field(message: Seq<char>, v: Option<Seq<char>>) -> core::result::Result<Seq<char>, ErrorView> {
    match v {
        Some(x) => if trim(x).len() > 0 {
            Ok(trim(x))
        } else {
            Err(ErrorView::InvalidRequest(message))
        },
        None => Err(ErrorView::InvalidRequest(message)),
    }
}

/// The message for a TCP/UDP entry that lacks a field.
pub open spec fn tcp_udp_message() -> Seq<char> {
    "TCPorUDP entries require protocol and dst_port"@
}

/// The message for an IP entry without protocol.
pub open spec fn ip_message() -> Seq<char> {
    "IP entries require protocol"@
}

/// The message for an ICMP or ICMPv6 entry that lacks a field.
pub open spec fn icmp_message(t: ServiceType) -> Seq<char> {
    type_text(t) + " entries require icmp_type and icmp_code"@
}

/// `entry` in the form a service of type `t` holds: the fields the type uses, trimmed,
/// the others cleared, a blank source port replaced by the default; or the error for a
/// missing field.
pub open spec fn normalized_entry(t: ServiceType, e: EntryView) -> core::result::Result<EntryView, ErrorView> {
    match t {
        ServiceType::TcpOrUdp => match required_field(tcp_udp_message(), e.protocol) {
            Err(x) => Err(x),
            Ok(p) => match required_field(tcp_udp_message(), e.dst_port) {
                Err(x) => Err(x),
                Ok(d) => Ok(
                    EntryView {
                        protocol: Some(p),
                        src_port: Some(
                            match e.src_port {
                                Some(s) => if trim(s).len() > 0 {
                                    trim(s)
                                } else {
                                    default_source_port()
                                },
                                None => default_source_port(),
                            },
                        ),
                        dst_port: Some(d),
                        ..blank_entry()
                    },
                ),
            },
        },
        ServiceType::Ip => match required_field(ip_message(), e.protocol) {
            Err(x) => Err(x),
            Ok(p) => Ok(EntryView { protocol: Some(p), ..blank_entry() }),
        },
        ServiceType::Icmp | ServiceType::IcmpV6 => match required_field(icmp_message(t), e.icmp_type) {
            Err(x) => Err(x),
            Ok(it) => match required_field(icmp_message(t), e.icmp_code) {
                Err(x) => Err(x),
                Ok(ic) => Ok(EntryView { icmp_type: Some(it), icmp_code: Some(ic), ..blank_entry() }),
            },
        },
    }
}

/// `v` trimmed when it holds more than white space (see [`required_field`]).
fn required_entry_field(message: &str, v: &Option<String>) -> (r: Result<String>)
    ensures
        match required_field(message@, opt_view(*v)) {
            Ok(x) => r matches Ok(s) && s@ == x,
            Err(e) => r matches Err(y) && y@ == e,
        },
{
    match v {
        Some(x) => {
            let c = chars_of(x.as_str());
            let t = trim_chars(c.as_slice());
            if t.len() > 0 {
                Ok(string_of(t.as_slice()))
            } else {
                Err(Error::InvalidRequest(message.to_owned()))
            }
        },
        None => Err(Error::InvalidRequest(message.to_owned())),
    }
}

/// `entry` in the form a service of type `service_type` holds (see [`normalized_entry`]).
pub fn normalize_service_entry(service_type: ServiceType, entry: ServiceEntry) -> (r: Result<ServiceEntry>)
    ensures
        match normalized_entry(service_type, entry@) {
            Ok(x) => r matches Ok(y) && y@ == x,
            Err(e) => r matches Err(y) && y@ == e,
        },
{
    match service_type {
        ServiceType::TcpOrUdp => {
            let message = "TCPorUDP entries require protocol and dst_port";
            let protocol = match required_entry_field(message, &entry.protocol) {
                Ok(p) => p,
                Err(e) => return Err(e),
            };
            let dst_port = match required_entry_field(message, &entry.dst_port) {
                Ok(d) => d,
                Err(e) => return Err(e),
            };
            let src_port = match &entry.src_port {
                Some(s) => {
                    let c = chars_of(s.as_str());
                    let t = trim_chars(c.as_slice());
                    if t.len() > 0 {
                        string_of(t.as_slice())
                    } else {
                        "1:65535".to_owned()
                    }
                },
                None => "1:65535".to_owned(),
            };
            Ok(ServiceEntry {
                protocol: Some(protocol),
                src_port: Some(src_port),
                dst_port: Some(dst_port),
                icmp_type: None,
                icmp_code: None,
            })
        },
        ServiceType::Ip => {
            let protocol = match required_entry_field("IP entries require protocol", &entry.protocol) {
                Ok(p) => p,
                Err(e) => return Err(e),
            };
            Ok(ServiceEntry { protocol: Some(protocol), src_port: None, dst_port: None, icmp_type: None, icmp_code: None })
        },
        ServiceType::Icmp | ServiceType::IcmpV6 => {
            let mut m: Vec<char> = Vec::new();
            push_str(&mut m, service_type.as_xml());
            push_str(&mut m, " entries require icmp_type and icmp_code");
            let message = string_of(m.as_slice());
            let icmp_type = match required_entry_field(message.as_str(), &entry.icmp_type) {
                Ok(x) => x,
                Err(e) => return Err(e),
            };
            let icmp_code = match required_entry_field(message.as_str(), &entry.icmp_code) {
                Ok(x) => x,
                Err(e) => return Err(e),
            };
            Ok(ServiceEntry { protocol: None, src_port: None, dst_port: None, icmp_type: Some(icmp_type), icmp_code: Some(icmp_code) })
        },
    }
}

/// The entries normalized in order, each kept once; the first invalid entry is an error.
pub open spec fn unique_entries(t: ServiceType, es: Seq<EntryView>) -> core::result::Result<Seq<EntryView>, ErrorView>
    decreases es.len(),
{
    if es.len() == 0 {
        Ok(Seq::empty())
    } else {
        match unique_entries(t, es.drop_last()) {
            Err(e) => Err(e),
            Ok(acc) => match normalized_entry(t, es.last()) {
                Err(e) => Err(e),
                Ok(n) => Ok(push_unique(acc, n)),
            },
        }
    }
}

/// The entries normalized and without repeats; no entry at all is an error when entries
/// are required.
pub open spec fn normalized_entries(t: ServiceType, es: Seq<EntryView>, require_non_empty: bool) -> core::result::Result<
    Seq<EntryView>,
    ErrorView,
> {
    match unique_entries(t, es) {
        Err(e) => Err(e),
        Ok(u) => if require_non_empty && u.len() == 0 {
            Err(ErrorView::InvalidRequest("service entries must not be empty"@))
        } else {
            Ok(u)
        },
    }
}

/// Once a prefix of `es` has an invalid entry, so has `es`, with the same error.
proof fn lemma_unique_entries_error(t: ServiceType, es: Seq<EntryView>, k: int)
    requires
        0 <= k <= es.len(),
        unique_entries(t, es.take(k)) is Err,
    ensures
        unique_entries(t, es) == unique_entries(t, es.take(k)),
    decreases es.len(),
{
    if k == es.len() {
        assert(es.take(k) =~= es);
    } else {
        assert(es.drop_last().take(k) =~= es.take(k));
        lemma_unique_entries_error(t, es.drop_last(), k);
    }
}

/// The entries normalized and without repeats (see [`normalized_entries`]).
pub fn normalize_service_entries(service_type: ServiceType, entries: Vec<ServiceEntry>, require_non_empty: bool) -> (r: Result<Vec<ServiceEntry>>)
    ensures
        match normalized_entries(service_type, seq_views(entries@), require_non_empty) {
            Ok(x) => r matches Ok(v) && seq_views(v@) == x,
            Err(e) => r matches Err(y) && y@ == e,
        },
{
    let ghost es = seq_views(entries@);
    let n = entries.len();
    let mut out: Vec<ServiceEntry> = Vec::new();
    let mut rest = entries;
    let mut i: usize = 0;
    assert(es.take(0) =~= Seq::<EntryView>::empty());
    assert(seq_views(out@) =~= Seq::<EntryView>::empty());
    assert(seq_views(rest@) =~= es.skip(0));
    while rest.len() > 0
        invariant
            i + rest@.len() == n,
            es.len() == n,
            es == seq_views(entries@),
            seq_views(rest@) == es.skip(i as int),
            unique_entries(service_type, es.take(i as int)) == Ok::<Seq<EntryView>, ErrorView>(seq_views(out@)),
        decreases rest@.len(),
    {
        let ghost old_rest = rest@;
        let x = rest.remove(0);
        assert(seq_views(rest@) =~= seq_views(old_rest).drop_first());
        assert(x@ == es[i as int]) by {
            assert(es.skip(i as int)[0] == es[i as int]);
        }
        assert(es.take(i + 1).drop_last() =~= es.take(i as int));
        assert(es.take(i + 1).last() == es[i as int]);
        let e = match normalize_service_entry(service_type, x) {
            Ok(e) => e,
            Err(err) => {
                proof { lemma_unique_entries_error(service_type, es, i + 1); }
                return Err(err);
            },
        };
        let ghost before = out@;
        if !contains_value(&out, &e) {
            let ghost ev = e@;
            out.push(e);
            assert(seq_views(out@) =~= seq_views(before).push(ev));
        }
        assert(seq_views(rest@) =~= es.skip(i + 1));
        i = i + 1;
    }
    assert(es.take(i as int) =~= es);
    if require_non_empty && out.len() == 0 {
        return Err(Error::InvalidRequest("service entries must not be empty".to_owned()));
    }
    Ok(out)
}

/// `o`'s text, or `d` when there is none.
pub open spec fn text_or(o: Option<Seq<char>>, d: Seq<char>) -> Seq<char> {
    match o {
        Some(x) => x,
        None => d,
    }
}

/// A JSON string.
pub open spec fn jstr(s: Seq<char>) -> Json {
    Json::Str(s)
}

/// The payload of one entry of a service of type `t`: the fields that type uses, under
/// the API's tags for that type.
pub open spec fn entry_json(t: ServiceType, e: EntryView) -> Json {
    match t {
        ServiceType::TcpOrUdp => Json::Object(
            jinsert(
                jinsert(
                    jinsert(Seq::empty(), "SourcePort"@, jstr(text_or(e.src_port, default_source_port()))),
                    "DestinationPort"@,
                    jstr(text_or(e.dst_port, Seq::empty())),
                ),
                "Protocol"@,
                jstr(text_or(e.protocol, Seq::empty())),
            ),
        ),
        ServiceType::Ip => Json::Object(jinsert(Seq::empty(), "ProtocolName"@, jstr(text_or(e.protocol, Seq::empty())))),
        ServiceType::Icmp => Json::Object(
            jinsert(
                jinsert(Seq::empty(), "ICMPType"@, jstr(text_or(e.icmp_type, Seq::empty()))),
                "ICMPCode"@,
                jstr(text_or(e.icmp_code, Seq::empty())),
            ),
        ),
        ServiceType::IcmpV6 => Json::Object(
            jinsert(
                jinsert(Seq::empty(), "ICMPv6Type"@, jstr(text_or(e.icmp_type, Seq::empty()))),
                "ICMPv6Code"@,
                jstr(text_or(e.icmp_code, Seq::empty())),
            ),
        ),
    }
}

/// The payload of a service: its name, type and entries.
pub open spec fn service_json(name: Seq<char>, t: ServiceType, es: Seq<EntryView>) -> Json {
    Json::Object(
        jinsert(
            jinsert(jinsert(Seq::empty(), "Name"@, jstr(name)), "Type"@, jstr(type_text(t))),
            "ServiceDetails"@,
            Json::Object(
                jinsert(Seq::empty(), "ServiceDetail"@, Json::Array(es.map_values(|e: EntryView| entry_json(t, e)))),
            ),
        ),
    )
}

/// `o`'s text, or `d`.
fn text_or_exec(o: &Option<String>, d: &str) -> (r: String)
    ensures
        r@ == text_or(opt_view(*o), d@),
{
    match o {
        Some(x) => x.clone(),
        None => d.to_owned(),
    }
}

/// A string value.
fn jstr_exec(s: String) -> (v: Value)
    ensures
        v@ == jstr(s@),
{
    Value::String(s)
}

/// The payload of one entry (see [`entry_json`]).
pub fn service_entry_payload(service_type: ServiceType, entry: &ServiceEntry) -> (v: Value)
    ensures
        v@ == entry_json(service_type, entry@),
{
    let mut m = FieldMap::new();
    match service_type {
        ServiceType::TcpOrUdp => {
            m.insert("SourcePort".to_owned(), jstr_exec(text_or_exec(&entry.src_port, "1:65535")));
            m.insert("DestinationPort".to_owned(), jstr_exec(text_or_exec(&entry.dst_port, "")));
            m.insert("Protocol".to_owned(), jstr_exec(text_or_exec(&entry.protocol, "")));
        },
        ServiceType::Ip => {
            m.insert("ProtocolName".to_owned(), jstr_exec(text_or_exec(&entry.protocol, "")));
        },
        ServiceType::Icmp => {
            m.insert("ICMPType".to_owned(), jstr_exec(text_or_exec(&entry.icmp_type, "")));
            m.insert("ICMPCode".to_owned(), jstr_exec(text_or_exec(&entry.icmp_code, "")));
        },
        ServiceType::IcmpV6 => {
            m.insert("ICMPv6Type".to_owned(), jstr_exec(text_or_exec(&entry.icmp_type, "")));
            m.insert("ICMPv6Code".to_owned(), jstr_exec(text_or_exec(&entry.icmp_code, "")));
        },
    }
    proof {
        reveal_strlit("");
        assert(""@ =~= Seq::<char>::empty());
    }
    Value::Object(m)
}

/// The payload of a service (see [`service_json`]).
pub fn service_payload(name: &str, service_type: ServiceType, entries: &Vec<ServiceEntry>) -> (v: Value)
    ensures
        v@ == service_json(name@, service_type, seq_views(entries@)),
{
    let ghost es = seq_views(entries@);
    let mut details: Vec<Value> = Vec::new();
    let mut i: usize = 0;
    while i < entries.len()
        invariant
            i <= entries@.len(),
            es == seq_views(entries@),
            details@.len() == i,
            forall|j: int| 0 <= j < i ==> (#[trigger] details@[j])@ == entry_json(service_type, es[j]),
        decreases entries@.len() - i,
    {
        details.push(service_entry_payload(service_type, &entries[i]));
        i = i + 1;
    }
    let arr = Value::Array(details);
    assert(arr@ == Json::Array(es.map_values(|e: EntryView| entry_json(service_type, e)))) by {
        assert(arr@->Array_0 =~= es.map_values(|e: EntryView| entry_json(service_type, e)));
    }
    let mut inner = FieldMap::new();
    inner.insert("ServiceDetail".to_owned(), arr);
    let mut m = FieldMap::new();
    m.insert("Name".to_owned(), jstr_exec(name.to_owned()));
    m.insert("Type".to_owned(), jstr_exec(service_type.as_xml().to_owned()));
    m.insert("ServiceDetails".to_owned(), Value::Object(inner));
    Value::Object(m)
}

/// A service as the firewall reports it.
#[derive(Debug, Clone, PartialEq, Eq)]
pub struct Service {
    name: String,
    service_type: ServiceType,
    entries: Vec<ServiceEntry>,
}

/// A service's name, type and entries.
pub struct ServiceView {
    pub name: Seq<char>,
    pub service_type: ServiceType,
    pub entries: Seq<EntryView>,
}

impl View for Service {
    type V = ServiceView;

    closed spec fn view(&self) -> ServiceView {
        ServiceView { name: self.name@, service_type: self.service_type, entries: seq_views(self.entries@) }
    }
}

impl Named for Service {
    open spec fn key_of(v: ServiceView) -> Seq<char> {
        v.name
    }

    fn key(&self) -> (k: &str) {
        self.name.as_str()
    }
}

impl Service {
    /// The name.
    pub fn name(&self) -> (r: &str)
        ensures
            r@ == self@.name,
    {
        self.name.as_str()
    }

    /// The type.
    pub fn service_type(&self) -> (t: ServiceType)
        ensures
            t == self@.service_type,
    {
        self.service_type
    }

    /// The entries.
    pub fn entries(&self) -> (r: &[ServiceEntry])
        ensures
            seq_views(r@) == self@.entries,
    {
        self.entries.as_slice()
    }
}

/// The entry an element `ServiceDetail` of a service of type `t` describes; missing
/// fields read as empty, a missing source port as the default.
pub open spec fn entry_of_node(t: ServiceType, n: NodeView) -> EntryView {
    match t {
        ServiceType::TcpOrUdp => EntryView {
            protocol: Some(text_or(child_text_of(n, "Protocol"@), Seq::empty())),
            src_port: Some(text_or(child_text_of(n, "SourcePort"@), default_source_port())),
            dst_port: Some(text_or(child_text_of(n, "DestinationPort"@), Seq::empty())),
            ..blank_entry()
        },
        ServiceType::Ip => EntryView {
            protocol: Some(text_or(child_text_of(n, "ProtocolName"@), Seq::empty())),
            ..blank_entry()
        },
        ServiceType::Icmp => EntryView {
            icmp_type: Some(text_or(child_text_of(n, "ICMPType"@), Seq::empty())),
            icmp_code: Some(text_or(child_text_of(n, "ICMPCode"@), Seq::empty())),
            ..blank_entry()
        },
        ServiceType::IcmpV6 => EntryView {
            icmp_type: Some(text_or(child_text_of(n, "ICMPv6Type"@), Seq::empty())),
            icmp_code: Some(text_or(child_text_of(n, "ICMPv6Code"@), Seq::empty())),
            ..blank_entry()
        },
    }
}

/// The entries the `ServiceDetail` elements among `cs` describe, in order.
pub open spec fn entries_of_children(t: ServiceType, cs: Seq<NodeView>) -> Seq<EntryView>
    decreases cs.len(),
{
    if cs.len() == 0 {
        Seq::empty()
    } else {
        let front = entries_of_children(t, cs.drop_last());
        if cs.last().name == "ServiceDetail"@ {
            front.push(entry_of_node(t, cs.last()))
        } else {
            front
        }
    }
}

/// The service an element `Services` describes: none without a name or a known type;
/// its entries read from `ServiceDetails` and normalized.
pub open spec fn service_of_node(n: NodeView) -> core::result::Result<Option<ServiceView>, ErrorView> {
    match child_text_of(n, "Name"@) {
        None => Ok(None),
        Some(name) => match child_text_of(n, "Type"@) {
            None => Ok(None),
            Some(tt) => match type_from_text(tt) {
                None => Ok(None),
                Some(t) => {
                    let entries = match find_child(n.children, "ServiceDetails"@) {
                        Some(d) => normalized_entries(t, entries_of_children(t, d.children), false),
                        None => Ok(Seq::empty()),
                    };
                    match entries {
                        Err(e) => Err(e),
                        Ok(es) => match name_of("service name"@, name) {
                            Err(e) => Err(e),
                            Ok(nm) => Ok(Some(ServiceView { name: nm, service_type: t, entries: es })),
                        },
                    }
                },
            },
        },
    }
}

/// [`service_of_node`] as a value.
pub open spec fn service_reader() -> spec_fn(NodeView) -> core::result::Result<Option<ServiceView>, ErrorView> {
    |n: NodeView| service_of_node(n)
}

/// `o`'s text, or `d` (as a string slice).
fn opt_text_or(o: Option<String>, d: &str) -> (r: String)
    ensures
        r@ == text_or(opt_view(o), d@),
{
    match o {
        Some(x) => x,
        None => d.to_owned(),
    }
}

/// The entry `node` describes (see [`entry_of_node`]).
fn service_entry_from_node(service_type: ServiceType, node: &XmlNode) -> (e: ServiceEntry)
    ensures
        e@ == entry_of_node(service_type, node@),
{
    proof {
        reveal_strlit("");
        assert(""@ =~= Seq::<char>::empty());
    }
    match service_type {
        ServiceType::TcpOrUdp => ServiceEntry {
            protocol: Some(opt_text_or(node.child_text("Protocol"), "")),
            src_port: Some(opt_text_or(node.child_text("SourcePort"), "1:65535")),
            dst_port: Some(opt_text_or(node.child_text("DestinationPort"), "")),
            icmp_type: None,
            icmp_code: None,
        },
        ServiceType::Ip => ServiceEntry {
            protocol: Some(opt_text_or(node.child_text("ProtocolName"), "")),
            src_port: None,
            dst_port: None,
            icmp_type: None,
            icmp_code: None,
        },
        ServiceType::Icmp => ServiceEntry {
            protocol: None,
            src_port: None,
            dst_port: None,
            icmp_type: Some(opt_text_or(node.child_text("ICMPType"), "")),
            icmp_code: Some(opt_text_or(node.child_text("ICMPCode"), "")),
        },
        ServiceType::IcmpV6 => ServiceEntry {
            protocol: None,
            src_port: None,
            dst_port: None,
            icmp_type: Some(opt_text_or(node.child_text("ICMPv6Type"), "")),
            icmp_code: Some(opt_text_or(node.child_text("ICMPv6Code"), "")),
        },
    }
}

/// The normalized entries of an element `ServiceDetails`.
fn service_entries_from_node(service_type: ServiceType, details: &XmlNode) -> (r: Result<Vec<ServiceEntry>>)
    ensures
        match normalized_entries(service_type, entries_of_children(service_type, details@.children), false) {
            Ok(x) => r matches Ok(v) && seq_views(v@) == x,
            Err(e) => r matches Err(y) && y@ == e,
        },
{
    let ghost cs = details@.children;
    let mut entries: Vec<ServiceEntry> = Vec::new();
    let mut i: usize = 0;
    assert(cs.take(0) =~= Seq::<NodeView>::empty());
    assert(seq_views(entries@) =~= Seq::<EntryView>::empty());
    while i < details.children.len()
        invariant
            i <= details.children@.len(),
            cs == details@.children,
            seq_views(entries@) == entries_of_children(service_type, cs.take(i as int)),
        decreases details.children@.len() - i,
    {
        assert(cs.take(i + 1).drop_last() =~= cs.take(i as int));
        assert(cs.take(i + 1).last() == details.children@[i as int]@);
        let child = &details.children[i];
        if crate::text::chars_eq(child.name.as_slice(), chars_of("ServiceDetail").as_slice()) {
            let e = service_entry_from_node(service_type, child);
            let ghost before = entries@;
            let ghost ev = e@;
            entries.push(e);
            assert(seq_views(entries@) =~= seq_views(before).push(ev));
        }
        i = i + 1;
    }
    assert(cs.take(i as int) =~= cs);
    normalize_service_entries(service_type, entries, false)
}

/// The service an element `Services` describes (see [`service_of_node`]).
pub fn service_from_node(node: &XmlNode) -> (r: Result<Option<Service>>)
    ensures
        read_view(r) == service_of_node(node@),
{
    let name = match node.child_text("Name") {
        Some(n) => n,
        None => return Ok(None),
    };
    let tt = match node.child_text("Type") {
        Some(t) => t,
        None => return Ok(None),
    };
    let service_type = match ServiceType::from_xml(tt.as_str()) {
        Some(t) => t,
        None => return Ok(None),
    };
    let entries = match node.child("ServiceDetails") {
        Some(d) => match service_entries_from_node(service_type, d) {
            Ok(es) => es,
            Err(e) => return Err(e),
        },
        None => {
            let v: Vec<ServiceEntry> = Vec::new();
            assert(seq_views(v@) =~= Seq::<EntryView>::empty());
            v
        },
    };
    let nm = match normalize_name("service name", name.as_str()) {
        Ok(n) => n,
        Err(e) => return Err(e),
    };
    Ok(Some(Service { name: nm, service_type, entries }))
}

/// The services in the replies named `Services` (see [`service_of_node`]).
pub fn services_from_response(resources: &Vec<ResourceResponse>) -> (r: Result<Vec<Service>>)
    ensures
        list_view(r) == items_in_resources(crate::response::resource_views(resources@), "Services"@, service_reader()),
{
    items_from_response(resources, "Services", service_from_node, Ghost(service_reader()))
}

/// A service to create: a name, a type and at least one entry, all normalized.
#[derive(Debug, Clone, PartialEq, Eq)]
pub struct ServiceCreate {
    name: String,
    service_type: ServiceType,
    entries: Vec<ServiceEntry>,
}

impl View for ServiceCreate {
    type V = ServiceView;

    closed spec fn view(&self) -> ServiceView {
        ServiceView { name: self.name@, service_type: self.service_type, entries: seq_views(self.entries@) }
    }
}

/// The service `name` of type `t` with entries `es`, normalized, or why it is refused: a
/// blank name, an invalid entry, or no entry.
pub open spec fn service_create_of(name: Seq<char>, t: ServiceType, es: Seq<EntryView>) -> core::result::Result<ServiceView, ErrorView> {
    match name_of("service name"@, name) {
        Err(e) => Err(e),
        Ok(n) => match normalized_entries(t, es, true) {
            Err(e) => Err(e),
            Ok(u) => Ok(ServiceView { name: n, service_type: t, entries: u }),
        },
    }
}

impl ServiceCreate {
    /// A service to create (see [`service_create_of`]).
    pub fn new(name: &str, service_type: ServiceType, entries: Vec<ServiceEntry>) -> (r: Result<ServiceCreate>)
        ensures
            match service_create_of(name@, service_type, seq_views(entries@)) {
                Ok(v) => r matches Ok(c) && c@ == v,
                Err(e) => r matches Err(x) && x@ == e,
            },
    {
        let n = match normalize_name("service name", name) {
            Ok(n) => n,
            Err(e) => return Err(e),
        };
        let es = match normalize_service_entries(service_type, entries, true) {
            Ok(es) => es,
            Err(e) => return Err(e),
        };
        Ok(ServiceCreate { name: n, service_type, entries: es })
    }

    /// The name.
    pub fn name(&self) -> (r: &str)
        ensures
            r@ == self@.name,
    {
        self.name.as_str()
    }

    /// The type.
    pub fn service_type(&self) -> (t: ServiceType)
        ensures
            t == self@.service_type,
    {
        self.service_type
    }

    /// The entries.
    pub fn entries(&self) -> (r: &[ServiceEntry])
        ensures
            seq_views(r@) == self@.entries,
    {
        self.entries.as_slice()
    }
}

/// How an update combines the requested entries with the existing ones.
#[derive(Debug, Clone, Copy, PartialEq, Eq, Structural)]
pub enum ServiceUpdateAction {
    Add,
    Remove,
    Replace,
}

/// A change to the entries of a service.
#[derive(Debug, Clone, PartialEq, Eq)]
pub struct ServiceUpdate {
    name: String,
    service_type: ServiceType,
    entries: Vec<ServiceEntry>,
    action: ServiceUpdateAction,
}

/// A [`ServiceUpdate`]'s name, type, entries and action.
pub struct ServiceUpdateView {
    pub name: Seq<char>,
    pub service_type: ServiceType,
    pub entries: Seq<EntryView>,
    pub action: ServiceUpdateAction,
}

impl View for ServiceUpdate {
    type V = ServiceUpdateView;

    closed spec fn view(&self) -> ServiceUpdateView {
        ServiceUpdateView {
            name: self.name@,
            service_type: self.service_type,
            entries: seq_views(self.entries@),
            action: self.action,
        }
    }
}

/// The update of `name`'s entries, normalized as for a new service.
pub open spec fn service_update_of(
    name: Seq<char>,
    t: ServiceType,
    es: Seq<EntryView>,
    action: ServiceUpdateAction,
) -> core::result::Result<ServiceUpdateView, ErrorView> {
    match service_create_of(name, t, es) {
        Err(e) => Err(e),
        Ok(v) => Ok(ServiceUpdateView { name: v.name, service_type: v.service_type, entries: v.entries, action }),
    }
}

impl ServiceUpdate {
    /// A change to the entries of `name` (see [`service_update_of`]).
    pub fn new(name: &str, service_type: ServiceType, entries: Vec<ServiceEntry>, action: ServiceUpdateAction) -> (r: Result<ServiceUpdate>)
        ensures
            match service_update_of(name@, service_type, seq_views(entries@), action) {
                Ok(v) => r matches Ok(u) && u@ == v,
                Err(e) => r matches Err(x) && x@ == e,
            },
    {
        match ServiceCreate::new(name, service_type, entries) {
            Ok(c) => Ok(ServiceUpdate { name: c.name, service_type: c.service_type, entries: c.entries, action }),
            Err(e) => Err(e),
        }
    }
}

/// The entries after an update: the requested ones added after the existing ones, the
/// requested ones removed, or the requested ones in place of the existing ones.
pub open spec fn updated_values<A>(existing: Seq<A>, requested: Seq<A>, add: bool, remove: bool) -> Seq<A> {
    if add {
        add_unique(existing, requested)
    } else if remove {
        remove_requested(existing, requested)
    } else {
        requested
    }
}

/// The entries after applying `action` (see [`updated_values`]).
pub open spec fn updated_entries(existing: Seq<EntryView>, requested: Seq<EntryView>, action: ServiceUpdateAction) -> Seq<EntryView> {
    updated_values(existing, requested, action is Add, action is Remove)
}

/// The resource name of services.
pub open spec fn services_resource() -> Seq<char> {
    "Services"@
}

/// What updating the entries of `name` gives when the lookup is answered `first` and the
/// update `second`: the lookup's error, a missing service, a type that differs from the
/// one given (then nothing is sent), or the reply to the update that writes the combined
/// entries.
pub open spec fn service_update_outcome(
    conn: Link,
    name: Seq<char>,
    t: ServiceType,
    requested: Seq<EntryView>,
    action: ServiceUpdateAction,
    first: Reply,
    second: Reply,
) -> core::result::Result<ResourceView, ErrorView> {
    match get_outcome::<Service>(
        exchange(conn, named_request(Action::Read, services_resource(), "Name"@, name, None, empty_object()), first),
        services_resource(),
        name,
        service_reader(),
    ) {
        Err(e) => Err(e),
        Ok(None) => Err(missing_error("service"@, name)),
        Ok(Some(existing)) => if existing.service_type != t {
            Err(
                ErrorView::InvalidRequest(
                    "service '"@ + name + "' has type "@ + type_text(existing.service_type) + ", not "@
                        + type_text(t),
                ),
            )
        } else {
            write_outcome(
                exchange(
                    conn,
                    named_request(
                        Action::Update,
                        services_resource(),
                        "Name"@,
                        name,
                        None,
                        service_json(name, t, updated_entries(existing.entries, requested, action)),
                    ),
                    second,
                ),
                services_resource(),
            )
        },
    }
}

/// The service operations of a client.
pub struct ServicesApi<'a, T> {
    client: &'a SophosClient<T>,
}

impl<'a, T: SophosTransport> ServicesApi<'a, T> {
    /// The connection of the client and what its transport answers.
    pub closed spec fn conn(&self) -> Link {
        self.client.conn()
    }
}

impl<T: SophosTransport> SophosClient<T> {
    /// The service operations.
    pub fn services(&self) -> (a: ServicesApi<'_, T>)
        ensures
            a.conn() == self.conn(),
    {
        ServicesApi { client: self }
    }
}

impl<'a, T: SophosTransport> ServicesApi<'a, T> {
    /// Every service; zero records is an empty list.
    pub fn list_services(&self) -> (r: Result<Vec<Service>>)
        ensures
            exists|reply: Reply|
                list_view(r) == list_outcome(
                    exchange(self.conn(), read_request(services_resource()), reply),
                    services_resource(),
                    service_reader(),
                ),
    {
        let r = list_items(self.client, "Services", service_from_node, Ghost(service_reader()));
        let ghost reply = choose|reply: Reply|
            list_view(r) == list_outcome(exchange(self.client.conn(), read_request("Services"@), reply), "Services"@, service_reader());
        assert(list_view(r) == list_outcome(exchange(self.conn(), read_request(services_resource()), reply), services_resource(), service_reader()));
        r
    }

    /// The service named `name` (trimmed); zero records is none.
    pub fn get_service(&self, name: &str) -> (r: Result<Option<Service>>)
        ensures
            match name_of("service name"@, name@) {
                Err(e) => r matches Err(x) && x@ == e,
                Ok(n) => exists|reply: Reply|
                    opt_result_view(r) == get_outcome::<Service>(
                        exchange(self.conn(), named_request(Action::Read, services_resource(), "Name"@, n, None, empty_object()), reply),
                        services_resource(),
                        n,
                        service_reader(),
                    ),
            },
    {
        let n = match normalize_name("service name", name) {
            Ok(n) => n,
            Err(e) => return Err(e),
        };
        let r = get_item(self.client, "Services", "Name", n.as_str(), service_from_node, Ghost(service_reader()));
        let ghost reply = choose|reply: Reply|
            opt_result_view(r) == get_outcome::<Service>(
                exchange(self.client.conn(), named_request(Action::Read, "Services"@, "Name"@, n@, None, crate::json::Json::Object(Seq::empty())), reply),
                "Services"@,
                n@,
                service_reader(),
            );
        assert(opt_result_view(r) == get_outcome::<Service>(
            exchange(self.conn(), named_request(Action::Read, services_resource(), "Name"@, n@, None, empty_object()), reply),
            services_resource(),
            n@,
            service_reader(),
        ));
        r
    }

    /// Creates `service`.
    pub fn create_service(&self, service: ServiceCreate) -> (r: Result<ResourceResponse>)
        ensures
            exists|reply: Reply|
                write_view(r) == write_outcome(
                    exchange(
                        self.conn(),
                        named_request(
                            Action::Create,
                            services_resource(),
                            "Name"@,
                            service@.name,
                            None,
                            service_json(service@.name, service@.service_type, service@.entries),
                        ),
                        reply,
                    ),
                    services_resource(),
                ),
    {
        let payload = service_payload(service.name.as_str(), service.service_type, &service.entries);
        let ghost pv = payload@;
        let r = write_item(self.client, Action::Create, "Services", "Name", service.name.as_str(), None, payload);
        let ghost reply = choose|reply: Reply|
            write_view(r) == write_outcome(
                exchange(self.client.conn(), named_request(Action::Create, "Services"@, "Name"@, service.name@, crate::xml::opt_str_view(None), pv), reply),
                "Services"@,
            );
        assert(write_view(r) == write_outcome(
            exchange(
                self.conn(),
                named_request(
                    Action::Create,
                    services_resource(),
                    "Name"@,
                    service@.name,
                    None,
                    service_json(service@.name, service@.service_type, service@.entries),
                ),
                reply,
            ),
            services_resource(),
        ));
        r
    }

    /// Applies `update` to the existing service (see [`service_update_outcome`]).
    pub fn update_service(&self, update: ServiceUpdate) -> (r: Result<ResourceResponse>)
        ensures
            exists|first: Reply, second: Reply|
                write_view(r) == #[trigger] service_update_outcome(
                    self.conn(),
                    update@.name,
                    update@.service_type,
                    update@.entries,
                    update@.action,
                    first,
                    second,
                ),
    {
        let ghost uv = update@;
        let r = self.update_entries(update.name, update.service_type, update.entries, update.action);
        let ghost (first, second) = choose|first: Reply, second: Reply|
            write_view(r) == #[trigger] service_update_outcome(self.conn(), uv.name, uv.service_type, uv.entries, uv.action, first, second);
        assert(write_view(r) == service_update_outcome(self.conn(), uv.name, uv.service_type, uv.entries, uv.action, first, second));
        r
    }

    /// Adds `entries` to the service `name`, keeping existing ones first.
    pub fn add_entries(&self, name: &str, service_type: ServiceType, entries: Vec<ServiceEntry>) -> (r: Result<ResourceResponse>)
        ensures
            match service_update_of(name@, service_type, seq_views(entries@), ServiceUpdateAction::Add) {
                Err(e) => r matches Err(x) && x@ == e,
                Ok(u) => exists|first: Reply, second: Reply|
                    write_view(r) == #[trigger] service_update_outcome(self.conn(), u.name, u.service_type, u.entries, u.action, first, second),
            },
    {
        match ServiceUpdate::new(name, service_type, entries, ServiceUpdateAction::Add) {
            Ok(u) => self.update_service(u),
            Err(e) => Err(e),
        }
    }

    /// Removes `entries` from the service `name`, keeping the others in order.
    pub fn remove_entries(&self, name: &str, service_type: ServiceType, entries: Vec<ServiceEntry>) -> (r: Result<ResourceResponse>)
        ensures
            match service_update_of(name@, service_type, seq_views(entries@), ServiceUpdateAction::Remove) {
                Err(e) => r matches Err(x) && x@ == e,
                Ok(u) => exists|first: Reply, second: Reply|
                    write_view(r) == #[trigger] service_update_outcome(self.conn(), u.name, u.service_type, u.entries, u.action, first, second),
            },
    {
        match ServiceUpdate::new(name, service_type, entries, ServiceUpdateAction::Remove) {
            Ok(u) => self.update_service(u),
            Err(e) => Err(e),
        }
    }

    /// Replaces the entries of the service `name` with `entries`.
    pub fn replace_entries(&self, name: &str, service_type: ServiceType, entries: Vec<ServiceEntry>) -> (r: Result<ResourceResponse>)
        ensures
            match service_update_of(name@, service_type, seq_views(entries@), ServiceUpdateAction::Replace) {
                Err(e) => r matches Err(x) && x@ == e,
                Ok(u) => exists|first: Reply, second: Reply|
                    write_view(r) == #[trigger] service_update_outcome(self.conn(), u.name, u.service_type, u.entries, u.action, first, second),
            },
    {
        match ServiceUpdate::new(name, service_type, entries, ServiceUpdateAction::Replace) {
            Ok(u) => self.update_service(u),
            Err(e) => Err(e),
        }
    }

    /// Deletes the service `name` (trimmed) after checking that it exists.
    pub fn delete_service(&self, name: &str) -> (r: Result<ResourceResponse>)
        ensures
            match name_of("service name"@, name@) {
                Err(e) => r matches Err(x) && x@ == e,
                Ok(n) => exists|first: Reply, second: Reply|
                    write_view(r) == #[trigger] delete_outcome::<Service>(
                        self.conn(),
                        services_resource(),
                        "Name"@,
                        "service"@,
                        n,
                        service_reader(),
                        first,
                        second,
                    ),
            },
    {
        let n = match normalize_name("service name", name) {
            Ok(n) => n,
            Err(e) => return Err(e),
        };
        let r = delete_item(self.client, "Services", "Name", "service", n.as_str(), service_from_node, Ghost(service_reader()));
        let ghost (first, second) = choose|first: Reply, second: Reply|
            write_view(r) == #[trigger] delete_outcome::<Service>(self.client.conn(), "Services"@, "Name"@, "service"@, n@, service_reader(), first, second);
        assert(write_view(r) == delete_outcome::<Service>(self.conn(), services_resource(), "Name"@, "service"@, n@, service_reader(), first, second));
        r
    }

    /// Reads the service, checks its type and writes the combined entries.
    fn update_entries(
        &self,
        name: String,
        service_type: ServiceType,
        requested: Vec<ServiceEntry>,
        action: ServiceUpdateAction,
    ) -> (r: Result<ResourceResponse>)
        ensures
            exists|first: Reply, second: Reply|
                write_view(r) == #[trigger] service_update_outcome(
                    self.conn(),
                    name@,
                    service_type,
                    seq_views(requested@),
                    action,
                    first,
                    second,
                ),
    {
        let existing = get_item(self.client, "Services", "Name", name.as_str(), service_from_node, Ghost(service_reader()));
        let ghost first = choose|reply: Reply|
            opt_result_view(existing) == get_outcome::<Service>(
                exchange(self.conn(), named_request(Action::Read, services_resource(), "Name"@, name@, None, empty_object()), reply),
                services_resource(),
                name@,
                service_reader(),
            );
        let ghost q = seq_views(requested@);
        match existing {
            Err(e) => {
                assert(write_view(Err(e)) == service_update_outcome(self.conn(), name@, service_type, q, action, first, first));
                Err(e)
            },
            Ok(None) => {
                let e = missing_error_exec("service", name.as_str());
                assert(write_view(Err(e)) == service_update_outcome(self.conn(), name@, service_type, q, action, first, first));
                Err(e)
            },
            Ok(Some(ex)) => {
                if ex.service_type != service_type {
                    let mut m: Vec<char> = Vec::new();
                    push_str(&mut m, "service '");
                    push_str(&mut m, name.as_str());
                    push_str(&mut m, "' has type ");
                    push_str(&mut m, ex.service_type.as_xml());
                    push_str(&mut m, ", not ");
                    push_str(&mut m, service_type.as_xml());
                    let e = Error::InvalidRequest(string_of(m.as_slice()));
                    assert(write_view(Err(e)) == service_update_outcome(self.conn(), name@, service_type, q, action, first, first));
                    return Err(e);
                }
                let ghost old_entries = ex@.entries;
                let updated = match action {
                    ServiceUpdateAction::Add => add_unique_values(ex.entries, requested),
                    ServiceUpdateAction::Remove => remove_requested_values(ex.entries, &requested),
                    ServiceUpdateAction::Replace => requested,
                };
                assert(seq_views(updated@) == updated_entries(old_entries, q, action));
                let payload = service_payload(name.as_str(), service_type, &updated);
                let r = write_item(self.client, Action::Update, "Services", "Name", name.as_str(), None, payload);
                let ghost second = choose|reply: Reply|
                    write_view(r) == write_outcome(
                        exchange(
                            self.conn(),
                            named_request(
                                Action::Update,
                                services_resource(),
                                "Name"@,
                                name@,
                                None,
                                service_json(name@, service_type, updated_entries(old_entries, q, action)),
                            ),
                            reply,
                        ),
                        services_resource(),
                    );
                assert(write_view(r) == service_update_outcome(self.conn(), name@, service_type, q, action, first, second));
                r
            },
        }
    }
}

/// The trimmed, non-blank texts of the children of `n` named `child`, each once, in order.
pub open spec fn values_of_children(cs: Seq<NodeView>, child: Seq<char>) -> Seq<Seq<char>>
    decreases cs.len(),
{
    if cs.len() == 0 {
        Seq::empty()
    } else {
        let front = values_of_children(cs.drop_last(), child);
        let c = cs.last();
        if c.name == child && trim(c.text).len() > 0 {
            push_unique(front, trim(c.text))
        } else {
            front
        }
    }
}

/// The values of the children of `node` named `child_name` (see [`values_of_children`]).
pub fn values_from_children(node: &XmlNode, child_name: &str) -> (r: Vec<String>)
    ensures
        seq_views(r@) == values_of_children(node@.children, child_name@),
{
    let ghost cs = node@.children;
    let nc = chars_of(child_name);
    let mut values: Vec<String> = Vec::new();
    let mut i: usize = 0;
    assert(cs.take(0) =~= Seq::<NodeView>::empty());
    assert(seq_views(values@) =~= Seq::<Seq<char>>::empty());
    while i < node.children.len()
        invariant
            i <= node.children@.len(),
            cs == node@.children,
            nc@ == child_name@,
            seq_views(values@) == values_of_children(cs.take(i as int), child_name@),
        decreases node.children@.len() - i,
    {
        assert(cs.take(i + 1).drop_last() =~= cs.take(i as int));
        assert(cs.take(i + 1).last() == node.children@[i as int]@);
        let child = &node.children[i];
        if crate::text::chars_eq(child.name.as_slice(), nc.as_slice()) {
            let t = trim_chars(child.text.as_slice());
            if t.len() > 0 {
                let v = string_of(t.as_slice());
                let ghost before = values@;
                if !contains_value(&values, &v) {
                    let ghost vv = v@;
                    values.push(v);
                    assert(seq_views(values@) =~= seq_views(before).push(vv));
                }
            }
        }
        i = i + 1;
    }
    assert(cs.take(i as int) =~= cs);
    values
}

/// A JSON array of strings.
pub open spec fn str_array(vs: Seq<Seq<char>>) -> Json {
    Json::Array(vs.map_values(|v: Seq<char>| Json::Str(v)))
}

/// A JSON array of the strings `vs`.
pub fn strings_value(vs: &Vec<String>) -> (v: Value)
    ensures
        v@ == str_array(seq_views(vs@)),
{
    let mut out: Vec<Value> = Vec::new();
    let mut i: usize = 0;
    while i < vs.len()
        invariant
            i <= vs@.len(),
            out@.len() == i,
            forall|j: int| 0 <= j < i ==> (#[trigger] out@[j])@ == Json::Str(vs@[j]@),
        decreases vs@.len() - i,
    {
        out.push(Value::String(vs[i].clone()));
        i = i + 1;
    }
    let a = Value::Array(out);
    assert(a@->Array_0 =~= seq_views(vs@).map_values(|v: Seq<char>| Json::Str(v)));
    a
}

/// A group of services.
#[derive(Debug, Clone, PartialEq, Eq)]
pub struct ServiceGroup {
    name: String,
    services: Vec<String>,
    description: Option<String>,
}

/// A group's name, members and description.
pub struct GroupView {
    pub name: Seq<char>,
    pub members: Seq<Seq<char>>,
    pub description: Option<Seq<char>>,
}

impl View for ServiceGroup {
    type V = GroupView;

    closed spec fn view(&self) -> GroupView {
        GroupView { name: self.name@, members: seq_views(self.services@), description: opt_view(self.description) }
    }
}

impl Named for ServiceGroup {
    open spec fn key_of(v: GroupView) -> Seq<char> {
        v.name
    }

    fn key(&self) -> (k: &str) {
        self.name.as_str()
    }
}

impl ServiceGroup {
    /// The name.
    pub fn name(&self) -> (r: &str)
        ensures
            r@ == self@.name,
    {
        self.name.as_str()
    }

    /// The member services.
    pub fn services(&self) -> (r: &[String])
        ensures
            seq_views(r@) == self@.members,
    {
        self.services.as_slice()
    }

    /// The description, when there is one.
    pub fn description(&self) -> (r: Option<&str>)
        ensures
            crate::xml::opt_str_view(r) == self@.description,
    {
        opt_str(&self.description)
    }
}

/// The group an element `ServiceGroup` describes: none without a name; its members are
/// the `Service` values under `ServiceList`, its description the `Description` text.
pub open spec fn service_group_of_node(n: NodeView) -> core::result::Result<Option<GroupView>, ErrorView> {
    match child_text_of(n, "Name"@) {
        None => Ok(None),
        Some(name) => {
            let members = match find_child(n.children, "ServiceList"@) {
                Some(l) => values_of_children(l.children, "Service"@),
                None => Seq::empty(),
            };
            match name_of("service group name"@, name) {
                Err(e) => Err(e),
                Ok(nm) => Ok(Some(GroupView { name: nm, members, description: child_text_of(n, "Description"@) })),
            }
        },
    }
}

/// [`service_group_of_node`] as a value.
pub open spec fn service_group_reader() -> spec_fn(NodeView) -> core::result::Result<Option<GroupView>, ErrorView> {
    |n: NodeView| service_group_of_node(n)
}

/// The group an element `ServiceGroup` describes (see [`service_group_of_node`]).
pub fn service_group_from_node(node: &XmlNode) -> (r: Result<Option<ServiceGroup>>)
    ensures
        read_view(r) == service_group_of_node(node@),
{
    let name = match node.child_text("Name") {
        Some(n) => n,
        None => return Ok(None),
    };
    let services = match node.child("ServiceList") {
        Some(l) => values_from_children(l, "Service"),
        None => {
            let v: Vec<String> = Vec::new();
            assert(seq_views(v@) =~= Seq::<Seq<char>>::empty());
            v
        },
    };
    let description = node.child_text("Description");
    let nm = match normalize_name("service group name", name.as_str()) {
        Ok(n) => n,
        Err(e) => return Err(e),
    };
    Ok(Some(ServiceGroup { name: nm, services, description }))
}

/// A service group to create: a name and at least one member, normalized.
#[derive(Debug, Clone, PartialEq, Eq)]
pub struct ServiceGroupCreate {
    name: String,
    services: Vec<String>,
    description: Option<String>,
}

impl View for ServiceGroupCreate {
    type V = GroupView;

    closed spec fn view(&self) -> GroupView {
        GroupView { name: self.name@, members: seq_views(self.services@), description: opt_view(self.description) }
    }
}

/// The group `name` with members `ms`, normalized, or why it is refused.
pub open spec fn group_of(label: Seq<char>, member_label: Seq<char>, name: Seq<char>, ms: Seq<Seq<char>>) -> core::result::Result<
    GroupView,
    ErrorView,
> {
    match name_of(label, name) {
        Err(e) => Err(e),
        Ok(n) => match named_list_of(member_label, ms, true) {
            Err(e) => Err(e),
            Ok(u) => Ok(GroupView { name: n, members: u, description: None }),
        },
    }
}

impl ServiceGroupCreate {
    /// A group to create (see [`group_of`]).
    pub fn new(name: &str, services: Vec<&str>) -> (r: Result<ServiceGroupCreate>)
        ensures
            match group_of("service group name"@, "service"@, name@, str_views(services@)) {
                Ok(v) => r matches Ok(c) && c@ == v,
                Err(e) => r matches Err(x) && x@ == e,
            },
    {
        let n = match normalize_name("service group name", name) {
            Ok(n) => n,
            Err(e) => return Err(e),
        };
        let ms = match normalize_named_list("service", &services, true) {
            Ok(ms) => ms,
            Err(e) => return Err(e),
        };
        Ok(ServiceGroupCreate { name: n, services: ms, description: None })
    }

    /// The group with description `description`.
    pub fn with_description(self, description: &str) -> (r: ServiceGroupCreate)
        ensures
            r@ == (GroupView { description: Some(description@), ..self@ }),
    {
        let mut r = self;
        r.description = Some(description.to_owned());
        r
    }

    /// The name.
    pub fn name(&self) -> (r: &str)
        ensures
            r@ == self@.name,
    {
        self.name.as_str()
    }

    /// The members.
    pub fn services(&self) -> (r: &[String])
        ensures
            seq_views(r@) == self@.members,
    {
        self.services.as_slice()
    }

    /// The description, when there is one.
    pub fn description(&self) -> (r: Option<&str>)
        ensures
            crate::xml::opt_str_view(r) == self@.description,
    {
        opt_str(&self.description)
    }
}

/// How a group update combines the requested members with the existing ones.
#[derive(Debug, Clone, Copy, PartialEq, Eq, Structural)]
pub enum ServiceGroupUpdateAction {
    Add,
    Remove,
    Replace,
}

/// A change to the members (and maybe the description) of a service group.
#[derive(Debug, Clone, PartialEq, Eq)]
pub struct ServiceGroupUpdate {
    name: String,
    services: Vec<String>,
    action: ServiceGroupUpdateAction,
    description: Option<String>,
}

/// A [`ServiceGroupUpdate`]'s name, members, action and description.
pub struct GroupUpdateView {
    pub name: Seq<char>,
    pub members: Seq<Seq<char>>,
    pub action: ServiceGroupUpdateAction,
    pub description: Option<Seq<char>>,
}

impl View for ServiceGroupUpdate {
    type V = GroupUpdateView;

    closed spec fn view(&self) -> GroupUpdateView {
        GroupUpdateView {
            name: self.name@,
            members: seq_views(self.services@),
            action: self.action,
            description: opt_view(self.description),
        }
    }
}

impl ServiceGroupUpdate {
    /// A change to the members of `name` (see [`group_of`]); no description.
    pub fn new(name: &str, services: Vec<&str>, action: ServiceGroupUpdateAction) -> (r: Result<ServiceGroupUpdate>)
        ensures
            match group_of("service group name"@, "service"@, name@, str_views(services@)) {
                Ok(v) => r matches Ok(u) && u@ == (GroupUpdateView { name: v.name, members: v.members, action, description: None }),
                Err(e) => r matches Err(x) && x@ == e,
            },
    {
        match ServiceGroupCreate::new(name, services) {
            Ok(c) => Ok(ServiceGroupUpdate { name: c.name, services: c.services, action, description: None }),
            Err(e) => Err(e),
        }
    }

    /// The update with description `description`.
    pub fn with_description(self, description: &str) -> (r: ServiceGroupUpdate)
        ensures
            r@ == (GroupUpdateView { description: Some(description@), ..self@ }),
    {
        let mut r = self;
        r.description = Some(description.to_owned());
        r
    }
}

/// The payload of a service group: name, description (empty when none) and members.
pub open spec fn service_group_json(name: Seq<char>, services: Seq<Seq<char>>, description: Option<Seq<char>>) -> Json {
    Json::Object(
        jinsert(
            jinsert(jinsert(Seq::empty(), "Name"@, jstr(name)), "Description"@, jstr(text_or(description, Seq::empty()))),
            "ServiceList"@,
            Json::Object(jinsert(Seq::empty(), "Service"@, str_array(services))),
        ),
    )
}

/// The payload of a service group (see [`service_group_json`]).
pub fn service_group_payload(name: &str, services: &Vec<String>, description: Option<&str>) -> (v: Value)
    ensures
        v@ == service_group_json(name@, seq_views(services@), crate::xml::opt_str_view(description)),
{
    proof {
        reveal_strlit("");
        assert(""@ =~= Seq::<char>::empty());
    }
    let d = match description {
        Some(d) => d.to_owned(),
        None => "".to_owned(),
    };
    let mut inner = FieldMap::new();
    inner.insert("Service".to_owned(), strings_value(services));
    let mut m = FieldMap::new();
    m.insert("Name".to_owned(), jstr_exec(name.to_owned()));
    m.insert("Description".to_owned(), jstr_exec(d));
    m.insert("ServiceList".to_owned(), Value::Object(inner));
    Value::Object(m)
}

/// The resource name of service groups.
pub open spec fn service_group_resource() -> Seq<char> {
    "ServiceGroup"@
}

/// What updating the members of the service group `name` gives when the lookup is
/// answered `first` and the update `second`: the lookup's error, a missing group (then
/// nothing is sent), or the reply to the update that writes the combined members with
/// the given description, else the existing one.
pub open spec fn service_group_update_outcome(
    conn: Link,
    name: Seq<char>,
    requested: Seq<Seq<char>>,
    action: ServiceGroupUpdateAction,
    description: Option<Seq<char>>,
    first: Reply,
    second: Reply,
) -> core::result::Result<ResourceView, ErrorView> {
    match get_outcome::<ServiceGroup>(
        exchange(conn, named_request(Action::Read, service_group_resource(), "Name"@, name, None, empty_object()), first),
        service_group_resource(),
        name,
        service_group_reader(),
    ) {
        Err(e) => Err(e),
        Ok(None) => Err(missing_error("service group"@, name)),
        Ok(Some(existing)) => write_outcome(
            exchange(
                conn,
                named_request(
                    Action::Update,
                    service_group_resource(),
                    "Name"@,
                    name,
                    None,
                    service_group_json(
                        name,
                        updated_values(existing.members, requested, action is Add, action is Remove),
                        match description {
                            Some(d) => Some(d),
                            None => existing.description,
                        },
                    ),
                ),
                second,
            ),
            service_group_resource(),
        ),
    }
}

/// The service group operations of a client.
pub struct ServiceGroupsApi<'a, T> {
    client: &'a SophosClient<T>,
}

impl<'a, T: SophosTransport> ServiceGroupsApi<'a, T> {
    /// The connection of the client and what its transport answers.
    pub closed spec fn conn(&self) -> Link {
        self.client.conn()
    }
}

impl<T: SophosTransport> SophosClient<T> {
    /// The service group operations.
    pub fn service_groups(&self) -> (a: ServiceGroupsApi<'_, T>)
        ensures
            a.conn() == self.conn(),
    {
        ServiceGroupsApi { client: self }
    }
}

impl<'a, T: SophosTransport> ServiceGroupsApi<'a, T> {
    /// Every service group; zero records is an empty list.
    pub fn list_groups(&self) -> (r: Result<Vec<ServiceGroup>>)
        ensures
            exists|reply: Reply|
                list_view(r) == list_outcome(
                    exchange(self.conn(), read_request(service_group_resource()), reply),
                    service_group_resource(),
                    service_group_reader(),
                ),
    {
        let r = list_items(self.client, "ServiceGroup", service_group_from_node, Ghost(service_group_reader()));
        let ghost reply = choose|reply: Reply|
            list_view(r) == list_outcome(exchange(self.client.conn(), read_request("ServiceGroup"@), reply), "ServiceGroup"@, service_group_reader());
        assert(list_view(r) == list_outcome(exchange(self.conn(), read_request(service_group_resource()), reply), service_group_resource(), service_group_reader()));
        r
    }

    /// The service group named `name` (trimmed); zero records is none.
    pub fn get_group(&self, name: &str) -> (r: Result<Option<ServiceGroup>>)
        ensures
            match name_of("service group name"@, name@) {
                Err(e) => r matches Err(x) && x@ == e,
                Ok(n) => exists|reply: Reply|
                    opt_result_view(r) == get_outcome::<ServiceGroup>(
                        exchange(self.conn(), named_request(Action::Read, service_group_resource(), "Name"@, n, None, empty_object()), reply),
                        service_group_resource(),
                        n,
                        service_group_reader(),
                    ),
            },
    {
        let n = match normalize_name("service group name", name) {
            Ok(n) => n,
            Err(e) => return Err(e),
        };
        let r = get_item(self.client, "ServiceGroup", "Name", n.as_str(), service_group_from_node, Ghost(service_group_reader()));
        let ghost reply = choose|reply: Reply|
            opt_result_view(r) == get_outcome::<ServiceGroup>(
                exchange(self.client.conn(), named_request(Action::Read, "ServiceGroup"@, "Name"@, n@, None, crate::json::Json::Object(Seq::empty())), reply),
                "ServiceGroup"@,
                n@,
                service_group_reader(),
            );
        assert(opt_result_view(r) == get_outcome::<ServiceGroup>(
            exchange(self.conn(), named_request(Action::Read, service_group_resource(), "Name"@, n@, None, empty_object()), reply),
            service_group_resource(),
            n@,
            service_group_reader(),
        ));
        r
    }

    /// Creates `group` with the `set` operation.
    pub fn create_group(&self, group: ServiceGroupCreate) -> (r: Result<ResourceResponse>)
        ensures
            exists|reply: Reply|
                write_view(r) == write_outcome(
                    exchange(
                        self.conn(),
                        named_request(
                            Action::Create,
                            service_group_resource(),
                            "Name"@,
                            group@.name,
                            Some("set"@),
                            service_group_json(group@.name, group@.members, group@.description),
                        ),
                        reply,
                    ),
                    service_group_resource(),
                ),
    {
        let payload = service_group_payload(group.name.as_str(), &group.services, opt_str(&group.description));
        let ghost pv = payload@;
        let r = write_item(self.client, Action::Create, "ServiceGroup", "Name", group.name.as_str(), Some("set"), payload);
        let ghost reply = choose|reply: Reply|
            write_view(r) == write_outcome(
                exchange(self.client.conn(), named_request(Action::Create, "ServiceGroup"@, "Name"@, group.name@, crate::xml::opt_str_view(Some("set")), pv), reply),
                "ServiceGroup"@,
            );
        assert(write_view(r) == write_outcome(
            exchange(
                self.conn(),
                named_request(
                    Action::Create,
                    service_group_resource(),
                    "Name"@,
                    group@.name,
                    Some("set"@),
                    service_group_json(group@.name, group@.members, group@.description),
                ),
                reply,
            ),
            service_group_resource(),
        ));
        r
    }

    /// Applies `update` to the existing group (see [`service_group_update_outcome`]).
    pub fn update_group(&self, update: ServiceGroupUpdate) -> (r: Result<ResourceResponse>)
        ensures
            exists|first: Reply, second: Reply|
                write_view(r) == #[trigger] service_group_update_outcome(
                    self.conn(),
                    update@.name,
                    update@.members,
                    update@.action,
                    update@.description,
                    first,
                    second,
                ),
    {
        let ghost uv = update@;
        let r = self.update_services(update.name, update.services, update.action, update.description);
        let ghost (first, second) = choose|first: Reply, second: Reply|
            write_view(r) == #[trigger] service_group_update_outcome(self.conn(), uv.name, uv.members, uv.action, uv.description, first, second);
        assert(write_view(r) == service_group_update_outcome(self.conn(), uv.name, uv.members, uv.action, uv.description, first, second));
        r
    }

    /// Adds `services` to the group `name`, keeping existing members first.
    pub fn add_services(&self, name: &str, services: Vec<&str>) -> (r: Result<ResourceResponse>)
        ensures
            match group_of("service group name"@, "service"@, name@, str_views(services@)) {
                Err(e) => r matches Err(x) && x@ == e,
                Ok(g) => exists|first: Reply, second: Reply|
                    write_view(r) == #[trigger] service_group_update_outcome(
                        self.conn(), g.name, g.members, ServiceGroupUpdateAction::Add, None, first, second),
            },
    {
        match ServiceGroupUpdate::new(name, services, ServiceGroupUpdateAction::Add) {
            Ok(u) => self.update_group(u),
            Err(e) => Err(e),
        }
    }

    /// Removes `services` from the group `name`, keeping the others in order.
    pub fn remove_services(&self, name: &str, services: Vec<&str>) -> (r: Result<ResourceResponse>)
        ensures
            match group_of("service group name"@, "service"@, name@, str_views(services@)) {
                Err(e) => r matches Err(x) && x@ == e,
                Ok(g) => exists|first: Reply, second: Reply|
                    write_view(r) == #[trigger] service_group_update_outcome(
                        self.conn(), g.name, g.members, ServiceGroupUpdateAction::Remove, None, first, second),
            },
    {
        match ServiceGroupUpdate::new(name, services, ServiceGroupUpdateAction::Remove) {
            Ok(u) => self.update_group(u),
            Err(e) => Err(e),
        }
    }

    /// Replaces the members of the group `name` with `services`.
    pub fn replace_services(&self, name: &str, services: Vec<&str>) -> (r: Result<ResourceResponse>)
        ensures
            match group_of("service group name"@, "service"@, name@, str_views(services@)) {
                Err(e) => r matches Err(x) && x@ == e,
                Ok(g) => exists|first: Reply, second: Reply|
                    write_view(r) == #[trigger] service_group_update_outcome(
                        self.conn(), g.name, g.members, ServiceGroupUpdateAction::Replace, None, first, second),
            },
    {
        match ServiceGroupUpdate::new(name, services, ServiceGroupUpdateAction::Replace) {
            Ok(u) => self.update_group(u),
            Err(e) => Err(e),
        }
    }

    /// Deletes the group `name` (trimmed) after checking that it exists.
    pub fn delete_group(&self, name: &str) -> (r: Result<ResourceResponse>)
        ensures
            match name_of("service group name"@, name@) {
                Err(e) => r matches Err(x) && x@ == e,
                Ok(n) => exists|first: Reply, second: Reply|
                    write_view(r) == #[trigger] delete_outcome::<ServiceGroup>(
                        self.conn(),
                        service_group_resource(),
                        "Name"@,
                        "service group"@,
                        n,
                        service_group_reader(),
                        first,
                        second,
                    ),
            },
    {
        let n = match normalize_name("service group name", name) {
            Ok(n) => n,
            Err(e) => return Err(e),
        };
        let r = delete_item(self.client, "ServiceGroup", "Name", "service group", n.as_str(), service_group_from_node, Ghost(service_group_reader()));
        let ghost (first, second) = choose|first: Reply, second: Reply|
            write_view(r) == #[trigger] delete_outcome::<ServiceGroup>(self.client.conn(), "ServiceGroup"@, "Name"@, "service group"@, n@, service_group_reader(), first, second);
        assert(write_view(r) == delete_outcome::<ServiceGroup>(self.conn(), service_group_resource(), "Name"@, "service group"@, n@, service_group_reader(), first, second));
        r
    }

    /// Reads the group and writes the combined members.
    fn update_services(
        &self,
        name: String,
        requested: Vec<String>,
        action: ServiceGroupUpdateAction,
        description: Option<String>,
    ) -> (r: Result<ResourceResponse>)
        ensures
            exists|first: Reply, second: Reply|
                write_view(r) == #[trigger] service_group_update_outcome(
                    self.conn(),
                    name@,
                    seq_views(requested@),
                    action,
                    opt_view(description),
                    first,
                    second,
                ),
    {
        let existing = get_item(self.client, "ServiceGroup", "Name", name.as_str(), service_group_from_node, Ghost(service_group_reader()));
        let ghost first = choose|reply: Reply|
            opt_result_view(existing) == get_outcome::<ServiceGroup>(
                exchange(self.conn(), named_request(Action::Read, service_group_resource(), "Name"@, name@, None, empty_object()), reply),
                service_group_resource(),
                name@,
                service_group_reader(),
            );
        let ghost q = seq_views(requested@);
        let ghost dv = opt_view(description);
        match existing {
            Err(e) => {
                assert(write_view(Err(e)) == service_group_update_outcome(self.conn(), name@, q, action, dv, first, first));
                Err(e)
            },
            Ok(None) => {
                let e = missing_error_exec("service group", name.as_str());
                assert(write_view(Err(e)) == service_group_update_outcome(self.conn(), name@, q, action, dv, first, first));
                Err(e)
            },
            Ok(Some(ex)) => {
                let ghost exv = ex@;
                let updated = match action {
                    ServiceGroupUpdateAction::Add => add_unique_values(ex.services, requested),
                    ServiceGroupUpdateAction::Remove => remove_requested_values(ex.services, &requested),
                    ServiceGroupUpdateAction::Replace => requested,
                };
                let d = match description {
                    Some(d) => Some(d),
                    None => ex.description,
                };
                let payload = service_group_payload(name.as_str(), &updated, opt_str(&d));
                let ghost pv = payload@;
                let r = write_item(self.client, Action::Update, "ServiceGroup", "Name", name.as_str(), None, payload);
                let ghost second = choose|reply: Reply|
                    write_view(r) == write_outcome(
                        exchange(self.client.conn(), named_request(Action::Update, "ServiceGroup"@, "Name"@, name@, crate::xml::opt_str_view(None), pv), reply),
                        "ServiceGroup"@,
                    );
                assert(write_view(r) == service_group_update_outcome(self.conn(), name@, q, action, dv, first, second));
                r
            },
        }
    }
}

/// A group of URL domains.
#[derive(Debug, Clone, PartialEq, Eq)]
pub struct UrlGroup {
    name: String,
    domains: Vec<String>,
}

/// A URL group's name and domains.
pub struct UrlGroupView {
    pub name: Seq<char>,
    pub domains: Seq<Seq<char>>,
}

impl View for UrlGroup {
    type V = UrlGroupView;

    closed spec fn view(&self) -> UrlGroupView {
        UrlGroupView { name: self.name@, domains: seq_views(self.domains@) }
    }
}

impl Named for UrlGroup {
    open spec fn key_of(v: UrlGroupView) -> Seq<char> {
        v.name
    }

    fn key(&self) -> (k: &str) {
        self.name.as_str()
    }
}

impl UrlGroup {
    /// The name.
    pub fn name(&self) -> (r: &str)
        ensures
            r@ == self@.name,
    {
        self.name.as_str()
    }

    /// The domains.
    pub fn domains(&self) -> (r: &[String])
        ensures
            seq_views(r@) == self@.domains,
    {
        self.domains.as_slice()
    }
}

/// The URL group an element `WebFilterURLGroup` describes: none without a name; its
/// domains are the `URL` values under `URLlist`.
pub open spec fn url_group_of_node(n: NodeView) -> core::result::Result<Option<UrlGroupView>, ErrorView> {
    match child_text_of(n, "Name"@) {
        None => Ok(None),
        Some(name) => match name_of("URL group name"@, name) {
            Err(_) => Ok(None),
            Ok(nm) => Ok(
                Some(
                    UrlGroupView {
                        name: nm,
                        domains: match find_child(n.children, "URLlist"@) {
                            Some(l) => values_of_children(l.children, "URL"@),
                            None => Seq::empty(),
                        },
                    },
                ),
            ),
        },
    }
}

/// [`url_group_of_node`] as a value.
pub open spec fn url_group_reader() -> spec_fn(NodeView) -> core::result::Result<Option<UrlGroupView>, ErrorView> {
    |n: NodeView| url_group_of_node(n)
}

/// The URL group an element describes (see [`url_group_of_node`]).
pub fn url_group_from_node(node: &XmlNode) -> (r: Result<Option<UrlGroup>>)
    ensures
        read_view(r) == url_group_of_node(node@),
{
    let name = match node.child_text("Name") {
        Some(n) => n,
        None => return Ok(None),
    };
    let nm = match normalize_name("URL group name", name.as_str()) {
        Ok(n) => n,
        Err(_) => return Ok(None),
    };
    let domains = match node.child("URLlist") {
        Some(l) => values_from_children(l, "URL"),
        None => {
            let v: Vec<String> = Vec::new();
            assert(seq_views(v@) =~= Seq::<Seq<char>>::empty());
            v
        },
    };
    Ok(Some(UrlGroup { name: nm, domains }))
}

/// A URL group to create: a name and at least one domain, normalized.
#[derive(Debug, Clone, PartialEq, Eq)]
pub struct UrlGroupCreate {
    name: String,
    domains: Vec<String>,
}

impl View for UrlGroupCreate {
    type V = UrlGroupView;

    closed spec fn view(&self) -> UrlGroupView {
        UrlGroupView { name: self.name@, domains: seq_views(self.domains@) }
    }
}

/// The URL group `name` with domains `ds`, normalized, or why it is refused.
pub open spec fn url_group_create_of(name: Seq<char>, ds: Seq<Seq<char>>) -> core::result::Result<UrlGroupView, ErrorView> {
    match group_of("URL group name"@, "domain"@, name, ds) {
        Err(e) => Err(e),
        Ok(g) => Ok(UrlGroupView { name: g.name, domains: g.members }),
    }
}

impl UrlGroupCreate {
    /// A URL group to create (see [`url_group_create_of`]).
    pub fn new(name: &str, domains: Vec<&str>) -> (r: Result<UrlGroupCreate>)
        ensures
            match url_group_create_of(name@, str_views(domains@)) {
                Ok(v) => r matches Ok(c) && c@ == v,
                Err(e) => r matches Err(x) && x@ == e,
            },
    {
        let n = match normalize_name("URL group name", name) {
            Ok(n) => n,
            Err(e) => return Err(e),
        };
        let ds = match normalize_named_list("domain", &domains, true) {
            Ok(ds) => ds,
            Err(e) => return Err(e),
        };
        Ok(UrlGroupCreate { name: n, domains: ds })
    }

    /// The name.
    pub fn name(&self) -> (r: &str)
        ensures
            r@ == self@.name,
    {
        self.name.as_str()
    }

    /// The domains.
    pub fn domains(&self) -> (r: &[String])
        ensures
            seq_views(r@) == self@.domains,
    {
        self.domains.as_slice()
    }
}

/// The payload of a URL group: name and domains.
pub open spec fn url_group_json(name: Seq<char>, domains: Seq<Seq<char>>) -> Json {
    Json::Object(
        jinsert(
            jinsert(Seq::empty(), "Name"@, jstr(name)),
            "URLlist"@,
            Json::Object(jinsert(Seq::empty(), "URL"@, str_array(domains))),
        ),
    )
}

/// The payload of a URL group (see [`url_group_json`]).
pub fn url_group_payload(name: &str, domains: &Vec<String>) -> (v: Value)
    ensures
        v@ == url_group_json(name@, seq_views(domains@)),
{
    let mut inner = FieldMap::new();
    inner.insert("URL".to_owned(), strings_value(domains));
    let mut m = FieldMap::new();
    m.insert("Name".to_owned(), jstr_exec(name.to_owned()));
    m.insert("URLlist".to_owned(), Value::Object(inner));
    Value::Object(m)
}

/// The resource name of URL groups.
pub open spec fn url_group_resource() -> Seq<char> {
    "WebFilterURLGroup"@
}

/// What updating the domains of the URL group `name` with the requested `domains` gives,
/// when the lookup is answered `first` and the update `second`: the name's or the
/// domains' error (then nothing is sent), the lookup's error, a missing group, or the
/// reply to the update that writes the combined domains.
pub open spec fn url_group_update_outcome(
    conn: Link,
    name: Seq<char>,
    domains: Seq<Seq<char>>,
    add: bool,
    remove: bool,
    first: Reply,
    second: Reply,
) -> core::result::Result<ResourceView, ErrorView> {
    match url_group_create_of(name, domains) {
        Err(e) => Err(e),
        Ok(g) => match get_outcome::<UrlGroup>(
            exchange(conn, named_request(Action::Read, url_group_resource(), "Name"@, g.name, None, empty_object()), first),
            url_group_resource(),
            g.name,
            url_group_reader(),
        ) {
            Err(e) => Err(e),
            Ok(None) => Err(missing_error("URL group"@, g.name)),
            Ok(Some(existing)) => write_outcome(
                exchange(
                    conn,
                    named_request(
                        Action::Update,
                        url_group_resource(),
                        "Name"@,
                        g.name,
                        None,
                        url_group_json(g.name, updated_values(existing.domains, g.domains, add, remove)),
                    ),
                    second,
                ),
                url_group_resource(),
            ),
        },
    }
}

/// The URL group operations of a client.
pub struct UrlGroupsApi<'a, T> {
    client: &'a SophosClient<T>,
}

impl<'a, T: SophosTransport> UrlGroupsApi<'a, T> {
    /// The connection of the client and what its transport answers.
    pub closed spec fn conn(&self) -> Link {
        self.client.conn()
    }
}

impl<T: SophosTransport> SophosClient<T> {
    /// The URL group operations.
    pub fn url_groups(&self) -> (a: UrlGroupsApi<'_, T>)
        ensures
            a.conn() == self.conn(),
    {
        UrlGroupsApi { client: self }
    }
}

impl<'a, T: SophosTransport> UrlGroupsApi<'a, T> {
    /// Every URL group; zero records is an empty list.
    pub fn list_groups(&self) -> (r: Result<Vec<UrlGroup>>)
        ensures
            exists|reply: Reply|
                list_view(r) == list_outcome(
                    exchange(self.conn(), read_request(url_group_resource()), reply),
                    url_group_resource(),
                    url_group_reader(),
                ),
    {
        let r = list_items(self.client, "WebFilterURLGroup", url_group_from_node, Ghost(url_group_reader()));
        let ghost reply = choose|reply: Reply|
            list_view(r) == list_outcome(exchange(self.client.conn(), read_request("WebFilterURLGroup"@), reply), "WebFilterURLGroup"@, url_group_reader());
        assert(list_view(r) == list_outcome(exchange(self.conn(), read_request(url_group_resource()), reply), url_group_resource(), url_group_reader()));
        r
    }

    /// The URL group named `name` (trimmed); zero records is none.
    pub fn get_group(&self, name: &str) -> (r: Result<Option<UrlGroup>>)
        ensures
            match name_of("URL group name"@, name@) {
                Err(e) => r matches Err(x) && x@ == e,
                Ok(n) => exists|reply: Reply|
                    opt_result_view(r) == get_outcome::<UrlGroup>(
                        exchange(self.conn(), named_request(Action::Read, url_group_resource(), "Name"@, n, None, empty_object()), reply),
                        url_group_resource(),
                        n,
                        url_group_reader(),
                    ),
            },
    {
        let n = match normalize_name("URL group name", name) {
            Ok(n) => n,
            Err(e) => return Err(e),
        };
        let r = get_item(self.client, "WebFilterURLGroup", "Name", n.as_str(), url_group_from_node, Ghost(url_group_reader()));
        let ghost reply = choose|reply: Reply|
            opt_result_view(r) == get_outcome::<UrlGroup>(
                exchange(self.client.conn(), named_request(Action::Read, "WebFilterURLGroup"@, "Name"@, n@, None, crate::json::Json::Object(Seq::empty())), reply),
                "WebFilterURLGroup"@,
                n@,
                url_group_reader(),
            );
        assert(opt_result_view(r) == get_outcome::<UrlGroup>(
            exchange(self.conn(), named_request(Action::Read, url_group_resource(), "Name"@, n@, None, empty_object()), reply),
            url_group_resource(),
            n@,
            url_group_reader(),
        ));
        r
    }

    /// Creates `group` with the `set` operation.
    pub fn create_group(&self, group: UrlGroupCreate) -> (r: Result<ResourceResponse>)
        ensures
            exists|reply: Reply|
                write_view(r) == write_outcome(
                    exchange(
                        self.conn(),
                        named_request(
                            Action::Create,
                            url_group_resource(),
                            "Name"@,
                            group@.name,
                            Some("set"@),
                            url_group_json(group@.name, group@.domains),
                        ),
                        reply,
                    ),
                    url_group_resource(),
                ),
    {
        let payload = url_group_payload(group.name.as_str(), &group.domains);
        let ghost pv = payload@;
        let r = write_item(self.client, Action::Create, "WebFilterURLGroup", "Name", group.name.as_str(), Some("set"), payload);
        let ghost reply = choose|reply: Reply|
            write_view(r) == write_outcome(
                exchange(self.client.conn(), named_request(Action::Create, "WebFilterURLGroup"@, "Name"@, group.name@, crate::xml::opt_str_view(Some("set")), pv), reply),
                "WebFilterURLGroup"@,
            );
        assert(write_view(r) == write_outcome(
            exchange(
                self.conn(),
                named_request(Action::Create, url_group_resource(), "Name"@, group@.name, Some("set"@), url_group_json(group@.name, group@.domains)),
                reply,
            ),
            url_group_resource(),
        ));
        r
    }

    /// Adds `domains` to the URL group `name`, keeping existing domains first.
    pub fn add_domains(&self, name: &str, domains: Vec<&str>) -> (r: Result<ResourceResponse>)
        ensures
            exists|first: Reply, second: Reply|
                write_view(r) == #[trigger] url_group_update_outcome(self.conn(), name@, str_views(domains@), true, false, first, second),
    {
        self.update_domains(name, domains, true, false)
    }

    /// Removes `domains` from the URL group `name`, keeping the others in order.
    pub fn remove_domains(&self, name: &str, domains: Vec<&str>) -> (r: Result<ResourceResponse>)
        ensures
            exists|first: Reply, second: Reply|
                write_view(r) == #[trigger] url_group_update_outcome(self.conn(), name@, str_views(domains@), false, true, first, second),
    {
        self.update_domains(name, domains, false, true)
    }

    /// Replaces the domains of the URL group `name` with `domains`.
    pub fn replace_domains(&self, name: &str, domains: Vec<&str>) -> (r: Result<ResourceResponse>)
        ensures
            exists|first: Reply, second: Reply|
                write_view(r) == #[trigger] url_group_update_outcome(self.conn(), name@, str_views(domains@), false, false, first, second),
    {
        self.update_domains(name, domains, false, false)
    }

    /// Deletes the URL group `name` (trimmed) after checking that it exists.
    pub fn delete_group(&self, name: &str) -> (r: Result<ResourceResponse>)
        ensures
            match name_of("URL group name"@, name@) {
                Err(e) => r matches Err(x) && x@ == e,
                Ok(n) => exists|first: Reply, second: Reply|
                    write_view(r) == #[trigger] delete_outcome::<UrlGroup>(
                        self.conn(),
                        url_group_resource(),
                        "Name"@,
                        "URL group"@,
                        n,
                        url_group_reader(),
                        first,
                        second,
                    ),
            },
    {
        let n = match normalize_name("URL group name", name) {
            Ok(n) => n,
            Err(e) => return Err(e),
        };
        let r = delete_item(self.client, "WebFilterURLGroup", "Name", "URL group", n.as_str(), url_group_from_node, Ghost(url_group_reader()));
        let ghost (first, second) = choose|first: Reply, second: Reply|
            write_view(r) == #[trigger] delete_outcome::<UrlGroup>(self.client.conn(), "WebFilterURLGroup"@, "Name"@, "URL group"@, n@, url_group_reader(), first, second);
        assert(write_view(r) == delete_outcome::<UrlGroup>(self.conn(), url_group_resource(), "Name"@, "URL group"@, n@, url_group_reader(), first, second));
        r
    }

    /// Normalizes the request, reads the group and writes the combined domains.
    fn update_domains(&self, name: &str, domains: Vec<&str>, add: bool, remove: bool) -> (r: Result<ResourceResponse>)
        ensures
            exists|first: Reply, second: Reply|
                write_view(r) == #[trigger] url_group_update_outcome(self.conn(), name@, str_views(domains@), add, remove, first, second),
    {
        let ghost dv = str_views(domains@);
        let n = match normalize_name("URL group name", name) {
            Ok(n) => n,
            Err(e) => {
                let ghost any: Reply = Err(ErrorView::Transport(Seq::empty()));
                assert(write_view(Err(e)) == url_group_update_outcome(self.conn(), name@, dv, add, remove, any, any));
                return Err(e);
            },
        };
        let requested = match normalize_named_list("domain", &domains, true) {
            Ok(q) => q,
            Err(e) => {
                let ghost any: Reply = Err(ErrorView::Transport(Seq::empty()));
                assert(write_view(Err(e)) == url_group_update_outcome(self.conn(), name@, dv, add, remove, any, any));
                return Err(e);
            },
        };
        let existing = get_item(self.client, "WebFilterURLGroup", "Name", n.as_str(), url_group_from_node, Ghost(url_group_reader()));
        let ghost first = choose|reply: Reply|
            opt_result_view(existing) == get_outcome::<UrlGroup>(
                exchange(self.conn(), named_request(Action::Read, url_group_resource(), "Name"@, n@, None, empty_object()), reply),
                url_group_resource(),
                n@,
                url_group_reader(),
            );
        match existing {
            Err(e) => {
                assert(write_view(Err(e)) == url_group_update_outcome(self.conn(), name@, dv, add, remove, first, first));
                Err(e)
            },
            Ok(None) => {
                let e = missing_error_exec("URL group", n.as_str());
                assert(write_view(Err(e)) == url_group_update_outcome(self.conn(), name@, dv, add, remove, first, first));
                Err(e)
            },
            Ok(Some(ex)) => {
                let updated = if add {
                    add_unique_values(ex.domains, requested)
                } else if remove {
                    remove_requested_values(ex.domains, &requested)
                } else {
                    requested
                };
                let payload = url_group_payload(n.as_str(), &updated);
                let ghost pv = payload@;
                let r = write_item(self.client, Action::Update, "WebFilterURLGroup", "Name", n.as_str(), None, payload);
                let ghost second = choose|reply: Reply|
                    write_view(r) == write_outcome(
                        exchange(self.client.conn(), named_request(Action::Update, "WebFilterURLGroup"@, "Name"@, n@, crate::xml::opt_str_view(None), pv), reply),
                        "WebFilterURLGroup"@,
                    );
                assert(write_view(r) == url_group_update_outcome(self.conn(), name@, dv, add, remove, first, second));
                r
            },
        }
    }
}

} // verus!
