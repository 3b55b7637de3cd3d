//! Reading back what is written: the elements a request payload is written as, and what
//! the reply readers take from them. A payload written for an object and read back gives
//! that object, so a reader and the writer of the same object must agree on every tag.

use vstd::prelude::*;
use crate::json::{items_xml, jget, lemma_sorted_unique, sorted_keys, unique_keys, json_xml, Json};
use crate::text::{escape, is_ws, trim, trim_end, trim_start};
use crate::tree::{child_text_of, find_child, NodeView};
use crate::json::{jinsert, lemma_jinsert_other, lemma_jinsert_same, lemma_jinsert_sorted};
use crate::common::lemma_name_of_idempotent;
use crate::ip::{ipv4_of, lemma_ipv4_of_idempotent};
use crate::text::lemma_trim_idempotent;
use crate::service::{
    entries_of_children, normalized_entries, service_create_of, service_json, service_of_node,
    type_from_text, type_text, unique_entries, ServiceView, default_source_port, entry_json, entry_of_node, normalized_entry, EntryView as ServiceEntryView,
    ServiceType,
};
use crate::common::{has_blank, named_list_of, push_unique, trimmed};
use crate::dns::{
    address_json, address_of, address_of_node, addresses_of_children, entry_create_of,
    entry_json as dns_entry_json, entry_of_node as dns_entry_of_node, entry_type_text,
    family_text, host_name_of, is_enable, lemma_host_name_of_idempotent, publish_text,
    unsigned_of, AddressView, EntryType, EntryView as DnsEntryView, IpFamily, PublishOnWan,
};
use crate::ip::{digits_value, is_dec};
use crate::text::{decimal, digit};
use crate::service::{
    group_of, service_group_json, service_group_of_node, str_array, url_group_create_of,
    url_group_json, url_group_of_node, values_of_children, GroupView, UrlGroupView,
};
use crate::network::{
    fqdn_host_create_of, fqdn_host_json, fqdn_host_of_node, FqdnHostView, fqdn_host_group_json, fqdn_host_group_of_node, ip_host_group_json, ip_host_group_of_node,
    ip_host_create_of, ip_host_json, ip_host_of_node, ip_network_create_of, ip_network_json,
    ip_object, ip_range_create_of, ip_range_json, IpHostVariant, ParsedIpHostView,
};

verus! {

/// The elements a value is written as under `tag` (see [`json_xml`]), as the reply reader
/// builds them from that XML: one per array item, nested elements per object member in
/// key order, and the text of a string, number or boolean.
pub open spec fn value_nodes(tag: Seq<char>, v: Json) -> Seq<NodeView>
    decreases v,
{
    match v {
        Json::Null => seq![NodeView { name: tag, text: Seq::empty(), children: Seq::empty() }],
        Json::Bool(b) => seq![
            NodeView {
                name: tag,
                text: if b {
                    seq!['t', 'r', 'u', 'e']
                } else {
                    seq!['f', 'a', 'l', 's', 'e']
                },
                children: Seq::empty(),
            },
        ],
        Json::Number(n) => seq![NodeView { name: tag, text: n, children: Seq::empty() }],
        Json::Str(s) => seq![NodeView { name: tag, text: s, children: Seq::empty() }],
        Json::Array(vs) => items_nodes(tag, vs),
        Json::Object(es) => seq![NodeView { name: tag, text: Seq::empty(), children: members_nodes(es) }],
    }
}

/// The elements of each item of `vs` under `tag`, in order.
pub open spec fn items_nodes(tag: Seq<char>, vs: Seq<Json>) -> Seq<NodeView>
    decreases vs,
{
    if vs.len() == 0 {
        Seq::empty()
    } else {
        items_nodes(tag, vs.drop_last()) + value_nodes(tag, vs.last())
    }
}

/// The elements of each member of `es`, its key as tag, in order.
pub open spec fn members_nodes(es: Seq<(Seq<char>, Json)>) -> Seq<NodeView>
    decreases es,
{
    if es.len() == 0 {
        Seq::empty()
    } else {
        members_nodes(es.drop_last()) + value_nodes(es.last().0, es.last().1)
    }
}

/// The element an object payload `es` is written as under `tag`.
pub open spec fn payload_element(tag: Seq<char>, es: Seq<(Seq<char>, Json)>) -> NodeView {
    NodeView { name: tag, text: Seq::empty(), children: members_nodes(es) }
}

/// Every element a value is written as under `tag` is named `tag`.
proof fn lemma_value_nodes_named(tag: Seq<char>, v: Json)
    ensures
        forall|i: int| 0 <= i < value_nodes(tag, v).len() ==> (#[trigger] value_nodes(tag, v)[i]).name == tag,
    decreases v,
{
    match v {
        Json::Array(vs) => {
            lemma_items_nodes_named(tag, vs);
            assert(value_nodes(tag, v) == items_nodes(tag, vs));
        },
        _ => {
            assert(value_nodes(tag, v).len() == 1 && value_nodes(tag, v)[0].name == tag);
        },
    }
}

/// See [`lemma_value_nodes_named`], for items.
proof fn lemma_items_nodes_named(tag: Seq<char>, vs: Seq<Json>)
    ensures
        forall|i: int| 0 <= i < items_nodes(tag, vs).len() ==> (#[trigger] items_nodes(tag, vs)[i]).name == tag,
    decreases vs,
{
    if vs.len() > 0 {
        lemma_items_nodes_named(tag, vs.drop_last());
        lemma_value_nodes_named(tag, vs.last());
        let a = items_nodes(tag, vs.drop_last());
        let b = value_nodes(tag, vs.last());
        assert forall|i: int| 0 <= i < (a + b).len() implies (#[trigger] (a + b)[i]).name == tag by {
            if i < a.len() {
                assert((a + b)[i] == a[i]);
            } else {
                assert((a + b)[i] == b[i - a.len()]);
            }
        }
    }
}

/// The first element named `k` among `a` followed by `b`: the first in `a`, else the first
/// in `b`.
proof fn lemma_find_child_append(a: Seq<NodeView>, b: Seq<NodeView>, k: Seq<char>)
    ensures
        find_child(a + b, k) == if find_child(a, k) is Some {
            find_child(a, k)
        } else {
            find_child(b, k)
        },
    decreases a.len(),
{
    if a.len() == 0 {
        assert(a + b =~= b);
    } else {
        assert((a + b)[0] == a[0]);
        assert((a + b).drop_first() =~= a.drop_first() + b);
        lemma_find_child_append(a.drop_first(), b, k);
    }
}

/// Among elements none of which is named `k`, none is found.
proof fn lemma_find_child_absent(cs: Seq<NodeView>, k: Seq<char>)
    requires
        forall|i: int| 0 <= i < cs.len() ==> (#[trigger] cs[i]).name != k,
    ensures
        find_child(cs, k) is None,
    decreases cs.len(),
{
    if cs.len() > 0 {
        assert(cs[0].name != k);
        assert forall|i: int| 0 <= i < cs.drop_first().len() implies (#[trigger] cs.drop_first()[i]).name != k by {
            assert(cs.drop_first()[i] == cs[i + 1]);
        }
        lemma_find_child_absent(cs.drop_first(), k);
    }
}

/// Members without the key `k` are written as no element named `k`.
proof fn lemma_members_nodes_absent(es: Seq<(Seq<char>, Json)>, k: Seq<char>)
    requires
        forall|j: int| 0 <= j < es.len() ==> (#[trigger] es[j]).0 != k,
    ensures
        find_child(members_nodes(es), k) is None,
    decreases es.len(),
{
    if es.len() > 0 {
        let init = es.drop_last();
        assert forall|j: int| 0 <= j < init.len() implies (#[trigger] init[j]).0 != k by {
            assert(init[j] == es[j]);
        }
        lemma_members_nodes_absent(init, k);
        let last = es.last();
        assert(last == es[es.len() - 1]);
        lemma_value_nodes_named(last.0, last.1);
        lemma_find_child_absent(value_nodes(last.0, last.1), k);
        lemma_find_child_append(members_nodes(init), value_nodes(last.0, last.1), k);
    }
}

/// The member `(k, v)`, `v` no array, of members with unique keys is written as the one
/// element for `v` under `k`, the first one named `k`.
proof fn lemma_members_nodes_find(es: Seq<(Seq<char>, Json)>, i: int, k: Seq<char>, v: Json)
    requires
        unique_keys(es),
        0 <= i < es.len(),
        es[i] == (k, v),
        !(v is Array),
    ensures
        find_child(members_nodes(es), k) == Some(value_nodes(k, v)[0]),
    decreases es.len(),
{
    let init = es.drop_last();
    let last = es.last();
    assert(last == es[es.len() - 1]);
    assert forall|a: int, b: int| 0 <= a < b < init.len() implies init[a].0 != init[b].0 by {
        assert(init[a] == es[a] && init[b] == es[b]);
    }
    if i == es.len() - 1 {
        assert forall|j: int| 0 <= j < init.len() implies (#[trigger] init[j]).0 != k by {
            assert(init[j] == es[j]);
        }
        lemma_members_nodes_absent(init, k);
        lemma_find_child_append(members_nodes(init), value_nodes(last.0, last.1), k);
        assert(value_nodes(k, v).len() == 1);
    } else {
        assert(init[i] == es[i]);
        lemma_members_nodes_find(init, i, k, v);
        lemma_find_child_append(members_nodes(init), value_nodes(last.0, last.1), k);
    }
}

/// A member `v`, no array, of a payload with sorted keys is written as the one element
/// for `v` under its key, the first child of that name.
proof fn lemma_member_found(tag: Seq<char>, es: Seq<(Seq<char>, Json)>, k: Seq<char>, v: Json)
    requires
        sorted_keys(es),
        jget(es, k) == Some(v),
        !(v is Array),
    ensures
        find_child(payload_element(tag, es).children, k) == Some(value_nodes(k, v)[0]),
{
    lemma_sorted_unique(es);
    lemma_jget_index(es, k);
    let i = choose|i: int| 0 <= i < es.len() && #[trigger] es[i] == (k, jget(es, k)->Some_0);
    lemma_members_nodes_find(es, i, k, v);
}

/// The entry `jget` finds is one of the members.
proof fn lemma_jget_index(es: Seq<(Seq<char>, Json)>, k: Seq<char>)
    requires
        jget(es, k) is Some,
    ensures
        exists|i: int| 0 <= i < es.len() && #[trigger] es[i] == (k, jget(es, k)->Some_0),
    decreases es.len(),
{
    if es[0].0 != k {
        lemma_jget_index(es.drop_first(), k);
        let i = choose|i: int| 0 <= i < es.drop_first().len() && #[trigger] es.drop_first()[i] == (k, jget(es, k)->Some_0);
        assert(es[i + 1] == es.drop_first()[i]);
    } else {
        assert(es[0] == (k, jget(es, k)->Some_0));
    }
}

/// A string member of a payload with sorted keys is read back as the child text the
/// reader sees: the text trimmed, when it is not blank.
pub proof fn lemma_str_member_read(tag: Seq<char>, es: Seq<(Seq<char>, Json)>, k: Seq<char>, s: Seq<char>)
    requires
        sorted_keys(es),
        jget(es, k) == Some(Json::Str(s)),
    ensures
        child_text_of(payload_element(tag, es), k) == if trim(s).len() == 0 {
            None
        } else {
            Some(trim(s))
        },
{
    lemma_member_found(tag, es, k, Json::Str(s));
}

/// Text that neither starts nor ends with white space is its own trim.
pub proof fn lemma_trim_plain(s: Seq<char>)
    requires
        s.len() > 0,
        !is_ws(s[0]),
        !is_ws(s.last()),
    ensures
        trim(s) == s,
{
    assert(trim_start(s) == s);
    assert(trim_end(s) == s);
}

/// Text with no markup character is its own escape.
proof fn lemma_escape_plain(s: Seq<char>)
    requires
        forall|i: int| 0 <= i < s.len() ==> {
            let c = #[trigger] s[i];
            c != '<' && c != '>' && c != '&' && c != '\'' && c != '"'
        },
    ensures
        escape(s) == s,
    decreases s.len(),
{
    if s.len() > 0 {
        assert forall|i: int| 0 <= i < s.drop_last().len() implies {
            let c = #[trigger] s.drop_last()[i];
            c != '<' && c != '>' && c != '&' && c != '\'' && c != '"'
        } by {
            assert(s.drop_last()[i] == s[i]);
        }
        lemma_escape_plain(s.drop_last());
        assert(s[s.len() - 1] == s.last());
        assert(s.drop_last() + seq![s.last()] =~= s);
    }
}

/// A boolean is written as the text of its name: `true` or `false` under its tag, just as
/// the string `"true"` or `"false"` is; both read back as that text.
pub proof fn lemma_bool_written_as_its_name(tag: Seq<char>, b: bool)
    ensures
        json_xml(tag, Json::Bool(b)) == json_xml(tag, Json::Str(if b { "true"@ } else { "false"@ })),
        value_nodes(tag, Json::Bool(b)) == value_nodes(tag, Json::Str(if b { "true"@ } else { "false"@ })),
{
    reveal_strlit("true");
    reveal_strlit("false");
    assert("true"@ =~= seq!['t', 'r', 'u', 'e']);
    assert("false"@ =~= seq!['f', 'a', 'l', 's', 'e']);
    lemma_escape_plain(seq!['t', 'r', 'u', 'e']);
    lemma_escape_plain(seq!['f', 'a', 'l', 's', 'e']);
}

/// The members of an IP host record written for `name` with host type `host_type`
/// (see [`ip_object`]), plus `k1 = v1` and `k2 = v2` when given, have sorted keys and
/// read back as written: each string member is the value under its key.
proof fn lemma_ip_members(
    name: Seq<char>,
    host_type: Seq<char>,
    k1: Seq<char>,
    v1: Seq<char>,
    k2: Seq<char>,
    v2: Seq<char>,
)
    requires
        k1 == "IPAddress"@ || k1 == "StartIPAddress"@,
        k2 == "Subnet"@ || k2 == "EndIPAddress"@,
    ensures
        ({
            let e3 = ip_object(name, host_type);
            let e4 = jinsert(e3, k1, Json::Str(v1));
            let e5 = jinsert(e4, k2, Json::Str(v2));
            &&& sorted_keys(e3) && sorted_keys(e4) && sorted_keys(e5)
            &&& jget(e3, "Name"@) == Some(Json::Str(name)) && jget(e4, "Name"@) == Some(Json::Str(name))
                && jget(e5, "Name"@) == Some(Json::Str(name))
            &&& jget(e3, "HostType"@) == Some(Json::Str(host_type)) && jget(e4, "HostType"@) == Some(
                Json::Str(host_type),
            ) && jget(e5, "HostType"@) == Some(Json::Str(host_type))
            &&& jget(e3, "IPFamily"@) == Some(Json::Str("IPv4"@)) && jget(e4, "IPFamily"@) == Some(
                Json::Str("IPv4"@),
            ) && jget(e5, "IPFamily"@) == Some(Json::Str("IPv4"@))
            &&& jget(e4, k1) == Some(Json::Str(v1)) && jget(e5, k1) == Some(Json::Str(v1))
            &&& jget(e5, k2) == Some(Json::Str(v2))
        }),
{
    reveal_strlit("Name");
    reveal_strlit("HostType");
    reveal_strlit("IPFamily");
    reveal_strlit("IPAddress");
    reveal_strlit("StartIPAddress");
    reveal_strlit("Subnet");
    reveal_strlit("EndIPAddress");
    let e0 = Seq::<(Seq<char>, Json)>::empty();
    let e1 = jinsert(e0, "Name"@, Json::Str(name));
    let e2 = jinsert(e1, "HostType"@, Json::Str(host_type));
    let e3 = jinsert(e2, "IPFamily"@, Json::Str("IPv4"@));
    let e4 = jinsert(e3, k1, Json::Str(v1));
    let e5 = jinsert(e4, k2, Json::Str(v2));
    assert(e3 == ip_object(name, host_type));
    lemma_jinsert_sorted(e0, "Name"@, Json::Str(name));
    lemma_jinsert_sorted(e1, "HostType"@, Json::Str(host_type));
    lemma_jinsert_sorted(e2, "IPFamily"@, Json::Str("IPv4"@));
    lemma_jinsert_sorted(e3, k1, Json::Str(v1));
    lemma_jinsert_sorted(e4, k2, Json::Str(v2));
    assert("Name"@ != "HostType"@ && "Name"@ != "IPFamily"@ && "HostType"@ != "IPFamily"@);
    assert(k1 != "Name"@ && k1 != "HostType"@ && k1 != "IPFamily"@ && k1 != k2);
    assert(k2 != "Name"@ && k2 != "HostType"@ && k2 != "IPFamily"@);
    lemma_jinsert_same(e0, "Name"@, Json::Str(name));
    lemma_jinsert_same(e1, "HostType"@, Json::Str(host_type));
    lemma_jinsert_other(e1, "HostType"@, Json::Str(host_type), "Name"@);
    lemma_jinsert_same(e2, "IPFamily"@, Json::Str("IPv4"@));
    lemma_jinsert_other(e2, "IPFamily"@, Json::Str("IPv4"@), "Name"@);
    lemma_jinsert_other(e2, "IPFamily"@, Json::Str("IPv4"@), "HostType"@);
    lemma_jinsert_same(e3, k1, Json::Str(v1));
    lemma_jinsert_other(e3, k1, Json::Str(v1), "Name"@);
    lemma_jinsert_other(e3, k1, Json::Str(v1), "HostType"@);
    lemma_jinsert_other(e3, k1, Json::Str(v1), "IPFamily"@);
    lemma_jinsert_same(e4, k2, Json::Str(v2));
    lemma_jinsert_other(e4, k2, Json::Str(v2), "Name"@);
    lemma_jinsert_other(e4, k2, Json::Str(v2), "HostType"@);
    lemma_jinsert_other(e4, k2, Json::Str(v2), "IPFamily"@);
    lemma_jinsert_other(e4, k2, Json::Str(v2), k1);
}

/// The texts of the IPv4 family and of the host types read back as written.
proof fn lemma_ip_literals_plain()
    ensures
        trim("IPv4"@) == "IPv4"@,
        trim("IP"@) == "IP"@,
        trim("Network"@) == "Network"@,
        trim("IPRange"@) == "IPRange"@,
        "IP"@ != "Network"@ && "IP"@ != "IPRange"@ && "Network"@ != "IPRange"@,
        "IPv4"@.len() > 0 && "IP"@.len() > 0 && "Network"@.len() > 0 && "IPRange"@.len() > 0,
{
    reveal_strlit("IPv4");
    reveal_strlit("IP");
    reveal_strlit("Network");
    reveal_strlit("IPRange");
    lemma_trim_plain("IPv4"@);
    lemma_trim_plain("IP"@);
    lemma_trim_plain("Network"@);
    lemma_trim_plain("IPRange"@);
}

/// An IP range written for the range `name` from `start` to `end` reads back as that
/// range: its name, its first address and its last address, each in its own place.
pub proof fn lemma_ip_range_read_back(name: Seq<char>, start: Seq<char>, end: Seq<char>)
    requires
        ip_range_create_of(name, start, end) is Ok,
    ensures
        ({
            let r = ip_range_create_of(name, start, end)->Ok_0;
            ip_host_of_node(payload_element("IPHost"@, ip_range_json(r)->Object_0)) == Ok::<
                Option<ParsedIpHostView>,
                crate::error::ErrorView,
            >(
                Some(
                    ParsedIpHostView {
                        variant: IpHostVariant::Range,
                        name: r.name,
                        ip_address: None,
                        subnet: None,
                        start_ip: Some(r.start_ip),
                        end_ip: Some(r.end_ip),
                    },
                ),
            )
        }),
{
    let r = ip_range_create_of(name, start, end)->Ok_0;
    reveal_strlit("StartIPAddress");
    reveal_strlit("EndIPAddress");
    lemma_ip_members(r.name, "IPRange"@, "StartIPAddress"@, r.start_ip, "EndIPAddress"@, r.end_ip);
    let es = ip_range_json(r)->Object_0;
    lemma_ip_literals_plain();
    lemma_trim_idempotent(name);
    lemma_trim_idempotent(start);
    lemma_trim_idempotent(end);
    lemma_str_member_read("IPHost"@, es, "IPFamily"@, "IPv4"@);
    lemma_str_member_read("IPHost"@, es, "Name"@, r.name);
    lemma_str_member_read("IPHost"@, es, "HostType"@, "IPRange"@);
    lemma_str_member_read("IPHost"@, es, "StartIPAddress"@, r.start_ip);
    lemma_str_member_read("IPHost"@, es, "EndIPAddress"@, r.end_ip);
    lemma_name_of_idempotent("IP range name"@, "IP host name"@, name);
    lemma_ipv4_of_idempotent("start_ip"@, "StartIPAddress"@, start);
    lemma_ipv4_of_idempotent("end_ip"@, "EndIPAddress"@, end);
    let n = payload_element("IPHost"@, es);
    assert(r.name.len() > 0 && trim(r.name) == r.name);
    assert(child_text_of(n, "IPFamily"@) == Some("IPv4"@));
    assert(child_text_of(n, "Name"@) == Some(r.name));
    assert(child_text_of(n, "HostType"@) == Some("IPRange"@));
    assert(child_text_of(n, "StartIPAddress"@) == Some(r.start_ip));
    assert(child_text_of(n, "EndIPAddress"@) == Some(r.end_ip));
    assert(crate::network::child_ipv4_of(n, "StartIPAddress"@) == Ok::<Option<Seq<char>>, crate::error::ErrorView>(Some(r.start_ip)));
    assert(crate::network::child_ipv4_of(n, "EndIPAddress"@) == Ok::<Option<Seq<char>>, crate::error::ErrorView>(Some(r.end_ip)));
}

/// An IP host written for the host `name` at `ip` reads back as that host.
pub proof fn lemma_ip_host_read_back(name: Seq<char>, ip: Seq<char>)
    requires
        ip_host_create_of(name, ip) is Ok,
    ensures
        ({
            let h = ip_host_create_of(name, ip)->Ok_0;
            ip_host_of_node(payload_element("IPHost"@, ip_host_json(h)->Object_0)) == Ok::<
                Option<ParsedIpHostView>,
                crate::error::ErrorView,
            >(
                Some(
                    ParsedIpHostView {
                        variant: IpHostVariant::Host,
                        name: h.name,
                        ip_address: Some(h.ip_address),
                        subnet: None,
                        start_ip: None,
                        end_ip: None,
                    },
                ),
            )
        }),
{
    let h = ip_host_create_of(name, ip)->Ok_0;
    reveal_strlit("IPAddress");
    reveal_strlit("EndIPAddress");
    lemma_ip_members(h.name, "IP"@, "IPAddress"@, h.ip_address, "EndIPAddress"@, Seq::empty());
    let es = ip_host_json(h)->Object_0;
    lemma_ip_literals_plain();
    lemma_trim_idempotent(name);
    lemma_trim_idempotent(ip);
    lemma_str_member_read("IPHost"@, es, "IPFamily"@, "IPv4"@);
    lemma_str_member_read("IPHost"@, es, "Name"@, h.name);
    lemma_str_member_read("IPHost"@, es, "HostType"@, "IP"@);
    lemma_str_member_read("IPHost"@, es, "IPAddress"@, h.ip_address);
    lemma_name_of_idempotent("IP host name"@, "IP host name"@, name);
    lemma_ipv4_of_idempotent("ip_address"@, "IPAddress"@, ip);
    let n = payload_element("IPHost"@, es);
    assert(child_text_of(n, "IPFamily"@) == Some("IPv4"@));
    assert(child_text_of(n, "HostType"@) == Some("IP"@));
}

/// An IP network written for the network `name` at `ip` with `subnet` reads back as that
/// network: its address and its mask, each in its own place.
pub proof fn lemma_ip_network_read_back(name: Seq<char>, ip: Seq<char>, subnet: Seq<char>)
    requires
        ip_network_create_of(name, ip, subnet) is Ok,
    ensures
        ({
            let w = ip_network_create_of(name, ip, subnet)->Ok_0;
            ip_host_of_node(payload_element("IPHost"@, ip_network_json(w)->Object_0)) == Ok::<
                Option<ParsedIpHostView>,
                crate::error::ErrorView,
            >(
                Some(
                    ParsedIpHostView {
                        variant: IpHostVariant::Network,
                        name: w.name,
                        ip_address: Some(w.ip_address),
                        subnet: Some(w.subnet),
                        start_ip: None,
                        end_ip: None,
                    },
                ),
            )
        }),
{
    let w = ip_network_create_of(name, ip, subnet)->Ok_0;
    reveal_strlit("IPAddress");
    reveal_strlit("Subnet");
    lemma_ip_members(w.name, "Network"@, "IPAddress"@, w.ip_address, "Subnet"@, w.subnet);
    let es = ip_network_json(w)->Object_0;
    lemma_ip_literals_plain();
    lemma_trim_idempotent(name);
    lemma_trim_idempotent(ip);
    lemma_trim_idempotent(subnet);
    lemma_str_member_read("IPHost"@, es, "IPFamily"@, "IPv4"@);
    lemma_str_member_read("IPHost"@, es, "Name"@, w.name);
    lemma_str_member_read("IPHost"@, es, "HostType"@, "Network"@);
    lemma_str_member_read("IPHost"@, es, "IPAddress"@, w.ip_address);
    lemma_str_member_read("IPHost"@, es, "Subnet"@, w.subnet);
    lemma_name_of_idempotent("IP network name"@, "IP host name"@, name);
    lemma_ipv4_of_idempotent("ip_address"@, "IPAddress"@, ip);
    lemma_ipv4_of_idempotent("subnet"@, "Subnet"@, subnet);
    let n = payload_element("IPHost"@, es);
    assert(child_text_of(n, "IPFamily"@) == Some("IPv4"@));
    assert(child_text_of(n, "HostType"@) == Some("Network"@));
}

/// Up to three members bound in turn under distinct keys have sorted keys and are each
/// found under their key.
proof fn lemma_three_members(
    k1: Seq<char>,
    v1: Json,
    k2: Seq<char>,
    v2: Json,
    k3: Seq<char>,
    v3: Json,
)
    requires
        k1 != k2 && k1 != k3 && k2 != k3,
    ensures
        ({
            let e1 = jinsert(Seq::empty(), k1, v1);
            let e2 = jinsert(e1, k2, v2);
            let e3 = jinsert(e2, k3, v3);
            &&& sorted_keys(e1) && sorted_keys(e2) && sorted_keys(e3)
            &&& jget(e1, k1) == Some(v1)
            &&& jget(e2, k1) == Some(v1) && jget(e2, k2) == Some(v2)
            &&& jget(e3, k1) == Some(v1) && jget(e3, k2) == Some(v2)
                && jget(e3, k3) == Some(v3)
        }),
{
    let e0 = Seq::<(Seq<char>, Json)>::empty();
    let e1 = jinsert(e0, k1, v1);
    let e2 = jinsert(e1, k2, v2);
    lemma_jinsert_sorted(e0, k1, v1);
    lemma_jinsert_sorted(e1, k2, v2);
    lemma_jinsert_sorted(e2, k3, v3);
    lemma_jinsert_same(e0, k1, v1);
    lemma_jinsert_same(e1, k2, v2);
    lemma_jinsert_other(e1, k2, v2, k1);
    lemma_jinsert_same(e2, k3, v3);
    lemma_jinsert_other(e2, k3, v3, k1);
    lemma_jinsert_other(e2, k3, v3, k2);
}

/// A required field as normalized is its own trim and not empty.
proof fn lemma_required_plain(m: Seq<char>, v: Option<Seq<char>>)
    requires
        crate::service::required_field(m, v) is Ok,
    ensures
        crate::service::required_field(m, v)->Ok_0.len() > 0,
        trim(crate::service::required_field(m, v)->Ok_0) == crate::service::required_field(m, v)->Ok_0,
{
    lemma_trim_idempotent(v->Some_0);
}

/// An entry of a service of type `t`, as normalized, written as a `ServiceDetail` and
/// read back gives that entry: each field is read from the tag it was written under
/// (`Protocol`, `SourcePort` and `DestinationPort` for TCP/UDP, `ProtocolName` for IP,
/// `ICMPType` and `ICMPCode` for ICMP, `ICMPv6Type` and `ICMPv6Code` for ICMPv6).
pub proof fn lemma_service_entry_read_back(t: ServiceType, e: ServiceEntryView)
    requires
        normalized_entry(t, e) is Ok,
    ensures
        entry_of_node(t, payload_element("ServiceDetail"@, entry_json(t, normalized_entry(t, e)->Ok_0)->Object_0))
            == normalized_entry(t, e)->Ok_0,
{
    let n = normalized_entry(t, e)->Ok_0;
    let tag = "ServiceDetail"@;
    reveal_strlit("SourcePort");
    reveal_strlit("DestinationPort");
    reveal_strlit("Protocol");
    reveal_strlit("ProtocolName");
    reveal_strlit("ICMPType");
    reveal_strlit("ICMPCode");
    reveal_strlit("ICMPv6Type");
    reveal_strlit("ICMPv6Code");
    assert("ICMPType"@[4] != "ICMPCode"@[4]);
    assert("ICMPv6Type"@[6] != "ICMPv6Code"@[6]);
    match t {
        ServiceType::TcpOrUdp => {
            lemma_required_plain(crate::service::tcp_udp_message(), e.protocol);
            lemma_required_plain(crate::service::tcp_udp_message(), e.dst_port);
            reveal_strlit("1:65535");
            lemma_trim_plain(default_source_port());
            if e.src_port is Some {
                lemma_trim_idempotent(e.src_port->Some_0);
            }
            let p = n.protocol->Some_0;
            let sp = n.src_port->Some_0;
            let dp = n.dst_port->Some_0;
            lemma_three_members("SourcePort"@, Json::Str(sp), "DestinationPort"@, Json::Str(dp), "Protocol"@, Json::Str(p));
            let es = entry_json(t, n)->Object_0;
            lemma_str_member_read(tag, es, "Protocol"@, p);
            lemma_str_member_read(tag, es, "SourcePort"@, sp);
            lemma_str_member_read(tag, es, "DestinationPort"@, dp);
        },
        ServiceType::Ip => {
            lemma_required_plain(crate::service::ip_message(), e.protocol);
            let p = n.protocol->Some_0;
            lemma_three_members("ProtocolName"@, Json::Str(p), "ICMPType"@, Json::Str(p), "ICMPCode"@, Json::Str(p));
            let es = entry_json(t, n)->Object_0;
            lemma_str_member_read(tag, es, "ProtocolName"@, p);
        },
        ServiceType::Icmp => {
            lemma_required_plain(crate::service::icmp_message(t), e.icmp_type);
            lemma_required_plain(crate::service::icmp_message(t), e.icmp_code);
            let a = n.icmp_type->Some_0;
            let b = n.icmp_code->Some_0;
            lemma_three_members("ICMPType"@, Json::Str(a), "ICMPCode"@, Json::Str(b), "Protocol"@, Json::Str(a));
            let es = entry_json(t, n)->Object_0;
            lemma_str_member_read(tag, es, "ICMPType"@, a);
            lemma_str_member_read(tag, es, "ICMPCode"@, b);
        },
        ServiceType::IcmpV6 => {
            lemma_required_plain(crate::service::icmp_message(t), e.icmp_type);
            lemma_required_plain(crate::service::icmp_message(t), e.icmp_code);
            let a = n.icmp_type->Some_0;
            let b = n.icmp_code->Some_0;
            lemma_three_members("ICMPv6Type"@, Json::Str(a), "ICMPv6Code"@, Json::Str(b), "Protocol"@, Json::Str(a));
            let es = entry_json(t, n)->Object_0;
            lemma_str_member_read(tag, es, "ICMPv6Type"@, a);
            lemma_str_member_read(tag, es, "ICMPv6Code"@, b);
        },
    }
}

/// Whether `ms` is a list of names as normalized: each not empty and its own trim, none
/// twice.
pub open spec fn normalized_names(ms: Seq<Seq<char>>) -> bool {
    &&& ms.no_duplicates()
    &&& forall|i: int| 0 <= i < ms.len() ==> (#[trigger] ms[i]).len() > 0 && trim(ms[i]) == ms[i]
}

/// A list of names as normalized is normalized.
proof fn lemma_named_list_normalized(label: Seq<char>, vs: Seq<Seq<char>>, require_non_empty: bool)
    requires
        named_list_of(label, vs, require_non_empty) is Ok,
    ensures
        normalized_names(named_list_of(label, vs, require_non_empty)->Ok_0),
{
    let u = named_list_of(label, vs, require_non_empty)->Ok_0;
    crate::laws::lemma_named_list_keeps_first_occurrences(label, vs, require_non_empty, Seq::empty());
    assert forall|i: int| 0 <= i < u.len() implies (#[trigger] u[i]).len() > 0 && trim(u[i]) == u[i] by {
        crate::laws::lemma_named_list_keeps_first_occurrences(label, vs, require_non_empty, u[i]);
        assert(u.contains(u[i]));
        let j = choose|j: int| 0 <= j < trimmed(vs).len() && trimmed(vs)[j] == u[i];
        assert(trimmed(vs)[j] == trim(vs[j]));
        assert(!has_blank(vs));
        lemma_trim_idempotent(vs[j]);
    }
}

/// The elements written for a list of names, read back as the values of the children of
/// that name, give the list.
proof fn lemma_values_of_items(tag: Seq<char>, ms: Seq<Seq<char>>)
    requires
        normalized_names(ms),
    ensures
        values_of_children(items_nodes(tag, str_array(ms)->Array_0), tag) == ms,
    decreases ms.len(),
{
    if ms.len() > 0 {
        let init = ms.drop_last();
        let x = ms.last();
        assert(x == ms[ms.len() - 1]);
        assert forall|i: int| 0 <= i < init.len() implies (#[trigger] init[i]).len() > 0 && trim(init[i]) == init[i] by {
            assert(init[i] == ms[i]);
        }
        assert(init.no_duplicates()) by {
            assert forall|i: int, j: int| 0 <= i < init.len() && 0 <= j < init.len() && i != j implies init[i] != init[j] by {
                assert(init[i] == ms[i] && init[j] == ms[j]);
            }
        }
        lemma_values_of_items(tag, init);
        let vs = str_array(ms)->Array_0;
        assert(vs.drop_last() =~= str_array(init)->Array_0);
        assert(vs.last() == Json::Str(x));
        let a = items_nodes(tag, vs.drop_last());
        let b = value_nodes(tag, vs.last());
        let cs = a + b;
        assert(items_nodes(tag, vs) == cs);
        assert(cs.drop_last() =~= a);
        assert(cs.last() == b[0]);
        assert(!init.contains(x)) by {
            if init.contains(x) {
                let k = choose|k: int| 0 <= k < init.len() && init[k] == x;
                assert(ms[k] == ms[ms.len() - 1]);
            }
        }
        assert(push_unique(init, x) == init.push(x));
        assert(init.push(x) =~= ms);
    }
}

/// A list member `list` holding the names `ms` under `member`, in a payload with sorted
/// keys, reads back as those names.
proof fn lemma_list_member_read(tag: Seq<char>, es: Seq<(Seq<char>, Json)>, list: Seq<char>, member: Seq<char>, ms: Seq<Seq<char>>)
    requires
        sorted_keys(es),
        jget(es, list) == Some(Json::Object(jinsert(Seq::empty(), member, str_array(ms)))),
        normalized_names(ms),
    ensures
        find_child(payload_element(tag, es).children, list) is Some,
        values_of_children(find_child(payload_element(tag, es).children, list)->Some_0.children, member) == ms,
{
    let inner = jinsert(Seq::<(Seq<char>, Json)>::empty(), member, str_array(ms));
    lemma_member_found(tag, es, list, Json::Object(inner));
    assert(inner =~= seq![(member, str_array(ms))]);
    assert(inner.drop_last() =~= Seq::<(Seq<char>, Json)>::empty());
    assert(inner.last() == (member, str_array(ms)));
    assert(members_nodes(inner.drop_last()) == Seq::<NodeView>::empty());
    assert(members_nodes(inner) == Seq::<NodeView>::empty() + value_nodes(member, str_array(ms)));
    assert(Seq::<NodeView>::empty() + items_nodes(member, str_array(ms)->Array_0) =~= items_nodes(member, str_array(ms)->Array_0));
    assert(members_nodes(inner) == items_nodes(member, str_array(ms)->Array_0));
    lemma_values_of_items(member, ms);
}

/// How a description written as text reads back: a non-empty one as itself, an empty or
/// missing one as none.
pub open spec fn description_read(description: Option<Seq<char>>) -> Option<Seq<char>> {
    match description {
        Some(d) => if d.len() > 0 {
            Some(d)
        } else {
            None
        },
        None => None,
    }
}

/// An IP host group, as normalized, written with a trimmed description and read back gives
/// its name, its hosts in order and its description.
pub proof fn lemma_ip_host_group_read_back(
    label: Seq<char>,
    member_label: Seq<char>,
    name: Seq<char>,
    hosts: Seq<Seq<char>>,
    description: Option<Seq<char>>,
)
    requires
        group_of(label, member_label, name, hosts) is Ok,
        description matches Some(d) ==> trim(d) == d,
    ensures
        ({
            let g = group_of(label, member_label, name, hosts)->Ok_0;
            ip_host_group_of_node(payload_element("IPHostGroup"@, ip_host_group_json(g.name, g.members, description)->Object_0))
                == Ok::<Option<GroupView>, crate::error::ErrorView>(
                Some(GroupView { name: g.name, members: g.members, description: description_read(description) }),
            )
        }),
{
    let g = group_of(label, member_label, name, hosts)->Ok_0;
    lemma_named_list_normalized(member_label, hosts, true);
    lemma_trim_idempotent(name);
    crate::common::lemma_name_of_idempotent(label, "IP host group name"@, name);
    reveal_strlit("Name");
    reveal_strlit("IPFamily");
    reveal_strlit("Description");
    reveal_strlit("HostList");
    reveal_strlit("IPv4");
    lemma_trim_plain("IPv4"@);
    assert("IPFamily"@[0] != "HostList"@[0]);
    let d = crate::service::text_or(description, Seq::empty());
    let inner = Json::Object(jinsert(Seq::empty(), "Host"@, str_array(g.members)));
    lemma_three_members("Name"@, Json::Str(g.name), "IPFamily"@, Json::Str("IPv4"@), "Description"@, Json::Str(d));
    let e3 = jinsert(
        jinsert(jinsert(Seq::empty(), "Name"@, Json::Str(g.name)), "IPFamily"@, Json::Str("IPv4"@)),
        "Description"@,
        Json::Str(d),
    );
    let es = jinsert(e3, "HostList"@, inner);
    lemma_jinsert_sorted(e3, "HostList"@, inner);
    lemma_jinsert_same(e3, "HostList"@, inner);
    lemma_jinsert_other(e3, "HostList"@, inner, "Name"@);
    lemma_jinsert_other(e3, "HostList"@, inner, "IPFamily"@);
    lemma_jinsert_other(e3, "HostList"@, inner, "Description"@);
    assert(es == ip_host_group_json(g.name, g.members, description)->Object_0);
    lemma_str_member_read("IPHostGroup"@, es, "Name"@, g.name);
    lemma_str_member_read("IPHostGroup"@, es, "IPFamily"@, "IPv4"@);
    lemma_str_member_read("IPHostGroup"@, es, "Description"@, d);
    lemma_list_member_read("IPHostGroup"@, es, "HostList"@, "Host"@, g.members);
    if description is Some {
        lemma_trim_idempotent(d);
    }
}

/// An FQDN host group, as normalized, written with a trimmed description and read back
/// gives its name, its hosts in order and its description.
pub proof fn lemma_fqdn_host_group_read_back(
    label: Seq<char>,
    member_label: Seq<char>,
    name: Seq<char>,
    hosts: Seq<Seq<char>>,
    description: Option<Seq<char>>,
)
    requires
        group_of(label, member_label, name, hosts) is Ok,
        description matches Some(d) ==> trim(d) == d,
    ensures
        ({
            let g = group_of(label, member_label, name, hosts)->Ok_0;
            fqdn_host_group_of_node(payload_element("FQDNHostGroup"@, fqdn_host_group_json(g.name, g.members, description)->Object_0))
                == Ok::<Option<GroupView>, crate::error::ErrorView>(
                Some(GroupView { name: g.name, members: g.members, description: description_read(description) }),
            )
        }),
{
    let g = group_of(label, member_label, name, hosts)->Ok_0;
    lemma_named_list_normalized(member_label, hosts, true);
    lemma_trim_idempotent(name);
    crate::common::lemma_name_of_idempotent(label, "FQDN host group name"@, name);
    reveal_strlit("Name");
    reveal_strlit("Description");
    reveal_strlit("FQDNHostList");
    let d = crate::service::text_or(description, Seq::empty());
    let inner = Json::Object(jinsert(Seq::empty(), "FQDNHost"@, str_array(g.members)));
    lemma_three_members("Name"@, Json::Str(g.name), "Description"@, Json::Str(d), "FQDNHostList"@, inner);
    let es = fqdn_host_group_json(g.name, g.members, description)->Object_0;
    lemma_str_member_read("FQDNHostGroup"@, es, "Name"@, g.name);
    lemma_str_member_read("FQDNHostGroup"@, es, "Description"@, d);
    lemma_list_member_read("FQDNHostGroup"@, es, "FQDNHostList"@, "FQDNHost"@, g.members);
    if description is Some {
        lemma_trim_idempotent(d);
    }
}

/// A service group, as normalized, written with a trimmed description and read back gives
/// its name, its services in order and its description.
pub proof fn lemma_service_group_read_back(
    label: Seq<char>,
    member_label: Seq<char>,
    name: Seq<char>,
    services: Seq<Seq<char>>,
    description: Option<Seq<char>>,
)
    requires
        group_of(label, member_label, name, services) is Ok,
        description matches Some(d) ==> trim(d) == d,
    ensures
        ({
            let g = group_of(label, member_label, name, services)->Ok_0;
            service_group_of_node(payload_element("ServiceGroup"@, service_group_json(g.name, g.members, description)->Object_0))
                == Ok::<Option<GroupView>, crate::error::ErrorView>(
                Some(GroupView { name: g.name, members: g.members, description: description_read(description) }),
            )
        }),
{
    let g = group_of(label, member_label, name, services)->Ok_0;
    lemma_named_list_normalized(member_label, services, true);
    lemma_trim_idempotent(name);
    crate::common::lemma_name_of_idempotent(label, "service group name"@, name);
    reveal_strlit("Name");
    reveal_strlit("Description");
    reveal_strlit("ServiceList");
    let d = crate::service::text_or(description, Seq::empty());
    let inner = Json::Object(jinsert(Seq::empty(), "Service"@, str_array(g.members)));
    lemma_three_members("Name"@, Json::Str(g.name), "Description"@, Json::Str(d), "ServiceList"@, inner);
    let es = service_group_json(g.name, g.members, description)->Object_0;
    lemma_str_member_read("ServiceGroup"@, es, "Name"@, g.name);
    lemma_str_member_read("ServiceGroup"@, es, "Description"@, d);
    lemma_list_member_read("ServiceGroup"@, es, "ServiceList"@, "Service"@, g.members);
    if description is Some {
        lemma_trim_idempotent(d);
    }
}

/// A URL group, as normalized, written and read back gives its name and its domains in
/// order.
pub proof fn lemma_url_group_read_back(name: Seq<char>, domains: Seq<Seq<char>>)
    requires
        url_group_create_of(name, domains) is Ok,
    ensures
        ({
            let g = url_group_create_of(name, domains)->Ok_0;
            url_group_of_node(payload_element("WebFilterURLGroup"@, url_group_json(g.name, g.domains)->Object_0))
                == Ok::<Option<UrlGroupView>, crate::error::ErrorView>(Some(g))
        }),
{
    let g = url_group_create_of(name, domains)->Ok_0;
    lemma_named_list_normalized("domain"@, domains, true);
    lemma_trim_idempotent(name);
    reveal_strlit("Name");
    reveal_strlit("URLlist");
    let inner = Json::Object(jinsert(Seq::empty(), "URL"@, str_array(g.domains)));
    let e0 = Seq::<(Seq<char>, Json)>::empty();
    let e1 = jinsert(e0, "Name"@, Json::Str(g.name));
    assert("Name"@.len() == 4 && "URLlist"@.len() == 7);
    assert("Name"@ != "URLlist"@);
    lemma_jinsert_sorted(e0, "Name"@, Json::Str(g.name));
    lemma_jinsert_sorted(e1, "URLlist"@, inner);
    lemma_jinsert_same(e0, "Name"@, Json::Str(g.name));
    lemma_jinsert_same(e1, "URLlist"@, inner);
    lemma_jinsert_other(e1, "URLlist"@, inner, "Name"@);
    let es = url_group_json(g.name, g.domains)->Object_0;
    lemma_str_member_read("WebFilterURLGroup"@, es, "Name"@, g.name);
    lemma_list_member_read("WebFilterURLGroup"@, es, "URLlist"@, "URL"@, g.domains);
}

/// An FQDN host written with its domain name, groups without repeats and a trimmed
/// description, read back gives its name, its domain name, its groups in order and its
/// description.
pub proof fn lemma_fqdn_host_read_back(
    name: Seq<char>,
    fqdn: Seq<char>,
    groups: Seq<Seq<char>>,
    description: Option<Seq<char>>,
)
    requires
        fqdn_host_create_of(name, fqdn) is Ok,
        normalized_names(groups),
        description matches Some(d) ==> trim(d) == d,
    ensures
        ({
            let h = fqdn_host_create_of(name, fqdn)->Ok_0;
            fqdn_host_of_node(payload_element("FQDNHost"@, fqdn_host_json(h.name, h.fqdn, groups, description)->Object_0))
                == Ok::<Option<FqdnHostView>, crate::error::ErrorView>(
                Some(FqdnHostView { name: h.name, fqdn: h.fqdn, groups, description: description_read(description) }),
            )
        }),
{
    let h = fqdn_host_create_of(name, fqdn)->Ok_0;
    lemma_trim_idempotent(name);
    lemma_trim_idempotent(fqdn);
    reveal_strlit("Name");
    reveal_strlit("Description");
    reveal_strlit("FQDN");
    reveal_strlit("FQDNHostGroupList");
    let d = crate::service::text_or(description, Seq::empty());
    let inner = Json::Object(jinsert(Seq::empty(), "FQDNHostGroup"@, str_array(groups)));
    lemma_three_members("Name"@, Json::Str(h.name), "Description"@, Json::Str(d), "FQDN"@, Json::Str(h.fqdn));
    let e3 = jinsert(
        jinsert(jinsert(Seq::empty(), "Name"@, Json::Str(h.name)), "Description"@, Json::Str(d)),
        "FQDN"@,
        Json::Str(h.fqdn),
    );
    assert("FQDN"@.len() == 4 && "FQDNHostGroupList"@.len() == 17 && "Name"@.len() == 4);
    assert("Description"@.len() == 11);
    let es = jinsert(e3, "FQDNHostGroupList"@, inner);
    lemma_jinsert_sorted(e3, "FQDNHostGroupList"@, inner);
    lemma_jinsert_same(e3, "FQDNHostGroupList"@, inner);
    lemma_jinsert_other(e3, "FQDNHostGroupList"@, inner, "Name"@);
    lemma_jinsert_other(e3, "FQDNHostGroupList"@, inner, "Description"@);
    lemma_jinsert_other(e3, "FQDNHostGroupList"@, inner, "FQDN"@);
    assert(es == fqdn_host_json(h.name, h.fqdn, groups, description)->Object_0);
    lemma_str_member_read("FQDNHost"@, es, "Name"@, h.name);
    lemma_str_member_read("FQDNHost"@, es, "FQDN"@, h.fqdn);
    lemma_str_member_read("FQDNHost"@, es, "Description"@, d);
    lemma_list_member_read("FQDNHost"@, es, "FQDNHostGroupList"@, "FQDNHostGroup"@, groups);
    if description is Some {
        lemma_trim_idempotent(d);
    }
}

/// A digit character spells its value.
proof fn lemma_digit_value(d: nat)
    requires
        d < 10,
    ensures
        (digit(d) as int) - ('0' as int) == d,
        is_dec(digit(d)),
{
}

/// The decimal form of a number is digits only, not empty, and spells the number.
proof fn lemma_decimal_digits(n: nat)
    ensures
        decimal(n).len() > 0,
        forall|i: int| 0 <= i < decimal(n).len() ==> is_dec(#[trigger] decimal(n)[i]),
        digits_value(decimal(n)) == n,
    decreases n,
{
    if n < 10 {
        lemma_digit_value(n);
        assert(decimal(n).drop_last() =~= Seq::<char>::empty());
        assert(decimal(n).last() == digit(n));
        assert(digits_value(Seq::<char>::empty()) == 0);
        assert(digits_value(decimal(n)) == n);
    } else {
        lemma_decimal_digits(n / 10);
        lemma_digit_value(n % 10);
        let d = decimal(n / 10);
        assert(decimal(n) == d.push(digit(n % 10)));
        assert(decimal(n).drop_last() =~= d);
        assert forall|i: int| 0 <= i < decimal(n).len() implies is_dec(#[trigger] decimal(n)[i]) by {
            if i < d.len() {
                assert(decimal(n)[i] == d[i]);
            }
        }
        assert(decimal(n).last() == digit(n % 10));
        assert(digits_value(decimal(n)) == digits_value(d) * 10 + ((digit(n % 10) as int) - ('0' as int)) as nat);
        assert((n / 10) * 10 + n % 10 == n);
        assert(digits_value(decimal(n)) == n);
    }
}

/// A number written as its decimal form is read back as that number, when no larger than
/// the limit; the text is its own trim.
proof fn lemma_decimal_read(n: nat, max: nat)
    requires
        n <= max,
    ensures
        unsigned_of(decimal(n), max) == Some(n),
        trim(decimal(n)) == decimal(n),
        decimal(n).len() > 0,
{
    lemma_decimal_digits(n);
    let d = decimal(n);
    assert(is_dec(d[0]));
    assert(is_dec(d[d.len() - 1]));
    lemma_trim_plain(d);
}

/// The members of an address payload have sorted keys and are each found under their
/// key.
proof fn lemma_address_members(a: AddressView)
    ensures
        ({
            let es = address_json(a)->Object_0;
            &&& sorted_keys(es)
            &&& jget(es, "EntryType"@) == Some(Json::Str(entry_type_text(a.entry_type)))
            &&& jget(es, "IPFamily"@) == Some(Json::Str(family_text(a.ip_family)))
            &&& jget(es, "IPAddress"@) == Some(Json::Str(a.ip_address))
            &&& jget(es, "TTL"@) == Some(Json::Number(decimal(a.ttl as nat)))
            &&& jget(es, "Weight"@) == Some(Json::Number(decimal(a.weight as nat)))
            &&& jget(es, "PublishOnWAN"@) == Some(Json::Str(publish_text(a.publish_on_wan)))
        }),
{
    reveal_strlit("EntryType");
    reveal_strlit("IPFamily");
    reveal_strlit("IPAddress");
    reveal_strlit("TTL");
    reveal_strlit("Weight");
    reveal_strlit("PublishOnWAN");
    let k1 = "EntryType"@;
    let k2 = "IPFamily"@;
    let k3 = "IPAddress"@;
    let k4 = "TTL"@;
    let k5 = "Weight"@;
    let k6 = "PublishOnWAN"@;
    assert(k1.len() == 9 && k2.len() == 8 && k3.len() == 9 && k4.len() == 3 && k5.len() == 6 && k6.len() == 12);
    assert(k1[0] != k3[0]);
    let v1 = Json::Str(entry_type_text(a.entry_type));
    let v2 = Json::Str(family_text(a.ip_family));
    let v3 = Json::Str(a.ip_address);
    let v4 = Json::Number(decimal(a.ttl as nat));
    let v5 = Json::Number(decimal(a.weight as nat));
    let v6 = Json::Str(publish_text(a.publish_on_wan));
    lemma_three_members(k1, v1, k2, v2, k3, v3);
    let e3 = jinsert(jinsert(jinsert(Seq::empty(), k1, v1), k2, v2), k3, v3);
    let e4 = jinsert(e3, k4, v4);
    let e5 = jinsert(e4, k5, v5);
    let e6 = jinsert(e5, k6, v6);
    lemma_jinsert_sorted(e3, k4, v4);
    lemma_jinsert_sorted(e4, k5, v5);
    lemma_jinsert_sorted(e5, k6, v6);
    lemma_jinsert_same(e3, k4, v4);
    lemma_jinsert_same(e4, k5, v5);
    lemma_jinsert_same(e5, k6, v6);
    lemma_jinsert_other(e3, k4, v4, k1);
    lemma_jinsert_other(e3, k4, v4, k2);
    lemma_jinsert_other(e3, k4, v4, k3);
    lemma_jinsert_other(e4, k5, v5, k1);
    lemma_jinsert_other(e4, k5, v5, k2);
    lemma_jinsert_other(e4, k5, v5, k3);
    lemma_jinsert_other(e4, k5, v5, k4);
    lemma_jinsert_other(e5, k6, v6, k1);
    lemma_jinsert_other(e5, k6, v6, k2);
    lemma_jinsert_other(e5, k6, v6, k3);
    lemma_jinsert_other(e5, k6, v6, k4);
    lemma_jinsert_other(e5, k6, v6, k5);
    assert(e6 == address_json(a)->Object_0);
}

/// A DNS address, as accepted and with its text trimmed, written as an `Address` element
/// and read back gives that address: its type, family, text, TTL, weight and publishing
/// each from its own tag.
pub proof fn lemma_dns_address_read_back(a: AddressView)
    requires
        address_of(a.entry_type, a.ip_family, a.ip_address, a.ttl, a.weight, a.publish_on_wan) == Ok::<
            AddressView,
            crate::error::ErrorView,
        >(a),
        trim(a.ip_address) == a.ip_address,
    ensures
        address_of_node(payload_element("Address"@, address_json(a)->Object_0)) == Some(a),
{
    let es = address_json(a)->Object_0;
    let tag = "Address"@;
    lemma_address_members(a);
    reveal_strlit("Manual");
    reveal_strlit("InterfaceIP");
    reveal_strlit("IPv4");
    reveal_strlit("IPv6");
    reveal_strlit("Enable");
    reveal_strlit("Disable");
    lemma_trim_plain("Manual"@);
    lemma_trim_plain("InterfaceIP"@);
    lemma_trim_plain("IPv4"@);
    lemma_trim_plain("IPv6"@);
    lemma_trim_plain("Enable"@);
    lemma_trim_plain("Disable"@);
    assert("Manual"@.len() == 6 && "InterfaceIP"@.len() == 11 && "Disable"@.len() == 7);
    assert("IPv4"@[3] != "IPv6"@[3]);
    assert(is_enable("Enable"@));
    assert(!is_enable("Disable"@));
    lemma_str_member_read(tag, es, "EntryType"@, entry_type_text(a.entry_type));
    lemma_str_member_read(tag, es, "IPFamily"@, family_text(a.ip_family));
    lemma_str_member_read(tag, es, "IPAddress"@, a.ip_address);
    lemma_str_member_read(tag, es, "PublishOnWAN"@, publish_text(a.publish_on_wan));
    lemma_member_found(tag, es, "TTL"@, Json::Number(decimal(a.ttl as nat)));
    lemma_member_found(tag, es, "Weight"@, Json::Number(decimal(a.weight as nat)));
    lemma_decimal_read(a.ttl as nat, 0xffff_ffff);
    lemma_decimal_read(a.weight as nat, 255);
    let n = payload_element(tag, es);
    assert(child_text_of(n, "TTL"@) == Some(decimal(a.ttl as nat)));
    assert(child_text_of(n, "Weight"@) == Some(decimal(a.weight as nat)));
    assert(crate::dns::entry_type_of(child_text_of(n, "EntryType"@)) == a.entry_type);
    assert(crate::dns::family_of(child_text_of(n, "IPFamily"@)) == a.ip_family);
    assert(crate::dns::publish_of(child_text_of(n, "PublishOnWAN"@)) == a.publish_on_wan);
}

/// Whether `a` is an address as accepted, with its text trimmed.
pub open spec fn address_in_form(a: AddressView) -> bool {
    &&& address_of(a.entry_type, a.ip_family, a.ip_address, a.ttl, a.weight, a.publish_on_wan) == Ok::<
        AddressView,
        crate::error::ErrorView,
    >(a)
    &&& trim(a.ip_address) == a.ip_address
}

/// The elements written for a list of addresses, read back, give the list.
proof fn lemma_addresses_read_back(addrs: Seq<AddressView>)
    requires
        forall|i: int| 0 <= i < addrs.len() ==> address_in_form(#[trigger] addrs[i]),
    ensures
        addresses_of_children(items_nodes("Address"@, addrs.map_values(|a: AddressView| address_json(a)))) == addrs,
    decreases addrs.len(),
{
    if addrs.len() > 0 {
        let init = addrs.drop_last();
        let a = addrs.last();
        assert(a == addrs[addrs.len() - 1]);
        assert forall|i: int| 0 <= i < init.len() implies address_in_form(#[trigger] init[i]) by {
            assert(init[i] == addrs[i]);
        }
        lemma_addresses_read_back(init);
        let vs = addrs.map_values(|a: AddressView| address_json(a));
        assert(vs.drop_last() =~= init.map_values(|a: AddressView| address_json(a)));
        assert(vs.last() == address_json(a));
        let front = items_nodes("Address"@, vs.drop_last());
        let b = value_nodes("Address"@, vs.last());
        let cs = front + b;
        assert(items_nodes("Address"@, vs) == cs);
        assert(cs.drop_last() =~= front);
        assert(cs.last() == b[0]);
        assert(b[0] == payload_element("Address"@, address_json(a)->Object_0));
        lemma_dns_address_read_back(a);
        assert(init.push(a) =~= addrs);
    }
}

/// A DNS entry, as accepted, with addresses as accepted and trimmed, written and read back
/// gives that entry: its host name, its addresses in order and its reverse-lookup setting.
pub proof fn lemma_dns_entry_read_back(host: Seq<char>, addresses: Seq<AddressView>, reverse: bool)
    requires
        entry_create_of(host, addresses) is Ok,
        forall|i: int| 0 <= i < addresses.len() ==> address_in_form(#[trigger] addresses[i]),
    ensures
        ({
            let e = DnsEntryView { add_reverse_dns_lookup: reverse, ..entry_create_of(host, addresses)->Ok_0 };
            dns_entry_of_node(payload_element("DNSHostEntry"@, dns_entry_json(e)->Object_0)) == Some(e)
        }),
{
    let e = DnsEntryView { add_reverse_dns_lookup: reverse, ..entry_create_of(host, addresses)->Ok_0 };
    let n = e.host_name;
    lemma_host_name_of_idempotent(host);
    lemma_trim_idempotent(n);
    assert(crate::dns::trim_end_dots(trim(n)) == n);
    assert(trim(n).len() > 0) by {
        if trim(n).len() == 0 {
            assert(crate::dns::trim_end_dots(trim(n)) == trim(n));
        }
    }
    assert(host_name_of(trim(n)) == Ok::<Seq<char>, crate::error::ErrorView>(n));
    reveal_strlit("HostName");
    reveal_strlit("AddressList");
    reveal_strlit("AddReverseDNSLookUp");
    reveal_strlit("Enable");
    reveal_strlit("Disable");
    lemma_trim_plain("Enable"@);
    lemma_trim_plain("Disable"@);
    assert("HostName"@.len() == 8 && "AddressList"@.len() == 11 && "AddReverseDNSLookUp"@.len() == 19);
    assert("Disable"@.len() == 7);
    assert(is_enable("Enable"@));
    assert(!is_enable("Disable"@));
    let r = if reverse { "Enable"@ } else { "Disable"@ };
    let vs = addresses.map_values(|a: AddressView| address_json(a));
    let inner = Json::Object(jinsert(Seq::empty(), "Address"@, Json::Array(vs)));
    lemma_three_members("HostName"@, Json::Str(n), "AddressList"@, inner, "AddReverseDNSLookUp"@, Json::Str(r));
    let es = dns_entry_json(e)->Object_0;
    let tag = "DNSHostEntry"@;
    lemma_str_member_read(tag, es, "HostName"@, n);
    lemma_str_member_read(tag, es, "AddReverseDNSLookUp"@, r);
    let ies = jinsert(Seq::<(Seq<char>, Json)>::empty(), "Address"@, Json::Array(vs));
    lemma_member_found(tag, es, "AddressList"@, inner);
    assert(ies =~= seq![("Address"@, Json::Array(vs))]);
    assert(ies.drop_last() =~= Seq::<(Seq<char>, Json)>::empty());
    assert(ies.last() == ("Address"@, Json::Array(vs)));
    assert(members_nodes(ies.drop_last()) == Seq::<NodeView>::empty());
    assert(members_nodes(ies) == Seq::<NodeView>::empty() + value_nodes("Address"@, Json::Array(vs)));
    assert(value_nodes("Address"@, Json::Array(vs)) == items_nodes("Address"@, vs));
    assert(Seq::<NodeView>::empty() + items_nodes("Address"@, vs) =~= items_nodes("Address"@, vs));
    assert(members_nodes(ies) == items_nodes("Address"@, vs));
    lemma_addresses_read_back(addresses);
    let node = payload_element(tag, es);
    assert(find_child(node.children, "AddressList"@)->Some_0.children == items_nodes("Address"@, vs));
    assert(addresses.len() > 0);
}

/// Normalizing an entry already normalized changes nothing.
proof fn lemma_normalized_entry_idempotent(t: ServiceType, e: ServiceEntryView)
    requires
        normalized_entry(t, e) is Ok,
    ensures
        normalized_entry(t, normalized_entry(t, e)->Ok_0) == normalized_entry(t, e),
{
    reveal_strlit("1:65535");
    lemma_trim_plain(default_source_port());
    if e.protocol is Some {
        lemma_trim_idempotent(e.protocol->Some_0);
    }
    if e.dst_port is Some {
        lemma_trim_idempotent(e.dst_port->Some_0);
    }
    if e.src_port is Some {
        lemma_trim_idempotent(e.src_port->Some_0);
    }
    if e.icmp_type is Some {
        lemma_trim_idempotent(e.icmp_type->Some_0);
    }
    if e.icmp_code is Some {
        lemma_trim_idempotent(e.icmp_code->Some_0);
    }
}

/// The entries normalized without repeats are each already normalized and none repeats, so
/// normalizing them again gives them back.
proof fn lemma_unique_entries_fixed(t: ServiceType, es: Seq<ServiceEntryView>)
    requires
        unique_entries(t, es) is Ok,
    ensures
        ({
            let u = unique_entries(t, es)->Ok_0;
            &&& u.no_duplicates()
            &&& forall|i: int| 0 <= i < u.len() ==> normalized_entry(t, #[trigger] u[i]) == Ok::<
                ServiceEntryView,
                crate::error::ErrorView,
            >(u[i])
            &&& unique_entries(t, u) == Ok::<Seq<ServiceEntryView>, crate::error::ErrorView>(u)
        }),
    decreases es.len(),
{
    if es.len() > 0 {
        let init = es.drop_last();
        lemma_unique_entries_fixed(t, init);
        let acc = unique_entries(t, init)->Ok_0;
        let x = normalized_entry(t, es.last())->Ok_0;
        lemma_normalized_entry_idempotent(t, es.last());
        let u = unique_entries(t, es)->Ok_0;
        if !acc.contains(x) {
            assert(u == acc.push(x));
            assert(u.drop_last() =~= acc);
            assert forall|i: int| 0 <= i < u.len() implies normalized_entry(t, #[trigger] u[i]) == Ok::<
                ServiceEntryView,
                crate::error::ErrorView,
            >(u[i]) by {
                if i < acc.len() {
                    assert(u[i] == acc[i]);
                }
            }
            assert(u.no_duplicates()) by {
                assert forall|i: int, j: int| 0 <= i < u.len() && 0 <= j < u.len() && i != j implies u[i] != u[j] by {
                    if i == acc.len() as int && j < acc.len() {
                        assert(acc.contains(acc[j]));
                    } else if j == acc.len() as int && i < acc.len() {
                        assert(acc.contains(acc[i]));
                    } else {
                        assert(u[i] == acc[i] && u[j] == acc[j]);
                    }
                }
            }
            assert(u.last() == x);
            assert(unique_entries(t, u) == Ok::<Seq<ServiceEntryView>, crate::error::ErrorView>(push_unique(acc, x)));
        } else {
            assert(u == acc);
        }
    }
}

/// The elements written for a service's entries, read back, give the entries.
proof fn lemma_service_entries_read_back(t: ServiceType, u: Seq<ServiceEntryView>)
    requires
        forall|i: int| 0 <= i < u.len() ==> normalized_entry(t, #[trigger] u[i]) == Ok::<
            ServiceEntryView,
            crate::error::ErrorView,
        >(u[i]),
    ensures
        entries_of_children(t, items_nodes("ServiceDetail"@, u.map_values(|e: ServiceEntryView| entry_json(t, e))))
            == u,
    decreases u.len(),
{
    if u.len() > 0 {
        let init = u.drop_last();
        let x = u.last();
        assert(x == u[u.len() - 1]);
        assert forall|i: int| 0 <= i < init.len() implies normalized_entry(t, #[trigger] init[i]) == Ok::<
            ServiceEntryView,
            crate::error::ErrorView,
        >(init[i]) by {
            assert(init[i] == u[i]);
        }
        lemma_service_entries_read_back(t, init);
        let vs = u.map_values(|e: ServiceEntryView| entry_json(t, e));
        assert(vs.drop_last() =~= init.map_values(|e: ServiceEntryView| entry_json(t, e)));
        assert(vs.last() == entry_json(t, x));
        let front = items_nodes("ServiceDetail"@, vs.drop_last());
        let b = value_nodes("ServiceDetail"@, vs.last());
        let cs = front + b;
        assert(items_nodes("ServiceDetail"@, vs) == cs);
        assert(cs.drop_last() =~= front);
        assert(cs.last() == b[0]);
        assert(b[0] == payload_element("ServiceDetail"@, entry_json(t, x)->Object_0));
        lemma_service_entry_read_back(t, x);
        assert(init.push(x) =~= u);
    }
}

/// A service, as normalized, written and read back gives that service: its name, its
/// type and its entries in order, each read from the tags of that type.
pub proof fn lemma_service_read_back(name: Seq<char>, t: ServiceType, entries: Seq<ServiceEntryView>)
    requires
        service_create_of(name, t, entries) is Ok,
    ensures
        ({
            let sv = service_create_of(name, t, entries)->Ok_0;
            service_of_node(payload_element("Services"@, service_json(sv.name, t, sv.entries)->Object_0))
                == Ok::<Option<ServiceView>, crate::error::ErrorView>(Some(sv))
        }),
{
    let sv = service_create_of(name, t, entries)->Ok_0;
    let u = sv.entries;
    lemma_unique_entries_fixed(t, entries);
    lemma_service_entries_read_back(t, u);
    lemma_trim_idempotent(name);
    reveal_strlit("Name");
    reveal_strlit("Type");
    reveal_strlit("ServiceDetails");
    reveal_strlit("TCPorUDP");
    reveal_strlit("IP");
    reveal_strlit("ICMP");
    reveal_strlit("ICMPv6");
    lemma_trim_plain("TCPorUDP"@);
    lemma_trim_plain("IP"@);
    lemma_trim_plain("ICMP"@);
    lemma_trim_plain("ICMPv6"@);
    assert("TCPorUDP"@.len() == 8 && "IP"@.len() == 2 && "ICMP"@.len() == 4 && "ICMPv6"@.len() == 6);
    assert(type_from_text(type_text(t)) == Some(t));
    assert("Name"@.len() == 4 && "Type"@.len() == 4 && "ServiceDetails"@.len() == 14);
    assert("Name"@[0] != "Type"@[0]);
    let vs = u.map_values(|e: ServiceEntryView| entry_json(t, e));
    let ies = jinsert(Seq::<(Seq<char>, Json)>::empty(), "ServiceDetail"@, Json::Array(vs));
    let inner = Json::Object(ies);
    lemma_three_members("Name"@, Json::Str(sv.name), "Type"@, Json::Str(type_text(t)), "ServiceDetails"@, inner);
    let es = service_json(sv.name, t, u)->Object_0;
    let tag = "Services"@;
    lemma_str_member_read(tag, es, "Name"@, sv.name);
    lemma_str_member_read(tag, es, "Type"@, type_text(t));
    lemma_member_found(tag, es, "ServiceDetails"@, inner);
    assert(ies =~= seq![("ServiceDetail"@, Json::Array(vs))]);
    assert(ies.drop_last() =~= Seq::<(Seq<char>, Json)>::empty());
    assert(ies.last() == ("ServiceDetail"@, Json::Array(vs)));
    assert(members_nodes(ies.drop_last()) == Seq::<NodeView>::empty());
    assert(members_nodes(ies) == Seq::<NodeView>::empty() + value_nodes("ServiceDetail"@, Json::Array(vs)));
    assert(value_nodes("ServiceDetail"@, Json::Array(vs)) == items_nodes("ServiceDetail"@, vs));
    assert(Seq::<NodeView>::empty() + items_nodes("ServiceDetail"@, vs) =~= items_nodes("ServiceDetail"@, vs));
    let node = payload_element(tag, es);
    assert(find_child(node.children, "ServiceDetails"@)->Some_0.children == items_nodes("ServiceDetail"@, vs));
    assert(normalized_entries(t, u, false) == Ok::<Seq<ServiceEntryView>, crate::error::ErrorView>(u));
    crate::common::lemma_name_of_idempotent("service name"@, "service name"@, name);
}

/// A number is written as the text of its digits, just as that text as a string is, when
/// it holds no markup character.
pub proof fn lemma_number_written_as_its_text(tag: Seq<char>, n: Seq<char>)
    requires
        forall|i: int| 0 <= i < n.len() ==> {
            let c = #[trigger] n[i];
            c != '<' && c != '>' && c != '&' && c != '\'' && c != '"'
        },
    ensures
        json_xml(tag, Json::Number(n)) == json_xml(tag, Json::Str(n)),
{
    lemma_escape_plain(n);
}

/// An array is written item by item in order: an array of one item as that item, and an
/// array made of two parts as the first part followed by the second.
pub proof fn lemma_array_written_in_order(tag: Seq<char>, v: Json, a: Seq<Json>, b: Seq<Json>)
    requires
        json_xml(tag, Json::Array(a)) is Ok,
        json_xml(tag, Json::Array(b)) is Ok,
    ensures
        json_xml(tag, Json::Array(seq![v])) == json_xml(tag, v),
        json_xml(tag, Json::Array(a + b)) == Ok::<Seq<char>, Seq<char>>(
            json_xml(tag, Json::Array(a))->Ok_0 + json_xml(tag, Json::Array(b))->Ok_0,
        ),
{
    assert(seq![v].drop_last() =~= Seq::<Json>::empty());
    assert(seq![v].last() == v);
    assert(items_xml(tag, Seq::<Json>::empty()) == Ok::<Seq<char>, Seq<char>>(Seq::empty()));
    assert(json_xml(tag, Json::Array(seq![v])) == items_xml(tag, seq![v]));
    if json_xml(tag, v) is Ok {
        assert(Seq::<char>::empty() + json_xml(tag, v)->Ok_0 =~= json_xml(tag, v)->Ok_0);
    }
    lemma_items_append(tag, a, b);
}

/// See [`lemma_array_written_in_order`], over the items.
proof fn lemma_items_append(tag: Seq<char>, a: Seq<Json>, b: Seq<Json>)
    requires
        items_xml(tag, a) is Ok,
        items_xml(tag, b) is Ok,
    ensures
        items_xml(tag, a + b) == Ok::<Seq<char>, Seq<char>>(items_xml(tag, a)->Ok_0 + items_xml(tag, b)->Ok_0),
    decreases b.len(),
{
    if b.len() == 0 {
        assert(a + b =~= a);
        assert(items_xml(tag, a)->Ok_0 + Seq::<char>::empty() =~= items_xml(tag, a)->Ok_0);
    } else {
        assert((a + b).drop_last() =~= a + b.drop_last());
        assert((a + b).last() == b.last());
        lemma_items_append(tag, a, b.drop_last());
        let x = json_xml(tag, b.last())->Ok_0;
        assert(items_xml(tag, a)->Ok_0 + items_xml(tag, b.drop_last())->Ok_0 + x
            =~= items_xml(tag, a)->Ok_0 + (items_xml(tag, b.drop_last())->Ok_0 + x));
    }
}

} // verus!
