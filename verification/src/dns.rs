//! DNS host entries.

use vstd::prelude::*;
use crate::api::{
    delete_item, delete_outcome, empty_object, get_item, get_outcome, list_items, list_outcome,
    list_view, missing_error, missing_error_exec, named_request, opt_result_view, read_request,
    write_item, write_outcome, write_view,
};
use crate::client::{Link, exchange, Reply, SophosClient};
use crate::common::{read_view, seq_views};
use crate::request::{Action, SophosConnection};
use crate::response::{ResourceResponse, ResourceView};
use crate::transport::SophosTransport;
use crate::error::{Error, ErrorView, Result};
use crate::ip::{digits_value, ipv4_octets, ipv6_segments, parse_ipv6, split_on, is_dec};
use crate::json::{jinsert, FieldMap, Json, Value};
use crate::service::jstr;
use crate::text::{
    chars_of, decimal, decimal_chars, is_alnum, opt_view, push_chars, push_str, string_of, trim,
    trim_chars, views,
};
use crate::tree::{child_text_of, find_child, NodeView, XmlNode};

verus! {

/// How an address of a host entry is given.
#[derive(Debug, Clone, Copy, PartialEq, Eq, Structural)]
pub enum EntryType {
    Manual,
    InterfaceIp,
}

/// The API's name for an entry type.
pub open spec fn entry_type_text(t: EntryType) -> Seq<char> {
    match t {
        EntryType::Manual => "Manual"@,
        EntryType::InterfaceIp => "InterfaceIP"@,
    }
}

/// The entry type a reply names: `InterfaceIP`, else manual.
pub open spec fn entry_type_of(v: Option<Seq<char>>) -> EntryType {
    match v {
        Some(x) => if trim(x) == "InterfaceIP"@ {
            EntryType::InterfaceIp
        } else {
            EntryType::Manual
        },
        None => EntryType::Manual,
    }
}

impl EntryType {
    /// The API's name for the type.
    pub fn as_str(self) -> (s: &'static str)
        ensures
            s@ == entry_type_text(self),
    {
        match self {
            EntryType::Manual => "Manual",
            EntryType::InterfaceIp => "InterfaceIP",
        }
    }

    /// The type a reply names (see [`entry_type_of`]).
    fn from_sophos(value: &Option<String>) -> (t: EntryType)
        ensures
            t == entry_type_of(opt_view(*value)),
    {
        match value {
            Some(x) => {
                let t = trim_chars(chars_of(x.as_str()).as_slice());
                if crate::text::chars_eq(t.as_slice(), chars_of("InterfaceIP").as_slice()) {
                    EntryType::InterfaceIp
                } else {
                    EntryType::Manual
                }
            },
            None => EntryType::Manual,
        }
    }
}

/// The address family of an address of a host entry.
#[derive(Debug, Clone, Copy, PartialEq, Eq, Structural)]
pub enum IpFamily {
    IPv4,
    IPv6,
}

/// The API's name for an address family.
pub open spec fn family_text(f: IpFamily) -> Seq<char> {
    match f {
        IpFamily::IPv4 => "IPv4"@,
        IpFamily::IPv6 => "IPv6"@,
    }
}

/// The family a reply names: `IPv6`, else IPv4.
pub open spec fn family_of(v: Option<Seq<char>>) -> IpFamily {
    match v {
        Some(x) => if trim(x) == "IPv6"@ {
            IpFamily::IPv6
        } else {
            IpFamily::IPv4
        },
        None => IpFamily::IPv4,
    }
}

impl IpFamily {
    /// The API's name for the family.
    pub fn as_str(self) -> (s: &'static str)
        ensures
            s@ == family_text(self),
    {
        match self {
            IpFamily::IPv4 => "IPv4",
            IpFamily::IPv6 => "IPv6",
        }
    }

    /// The family a reply names (see [`family_of`]).
    fn from_sophos(value: &Option<String>) -> (f: IpFamily)
        ensures
            f == family_of(opt_view(*value)),
    {
        match value {
            Some(x) => {
                let t = trim_chars(chars_of(x.as_str()).as_slice());
                if crate::text::chars_eq(t.as_slice(), chars_of("IPv6").as_slice()) {
                    IpFamily::IPv6
                } else {
                    IpFamily::IPv4
                }
            },
            None => IpFamily::IPv4,
        }
    }
}

/// Whether an address is published on the WAN.
#[derive(Debug, Clone, Copy, PartialEq, Eq, Structural)]
pub enum PublishOnWan {
    Enable,
    Disable,
}

/// The API's name for a publishing choice.
pub open spec fn publish_text(p: PublishOnWan) -> Seq<char> {
    match p {
        PublishOnWan::Enable => "Enable"@,
        PublishOnWan::Disable => "Disable"@,
    }
}

/// Whether `s` is `enable` in any mix of ASCII cases.
pub open spec fn is_enable(s: Seq<char>) -> bool {
    &&& s.len() == 6
    &&& (s[0] == 'e' || s[0] == 'E')
    &&& (s[1] == 'n' || s[1] == 'N')
    &&& (s[2] == 'a' || s[2] == 'A')
    &&& (s[3] == 'b' || s[3] == 'B')
    &&& (s[4] == 'l' || s[4] == 'L')
    &&& (s[5] == 'e' || s[5] == 'E')
}

/// Whether `s` is `enable` in any mix of ASCII cases.
fn is_enable_exec(s: &[char]) -> (r: bool)
    ensures
        r == is_enable(s@),
{
    s.len() == 6 && (s[0] == 'e' || s[0] == 'E') && (s[1] == 'n' || s[1] == 'N') && (s[2] == 'a' || s[2] == 'A')
        && (s[3] == 'b' || s[3] == 'B') && (s[4] == 'l' || s[4] == 'L') && (s[5] == 'e' || s[5] == 'E')
}

/// The publishing choice a reply names: `enable` in any case, else disabled.
pub open spec fn publish_of(v: Option<Seq<char>>) -> PublishOnWan {
    match v {
        Some(x) => if is_enable(trim(x)) {
            PublishOnWan::Enable
        } else {
            PublishOnWan::Disable
        },
        None => PublishOnWan::Disable,
    }
}

impl PublishOnWan {
    /// The API's name for the choice.
    pub fn as_str(self) -> (s: &'static str)
        ensures
            s@ == publish_text(self),
    {
        match self {
            PublishOnWan::Enable => "Enable",
            PublishOnWan::Disable => "Disable",
        }
    }

    /// The choice a reply names (see [`publish_of`]).
    fn from_sophos(value: &Option<String>) -> (p: PublishOnWan)
        ensures
            p == publish_of(opt_view(*value)),
    {
        match value {
            Some(x) => {
                let t = trim_chars(chars_of(x.as_str()).as_slice());
                if is_enable_exec(t.as_slice()) {
                    PublishOnWan::Enable
                } else {
                    PublishOnWan::Disable
                }
            },
            None => PublishOnWan::Disable,
        }
    }
}

/// Why an IPv4 address with octets `o` cannot be a host address, if it cannot:
/// multicast, reserved, unspecified, link-local or broadcast.
pub open spec fn ipv4_problem(o: Seq<nat>) -> Option<Seq<char>> {
    if 224 <= o[0] <= 239 {
        Some("Multicast addresses are not supported"@)
    } else if o[0] >= 240 {
        Some("Reserved addresses are not supported"@)
    } else if o[0] == 0 && o[1] == 0 && o[2] == 0 && o[3] == 0 {
        Some("Unspecified addresses are not supported"@)
    } else if o[0] == 169 && o[1] == 254 {
        Some("Link-local addresses are not supported"@)
    } else if o[0] == 255 && o[1] == 255 && o[2] == 255 && o[3] == 255 {
        Some("Broadcast addresses are not supported"@)
    } else {
        None
    }
}

/// Whether the groups `g` after the first are all zero.
pub open spec fn rest_zero(g: Seq<nat>) -> bool {
    forall|i: int| 1 <= i < 8 ==> g[i] == 0
}

/// Why an IPv6 address with groups `g` cannot be a host address, if it cannot: multicast
/// (`ff00::/8`), loopback or `100::`, unspecified, or unicast link-local (`fe80::/10`).
pub open spec fn ipv6_problem(g: Seq<nat>) -> Option<Seq<char>> {
    if g[0] >= 0xff00 {
        Some("Multicast addresses are not supported"@)
    } else if (g[0] == 0 && g[1] == 0 && g[2] == 0 && g[3] == 0 && g[4] == 0 && g[5] == 0 && g[6] == 0 && g[7] == 1)
        || (g[0] == 0x100 && rest_zero(g)) {
        Some("Reserved addresses are not supported"@)
    } else if g[0] == 0 && rest_zero(g) {
        Some("Unspecified addresses are not supported"@)
    } else if 0xfe80 <= g[0] < 0xfec0 {
        Some("Link-local addresses are not supported"@)
    } else {
        None
    }
}

/// Why `s` cannot be a host address of family `f`, if it cannot: it is no IP address, it
/// is of the other family, or of a kind that cannot be a host address.
pub open spec fn address_problem(f: IpFamily, s: Seq<char>) -> Option<Seq<char>> {
    match ipv4_octets(s) {
        Some(o) => match f {
            IpFamily::IPv4 => ipv4_problem(o),
            IpFamily::IPv6 => Some("ip_family=IPv6 requires an IPv6 address"@),
        },
        None => match ipv6_segments(s) {
            Some(g) => match f {
                IpFamily::IPv6 => ipv6_problem(g),
                IpFamily::IPv4 => Some("ip_family=IPv4 requires an IPv4 address"@),
            },
            None => Some("Invalid IP address: "@ + s),
        },
    }
}

/// The octets of the IPv4 address `s`, if it is one.
fn ipv4_octets_of(s: &str) -> (r: Option<Vec<u32>>)
    ensures
        match ipv4_octets(s@) {
            Some(o) => r matches Some(v) && v@.len() == 4 && forall|i: int| 0 <= i < 4 ==> v@[i] == #[trigger] o[i],
            None => r is None,
        },
{
    let cs = chars_of(s);
    crate::ip::ipv4_octets_of_chars(cs.as_slice())
}

/// Whether `s` can be a host address of family `family` (see [`address_problem`]).
fn validate_ip_address(family: IpFamily, ip_address: &str) -> (r: Result<()>)
    ensures
        match address_problem(family, ip_address@) {
            Some(m) => r matches Err(e) && e@ == ErrorView::InvalidRequest(m),
            None => r is Ok,
        },
{
    match ipv4_octets_of(ip_address) {
        Some(o) => match family {
            IpFamily::IPv4 => {
                let a = o[0];
                let b = o[1];
                let c = o[2];
                let d = o[3];
                if 224 <= a && a <= 239 {
                    Err(Error::InvalidRequest("Multicast addresses are not supported".to_owned()))
                } else if a >= 240 {
                    Err(Error::InvalidRequest("Reserved addresses are not supported".to_owned()))
                } else if a == 0 && b == 0 && c == 0 && d == 0 {
                    Err(Error::InvalidRequest("Unspecified addresses are not supported".to_owned()))
                } else if a == 169 && b == 254 {
                    Err(Error::InvalidRequest("Link-local addresses are not supported".to_owned()))
                } else if a == 255 && b == 255 && c == 255 && d == 255 {
                    Err(Error::InvalidRequest("Broadcast addresses are not supported".to_owned()))
                } else {
                    Ok(())
                }
            },
            IpFamily::IPv6 => Err(Error::InvalidRequest("ip_family=IPv6 requires an IPv6 address".to_owned())),
        },
        None => match parse_ipv6(ip_address) {
            Some(g) => match family {
                IpFamily::IPv6 => {
                    let rest = g[1] == 0 && g[2] == 0 && g[3] == 0 && g[4] == 0 && g[5] == 0 && g[6] == 0 && g[7] == 0;
                    let ghost gs = ipv6_segments(ip_address@)->Some_0;
                    assert(g@[0] == gs[0] && g@[1] == gs[1] && g@[2] == gs[2] && g@[3] == gs[3]);
                    assert(g@[4] == gs[4] && g@[5] == gs[5] && g@[6] == gs[6] && g@[7] == gs[7]);
                    assert(rest == rest_zero(gs));
                    if g[0] >= 0xff00 {
                        Err(Error::InvalidRequest("Multicast addresses are not supported".to_owned()))
                    } else if (g[0] == 0 && g[1] == 0 && g[2] == 0 && g[3] == 0 && g[4] == 0 && g[5] == 0 && g[6] == 0 && g[7] == 1)
                        || (g[0] == 0x100 && rest) {
                        Err(Error::InvalidRequest("Reserved addresses are not supported".to_owned()))
                    } else if g[0] == 0 && rest {
                        Err(Error::InvalidRequest("Unspecified addresses are not supported".to_owned()))
                    } else if 0xfe80 <= g[0] && g[0] < 0xfec0 {
                        Err(Error::InvalidRequest("Link-local addresses are not supported".to_owned()))
                    } else {
                        Ok(())
                    }
                },
                IpFamily::IPv4 => Err(Error::InvalidRequest("ip_family=IPv4 requires an IPv4 address".to_owned())),
            },
            None => {
                let mut m: Vec<char> = Vec::new();
                push_str(&mut m, "Invalid IP address: ");
                push_str(&mut m, ip_address);
                Err(Error::InvalidRequest(string_of(m.as_slice())))
            },
        },
    }
}

/// One address of a DNS host entry.
#[derive(Debug, Clone, PartialEq, Eq)]
pub struct DnsHostAddress {
    entry_type: EntryType,
    ip_family: IpFamily,
    ip_address: String,
    ttl: u32,
    weight: u8,
    publish_on_wan: PublishOnWan,
}

/// A [`DnsHostAddress`] with its address as a character sequence.
pub struct AddressView {
    pub entry_type: EntryType,
    pub ip_family: IpFamily,
    pub ip_address: Seq<char>,
    pub ttl: u32,
    pub weight: u8,
    pub publish_on_wan: PublishOnWan,
}

impl View for DnsHostAddress {
    type V = AddressView;

    closed spec fn view(&self) -> AddressView {
        AddressView {
            entry_type: self.entry_type,
            ip_family: self.ip_family,
            ip_address: self.ip_address@,
            ttl: self.ttl,
            weight: self.weight,
            publish_on_wan: self.publish_on_wan,
        }
    }
}

/// The TTL used when none is given.
pub open spec fn default_ttl() -> u32 {
    3600
}

/// The address with the given fields, or why it is refused: a blank address, a TTL
/// outside 1..=604800, or, for a manual entry, an address that cannot be a host address
/// of the family (see [`address_problem`]). The address is kept as given.
pub open spec fn address_of(
    entry_type: EntryType,
    ip_family: IpFamily,
    ip_address: Seq<char>,
    ttl: u32,
    weight: u8,
    publish_on_wan: PublishOnWan,
) -> core::result::Result<AddressView, ErrorView> {
    if trim(ip_address).len() == 0 {
        Err(ErrorView::InvalidRequest("ip_address must not be empty"@))
    } else if !(1 <= ttl <= 604800) {
        Err(ErrorView::InvalidRequest("ttl must be between 1 and 604800"@))
    } else if entry_type == EntryType::Manual && address_problem(ip_family, ip_address) is Some {
        Err(ErrorView::InvalidRequest(address_problem(ip_family, ip_address)->Some_0))
    } else {
        Ok(AddressView { entry_type, ip_family, ip_address, ttl, weight, publish_on_wan })
    }
}

impl DnsHostAddress {
    /// An address with the default TTL (3600), weight 0 and no WAN publishing.
    pub fn new(entry_type: EntryType, ip_family: IpFamily, ip_address: &str) -> (r: Result<DnsHostAddress>)
        ensures
            match address_of(entry_type, ip_family, ip_address@, 3600, 0, PublishOnWan::Disable) {
                Ok(v) => r matches Ok(a) && a@ == v,
                Err(e) => r matches Err(x) && x@ == e,
            },
    {
        DnsHostAddress::with_options(entry_type, ip_family, ip_address, 3600, 0, PublishOnWan::Disable)
    }

    /// An address with every field given (see [`address_of`]).
    pub fn with_options(
        entry_type: EntryType,
        ip_family: IpFamily,
        ip_address: &str,
        ttl: u32,
        weight: u8,
        publish_on_wan: PublishOnWan,
    ) -> (r: Result<DnsHostAddress>)
        ensures
            match address_of(entry_type, ip_family, ip_address@, ttl, weight, publish_on_wan) {
                Ok(v) => r matches Ok(a) && a@ == v,
                Err(e) => r matches Err(x) && x@ == e,
            },
    {
        let t = trim_chars(chars_of(ip_address).as_slice());
        if t.len() == 0 {
            return Err(Error::InvalidRequest("ip_address must not be empty".to_owned()));
        }
        if !(1 <= ttl && ttl <= 604800) {
            return Err(Error::InvalidRequest("ttl must be between 1 and 604800".to_owned()));
        }
        if entry_type == EntryType::Manual {
            match validate_ip_address(ip_family, ip_address) {
                Ok(()) => {},
                Err(e) => return Err(e),
            }
        }
        Ok(DnsHostAddress { entry_type, ip_family, ip_address: ip_address.to_owned(), ttl, weight, publish_on_wan })
    }

    /// The entry type.
    pub fn entry_type(&self) -> (t: EntryType)
        ensures
            t == self@.entry_type,
    {
        self.entry_type
    }

    /// The address family.
    pub fn ip_family(&self) -> (f: IpFamily)
        ensures
            f == self@.ip_family,
    {
        self.ip_family
    }

    /// The address.
    pub fn ip_address(&self) -> (r: &str)
        ensures
            r@ == self@.ip_address,
    {
        self.ip_address.as_str()
    }

    /// The TTL in seconds.
    pub fn ttl(&self) -> (t: u32)
        ensures
            t == self@.ttl,
    {
        self.ttl
    }

    /// The weight.
    pub fn weight(&self) -> (w: u8)
        ensures
            w == self@.weight,
    {
        self.weight
    }

    /// Whether the address is published on the WAN.
    pub fn publish_on_wan(&self) -> (p: PublishOnWan)
        ensures
            p == self@.publish_on_wan,
    {
        self.publish_on_wan
    }
}

/// `s` without its trailing dots.
pub open spec fn trim_end_dots(s: Seq<char>) -> Seq<char>
    decreases s.len(),
{
    if s.len() > 0 && s.last() == '.' {
        trim_end_dots(s.drop_last())
    } else {
        s
    }
}

/// The number of bytes `c` takes in UTF-8.
pub open spec fn char_bytes(c: char) -> nat {
    if (c as u32) < 0x80 {
        1
    } else if (c as u32) < 0x800 {
        2
    } else if (c as u32) < 0x10000 {
        3
    } else {
        4
    }
}

/// The number of bytes `s` takes in UTF-8.
pub open spec fn utf8_len(s: Seq<char>) -> nat
    decreases s.len(),
{
    if s.len() == 0 {
        0
    } else {
        utf8_len(s.drop_last()) + char_bytes(s.last())
    }
}

/// Whether `l` is a host name label: 1 to 63 ASCII letters, digits and hyphens, starting
/// and ending with a letter or digit.
pub open spec fn valid_label(l: Seq<char>) -> bool {
    &&& 1 <= l.len() <= 63
    &&& is_alnum(l[0])
    &&& is_alnum(l.last())
    &&& forall|i: int| 0 <= i < l.len() ==> is_alnum(#[trigger] l[i]) || l[i] == '-'
}

/// The first label of `ls` that is not valid, if any.
pub open spec fn first_bad_label(ls: Seq<Seq<char>>) -> Option<Seq<char>>
    decreases ls.len(),
{
    if ls.len() == 0 {
        None
    } else if !valid_label(ls[0]) {
        Some(ls[0])
    } else {
        first_bad_label(ls.drop_first())
    }
}

/// `value` trimmed and without trailing dots, or why it is no host name: empty, longer
/// than 253 bytes, or with an invalid label.
pub open spec fn host_name_of(value: Seq<char>) -> core::result::Result<Seq<char>, ErrorView> {
    let n = trim_end_dots(trim(value));
    if n.len() == 0 {
        Err(ErrorView::InvalidRequest("hostname must not be empty"@))
    } else if utf8_len(n) > 253 {
        Err(ErrorView::InvalidRequest("hostname must be 253 characters or less"@))
    } else {
        match first_bad_label(split_on(n, '.')) {
            Some(l) => Err(ErrorView::InvalidRequest("invalid hostname label: "@ + l)),
            None => Ok(n),
        }
    }
}

/// The first part of a split is a prefix of the text, and the whole text when there is no
/// separator.
proof fn lemma_split_first(s: Seq<char>, sep: char)
    ensures
        split_on(s, sep).len() >= 1,
        split_on(s, sep)[0].len() <= s.len(),
        split_on(s, sep)[0] == s.take(split_on(s, sep)[0].len() as int),
        split_on(s, sep).len() == 1 ==> split_on(s, sep)[0] == s,
    decreases s.len(),
{
    if s.len() == 0 {
        assert(s.take(0) =~= s);
    } else {
        let prefix = s.drop_last();
        lemma_split_first(prefix, sep);
        let parts = split_on(prefix, sep);
        let l = parts[0].len() as int;
        if s.last() == sep {
            assert(split_on(s, sep)[0] == parts[0]);
            assert(prefix.take(l) =~= s.take(l));
        } else if parts.len() > 1 {
            assert(split_on(s, sep)[0] == parts[0]);
            assert(prefix.take(l) =~= s.take(l));
        } else {
            assert(split_on(s, sep)[0] == parts[0].push(s.last()));
            assert(parts[0].push(s.last()) =~= s);
            assert(s.take(s.len() as int) =~= s);
        }
    }
}

/// No label of `ls` is bad exactly when every label is valid.
proof fn lemma_no_bad_label(ls: Seq<Seq<char>>)
    requires
        first_bad_label(ls) is None,
    ensures
        forall|i: int| 0 <= i < ls.len() ==> valid_label(#[trigger] ls[i]),
    decreases ls.len(),
{
    if ls.len() > 0 {
        lemma_no_bad_label(ls.drop_first());
        assert forall|i: int| 0 <= i < ls.len() implies valid_label(#[trigger] ls[i]) by {
            if i > 0 {
                assert(ls[i] == ls.drop_first()[i - 1]);
            }
        }
    }
}

/// A host name already normalized normalizes to itself.
pub proof fn lemma_host_name_of_idempotent(value: Seq<char>)
    requires
        host_name_of(value) is Ok,
    ensures
        host_name_of(host_name_of(value)->Ok_0) == host_name_of(value),
{
    let n = trim_end_dots(trim(value));
    let labels = split_on(n, '.');
    lemma_no_bad_label(labels);
    lemma_split_first(n, '.');
    let first = labels[0];
    assert(valid_label(first));
    assert(n[0] == first[0]) by {
        assert(n.take(first.len() as int)[0] == n[0]);
    }
    let last = labels.last();
    assert(valid_label(labels[labels.len() - 1]));
    assert(n.last() != '.' && n.last() == last.last()) by {
        if n.last() == '.' {
            assert(split_on(n, '.') == split_on(n.drop_last(), '.').push(Seq::empty()));
            assert(last.len() == 0);
        } else {
            let parts = split_on(n.drop_last(), '.');
            lemma_split_first(n.drop_last(), '.');
            assert(split_on(n, '.') == parts.update(parts.len() - 1, parts.last().push(n.last())));
        }
    }
    assert(crate::text::trim_start(n) == n);
    assert(crate::text::trim_end(n) == n);
    assert(trim(n) == n);
    assert(trim_end_dots(n) == n);
}

/// Whether `c` is an ASCII letter or digit.
fn is_alnum_exec(c: char) -> (r: bool)
    ensures
        r == is_alnum(c),
{
    ('a' <= c && c <= 'z') || ('A' <= c && c <= 'Z') || ('0' <= c && c <= '9')
}

/// Whether `l` is a host name label (see [`valid_label`]).
fn valid_label_exec(l: &Vec<char>) -> (r: bool)
    ensures
        r == valid_label(l@),
{
    let n = l.len();
    if n < 1 || n > 63 {
        return false;
    }
    if !is_alnum_exec(l[0]) || !is_alnum_exec(l[n - 1]) {
        return false;
    }
    let mut i: usize = 0;
    while i < n
        invariant
            n == l@.len(),
            i <= n,
            forall|j: int| 0 <= j < i ==> is_alnum(#[trigger] l@[j]) || l@[j] == '-',
        decreases n - i,
    {
        if !(is_alnum_exec(l[i]) || l[i] == '-') {
            return false;
        }
        i = i + 1;
    }
    true
}

/// Whether `s` takes more than 253 bytes in UTF-8.
fn longer_than_253_bytes(s: &[char]) -> (r: bool)
    ensures
        r == (utf8_len(s@) > 253),
{
    let mut total: usize = 0;
    let mut i: usize = 0;
    assert(s@.take(0) =~= Seq::<char>::empty());
    while i < s.len()
        invariant
            i <= s@.len(),
            total == utf8_len(s@.take(i as int)),
            total <= 253,
        decreases s@.len() - i,
    {
        let c = s[i];
        let b: usize = if (c as u32) < 0x80 {
            1
        } else if (c as u32) < 0x800 {
            2
        } else if (c as u32) < 0x10000 {
            3
        } else {
            4
        };
        assert(s@.take(i + 1).drop_last() =~= s@.take(i as int));
        total = total + b;
        if total > 253 {
            proof { lemma_utf8_len_prefix(s@, i + 1); }
            return true;
        }
        i = i + 1;
    }
    assert(s@.take(i as int) =~= s@);
    false
}

/// A prefix takes no more bytes than the whole.
proof fn lemma_utf8_len_prefix(s: Seq<char>, k: int)
    requires
        0 <= k <= s.len(),
    ensures
        utf8_len(s.take(k)) <= utf8_len(s),
    decreases s.len() - k,
{
    if k < s.len() {
        lemma_utf8_len_prefix(s, k + 1);
        assert(s.take(k + 1).drop_last() =~= s.take(k));
    } else {
        assert(s.take(k) =~= s);
    }
}

/// `value` as a host name (see [`host_name_of`]).
pub fn normalize_host_name(value: &str) -> (r: Result<String>)
    ensures
        match host_name_of(value@) {
            Ok(n) => r matches Ok(s) && s@ == n,
            Err(e) => r matches Err(x) && x@ == e,
        },
{
    let t = trim_chars(chars_of(value).as_slice());
    let mut end = t.len();
    let ghost tt = trim(value@);
    assert(tt.take(end as int) =~= tt);
    while end > 0 && t[end - 1] == '.'
        invariant
            end <= t@.len(),
            t@ == tt,
            trim_end_dots(tt) == trim_end_dots(tt.take(end as int)),
        decreases end,
    {
        assert(tt.take(end as int).drop_last() =~= tt.take(end - 1));
        end = end - 1;
    }
    let n = crate::events::slice_of(t.as_slice(), 0, end);
    assert(n@ == trim_end_dots(tt)) by {
        assert(tt.take(end as int) =~= n@);
    }
    if n.len() == 0 {
        return Err(Error::InvalidRequest("hostname must not be empty".to_owned()));
    }
    if longer_than_253_bytes(n.as_slice()) {
        return Err(Error::InvalidRequest("hostname must be 253 characters or less".to_owned()));
    }
    let labels = crate::ip::split_chars_pub(n.as_slice(), '.');
    let ghost ls = split_on(n@, '.');
    let mut i: usize = 0;
    assert(ls.skip(0) =~= ls);
    while i < labels.len()
        invariant
            i <= labels@.len(),
            labels@.map_values(|p: Vec<char>| p@) == ls,
            ls == split_on(n@, '.'),
            n@ == trim_end_dots(trim(value@)),
            n@.len() > 0,
            utf8_len(n@) <= 253,
            first_bad_label(ls) == first_bad_label(ls.skip(i as int)),
        decreases labels@.len() - i,
    {
        assert(ls.skip(i as int).drop_first() =~= ls.skip(i + 1));
        assert(ls.skip(i as int)[0] == labels@[i as int]@);
        if !valid_label_exec(&labels[i]) {
            let mut m: Vec<char> = Vec::new();
            push_str(&mut m, "invalid hostname label: ");
            push_chars(&mut m, labels[i].as_slice());
            return Err(Error::InvalidRequest(string_of(m.as_slice())));
        }
        i = i + 1;
    }
    assert(ls.skip(i as int) =~= Seq::<Seq<char>>::empty());
    Ok(string_of(n.as_slice()))
}

/// Why a list of `n` addresses is refused, if it is: none, or more than eight.
pub open spec fn addresses_problem(n: nat) -> Option<Seq<char>> {
    if n == 0 {
        Some("addresses must not be empty"@)
    } else if n > 8 {
        Some("addresses must contain 8 items or fewer"@)
    } else {
        None
    }
}

/// Checks the number of addresses (see [`addresses_problem`]).
fn validate_addresses(addresses: &Vec<DnsHostAddress>) -> (r: Result<()>)
    ensures
        match addresses_problem(addresses@.len()) {
            Some(m) => r matches Err(e) && e@ == ErrorView::InvalidRequest(m),
            None => r is Ok,
        },
{
    if addresses.len() == 0 {
        return Err(Error::InvalidRequest("addresses must not be empty".to_owned()));
    }
    if addresses.len() > 8 {
        return Err(Error::InvalidRequest("addresses must contain 8 items or fewer".to_owned()));
    }
    Ok(())
}

/// A DNS host entry: a host name, its addresses and whether a reverse lookup is added.
#[derive(Debug, Clone, PartialEq, Eq)]
pub struct DnsHostEntryCreate {
    host_name: String,
    addresses: Vec<DnsHostAddress>,
    add_reverse_dns_lookup: bool,
}

/// A DNS host entry's name, addresses and reverse-lookup setting.
pub struct EntryView {
    pub host_name: Seq<char>,
    pub addresses: Seq<AddressView>,
    pub add_reverse_dns_lookup: bool,
}

impl View for DnsHostEntryCreate {
    type V = EntryView;

    closed spec fn view(&self) -> EntryView {
        EntryView {
            host_name: self.host_name@,
            addresses: seq_views(self.addresses@),
            add_reverse_dns_lookup: self.add_reverse_dns_lookup,
        }
    }
}

impl crate::api::Named for DnsHostEntryCreate {
    open spec fn key_of(v: EntryView) -> Seq<char> {
        v.host_name
    }

    fn key(&self) -> (k: &str) {
        self.host_name.as_str()
    }
}

/// The entry for `host_name` with `addresses` and no reverse lookup, or why it is
/// refused: the addresses are checked first, then the host name.
pub open spec fn entry_create_of(host_name: Seq<char>, addresses: Seq<AddressView>) -> core::result::Result<EntryView, ErrorView> {
    match addresses_problem(addresses.len()) {
        Some(m) => Err(ErrorView::InvalidRequest(m)),
        None => match host_name_of(host_name) {
            Err(e) => Err(e),
            Ok(n) => Ok(EntryView { host_name: n, addresses, add_reverse_dns_lookup: false }),
        },
    }
}

impl DnsHostEntryCreate {
    /// An entry (see [`entry_create_of`]).
    pub fn new(host_name: &str, addresses: Vec<DnsHostAddress>) -> (r: Result<DnsHostEntryCreate>)
        ensures
            match entry_create_of(host_name@, seq_views(addresses@)) {
                Ok(v) => r matches Ok(e) && e@ == v,
                Err(e) => r matches Err(x) && x@ == e,
            },
    {
        match validate_addresses(&addresses) {
            Ok(()) => {},
            Err(e) => return Err(e),
        }
        let n = match normalize_host_name(host_name) {
            Ok(n) => n,
            Err(e) => return Err(e),
        };
        Ok(DnsHostEntryCreate { host_name: n, addresses, add_reverse_dns_lookup: false })
    }

    /// The entry with the reverse-lookup setting `add_reverse_dns_lookup`.
    pub fn with_add_reverse_dns_lookup(self, add_reverse_dns_lookup: bool) -> (r: DnsHostEntryCreate)
        ensures
            r@ == (EntryView { add_reverse_dns_lookup, ..self@ }),
    {
        let mut r = self;
        r.add_reverse_dns_lookup = add_reverse_dns_lookup;
        r
    }

    /// The host name.
    pub fn host_name(&self) -> (r: &str)
        ensures
            r@ == self@.host_name,
    {
        self.host_name.as_str()
    }

    /// The addresses.
    pub fn addresses(&self) -> (r: &[DnsHostAddress])
        ensures
            seq_views(r@) == self@.addresses,
    {
        self.addresses.as_slice()
    }

    /// Whether a reverse lookup is added.
    pub fn add_reverse_dns_lookup(&self) -> (b: bool)
        ensures
            b == self@.add_reverse_dns_lookup,
    {
        self.add_reverse_dns_lookup
    }
}

/// A change to a DNS host entry: only the given fields change.
#[derive(Debug, Clone, PartialEq, Eq)]
pub struct DnsHostEntryUpdate {
    host_name: String,
    addresses: Option<Vec<DnsHostAddress>>,
    add_reverse_dns_lookup: Option<bool>,
}

/// A [`DnsHostEntryUpdate`]'s host name and the fields it sets.
pub struct EntryUpdateView {
    pub host_name: Seq<char>,
    pub addresses: Option<Seq<AddressView>>,
    pub add_reverse_dns_lookup: Option<bool>,
}

impl View for DnsHostEntryUpdate {
    type V = EntryUpdateView;

    closed spec fn view(&self) -> EntryUpdateView {
        EntryUpdateView {
            host_name: self.host_name@,
            addresses: match self.addresses {
                Some(a) => Some(seq_views(a@)),
                None => None,
            },
            add_reverse_dns_lookup: self.add_reverse_dns_lookup,
        }
    }
}

impl DnsHostEntryUpdate {
    /// A change to the entry `host_name` that sets nothing yet.
    pub fn new(host_name: &str) -> (r: Result<DnsHostEntryUpdate>)
        ensures
            match host_name_of(host_name@) {
                Ok(n) => r matches Ok(u) && u@ == (EntryUpdateView { host_name: n, addresses: None, add_reverse_dns_lookup: None }),
                Err(e) => r matches Err(x) && x@ == e,
            },
    {
        match normalize_host_name(host_name) {
            Ok(n) => Ok(DnsHostEntryUpdate { host_name: n, addresses: None, add_reverse_dns_lookup: None }),
            Err(e) => Err(e),
        }
    }

    /// The change that also sets the addresses; their number is checked.
    pub fn with_addresses(self, addresses: Vec<DnsHostAddress>) -> (r: Result<DnsHostEntryUpdate>)
        ensures
            match addresses_problem(addresses@.len()) {
                Some(m) => r matches Err(e) && e@ == ErrorView::InvalidRequest(m),
                None => r matches Ok(u) && u@ == (EntryUpdateView { addresses: Some(seq_views(addresses@)), ..self@ }),
            },
    {
        match validate_addresses(&addresses) {
            Ok(()) => {},
            Err(e) => return Err(e),
        }
        let mut r = self;
        r.addresses = Some(addresses);
        Ok(r)
    }

    /// The change that also sets the reverse-lookup setting.
    pub fn with_add_reverse_dns_lookup(self, add_reverse_dns_lookup: bool) -> (r: DnsHostEntryUpdate)
        ensures
            r@ == (EntryUpdateView { add_reverse_dns_lookup: Some(add_reverse_dns_lookup), ..self@ }),
    {
        let mut r = self;
        r.add_reverse_dns_lookup = Some(add_reverse_dns_lookup);
        r
    }

    /// The host name.
    pub fn host_name(&self) -> (r: &str)
        ensures
            r@ == self@.host_name,
    {
        self.host_name.as_str()
    }

    /// The addresses, when set.
    pub fn addresses(&self) -> (r: Option<&[DnsHostAddress]>)
        ensures
            match self@.addresses {
                Some(a) => r matches Some(x) && seq_views(x@) == a,
                None => r is None,
            },
    {
        match &self.addresses {
            Some(a) => Some(a.as_slice()),
            None => None,
        }
    }

    /// The reverse-lookup setting, when set.
    pub fn add_reverse_dns_lookup(&self) -> (r: Option<bool>)
        ensures
            r == self@.add_reverse_dns_lookup,
    {
        self.add_reverse_dns_lookup
    }
}

/// The payload of one address.
pub open spec fn address_json(a: AddressView) -> Json {
    Json::Object(
        jinsert(
            jinsert(
                jinsert(
                    jinsert(
                        jinsert(
                            jinsert(Seq::empty(), "EntryType"@, jstr(entry_type_text(a.entry_type))),
                            "IPFamily"@,
                            jstr(family_text(a.ip_family)),
                        ),
                        "IPAddress"@,
                        jstr(a.ip_address),
                    ),
                    "TTL"@,
                    Json::Number(decimal(a.ttl as nat)),
                ),
                "Weight"@,
                Json::Number(decimal(a.weight as nat)),
            ),
            "PublishOnWAN"@,
            jstr(publish_text(a.publish_on_wan)),
        ),
    )
}

/// The payload of an entry: host name, addresses and reverse-lookup setting.
pub open spec fn entry_json(e: EntryView) -> Json {
    Json::Object(
        jinsert(
            jinsert(
                jinsert(Seq::empty(), "HostName"@, jstr(e.host_name)),
                "AddressList"@,
                Json::Object(jinsert(Seq::empty(), "Address"@, Json::Array(e.addresses.map_values(|a: AddressView| address_json(a))))),
            ),
            "AddReverseDNSLookUp"@,
            jstr(if e.add_reverse_dns_lookup { "Enable"@ } else { "Disable"@ }),
        ),
    )
}

/// The payload of one address (see [`address_json`]).
fn address_payload(a: &DnsHostAddress) -> (v: Value)
    ensures
        v@ == address_json(a@),
{
    let mut m = FieldMap::new();
    m.insert("EntryType".to_owned(), Value::String(a.entry_type.as_str().to_owned()));
    m.insert("IPFamily".to_owned(), Value::String(a.ip_family.as_str().to_owned()));
    m.insert("IPAddress".to_owned(), Value::String(a.ip_address.clone()));
    m.insert("TTL".to_owned(), Value::Number(string_of(decimal_chars(a.ttl as u64).as_slice())));
    m.insert("Weight".to_owned(), Value::Number(string_of(decimal_chars(a.weight as u64).as_slice())));
    m.insert("PublishOnWAN".to_owned(), Value::String(a.publish_on_wan.as_str().to_owned()));
    Value::Object(m)
}

/// The payload of an entry (see [`entry_json`]).
pub fn entry_payload(entry: &DnsHostEntryCreate) -> (v: Value)
    ensures
        v@ == entry_json(entry@),
{
    let ghost es = seq_views(entry.addresses@);
    let mut items: Vec<Value> = Vec::new();
    let mut i: usize = 0;
    while i < entry.addresses.len()
        invariant
            i <= entry.addresses@.len(),
            es == seq_views(entry.addresses@),
            items@.len() == i,
            forall|j: int| 0 <= j < i ==> (#[trigger] items@[j])@ == address_json(es[j]),
        decreases entry.addresses@.len() - i,
    {
        items.push(address_payload(&entry.addresses[i]));
        i = i + 1;
    }
    let arr = Value::Array(items);
    assert(arr@ == Json::Array(es.map_values(|a: AddressView| address_json(a)))) by {
        assert(arr@->Array_0 =~= es.map_values(|a: AddressView| address_json(a)));
    }
    let mut inner = FieldMap::new();
    inner.insert("Address".to_owned(), arr);
    let mut m = FieldMap::new();
    m.insert("HostName".to_owned(), Value::String(entry.host_name.clone()));
    m.insert("AddressList".to_owned(), Value::Object(inner));
    let rev = if entry.add_reverse_dns_lookup { "Enable" } else { "Disable" };
    m.insert("AddReverseDNSLookUp".to_owned(), Value::String(rev.to_owned()));
    Value::Object(m)
}

/// The number `s` spells as `str::parse` reads an unsigned integer no larger than `max`:
/// an optional `+`, then at least one decimal digit.
pub open spec fn unsigned_of(s: Seq<char>, max: nat) -> Option<nat> {
    let d = unsigned_digits(s);
    if d.len() > 0 && (forall|i: int| 0 <= i < d.len() ==> is_dec(#[trigger] d[i])) && digits_value(d) <= max {
        Some(digits_value(d))
    } else {
        None
    }
}

/// `s` without a leading `+`.
pub open spec fn unsigned_digits(s: Seq<char>) -> Seq<char> {
    if s.len() > 0 && s[0] == '+' {
        s.drop_first()
    } else {
        s
    }
}

/// The number `v` spells when it is one no larger than `max`, else `default`.
pub open spec fn number_or(v: Option<Seq<char>>, default: nat, max: nat) -> nat {
    match v {
        Some(s) => match unsigned_of(s, max) {
            Some(n) => n,
            None => default,
        },
        None => default,
    }
}

/// The number `s` spells, if it is one no larger than `max` (see [`unsigned_of`]).
pub(crate) fn parse_unsigned(s: &str, max: u64) -> (r: Option<u64>)
    requires
        max <= 0xffff_ffff,
    ensures
        match unsigned_of(s@, max as nat) {
            Some(n) => r == Some(n as u64),
            None => r is None,
        },
{
    let cs = chars_of(s);
    let start: usize = if cs.len() > 0 && cs[0] == '+' { 1 } else { 0 };
    let ghost d = if s@.len() > 0 && s@[0] == '+' { s@.drop_first() } else { s@ };
    assert(d =~= s@.skip(start as int));
    if start >= cs.len() {
        return None;
    }
    let mut v: u64 = 0;
    let mut i: usize = start;
    assert(d.take(0) =~= Seq::<char>::empty());
    while i < cs.len()
        invariant
            cs@ == s@,
            start <= i <= cs@.len(),
            d == s@.skip(start as int),
            d == unsigned_digits(s@),
            max <= 0xffff_ffff,
            v == digits_value(d.take(i - start)),
            v <= max,
            forall|j: int| 0 <= j < i - start ==> is_dec(#[trigger] d[j]),
        decreases cs@.len() - i,
    {
        let c = cs[i];
        assert(d[i - start] == c);
        if !('0' <= c && c <= '9') {
            assert(!is_dec(d[i - start]));
            assert(!(forall|j: int| 0 <= j < d.len() ==> is_dec(#[trigger] d[j])));
            return None;
        }
        assert(d.take(i + 1 - start).drop_last() =~= d.take(i - start));
        assert(d.take(i + 1 - start).last() == c);
        let digit = (c as u64) - ('0' as u64);
        v = v * 10 + digit;
        if v > max {
            proof { lemma_digits_value_prefix(d, i + 1 - start); }
            return None;
        }
        i = i + 1;
    }
    assert(d.take(i - start) =~= d);
    Some(v)
}

/// A longer prefix of digits has a value at least as large.
proof fn lemma_digits_value_prefix(d: Seq<char>, k: int)
    requires
        0 <= k <= d.len(),
    ensures
        digits_value(d.take(k)) <= digits_value(d),
    decreases d.len() - k,
{
    if k < d.len() {
        lemma_digits_value_prefix(d, k + 1);
        assert(d.take(k + 1).drop_last() =~= d.take(k));
    } else {
        assert(d.take(k) =~= d);
    }
}

/// The address an element `Address` describes, if it gives one that is accepted:
/// missing type, family, TTL, weight or publishing read as their defaults.
pub open spec fn address_of_node(c: NodeView) -> Option<AddressView> {
    match child_text_of(c, "IPAddress"@) {
        None => None,
        Some(ip) => match address_of(
            entry_type_of(child_text_of(c, "EntryType"@)),
            family_of(child_text_of(c, "IPFamily"@)),
            ip,
            number_or(child_text_of(c, "TTL"@), 3600, 0xffff_ffff) as u32,
            number_or(child_text_of(c, "Weight"@), 0, 255) as u8,
            publish_of(child_text_of(c, "PublishOnWAN"@)),
        ) {
            Ok(a) => Some(a),
            Err(_) => None,
        },
    }
}

/// The accepted addresses among the `Address` elements of `cs`, in order.
pub open spec fn addresses_of_children(cs: Seq<NodeView>) -> Seq<AddressView>
    decreases cs.len(),
{
    if cs.len() == 0 {
        Seq::empty()
    } else {
        let front = addresses_of_children(cs.drop_last());
        if cs.last().name == "Address"@ && address_of_node(cs.last()) is Some {
            front.push(address_of_node(cs.last())->Some_0)
        } else {
            front
        }
    }
}

/// The entry an element `DNSHostEntry` describes, if it is a valid one with at least one
/// accepted address; its reverse-lookup setting is `enable` in any case.
pub open spec fn entry_of_node(n: NodeView) -> Option<EntryView> {
    match child_text_of(n, "HostName"@) {
        None => None,
        Some(host) => match find_child(n.children, "AddressList"@) {
            None => None,
            Some(list) => {
                let addrs = addresses_of_children(list.children);
                if addrs.len() == 0 {
                    None
                } else {
                    let rev = match child_text_of(n, "AddReverseDNSLookUp"@) {
                        Some(v) => is_enable(v),
                        None => false,
                    };
                    match entry_create_of(host, addrs) {
                        Ok(e) => Some(EntryView { add_reverse_dns_lookup: rev, ..e }),
                        Err(_) => None,
                    }
                }
            },
        },
    }
}

/// [`entry_of_node`] as a reader that never fails.
pub open spec fn entry_reader() -> spec_fn(NodeView) -> core::result::Result<Option<EntryView>, ErrorView> {
    |n: NodeView| Ok::<Option<EntryView>, ErrorView>(entry_of_node(n))
}

/// The number in `v`, when it is one no larger than `max`, else `default`.
fn number_or_exec(v: &Option<String>, default: u64, max: u64) -> (r: u64)
    requires
        max <= 0xffff_ffff,
        default <= max,
    ensures
        r == number_or(opt_view(*v), default as nat, max as nat),
        r <= max,
{
    match v {
        Some(s) => match parse_unsigned(s.as_str(), max) {
            Some(n) => n,
            None => default,
        },
        None => default,
    }
}

/// The address an element `Address` describes (see [`address_of_node`]).
fn address_from_node(c: &XmlNode) -> (r: Option<DnsHostAddress>)
    ensures
        match address_of_node(c@) {
            Some(a) => r matches Some(x) && x@ == a,
            None => r is None,
        },
{
    let entry_type = EntryType::from_sophos(&c.child_text("EntryType"));
    let ip_family = IpFamily::from_sophos(&c.child_text("IPFamily"));
    let ip = match c.child_text("IPAddress") {
        Some(ip) => ip,
        None => return None,
    };
    let ttl = number_or_exec(&c.child_text("TTL"), 3600, 0xffff_ffff) as u32;
    let weight = number_or_exec(&c.child_text("Weight"), 0, 255) as u8;
    let publish = PublishOnWan::from_sophos(&c.child_text("PublishOnWAN"));
    match DnsHostAddress::with_options(entry_type, ip_family, ip.as_str(), ttl, weight, publish) {
        Ok(a) => Some(a),
        Err(_) => None,
    }
}

/// The accepted addresses of an element `AddressList` (see [`addresses_of_children`]).
fn addresses_from_node(list: &XmlNode) -> (r: Vec<DnsHostAddress>)
    ensures
        seq_views(r@) == addresses_of_children(list@.children),
{
    let ghost cs = list@.children;
    let mut out: Vec<DnsHostAddress> = Vec::new();
    let mut i: usize = 0;
    assert(cs.take(0) =~= Seq::<NodeView>::empty());
    assert(seq_views(out@) =~= Seq::<AddressView>::empty());
    while i < list.children.len()
        invariant
            i <= list.children@.len(),
            cs == list@.children,
            seq_views(out@) == addresses_of_children(cs.take(i as int)),
        decreases list.children@.len() - i,
    {
        assert(cs.take(i + 1).drop_last() =~= cs.take(i as int));
        assert(cs.take(i + 1).last() == list.children@[i as int]@);
        let child = &list.children[i];
        if crate::text::chars_eq(child.name.as_slice(), chars_of("Address").as_slice()) {
            match address_from_node(child) {
                Some(a) => {
                    let ghost before = out@;
                    let ghost av = a@;
                    out.push(a);
                    assert(seq_views(out@) =~= seq_views(before).push(av));
                },
                None => {},
            }
        }
        i = i + 1;
    }
    assert(cs.take(i as int) =~= cs);
    out
}

/// The entry an element `DNSHostEntry` describes (see [`entry_of_node`]).
fn entry_from_node(node: &XmlNode) -> (r: Option<DnsHostEntryCreate>)
    ensures
        match entry_of_node(node@) {
            Some(e) => r matches Some(x) && x@ == e,
            None => r is None,
        },
{
    let host = match node.child_text("HostName") {
        Some(h) => h,
        None => return None,
    };
    let list = match node.child("AddressList") {
        Some(l) => l,
        None => return None,
    };
    let addresses = addresses_from_node(list);
    if addresses.len() == 0 {
        return None;
    }
    let rev = match node.child_text("AddReverseDNSLookUp") {
        Some(v) => is_enable_exec(chars_of(v.as_str()).as_slice()),
        None => false,
    };
    match DnsHostEntryCreate::new(host.as_str(), addresses) {
        Ok(e) => Some(e.with_add_reverse_dns_lookup(rev)),
        Err(_) => None,
    }
}

/// The entry an element `DNSHostEntry` describes, as a reading that never fails.
pub fn entry_read(node: &XmlNode) -> (r: Result<Option<DnsHostEntryCreate>>)
    ensures
        read_view(r) == Ok::<Option<EntryView>, ErrorView>(entry_of_node(node@)),
{
    Ok(entry_from_node(node))
}

/// Whether an entry was created or updated.
#[derive(Debug, Clone, Copy, PartialEq, Eq, Structural)]
pub enum DnsMutationAction {
    Created,
    Updated,
}

/// What adding an entry did, and the firewall's reply.
#[derive(Debug, Clone, PartialEq, Eq)]
pub struct DnsMutationOutcome {
    pub action: DnsMutationAction,
    pub response: ResourceResponse,
}

/// The counts and error texts of a batch of entry changes.
#[derive(Debug, Clone, PartialEq, Eq)]
pub struct DnsBulkMutationResult {
    pub total: usize,
    pub created: usize,
    pub updated: usize,
    pub failed: usize,
    pub errors: Vec<String>,
}

/// The counts and error texts of a batch of entry changes, by views.
pub struct BulkView {
    pub created: nat,
    pub updated: nat,
    pub failed: nat,
    pub errors: Seq<Seq<char>>,
}

/// The view of a batch result.
pub open spec fn bulk_view(r: DnsBulkMutationResult) -> BulkView {
    BulkView { created: r.created as nat, updated: r.updated as nat, failed: r.failed as nat, errors: views(r.errors@) }
}

/// `b` after one more failure of the entry for `host` with `e`.
pub open spec fn with_failure(b: BulkView, host: Seq<char>, e: ErrorView) -> BulkView {
    BulkView { failed: b.failed + 1, errors: b.errors.push(host + ": "@ + crate::error::error_text(e)), ..b }
}

/// What adding `es` in turn gives when the lookup and write of entry `i` are answered
/// `replies[i]`: each add's outcome (see [`dns_add_outcome`]) counted, each failure kept as
/// `"{host}: {error}"`; without `cont` nothing after the first failure is tried.
pub open spec fn bulk_add_of(
    conn: Link,
    es: Seq<EntryView>,
    force: bool,
    cont: bool,
    replies: Seq<(Reply, Reply)>,
) -> BulkView
    decreases es.len(),
{
    if es.len() == 0 {
        BulkView { created: 0, updated: 0, failed: 0, errors: Seq::empty() }
    } else {
        let prev = bulk_add_of(conn, es.drop_last(), force, cont, replies.drop_last());
        if !cont && prev.failed > 0 {
            prev
        } else {
            match dns_add_outcome(conn, es.last(), force, replies.last().0, replies.last().1) {
                Ok((DnsMutationAction::Created, _)) => BulkView { created: prev.created + 1, ..prev },
                Ok((DnsMutationAction::Updated, _)) => BulkView { updated: prev.updated + 1, ..prev },
                Err(e) => with_failure(prev, es.last().host_name, e),
            }
        }
    }
}

/// What updating with `us` in turn gives when the lookup and write of update `i` are
/// answered `replies[i]`: each update's outcome (see [`dns_update_outcome`]) counted, each
/// failure kept as `"{host}: {error}"`; without `cont` nothing after the first failure is
/// tried.
pub open spec fn bulk_update_of(
    conn: Link,
    us: Seq<EntryUpdateView>,
    cont: bool,
    replies: Seq<(Reply, Reply)>,
) -> BulkView
    decreases us.len(),
{
    if us.len() == 0 {
        BulkView { created: 0, updated: 0, failed: 0, errors: Seq::empty() }
    } else {
        let prev = bulk_update_of(conn, us.drop_last(), cont, replies.drop_last());
        if !cont && prev.failed > 0 {
            prev
        } else {
            match dns_update_outcome(conn, us.last(), replies.last().0, replies.last().1) {
                Ok(_) => BulkView { updated: prev.updated + 1, ..prev },
                Err(e) => with_failure(prev, us.last().host_name, e),
            }
        }
    }
}

/// Once a batch without `cont` has failed, the entries after are not tried.
proof fn lemma_bulk_add_stopped(conn: Link, es: Seq<EntryView>, force: bool, replies: Seq<(Reply, Reply)>, k: int)
    requires
        0 <= k <= es.len(),
        replies.len() == es.len(),
        bulk_add_of(conn, es.take(k), force, false, replies.take(k)).failed > 0,
    ensures
        bulk_add_of(conn, es, force, false, replies) == bulk_add_of(conn, es.take(k), force, false, replies.take(k)),
    decreases es.len() - k,
{
    if k < es.len() {
        assert(es.take(k + 1).drop_last() =~= es.take(k));
        assert(replies.take(k + 1).drop_last() =~= replies.take(k));
        lemma_bulk_add_stopped(conn, es, force, replies, k + 1);
    } else {
        assert(es.take(k) =~= es);
        assert(replies.take(k) =~= replies);
    }
}

/// Once a batch of updates without `cont` has failed, the updates after are not tried.
proof fn lemma_bulk_update_stopped(conn: Link, us: Seq<EntryUpdateView>, replies: Seq<(Reply, Reply)>, k: int)
    requires
        0 <= k <= us.len(),
        replies.len() == us.len(),
        bulk_update_of(conn, us.take(k), false, replies.take(k)).failed > 0,
    ensures
        bulk_update_of(conn, us, false, replies) == bulk_update_of(conn, us.take(k), false, replies.take(k)),
    decreases us.len() - k,
{
    if k < us.len() {
        assert(us.take(k + 1).drop_last() =~= us.take(k));
        assert(replies.take(k + 1).drop_last() =~= replies.take(k));
        lemma_bulk_update_stopped(conn, us, replies, k + 1);
    } else {
        assert(us.take(k) =~= us);
        assert(replies.take(k) =~= replies);
    }
}

/// The resource name of DNS host entries.
pub open spec fn dns_resource() -> Seq<char> {
    "DNSHostEntry"@
}

/// The entry a read of `name` gives when answered `reply`.
pub open spec fn dns_lookup(conn: Link, name: Seq<char>, reply: Reply) -> core::result::Result<Option<EntryView>, ErrorView> {
    get_outcome::<DnsHostEntryCreate>(
        exchange(conn, named_request(Action::Read, dns_resource(), "HostName"@, name, None, empty_object()), reply),
        dns_resource(),
        name,
        entry_reader(),
    )
}

/// What writing the entry `e` with `action` gives when answered `reply`.
pub open spec fn dns_submit(conn: Link, action: Action, e: EntryView, reply: Reply) -> core::result::Result<ResourceView, ErrorView> {
    write_outcome(
        exchange(conn, named_request(action, dns_resource(), "HostName"@, e.host_name, None, entry_json(e)), reply),
        dns_resource(),
    )
}

/// What adding the entry `e` gives when the lookup is answered `first` and the write
/// `second`: the lookup's error; an existing entry without `force` (then nothing is
/// written); else the write, an update of an existing entry or a creation, and its reply.
pub open spec fn dns_add_outcome(
    conn: Link,
    e: EntryView,
    force: bool,
    first: Reply,
    second: Reply,
) -> core::result::Result<(DnsMutationAction, ResourceView), ErrorView> {
    match dns_lookup(conn, e.host_name, first) {
        Err(x) => Err(x),
        Ok(found) => if found is Some && !force {
            Err(ErrorView::InvalidRequest("DNS entry '"@ + e.host_name + "' already exists"@))
        } else {
            match dns_submit(conn, if found is Some { Action::Update } else { Action::Create }, e, second) {
                Ok(r) => Ok((if found is Some { DnsMutationAction::Updated } else { DnsMutationAction::Created }, r)),
                Err(x) => Err(x),
            }
        },
    }
}

/// The entry written by an update: each field the update sets, else the existing one.
pub open spec fn merged_entry(u: EntryUpdateView, existing: EntryView) -> EntryView {
    EntryView {
        host_name: u.host_name,
        addresses: match u.addresses {
            Some(a) => a,
            None => existing.addresses,
        },
        add_reverse_dns_lookup: match u.add_reverse_dns_lookup {
            Some(b) => b,
            None => existing.add_reverse_dns_lookup,
        },
    }
}

/// What updating with `u` gives when the lookup is answered `first` and the write
/// `second`: an update that sets nothing, or a missing entry, is an error (then nothing is
/// written); else the reply to writing the merged entry.
pub open spec fn dns_update_outcome(conn: Link, u: EntryUpdateView, first: Reply, second: Reply) -> core::result::Result<
    ResourceView,
    ErrorView,
> {
    if u.addresses is None && u.add_reverse_dns_lookup is None {
        Err(ErrorView::InvalidRequest("At least one of 'addresses' or 'add_reverse_dns_lookup' must be provided"@))
    } else {
        match dns_lookup(conn, u.host_name, first) {
            Err(x) => Err(x),
            Ok(None) => Err(missing_error("DNS entry"@, u.host_name)),
            Ok(Some(existing)) => dns_submit(conn, Action::Update, merged_entry(u, existing), second),
        }
    }
}

/// The view of an add result.
pub open spec fn add_view(r: Result<DnsMutationOutcome>) -> core::result::Result<(DnsMutationAction, ResourceView), ErrorView> {
    match r {
        Ok(o) => Ok((o.action, o.response@)),
        Err(e) => Err(e@),
    }
}

/// The DNS host entry operations of a client.
pub struct DnsApi<'a, T> {
    client: &'a SophosClient<T>,
}

impl<'a, T: SophosTransport> DnsApi<'a, T> {
    /// The connection of the client and what its transport answers.
    pub closed spec fn conn(&self) -> Link {
        self.client.conn()
    }
}

impl<T: SophosTransport> SophosClient<T> {
    /// The DNS host entry operations.
    pub fn dns(&self) -> (a: DnsApi<'_, T>)
        ensures
            a.conn() == self.conn(),
    {
        DnsApi { client: self }
    }
}

impl<'a, T: SophosTransport> DnsApi<'a, T> {
    /// Every valid entry; zero records is an empty list.
    pub fn list_entries(&self) -> (r: Result<Vec<DnsHostEntryCreate>>)
        ensures
            exists|reply: Reply|
                list_view(r) == list_outcome(exchange(self.conn(), read_request(dns_resource()), reply), dns_resource(), entry_reader()),
    {
        let r = list_items(self.client, "DNSHostEntry", entry_read, Ghost(entry_reader()));
        let ghost reply = choose|reply: Reply|
            list_view(r) == list_outcome(exchange(self.client.conn(), read_request("DNSHostEntry"@), reply), "DNSHostEntry"@, entry_reader());
        assert(list_view(r) == list_outcome(exchange(self.conn(), read_request(dns_resource()), reply), dns_resource(), entry_reader()));
        r
    }

    /// The entry for `host_name` (normalized); zero records is none.
    pub fn get_entry(&self, host_name: &str) -> (r: Result<Option<DnsHostEntryCreate>>)
        ensures
            match host_name_of(host_name@) {
                Err(e) => r matches Err(x) && x@ == e,
                Ok(n) => exists|reply: Reply| opt_result_view(r) == dns_lookup(self.conn(), n, reply),
            },
    {
        let n = match normalize_host_name(host_name) {
            Ok(n) => n,
            Err(e) => return Err(e),
        };
        self.lookup(n.as_str())
    }

    /// The entry named exactly `name`.
    fn lookup(&self, name: &str) -> (r: Result<Option<DnsHostEntryCreate>>)
        ensures
            exists|reply: Reply| opt_result_view(r) == dns_lookup(self.conn(), name@, reply),
    {
        let r = get_item(self.client, "DNSHostEntry", "HostName", name, entry_read, Ghost(entry_reader()));
        let ghost reply = choose|reply: Reply|
            opt_result_view(r) == get_outcome::<DnsHostEntryCreate>(
                exchange(self.client.conn(), named_request(Action::Read, "DNSHostEntry"@, "HostName"@, name@, None, Json::Object(Seq::empty())), reply),
                "DNSHostEntry"@,
                name@,
                entry_reader(),
            );
        assert(opt_result_view(r) == dns_lookup(self.conn(), name@, reply));
        r
    }

    /// Writes the entry with `action`.
    fn submit_entry(&self, entry: &DnsHostEntryCreate, action: Action) -> (r: Result<ResourceResponse>)
        ensures
            exists|reply: Reply| write_view(r) == dns_submit(self.conn(), action, entry@, reply),
    {
        let payload = entry_payload(entry);
        let ghost pv = payload@;
        let r = write_item(self.client, action, "DNSHostEntry", "HostName", entry.host_name.as_str(), None, payload);
        let ghost reply = choose|reply: Reply|
            write_view(r) == write_outcome(
                exchange(self.client.conn(), named_request(action, "DNSHostEntry"@, "HostName"@, entry.host_name@, crate::xml::opt_str_view(None), pv), reply),
                "DNSHostEntry"@,
            );
        assert(write_view(r) == dns_submit(self.conn(), action, entry@, reply));
        r
    }

    /// Adds `entry`; an existing entry is updated when `force` is set, else refused (see
    /// [`dns_add_outcome`]).
    pub fn add_entry(&self, entry: DnsHostEntryCreate, force: bool) -> (r: Result<DnsMutationOutcome>)
        ensures
            exists|first: Reply, second: Reply| add_view(r) == #[trigger] dns_add_outcome(self.conn(), entry@, force, first, second),
    {
        let ghost ev = entry@;
        let existing = self.lookup(entry.host_name.as_str());
        let ghost first = choose|reply: Reply| opt_result_view(existing) == dns_lookup(self.conn(), ev.host_name, reply);
        let found = match existing {
            Ok(x) => x.is_some(),
            Err(e) => {
                assert(add_view(Err(e)) == dns_add_outcome(self.conn(), ev, force, first, first));
                return Err(e);
            },
        };
        if found && !force {
            let mut m: Vec<char> = Vec::new();
            push_str(&mut m, "DNS entry '");
            push_str(&mut m, entry.host_name.as_str());
            push_str(&mut m, "' already exists");
            let e = Error::InvalidRequest(string_of(m.as_slice()));
            assert(add_view(Err(e)) == dns_add_outcome(self.conn(), ev, force, first, first));
            return Err(e);
        }
        let (action, request_action) = if found {
            (DnsMutationAction::Updated, Action::Update)
        } else {
            (DnsMutationAction::Created, Action::Create)
        };
        let resp = self.submit_entry(&entry, request_action);
        let ghost second = choose|reply: Reply| write_view(resp) == dns_submit(self.conn(), request_action, ev, reply);
        let r = match resp {
            Ok(response) => Ok(DnsMutationOutcome { action, response }),
            Err(e) => Err(e),
        };
        assert(add_view(r) == dns_add_outcome(self.conn(), ev, force, first, second));
        r
    }

    /// Updates an existing entry with the fields `entry` sets (see [`dns_update_outcome`]).
    pub fn update_entry(&self, entry: DnsHostEntryUpdate) -> (r: Result<ResourceResponse>)
        ensures
            exists|first: Reply, second: Reply| write_view(r) == #[trigger] dns_update_outcome(self.conn(), entry@, first, second),
    {
        let ghost uv = entry@;
        if entry.addresses.is_none() && entry.add_reverse_dns_lookup.is_none() {
            let e = Error::InvalidRequest("At least one of 'addresses' or 'add_reverse_dns_lookup' must be provided".to_owned());
            let ghost any: Reply = Err(ErrorView::Transport(Seq::empty()));
            assert(write_view(Err(e)) == dns_update_outcome(self.conn(), uv, any, any));
            return Err(e);
        }
        let existing = self.lookup(entry.host_name.as_str());
        let ghost first = choose|reply: Reply| opt_result_view(existing) == dns_lookup(self.conn(), uv.host_name, reply);
        match existing {
            Err(e) => {
                assert(write_view(Err(e)) == dns_update_outcome(self.conn(), uv, first, first));
                Err(e)
            },
            Ok(None) => {
                let e = missing_error_exec("DNS entry", entry.host_name.as_str());
                assert(write_view(Err(e)) == dns_update_outcome(self.conn(), uv, first, first));
                Err(e)
            },
            Ok(Some(ex)) => {
                let ghost exv = ex@;
                let merged = DnsHostEntryCreate {
                    host_name: entry.host_name,
                    addresses: match entry.addresses {
                        Some(a) => a,
                        None => ex.addresses,
                    },
                    add_reverse_dns_lookup: match entry.add_reverse_dns_lookup {
                        Some(b) => b,
                        None => ex.add_reverse_dns_lookup,
                    },
                };
                assert(merged@ == merged_entry(uv, exv));
                let r = self.submit_entry(&merged, Action::Update);
                let ghost second = choose|reply: Reply| write_view(r) == dns_submit(self.conn(), Action::Update, merged@, reply);
                assert(write_view(r) == dns_update_outcome(self.conn(), uv, first, second));
                r
            },
        }
    }

    /// Deletes the entry for `host_name` (normalized) after checking that it exists.
    pub fn delete_entry(&self, host_name: &str) -> (r: Result<ResourceResponse>)
        ensures
            match host_name_of(host_name@) {
                Err(e) => r matches Err(x) && x@ == e,
                Ok(n) => exists|first: Reply, second: Reply|
                    write_view(r) == #[trigger] delete_outcome::<DnsHostEntryCreate>(
                        self.conn(),
                        dns_resource(),
                        "HostName"@,
                        "DNS entry"@,
                        n,
                        entry_reader(),
                        first,
                        second,
                    ),
            },
    {
        let n = match normalize_host_name(host_name) {
            Ok(n) => n,
            Err(e) => return Err(e),
        };
        let r = delete_item(self.client, "DNSHostEntry", "HostName", "DNS entry", n.as_str(), entry_read, Ghost(entry_reader()));
        let ghost (first, second) = choose|first: Reply, second: Reply|
            write_view(r) == #[trigger] delete_outcome::<DnsHostEntryCreate>(self.client.conn(), "DNSHostEntry"@, "HostName"@, "DNS entry"@, n@, entry_reader(), first, second);
        assert(write_view(r) == delete_outcome::<DnsHostEntryCreate>(self.conn(), dns_resource(), "HostName"@, "DNS entry"@, n@, entry_reader(), first, second));
        r
    }

    /// Adds each entry in turn (see [`DnsApi::add_entry`]), counting creations, updates and
    /// failures and keeping one `"{host}: {error}"` text per failure; without
    /// `continue_on_error` the first failure ends the batch (see [`bulk_add_of`]).
    #[verifier::rlimit(30)]
    pub fn add_many(&self, entries: Vec<DnsHostEntryCreate>, force: bool, continue_on_error: bool) -> (r: DnsBulkMutationResult)
        ensures
            r.total == entries@.len(),
            exists|replies: Seq<(Reply, Reply)>|
                replies.len() == entries@.len()
                    && bulk_view(r) == #[trigger] bulk_add_of(self.conn(), seq_views(entries@), force, continue_on_error, replies),
    {
        let ghost es = seq_views(entries@);
        let ghost mut replies: Seq<(Reply, Reply)> = Seq::empty();
        let total = entries.len();
        let mut result = DnsBulkMutationResult { total, created: 0, updated: 0, failed: 0, errors: Vec::new() };
        let mut rest = entries;
        let mut i: usize = 0;
        assert(seq_views(rest@) =~= es.skip(0));
        assert(es.take(0) =~= Seq::<EntryView>::empty());
        assert(views(result.errors@) =~= Seq::<Seq<char>>::empty());
        while rest.len() > 0
            invariant
                result.total == total,
                total == entries@.len(),
                es == seq_views(entries@),
                i + rest@.len() == total,
                seq_views(rest@) == es.skip(i as int),
                replies.len() == i,
                bulk_view(result) == bulk_add_of(self.conn(), es.take(i as int), force, continue_on_error, replies),
                result.created + result.updated + result.failed == i,
                !continue_on_error ==> result.failed == 0,
            decreases rest@.len(),
        {
            let ghost old_rest = rest@;
            let entry = rest.remove(0);
            assert(entry@ == es[i as int]) by {
                assert(es.skip(i as int)[0] == es[i as int]);
            }
            assert(seq_views(rest@) =~= es.skip(i + 1)) by {
                assert(seq_views(old_rest).drop_first() =~= es.skip(i + 1));
            }
            let host = entry.host_name.clone();
            let ghost ev = entry@;
            let outcome = self.add_entry(entry, force);
            let ghost (first, second) = choose|first: Reply, second: Reply|
                add_view(outcome) == #[trigger] dns_add_outcome(self.conn(), ev, force, first, second);
            let ghost prev = replies;
            proof {
                replies = replies.push((first, second));
            }
            assert(es.take(i + 1).drop_last() =~= es.take(i as int));
            assert(es.take(i + 1).last() == es[i as int]);
            assert(replies.drop_last() =~= prev);
            let ghost before = views(result.errors@);
            match outcome {
                Ok(o) => match o.action {
                    DnsMutationAction::Created => result.created = result.created + 1,
                    DnsMutationAction::Updated => result.updated = result.updated + 1,
                },
                Err(error) => {
                    result.failed = result.failed + 1;
                    result.errors.push(failure_text(host.as_str(), &error));
                    assert(views(result.errors@) =~= before.push(ev.host_name + ": "@ + crate::error::error_text(error@)));
                    if !continue_on_error {
                        let ghost filler = Seq::new((total - i - 1) as nat, |j: int| (first, second));
                        let ghost all = replies + filler;
                        assert(all.take(i + 1) =~= replies);
                        proof { lemma_bulk_add_stopped(self.conn(), es, force, all, (i + 1) as int); }
                        assert(bulk_view(result) == bulk_add_of(self.conn(), es, force, continue_on_error, all));
                        return result;
                    }
                },
            }
            i = i + 1;
        }
        assert(es.take(i as int) =~= es);
        result
    }

    /// Updates each entry in turn (see [`DnsApi::update_entry`]), counting updates and
    /// failures and keeping one `"{host}: {error}"` text per failure; without
    /// `continue_on_error` the first failure ends the batch (see [`bulk_update_of`]).
    #[verifier::rlimit(30)]
    pub fn update_many(&self, entries: Vec<DnsHostEntryUpdate>, continue_on_error: bool) -> (r: DnsBulkMutationResult)
        ensures
            r.total == entries@.len(),
            exists|replies: Seq<(Reply, Reply)>|
                replies.len() == entries@.len()
                    && bulk_view(r) == #[trigger] bulk_update_of(self.conn(), seq_views(entries@), continue_on_error, replies),
    {
        let ghost es = seq_views(entries@);
        let ghost mut replies: Seq<(Reply, Reply)> = Seq::empty();
        let total = entries.len();
        let mut result = DnsBulkMutationResult { total, created: 0, updated: 0, failed: 0, errors: Vec::new() };
        let mut rest = entries;
        let mut i: usize = 0;
        assert(seq_views(rest@) =~= es.skip(0));
        assert(es.take(0) =~= Seq::<EntryUpdateView>::empty());
        assert(views(result.errors@) =~= Seq::<Seq<char>>::empty());
        while rest.len() > 0
            invariant
                result.total == total,
                total == entries@.len(),
                es == seq_views(entries@),
                i + rest@.len() == total,
                seq_views(rest@) == es.skip(i as int),
                replies.len() == i,
                bulk_view(result) == bulk_update_of(self.conn(), es.take(i as int), continue_on_error, replies),
                result.created == 0,
                result.updated + result.failed == i,
                !continue_on_error ==> result.failed == 0,
            decreases rest@.len(),
        {
            let ghost old_rest = rest@;
            let entry = rest.remove(0);
            assert(entry@ == es[i as int]) by {
                assert(es.skip(i as int)[0] == es[i as int]);
            }
            assert(seq_views(rest@) =~= es.skip(i + 1)) by {
                assert(seq_views(old_rest).drop_first() =~= es.skip(i + 1));
            }
            let host = entry.host_name.clone();
            let ghost uv = entry@;
            let outcome = self.update_entry(entry);
            let ghost (first, second) = choose|first: Reply, second: Reply|
                write_view(outcome) == #[trigger] dns_update_outcome(self.conn(), uv, first, second);
            let ghost prev = replies;
            proof {
                replies = replies.push((first, second));
            }
            assert(es.take(i + 1).drop_last() =~= es.take(i as int));
            assert(es.take(i + 1).last() == es[i as int]);
            assert(replies.drop_last() =~= prev);
            let ghost before = views(result.errors@);
            match outcome {
                Ok(_) => result.updated = result.updated + 1,
                Err(error) => {
                    result.failed = result.failed + 1;
                    result.errors.push(failure_text(host.as_str(), &error));
                    assert(views(result.errors@) =~= before.push(uv.host_name + ": "@ + crate::error::error_text(error@)));
                    if !continue_on_error {
                        let ghost filler = Seq::new((total - i - 1) as nat, |j: int| (first, second));
                        let ghost all = replies + filler;
                        assert(all.take(i + 1) =~= replies);
                        proof { lemma_bulk_update_stopped(self.conn(), es, all, (i + 1) as int); }
                        assert(bulk_view(result) == bulk_update_of(self.conn(), es, continue_on_error, all));
                        return result;
                    }
                },
            }
            i = i + 1;
        }
        assert(es.take(i as int) =~= es);
        result
    }
}

/// `"{host}: {error}"`.
fn failure_text(host: &str, error: &Error) -> (s: String)
    ensures
        s@ == host@ + ": "@ + crate::error::error_text(error@),
{
    let mut m: Vec<char> = Vec::new();
    push_str(&mut m, host);
    push_str(&mut m, ": ");
    let t = error.to_string();
    push_str(&mut m, t.as_str());
    string_of(m.as_slice())
}

} // verus!
