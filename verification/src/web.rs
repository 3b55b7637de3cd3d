//! What the HTTP face of the library decides: its settings, its error replies, and the
//! request bodies and replies it turns into and out of the typed client's values.

use std::sync::Arc;
use vstd::prelude::*;
use crate::api::{
    delete_outcome, empty_object, get_outcome, list_outcome, list_view, named_request,
    opt_result_view, read_request, write_outcome, write_view,
};
use crate::client::{exchange, Reply, SophosClient};
use crate::request::Action;
use crate::response::ResourceView;
use crate::transport::SophosTransport;
use crate::common::{name_of, seq_views, str_views};
use crate::dns::{
    add_view, address_of, addresses_problem, dns_add_outcome, dns_lookup, dns_resource,
    dns_update_outcome, entry_create_of, entry_reader, host_name_of, parse_unsigned, unsigned_of,
    AddressView, DnsHostAddress, DnsHostEntryCreate, DnsHostEntryUpdate, DnsMutationAction,
    DnsMutationOutcome, EntryType, EntryUpdateView, EntryView, IpFamily, PublishOnWan,
};
use crate::firewall::{
    FirewallRule, FirewallRuleCreate, FirewallRuleGroup, FirewallRuleGroupCreate,
    FirewallRuleGroupUpdate, FirewallRuleUpdate,
};
use crate::json::{FieldMap, Json};
use crate::objects::{
    object_reader, object_update_outcome, payload_with_key, with_all_fields, with_fields_of,
    ApiObject, FieldsBuilder, ObjectView,
};
use crate::response::ResourceResponse;
use crate::error::Result;
use crate::service::{
    url_group_create_of, url_group_json, url_group_reader, url_group_resource,
    url_group_update_outcome, UrlGroup, UrlGroupCreate, UrlGroupView,
};
use crate::error::{error_text, Error, ErrorView};
use crate::request::SophosConnection;
use crate::text::{chars_of, opt_view, trim};

verus! {

/// What can go wrong starting the HTTP face.
#[derive(Debug)]
pub enum WebError {
    MissingEnv(String),
    InvalidConfig(String),
    Api(Error),
    Io(String),
}

/// A [`WebError`] with its texts as character sequences.
pub enum WebErrorView {
    MissingEnv(Seq<char>),
    InvalidConfig(Seq<char>),
    Api(ErrorView),
    Io(Seq<char>),
}

impl View for WebError {
    type V = WebErrorView;

    open spec fn view(&self) -> WebErrorView {
        match self {
            WebError::MissingEnv(n) => WebErrorView::MissingEnv(n@),
            WebError::InvalidConfig(m) => WebErrorView::InvalidConfig(m@),
            WebError::Api(e) => WebErrorView::Api(e@),
            WebError::Io(m) => WebErrorView::Io(m@),
        }
    }
}

/// The human-readable text of a [`WebError`].
pub open spec fn web_error_text(e: WebErrorView) -> Seq<char> {
    match e {
        WebErrorView::MissingEnv(n) => "missing required environment variable "@ + n,
        WebErrorView::InvalidConfig(m) => "invalid configuration: "@ + m,
        WebErrorView::Api(x) => error_text(x),
        WebErrorView::Io(m) => m,
    }
}

/// The result type of the HTTP face.
pub type WebResult<T> = core::result::Result<T, WebError>;

impl WebError {
    /// The human-readable text of the error.
    pub fn to_string(&self) -> (s: String)
        ensures
            s@ == web_error_text(self@),
    {
        match self {
            WebError::MissingEnv(n) => {
                let mut s = "missing required environment variable ".to_owned();
                s.append(n.as_str());
                s
            },
            WebError::InvalidConfig(m) => {
                let mut s = "invalid configuration: ".to_owned();
                s.append(m.as_str());
                s
            },
            WebError::Api(e) => e.to_string(),
            WebError::Io(m) => m.clone(),
        }
    }
}

/// The code of `c` after ASCII lower-casing, as `char::to_ascii_lowercase` gives it.
pub open spec fn lower_code(c: char) -> u32 {
    if 'A' <= c && c <= 'Z' {
        (c as u32 + 32) as u32
    } else {
        c as u32
    }
}

/// Whether `s` lower-cased in ASCII is `word`, a word of lower-case characters.
pub open spec fn lower_is(s: Seq<char>, word: Seq<char>) -> bool {
    s.len() == word.len() && forall|i: int| 0 <= i < s.len() ==> #[trigger] lower_code(s[i]) == word[i] as u32
}

/// The switch `value` spells for the setting `name`: `1`, `true`, `yes` or `on` for on,
/// `0`, `false`, `no` or `off` for off, in any ASCII case and with white space around.
pub open spec fn bool_setting(name: Seq<char>, value: Seq<char>) -> core::result::Result<bool, WebErrorView> {
    let v = trim(value);
    if lower_is(v, "1"@) || lower_is(v, "true"@) || lower_is(v, "yes"@) || lower_is(v, "on"@) {
        Ok(true)
    } else if lower_is(v, "0"@) || lower_is(v, "false"@) || lower_is(v, "no"@) || lower_is(v, "off"@) {
        Ok(false)
    } else {
        Err(WebErrorView::InvalidConfig(name + " must be true or false"@))
    }
}

/// Whether `s` lower-cased in ASCII is `word` (see [`lower_is`]).
fn lower_eq(s: &[char], word: &str) -> (b: bool)
    ensures
        b == lower_is(s@, word@),
{
    let w = chars_of(word);
    if s.len() != w.len() {
        return false;
    }
    let mut i: usize = 0;
    while i < s.len()
        invariant
            w@ == word@,
            s@.len() == w@.len(),
            i <= s@.len(),
            forall|j: int| 0 <= j < i ==> #[trigger] lower_code(s@[j]) == w@[j] as u32,
        decreases s@.len() - i,
    {
        let c = s[i];
        let code: u32 = if 'A' <= c && c <= 'Z' { (c as u32) + 32 } else { c as u32 };
        assert(code == lower_code(s@[i as int]));
        if code != (w[i] as u32) {
            return false;
        }
        i = i + 1;
    }
    true
}

/// Reads the switch `value` of the setting `name` (see [`bool_setting`]).
pub fn parse_bool(name: &str, value: &str) -> (r: WebResult<bool>)
    ensures
        match bool_setting(name@, value@) {
            Ok(b) => r matches Ok(x) && x == b,
            Err(e) => r matches Err(x) && x@ == e,
        },
{
    let t = crate::text::trim_chars(chars_of(value).as_slice());
    let v = t.as_slice();
    if lower_eq(v, "1") || lower_eq(v, "true") || lower_eq(v, "yes") || lower_eq(v, "on") {
        Ok(true)
    } else if lower_eq(v, "0") || lower_eq(v, "false") || lower_eq(v, "no") || lower_eq(v, "off") {
        Ok(false)
    } else {
        let mut m = name.to_owned();
        m.append(" must be true or false");
        Err(WebError::InvalidConfig(m))
    }
}

/// A value read for a setting: `raw` unless it is missing or blank.
pub fn setting_value(raw: Option<String>) -> (r: Option<String>)
    ensures
        match raw {
            Some(v) => if trim(v@).len() > 0 {
                r == Some(v)
            } else {
                r is None
            },
            None => r is None,
        },
{
    match raw {
        Some(v) => {
            let t = crate::text::trim_chars(chars_of(v.as_str()).as_slice());
            if t.len() > 0 {
                Some(v)
            } else {
                None
            }
        },
        None => None,
    }
}

/// The value of the required setting `name`, or its absence as an error.
pub fn required_setting(name: &str, value: Option<String>) -> (r: WebResult<String>)
    ensures
        match value {
            Some(v) => r matches Ok(x) && x == v,
            None => r matches Err(e) && e@ == WebErrorView::MissingEnv(name@),
        },
{
    match value {
        Some(v) => Ok(v),
        None => Err(WebError::MissingEnv(name.to_owned())),
    }
}

/// The API port `port` spells, 4444 when it is not set.
pub open spec fn port_setting(port: Option<Seq<char>>) -> core::result::Result<u16, WebErrorView> {
    match port {
        None => Ok(4444),
        Some(p) => match unsigned_of(p, 65535) {
            Some(n) => Ok(n as u16),
            None => Err(WebErrorView::InvalidConfig("SOPHOS_FIREWALL_PORT must be a u16"@)),
        },
    }
}

/// Whether TLS certificates are checked: as `verify_tls` says (see [`bool_setting`]),
/// yes when it is not set.
pub open spec fn tls_setting(verify_tls: Option<Seq<char>>) -> core::result::Result<bool, WebErrorView> {
    match verify_tls {
        None => Ok(true),
        Some(v) => bool_setting("SOPHOS_FIREWALL_VERIFY_TLS"@, v),
    }
}

/// The view of an optional string slice.
pub open spec fn opt_str(o: Option<&str>) -> Option<Seq<char>> {
    match o {
        Some(s) => Some(s@),
        None => None,
    }
}

/// The connection to `host` as `username`, with the port and TLS checking the settings
/// `port` and `verify_tls` give (see [`port_setting`] and [`tls_setting`]); the port is
/// checked first.
pub fn connection_from_settings(
    host: &str,
    username: &str,
    password: &str,
    port: Option<&str>,
    verify_tls: Option<&str>,
) -> (r: WebResult<SophosConnection>)
    ensures
        match port_setting(opt_str(port)) {
            Err(e) => r matches Err(x) && x@ == e,
            Ok(p) => match tls_setting(opt_str(verify_tls)) {
                Err(e) => r matches Err(x) && x@ == e,
                Ok(t) => r matches Ok(c) && c.host@ == host@ && c.username@ == username@
                    && c.password@ == password@ && c.port == p && c.verify_tls == t,
            },
        },
{
    let mut connection = SophosConnection::new(host, username, password);
    match port {
        Some(p) => match parse_unsigned(p, 65535) {
            Some(n) => {
                connection.port = n as u16;
            },
            None => return Err(WebError::InvalidConfig("SOPHOS_FIREWALL_PORT must be a u16".to_owned())),
        },
        None => {},
    }
    match verify_tls {
        Some(v) => match parse_bool("SOPHOS_FIREWALL_VERIFY_TLS", v) {
            Ok(b) => {
                connection.verify_tls = b;
            },
            Err(e) => return Err(e),
        },
        None => {},
    }
    Ok(connection)
}

/// An error reply of the HTTP face: its status, a short code and a message.
#[derive(Debug, Clone, PartialEq, Eq)]
pub struct ApiError {
    status: u16,
    code: String,
    message: String,
}

/// An [`ApiError`] with its texts as character sequences.
pub struct ApiErrorView {
    pub status: u16,
    pub code: Seq<char>,
    pub message: Seq<char>,
}

impl View for ApiError {
    type V = ApiErrorView;

    closed spec fn view(&self) -> ApiErrorView {
        ApiErrorView { status: self.status, code: self.code@, message: self.message@ }
    }
}

/// The status and code a library error is answered with: 400 for an invalid request, 403
/// for a refused one, 404 for zero records, 502 for what went wrong on the way to or at
/// the firewall.
pub open spec fn error_reply(e: ErrorView) -> (u16, Seq<char>) {
    match e {
        ErrorView::InvalidRequest(_) => (400, "invalid_request"@),
        ErrorView::AuthorizationDenied(_) => (403, "authorization_denied"@),
        ErrorView::ZeroRecords(_) => (404, "not_found"@),
        ErrorView::Transport(_) => (502, "transport_error"@),
        ErrorView::ApiError(_, _, _) => (502, "sophos_api_error"@),
        ErrorView::ResponseParse(_) | ErrorView::Unanswered => (502, "response_parse_error"@),
    }
}

/// The reply to a library error: its status and code (see [`error_reply`]) and its text.
pub open spec fn api_error_of(e: ErrorView) -> ApiErrorView {
    ApiErrorView { status: error_reply(e).0, code: error_reply(e).1, message: error_text(e) }
}

impl ApiError {
    /// A 404 reply with `message`.
    pub fn not_found(message: String) -> (r: ApiError)
        ensures
            r@ == (ApiErrorView { status: 404, code: "not_found"@, message: message@ }),
    {
        ApiError { status: 404, code: "not_found".to_owned(), message }
    }

    /// A 500 reply with `message`.
    pub fn internal(message: String) -> (r: ApiError)
        ensures
            r@ == (ApiErrorView { status: 500, code: "internal_error"@, message: message@ }),
    {
        ApiError { status: 500, code: "internal_error".to_owned(), message }
    }

    /// The reply to `error` (see [`api_error_of`]).
    pub fn from_error(error: Error) -> (r: ApiError)
        ensures
            r@ == api_error_of(error@),
    {
        let message = error.to_string();
        let (status, code) = match error {
            Error::InvalidRequest(_) => (400u16, "invalid_request"),
            Error::AuthorizationDenied(_) => (403u16, "authorization_denied"),
            Error::ZeroRecords { .. } => (404u16, "not_found"),
            Error::Transport(_) => (502u16, "transport_error"),
            Error::ApiError { .. } => (502u16, "sophos_api_error"),
            Error::ResponseParse(_) => (502u16, "response_parse_error"),
        };
        ApiError { status, code: code.to_owned(), message }
    }

    /// The status.
    pub fn status(&self) -> (s: u16)
        ensures
            s == self@.status,
    {
        self.status
    }

    /// The short code.
    pub fn code(&self) -> (c: &str)
        ensures
            c@ == self@.code,
    {
        self.code.as_str()
    }

    /// The message.
    pub fn message(&self) -> (m: &str)
        ensures
            m@ == self@.message,
    {
        self.message.as_str()
    }

    /// The body of the reply.
    pub fn body(&self) -> (b: ErrorBody)
        ensures
            b.error.code@ == self@.code,
            b.error.message@ == self@.message,
    {
        ErrorBody { error: ErrorDetail { code: self.code.clone(), message: self.message.clone() } }
    }
}

/// The body of an error reply.
#[derive(Debug, Clone, PartialEq, Eq)]
pub struct ErrorBody {
    pub error: ErrorDetail,
}

/// The code and message of an error reply.
#[derive(Debug, Clone, PartialEq, Eq)]
pub struct ErrorDetail {
    pub code: String,
    pub message: String,
}

/// The entry type of an address given without one.
pub fn default_entry_type() -> (t: EntryType)
    ensures
        t == EntryType::Manual,
{
    EntryType::Manual
}

/// The TTL of an address given without one.
pub fn default_ttl() -> (t: u32)
    ensures
        t == 3600,
{
    3600
}

/// The WAN publishing of an address given without it.
pub fn default_publish_on_wan() -> (p: PublishOnWan)
    ensures
        p == PublishOnWan::Disable,
{
    PublishOnWan::Disable
}

/// An address as a request body gives it, not yet checked.
#[derive(Debug, Clone, PartialEq, Eq)]
pub struct DnsHostAddressBody {
    pub entry_type: EntryType,
    pub ip_family: IpFamily,
    pub ip_address: String,
    pub ttl: u32,
    pub weight: u8,
    pub publish_on_wan: PublishOnWan,
}

/// The address `b` gives, or why it is refused (see [`address_of`]).
pub open spec fn body_address(b: DnsHostAddressBody) -> core::result::Result<AddressView, ErrorView> {
    address_of(b.entry_type, b.ip_family, b.ip_address@, b.ttl, b.weight, b.publish_on_wan)
}

/// The addresses `bs` give, in order, or the refusal of the first one refused.
pub open spec fn body_addresses(bs: Seq<DnsHostAddressBody>) -> core::result::Result<Seq<AddressView>, ErrorView>
    decreases bs.len(),
{
    if bs.len() == 0 {
        Ok(Seq::empty())
    } else {
        match body_addresses(bs.drop_last()) {
            Err(e) => Err(e),
            Ok(xs) => match body_address(bs.last()) {
                Err(e) => Err(e),
                Ok(a) => Ok(xs.push(a)),
            },
        }
    }
}

/// A refusal among the first `k` bodies is the refusal of all of them.
proof fn lemma_body_refusal_stays(bs: Seq<DnsHostAddressBody>, k: int)
    requires
        0 <= k <= bs.len(),
        body_addresses(bs.take(k)) is Err,
    ensures
        body_addresses(bs) == body_addresses(bs.take(k)),
    decreases bs.len() - k,
{
    if k < bs.len() {
        assert(bs.take(k + 1).drop_last() =~= bs.take(k));
        lemma_body_refusal_stays(bs, k + 1);
    } else {
        assert(bs.take(k) =~= bs);
    }
}

impl DnsHostAddressBody {
    /// The address the body gives (see [`body_address`]).
    pub fn try_into_address(self) -> (r: Result<DnsHostAddress>)
        ensures
            match body_address(self) {
                Ok(v) => r matches Ok(a) && a@ == v,
                Err(e) => r matches Err(x) && x@ == e,
            },
    {
        DnsHostAddress::with_options(
            self.entry_type,
            self.ip_family,
            self.ip_address.as_str(),
            self.ttl,
            self.weight,
            self.publish_on_wan,
        )
    }
}

/// The addresses `bodies` give (see [`body_addresses`]).
pub fn addresses_from_bodies(bodies: Vec<DnsHostAddressBody>) -> (r: Result<Vec<DnsHostAddress>>)
    ensures
        match body_addresses(bodies@) {
            Ok(v) => r matches Ok(x) && seq_views(x@) == v,
            Err(e) => r matches Err(x) && x@ == e,
        },
{
    let ghost bs = bodies@;
    let n = bodies.len();
    let mut rest = bodies;
    let mut out: Vec<DnsHostAddress> = Vec::new();
    let mut i: usize = 0;
    assert(bs.skip(0) =~= bs);
    assert(bs.take(0) =~= Seq::<DnsHostAddressBody>::empty());
    assert(seq_views(out@) =~= Seq::<AddressView>::empty());
    while rest.len() > 0
        invariant
            i + rest@.len() == n,
            bs.len() == n,
            bs == bodies@,
            rest@ == bs.skip(i as int),
            body_addresses(bs.take(i as int)) == Ok::<Seq<AddressView>, ErrorView>(seq_views(out@)),
        decreases rest@.len(),
    {
        let ghost old_rest = rest@;
        let b = rest.remove(0);
        assert(b == bs[i as int]) by {
            assert(bs.skip(i as int)[0] == bs[i as int]);
        }
        assert(rest@ =~= bs.skip(i + 1)) by {
            assert(old_rest.drop_first() =~= bs.skip(i + 1));
        }
        assert(bs.take(i + 1).drop_last() =~= bs.take(i as int));
        assert(bs.take(i + 1).last() == bs[i as int]);
        match b.try_into_address() {
            Ok(a) => {
                let ghost before = out@;
                out.push(a);
                assert(seq_views(out@) =~= seq_views(before).push(a@));
            },
            Err(e) => {
                assert(body_addresses(bs.take(i + 1)) == Err::<Seq<AddressView>, ErrorView>(e@));
                proof { lemma_body_refusal_stays(bs, i + 1); }
                return Err(e);
            },
        }
        i = i + 1;
    }
    assert(bs.take(i as int) =~= bs);
    Ok(out)
}

/// The view of a result refused with an [`ApiError`].
pub open spec fn reply_view<T: View>(r: core::result::Result<T, ApiError>) -> core::result::Result<T::V, ApiErrorView> {
    match r {
        Ok(x) => Ok(x@),
        Err(e) => Err(e@),
    }
}

/// `r` with its refusal answered as [`api_error_of`] says.
pub open spec fn replied<V>(r: core::result::Result<V, ErrorView>) -> core::result::Result<V, ApiErrorView> {
    match r {
        Ok(x) => Ok(x),
        Err(e) => Err(api_error_of(e)),
    }
}

/// The name a request takes: the one in the path, else the one in the body.
pub open spec fn request_name(path_name: Option<String>, body_name: Option<String>) -> Option<Seq<char>> {
    match path_name {
        Some(n) => Some(n@),
        None => match body_name {
            Some(n) => Some(n@),
            None => None,
        },
    }
}

/// The name in the path, else the one in the body.
fn pick_name(path_name: Option<String>, body_name: Option<String>) -> (r: Option<String>)
    ensures
        match r {
            Some(n) => request_name(path_name, body_name) == Some(n@),
            None => request_name(path_name, body_name) is None,
        },
{
    match path_name {
        Some(n) => Some(n),
        None => body_name,
    }
}

/// A DNS host entry as a request body gives it, not yet checked.
#[derive(Debug, Clone, PartialEq, Eq)]
pub struct DnsHostEntryBody {
    pub host_name: Option<String>,
    pub addresses: Vec<DnsHostAddressBody>,
    pub add_reverse_dns_lookup: bool,
}

/// The entry a body gives for the host `name`: its addresses (see [`body_addresses`])
/// are checked first, then the entry (see [`entry_create_of`]); a missing name is refused
/// before anything else.
pub open spec fn entry_of_body(
    name: Option<Seq<char>>,
    addresses: Seq<DnsHostAddressBody>,
    add_reverse_dns_lookup: bool,
) -> core::result::Result<EntryView, ErrorView> {
    match name {
        None => Err(ErrorView::InvalidRequest("host_name is required"@)),
        Some(n) => match body_addresses(addresses) {
            Err(e) => Err(e),
            Ok(a) => match entry_create_of(n, a) {
                Err(e) => Err(e),
                Ok(v) => Ok(EntryView { add_reverse_dns_lookup, ..v }),
            },
        },
    }
}

impl DnsHostEntryBody {
    /// The entry to create, named by `path_name` when it is given (see
    /// [`entry_of_body`]).
    pub fn into_create(self, path_name: Option<String>) -> (r: core::result::Result<DnsHostEntryCreate, ApiError>)
        ensures
            reply_view(r) == replied(entry_of_body(request_name(path_name, self.host_name), self.addresses@, self.add_reverse_dns_lookup)),
    {
        let reverse = self.add_reverse_dns_lookup;
        let host_name = match pick_name(path_name, self.host_name) {
            Some(n) => n,
            None => return Err(ApiError::from_error(Error::InvalidRequest("host_name is required".to_owned()))),
        };
        let addresses = match addresses_from_bodies(self.addresses) {
            Ok(a) => a,
            Err(e) => return Err(ApiError::from_error(e)),
        };
        match DnsHostEntryCreate::new(host_name.as_str(), addresses) {
            Ok(entry) => Ok(entry.with_add_reverse_dns_lookup(reverse)),
            Err(e) => Err(ApiError::from_error(e)),
        }
    }
}

/// A change to a DNS host entry as a request body gives it.
#[derive(Debug, Clone, PartialEq, Eq)]
pub struct DnsHostEntryPatch {
    pub addresses: Option<Vec<DnsHostAddressBody>>,
    pub add_reverse_dns_lookup: Option<bool>,
}

/// The optional address bodies of a patch as a sequence.
pub open spec fn patch_addresses(a: Option<Vec<DnsHostAddressBody>>) -> Option<Seq<DnsHostAddressBody>> {
    match a {
        Some(v) => Some(v@),
        None => None,
    }
}

/// The change a patch gives for the entry `host_name`: the host name is checked first,
/// then the addresses (see [`body_addresses`]) and their number.
pub open spec fn update_of_patch(
    host_name: Seq<char>,
    addresses: Option<Seq<DnsHostAddressBody>>,
    add_reverse_dns_lookup: Option<bool>,
) -> core::result::Result<EntryUpdateView, ErrorView> {
    match host_name_of(host_name) {
        Err(e) => Err(e),
        Ok(n) => {
            let base = EntryUpdateView { host_name: n, addresses: None, add_reverse_dns_lookup: None };
            let with_addresses: core::result::Result<EntryUpdateView, ErrorView> = match addresses {
                None => Ok(base),
                Some(bs) => match body_addresses(bs) {
                    Err(e) => Err(e),
                    Ok(a) => match addresses_problem(a.len()) {
                        Some(m) => Err(ErrorView::InvalidRequest(m)),
                        None => Ok(EntryUpdateView { addresses: Some(a), ..base }),
                    },
                },
            };
            match with_addresses {
                Err(e) => Err(e),
                Ok(u) => match add_reverse_dns_lookup {
                    None => Ok(u),
                    Some(b) => Ok(EntryUpdateView { add_reverse_dns_lookup: Some(b), ..u }),
                },
            }
        },
    }
}

impl DnsHostEntryPatch {
    /// The change to the entry `host_name` (see [`update_of_patch`]).
    pub fn into_update(self, host_name: String) -> (r: core::result::Result<DnsHostEntryUpdate, ApiError>)
        ensures
            reply_view(r) == replied(update_of_patch(host_name@, patch_addresses(self.addresses), self.add_reverse_dns_lookup)),
    {
        let mut update = match DnsHostEntryUpdate::new(host_name.as_str()) {
            Ok(u) => u,
            Err(e) => return Err(ApiError::from_error(e)),
        };
        match self.addresses {
            Some(bodies) => {
                let addresses = match addresses_from_bodies(bodies) {
                    Ok(a) => a,
                    Err(e) => return Err(ApiError::from_error(e)),
                };
                update = match update.with_addresses(addresses) {
                    Ok(u) => u,
                    Err(e) => return Err(ApiError::from_error(e)),
                };
            },
            None => {},
        }
        match self.add_reverse_dns_lookup {
            Some(b) => {
                update = update.with_add_reverse_dns_lookup(b);
            },
            None => {},
        }
        Ok(update)
    }
}

/// The string slices of `v`.
fn str_refs(v: &Vec<String>) -> (r: Vec<&str>)
    ensures
        str_views(r@) == seq_views(v@),
{
    let mut out: Vec<&str> = Vec::new();
    let mut i: usize = 0;
    while i < v.len()
        invariant
            i <= v@.len(),
            str_views(out@) == seq_views(v@.take(i as int)),
        decreases v@.len() - i,
    {
        let ghost before = out@;
        out.push(v[i].as_str());
        assert(str_views(out@) =~= str_views(before).push(v@[i as int]@));
        assert(seq_views(v@.take(i + 1)) =~= seq_views(v@.take(i as int)).push(v@[i as int]@));
        i = i + 1;
    }
    assert(v@.take(i as int) =~= v@);
    out
}

/// A URL group as a request body gives it, not yet checked.
#[derive(Debug, Clone, PartialEq, Eq)]
pub struct UrlGroupBody {
    pub name: Option<String>,
    pub domains: Vec<String>,
}

/// The URL group a body gives for the group `name` (see [`url_group_create_of`]); a
/// missing name is refused first.
pub open spec fn url_group_of_body(name: Option<Seq<char>>, domains: Seq<Seq<char>>) -> core::result::Result<UrlGroupView, ErrorView> {
    match name {
        None => Err(ErrorView::InvalidRequest("name is required"@)),
        Some(n) => url_group_create_of(n, domains),
    }
}

impl UrlGroupBody {
    /// The URL group to create, named by `path_name` when it is given (see
    /// [`url_group_of_body`]).
    pub fn into_create(self, path_name: Option<String>) -> (r: core::result::Result<UrlGroupCreate, ApiError>)
        ensures
            reply_view(r) == replied(url_group_of_body(request_name(path_name, self.name), seq_views(self.domains@))),
    {
        let name = match pick_name(path_name, self.name) {
            Some(n) => n,
            None => return Err(ApiError::from_error(Error::InvalidRequest("name is required".to_owned()))),
        };
        let domains = str_refs(&self.domains);
        match UrlGroupCreate::new(name.as_str(), domains) {
            Ok(g) => Ok(g),
            Err(e) => Err(ApiError::from_error(e)),
        }
    }
}

/// What to do with the domains of a URL group.
#[derive(Debug, Clone, Copy, PartialEq, Eq, Structural)]
pub enum UrlGroupDomainAction {
    Add,
    Remove,
    Replace,
}

/// Whether `action` adds the domains given.
pub open spec fn adds_domains(action: UrlGroupDomainAction) -> bool {
    match action {
        UrlGroupDomainAction::Add => true,
        _ => false,
    }
}

/// Whether `action` removes the domains given.
pub open spec fn removes_domains(action: UrlGroupDomainAction) -> bool {
    match action {
        UrlGroupDomainAction::Remove => true,
        _ => false,
    }
}

/// A change to the domains of a URL group as a request body gives it.
#[derive(Debug, Clone, PartialEq, Eq)]
pub struct UrlGroupDomainsBody {
    pub action: UrlGroupDomainAction,
    pub domains: Vec<String>,
}

/// A firewall object as a request body gives it: a name and raw fields.
#[derive(Debug, PartialEq, Eq)]
pub struct FirewallObjectBody {
    pub name: Option<String>,
    pub fields: FieldMap,
}

/// The object a body gives for the object `name`, named as a `label`: the name is
/// checked (see [`name_of`]), then each field in key order (see [`with_fields_of`]); a
/// missing name is refused first.
pub open spec fn object_of_body(label: Seq<char>, name: Option<Seq<char>>, fields: Seq<(Seq<char>, Json)>) -> core::result::Result<ObjectView, ErrorView> {
    match name {
        None => Err(ErrorView::InvalidRequest("name is required"@)),
        Some(n) => match name_of(label, n) {
            Err(e) => Err(e),
            Ok(x) => with_fields_of(ObjectView { name: x, fields: Seq::empty() }, fields),
        },
    }
}

/// The payload `start` gives, with `fields` set in key order, its refusal answered as an
/// [`ApiError`].
fn build_object<B: FieldsBuilder>(start: Result<B>, fields: &FieldMap) -> (r: core::result::Result<B, ApiError>)
    ensures
        match start {
            Err(e) => r matches Err(x) && x@ == api_error_of(e@),
            Ok(b) => reply_view(r) == replied(with_fields_of(b@, fields@)),
        },
{
    match start {
        Ok(b) => match with_all_fields(b, fields) {
            Ok(o) => Ok(o),
            Err(e) => Err(ApiError::from_error(e)),
        },
        Err(e) => Err(ApiError::from_error(e)),
    }
}

impl FirewallObjectBody {
    /// The name, from `path_name` when it is given, and the fields.
    pub fn object_name(self, path_name: Option<String>) -> (r: core::result::Result<(String, FieldMap), ApiError>)
        ensures
            match request_name(path_name, self.name) {
                None => r matches Err(x) && x@ == api_error_of(ErrorView::InvalidRequest("name is required"@)),
                Some(n) => r matches Ok(p) && p.0@ == n && p.1@ == self.fields@,
            },
    {
        match pick_name(path_name, self.name) {
            Some(n) => Ok((n, self.fields)),
            None => Err(ApiError::from_error(Error::InvalidRequest("name is required".to_owned()))),
        }
    }

    /// The firewall rule to create (see [`object_of_body`]).
    pub fn into_rule_create(self, path_name: Option<String>) -> (r: core::result::Result<FirewallRuleCreate, ApiError>)
        ensures
            reply_view(r) == replied(object_of_body("firewall rule name"@, request_name(path_name, self.name), self.fields@)),
    {
        let (name, fields) = match self.object_name(path_name) {
            Ok(p) => p,
            Err(e) => return Err(e),
        };
        build_object(FirewallRuleCreate::new(name.as_str()), &fields)
    }

    /// The change to a firewall rule (see [`object_of_body`]).
    pub fn into_rule_update(self, path_name: Option<String>) -> (r: core::result::Result<FirewallRuleUpdate, ApiError>)
        ensures
            reply_view(r) == replied(object_of_body("firewall rule name"@, request_name(path_name, self.name), self.fields@)),
    {
        let (name, fields) = match self.object_name(path_name) {
            Ok(p) => p,
            Err(e) => return Err(e),
        };
        build_object(FirewallRuleUpdate::new(name.as_str()), &fields)
    }

    /// The firewall rule group to create (see [`object_of_body`]).
    pub fn into_rule_group_create(self, path_name: Option<String>) -> (r: core::result::Result<FirewallRuleGroupCreate, ApiError>)
        ensures
            reply_view(r) == replied(object_of_body("firewall rule group name"@, request_name(path_name, self.name), self.fields@)),
    {
        let (name, fields) = match self.object_name(path_name) {
            Ok(p) => p,
            Err(e) => return Err(e),
        };
        build_object(FirewallRuleGroupCreate::new(name.as_str()), &fields)
    }

    /// The change to a firewall rule group (see [`object_of_body`]).
    pub fn into_rule_group_update(self, path_name: Option<String>) -> (r: core::result::Result<FirewallRuleGroupUpdate, ApiError>)
        ensures
            reply_view(r) == replied(object_of_body("firewall rule group name"@, request_name(path_name, self.name), self.fields@)),
    {
        let (name, fields) = match self.object_name(path_name) {
            Ok(p) => p,
            Err(e) => return Err(e),
        };
        build_object(FirewallRuleGroupUpdate::new(name.as_str()), &fields)
    }
}

/// A firewall reply as the HTTP face gives it: the resource, the status code and text.
#[derive(Debug, Clone, PartialEq, Eq)]
pub struct ResourceResponseDto {
    pub resource: String,
    pub status_code: Option<String>,
    pub status: String,
}

impl ResourceResponseDto {
    /// The reply `response` without its XML.
    pub fn from_response(response: ResourceResponse) -> (r: ResourceResponseDto)
        ensures
            r.resource@ == response@.name,
            opt_view(r.status_code) == response@.status.code,
            r.status@ == response@.status.text,
    {
        ResourceResponseDto {
            resource: response.name,
            status_code: response.status.code,
            status: response.status.text,
        }
    }
}

/// What adding a DNS host entry did, as the HTTP face names it.
#[derive(Debug, Clone, Copy, PartialEq, Eq, Structural)]
pub enum MutationAction {
    Created,
    Updated,
}

/// The name of what adding a DNS host entry did.
pub open spec fn mutation_action_of(a: DnsMutationAction) -> MutationAction {
    match a {
        DnsMutationAction::Created => MutationAction::Created,
        DnsMutationAction::Updated => MutationAction::Updated,
    }
}

/// What adding a DNS host entry did and the firewall's reply.
#[derive(Debug, Clone, PartialEq, Eq)]
pub struct DnsMutationDto {
    pub action: MutationAction,
    pub response: ResourceResponseDto,
}

impl DnsMutationDto {
    /// The outcome `outcome` as the HTTP face gives it.
    pub fn from_outcome(outcome: DnsMutationOutcome) -> (r: DnsMutationDto)
        ensures
            r.action == mutation_action_of(outcome.action),
            r.response.resource@ == outcome.response@.name,
            opt_view(r.response.status_code) == outcome.response@.status.code,
            r.response.status@ == outcome.response@.status.text,
    {
        let action = match outcome.action {
            DnsMutationAction::Created => MutationAction::Created,
            DnsMutationAction::Updated => MutationAction::Updated,
        };
        DnsMutationDto { action, response: ResourceResponseDto::from_response(outcome.response) }
    }
}

/// An address of a DNS host entry as the HTTP face gives it.
#[derive(Debug, Clone, PartialEq, Eq)]
pub struct DnsHostAddressDto {
    pub entry_type: EntryType,
    pub ip_family: IpFamily,
    pub ip_address: String,
    pub ttl: u32,
    pub weight: u8,
    pub publish_on_wan: PublishOnWan,
}

impl View for DnsHostAddressDto {
    type V = AddressView;

    open spec fn view(&self) -> AddressView {
        AddressView {
            entry_type: self.entry_type,
            ip_family: self.ip_family,
            ip_address: self.ip_address@,
            ttl: self.ttl,
            weight: self.weight,
            publish_on_wan: self.publish_on_wan,
        }
    }
}

impl DnsHostAddressDto {
    /// The address `address` as the HTTP face gives it.
    pub fn from_address(address: &DnsHostAddress) -> (r: DnsHostAddressDto)
        ensures
            r@ == address@,
    {
        DnsHostAddressDto {
            entry_type: address.entry_type(),
            ip_family: address.ip_family(),
            ip_address: address.ip_address().to_owned(),
            ttl: address.ttl(),
            weight: address.weight(),
            publish_on_wan: address.publish_on_wan(),
        }
    }
}

/// A DNS host entry as the HTTP face gives it.
#[derive(Debug, Clone, PartialEq, Eq)]
pub struct DnsHostEntryDto {
    pub host_name: String,
    pub addresses: Vec<DnsHostAddressDto>,
    pub add_reverse_dns_lookup: bool,
}

impl DnsHostEntryDto {
    /// The entry `entry` as the HTTP face gives it.
    pub fn from_entry(entry: DnsHostEntryCreate) -> (r: DnsHostEntryDto)
        ensures
            r.host_name@ == entry@.host_name,
            seq_views(r.addresses@) == entry@.addresses,
            r.add_reverse_dns_lookup == entry@.add_reverse_dns_lookup,
    {
        let addresses = entry.addresses();
        let mut out: Vec<DnsHostAddressDto> = Vec::new();
        let mut i: usize = 0;
        while i < addresses.len()
            invariant
                i <= addresses@.len(),
                seq_views(addresses@) == entry@.addresses,
                seq_views(out@) == seq_views(addresses@.take(i as int)),
            decreases addresses@.len() - i,
        {
            let ghost before = out@;
            out.push(DnsHostAddressDto::from_address(&addresses[i]));
            assert(seq_views(out@) =~= seq_views(before).push(addresses@[i as int]@));
            assert(seq_views(addresses@.take(i + 1)) =~= seq_views(addresses@.take(i as int)).push(addresses@[i as int]@));
            i = i + 1;
        }
        assert(addresses@.take(i as int) =~= addresses@);
        DnsHostEntryDto {
            host_name: entry.host_name().to_owned(),
            addresses: out,
            add_reverse_dns_lookup: entry.add_reverse_dns_lookup(),
        }
    }
}

/// A URL group as the HTTP face gives it.
#[derive(Debug, Clone, PartialEq, Eq)]
pub struct UrlGroupDto {
    pub name: String,
    pub domains: Vec<String>,
}

impl UrlGroupDto {
    /// The URL group `group` as the HTTP face gives it.
    pub fn from_group(group: UrlGroup) -> (r: UrlGroupDto)
        ensures
            r.name@ == group@.name,
            seq_views(r.domains@) == group@.domains,
    {
        let domains = group.domains();
        let mut out: Vec<String> = Vec::new();
        let mut i: usize = 0;
        while i < domains.len()
            invariant
                i <= domains@.len(),
                seq_views(domains@) == group@.domains,
                seq_views(out@) == seq_views(domains@.take(i as int)),
            decreases domains@.len() - i,
        {
            let ghost before = out@;
            out.push(domains[i].clone());
            assert(seq_views(out@) =~= seq_views(before).push(domains@[i as int]@));
            assert(seq_views(domains@.take(i + 1)) =~= seq_views(domains@.take(i as int)).push(domains@[i as int]@));
            i = i + 1;
        }
        assert(domains@.take(i as int) =~= domains@);
        UrlGroupDto { name: group.name().to_owned(), domains: out }
    }
}

/// A firewall object as the HTTP face gives it: its name and raw fields.
#[derive(Debug, PartialEq, Eq)]
pub struct FirewallObjectDto {
    pub name: String,
    pub fields: FieldMap,
}

impl FirewallObjectDto {
    /// The firewall rule `rule` as the HTTP face gives it.
    pub fn from_rule(rule: FirewallRule) -> (r: FirewallObjectDto)
        ensures
            r.name@ == rule@.name,
            r.fields@ == rule@.fields,
    {
        FirewallObjectDto { name: rule.name().to_owned(), fields: rule.fields().copy() }
    }

    /// The firewall rule group `group` as the HTTP face gives it.
    pub fn from_rule_group(group: FirewallRuleGroup) -> (r: FirewallObjectDto)
        ensures
            r.name@ == group@.name,
            r.fields@ == group@.fields,
    {
        FirewallObjectDto { name: group.name().to_owned(), fields: group.fields().copy() }
    }
}

/// What the HTTP face asks of the firewall; the typed client answers it, and so can a
/// stand-in.
pub trait FirewallClient: Clone + Send + Sync + 'static {
    /// Every DNS host entry.
    fn list_dns_entries(&self) -> (r: Result<Vec<DnsHostEntryCreate>>);

    /// The DNS host entry for `host_name`, if there is one.
    fn get_dns_entry(&self, host_name: &str) -> (r: Result<Option<DnsHostEntryCreate>>);

    /// Adds `entry`, or updates the existing one when `force` is set.
    fn add_dns_entry(&self, entry: DnsHostEntryCreate, force: bool) -> (r: Result<DnsMutationDto>);

    /// Changes an existing DNS host entry.
    fn update_dns_entry(&self, entry: DnsHostEntryUpdate) -> (r: Result<ResourceResponse>);

    /// Deletes the DNS host entry for `host_name`.
    fn delete_dns_entry(&self, host_name: &str) -> (r: Result<ResourceResponse>);

    /// Every URL group.
    fn list_url_groups(&self) -> (r: Result<Vec<UrlGroup>>);

    /// The URL group `name`, if there is one.
    fn get_url_group(&self, name: &str) -> (r: Result<Option<UrlGroup>>);

    /// Creates `group`.
    fn create_url_group(&self, group: UrlGroupCreate) -> (r: Result<ResourceResponse>);

    /// Adds, removes or replaces the domains of the URL group `name`.
    fn update_url_group_domains(&self, name: &str, action: UrlGroupDomainAction, domains: Vec<String>) -> (r: Result<ResourceResponse>);

    /// Deletes the URL group `name`.
    fn delete_url_group(&self, name: &str) -> (r: Result<ResourceResponse>);

    /// Every firewall rule.
    fn list_firewall_rules(&self) -> (r: Result<Vec<FirewallRule>>);

    /// The firewall rule `name`, if there is one.
    fn get_firewall_rule(&self, name: &str) -> (r: Result<Option<FirewallRule>>);

    /// Creates `rule`.
    fn create_firewall_rule(&self, rule: FirewallRuleCreate) -> (r: Result<ResourceResponse>);

    /// Changes an existing firewall rule.
    fn update_firewall_rule(&self, rule: FirewallRuleUpdate) -> (r: Result<ResourceResponse>);

    /// Deletes the firewall rule `name`.
    fn delete_firewall_rule(&self, name: &str) -> (r: Result<ResourceResponse>);

    /// Every firewall rule group.
    fn list_firewall_rule_groups(&self) -> (r: Result<Vec<FirewallRuleGroup>>);

    /// The firewall rule group `name`, if there is one.
    fn get_firewall_rule_group(&self, name: &str) -> (r: Result<Option<FirewallRuleGroup>>);

    /// Creates `group`.
    fn create_firewall_rule_group(&self, group: FirewallRuleGroupCreate) -> (r: Result<ResourceResponse>);

    /// Changes an existing firewall rule group.
    fn update_firewall_rule_group(&self, group: FirewallRuleGroupUpdate) -> (r: Result<ResourceResponse>);

    /// Deletes the firewall rule group `name`.
    fn delete_firewall_rule_group(&self, name: &str) -> (r: Result<ResourceResponse>);
}

/// What adding a DNS host entry did, as the HTTP face gives it, by views.
pub open spec fn mutation_view(r: Result<DnsMutationDto>) -> core::result::Result<(MutationAction, (Seq<char>, Option<Seq<char>>, Seq<char>)), ErrorView> {
    match r {
        Ok(d) => Ok((d.action, (d.response.resource@, opt_view(d.response.status_code), d.response.status@))),
        Err(e) => Err(e@),
    }
}

/// An outcome of adding a DNS host entry (see [`dns_add_outcome`]) as the HTTP face gives
/// it.
pub open spec fn added_view(o: core::result::Result<(DnsMutationAction, ResourceView), ErrorView>) -> core::result::Result<(MutationAction, (Seq<char>, Option<Seq<char>>, Seq<char>)), ErrorView> {
    match o {
        Ok((a, rv)) => Ok((mutation_action_of(a), (rv.name, rv.status.code, rv.status.text))),
        Err(e) => Err(e),
    }
}

impl<T: SophosTransport + Clone + Send + Sync + 'static> FirewallClient for SophosClient<T> {
    fn list_dns_entries(&self) -> (r: Result<Vec<DnsHostEntryCreate>>)
        ensures
            exists|reply: Reply|
                list_view(r) == list_outcome(exchange(self.conn(), read_request(dns_resource()), reply), dns_resource(), entry_reader()),
    {
        self.dns().list_entries()
    }

    fn get_dns_entry(&self, host_name: &str) -> (r: Result<Option<DnsHostEntryCreate>>)
        ensures
            match host_name_of(host_name@) {
                Err(e) => r matches Err(x) && x@ == e,
                Ok(n) => exists|reply: Reply| opt_result_view(r) == dns_lookup(self.conn(), n, reply),
            },
    {
        self.dns().get_entry(host_name)
    }

    fn add_dns_entry(&self, entry: DnsHostEntryCreate, force: bool) -> (r: Result<DnsMutationDto>)
        ensures
            exists|first: Reply, second: Reply|
                mutation_view(r) == #[trigger] added_view(dns_add_outcome(self.conn(), entry@, force, first, second)),
    {
        let ghost ev = entry@;
        let outcome = self.dns().add_entry(entry, force);
        let ghost (first, second) = choose|first: Reply, second: Reply|
            add_view(outcome) == #[trigger] dns_add_outcome(self.conn(), ev, force, first, second);
        let r = match outcome {
            Ok(o) => Ok(DnsMutationDto::from_outcome(o)),
            Err(e) => Err(e),
        };
        assert(mutation_view(r) == added_view(dns_add_outcome(self.conn(), ev, force, first, second)));
        r
    }

    fn update_dns_entry(&self, entry: DnsHostEntryUpdate) -> (r: Result<ResourceResponse>)
        ensures
            exists|first: Reply, second: Reply| write_view(r) == #[trigger] dns_update_outcome(self.conn(), entry@, first, second),
    {
        self.dns().update_entry(entry)
    }

    fn delete_dns_entry(&self, host_name: &str) -> (r: Result<ResourceResponse>)
        ensures
            match host_name_of(host_name@) {
                Err(e) => r matches Err(x) && x@ == e,
                Ok(n) => exists|first: Reply, second: Reply|
                    write_view(r) == #[trigger] delete_outcome::<DnsHostEntryCreate>(
                        self.conn(),
                        dns_resource(),
                        "HostName"@,
                        "DNS entry"@,
                        n,
                        entry_reader(),
                        first,
                        second,
                    ),
            },
    {
        self.dns().delete_entry(host_name)
    }

    fn list_url_groups(&self) -> (r: Result<Vec<UrlGroup>>)
        ensures
            exists|reply: Reply|
                list_view(r) == list_outcome(
                    exchange(self.conn(), read_request(url_group_resource()), reply),
                    url_group_resource(),
                    url_group_reader(),
                ),
    {
        self.url_groups().list_groups()
    }

    fn get_url_group(&self, name: &str) -> (r: Result<Option<UrlGroup>>)
        ensures
            match name_of("URL group name"@, name@) {
                Err(e) => r matches Err(x) && x@ == e,
                Ok(n) => exists|reply: Reply|
                    opt_result_view(r) == get_outcome::<UrlGroup>(
                        exchange(self.conn(), named_request(Action::Read, url_group_resource(), "Name"@, n, None, empty_object()), reply),
                        url_group_resource(),
                        n,
                        url_group_reader(),
                    ),
            },
    {
        self.url_groups().get_group(name)
    }

    fn create_url_group(&self, group: UrlGroupCreate) -> (r: Result<ResourceResponse>)
        ensures
            exists|reply: Reply|
                write_view(r) == write_outcome(
                    exchange(
                        self.conn(),
                        named_request(
                            Action::Create,
                            url_group_resource(),
                            "Name"@,
                            group@.name,
                            Some("set"@),
                            url_group_json(group@.name, group@.domains),
                        ),
                        reply,
                    ),
                    url_group_resource(),
                ),
    {
        self.url_groups().create_group(group)
    }

    fn update_url_group_domains(&self, name: &str, action: UrlGroupDomainAction, domains: Vec<String>) -> (r: Result<ResourceResponse>)
        ensures
            exists|first: Reply, second: Reply|
                write_view(r) == #[trigger] url_group_update_outcome(
                    self.conn(),
                    name@,
                    seq_views(domains@),
                    adds_domains(action),
                    removes_domains(action),
                    first,
                    second,
                ),
    {
        let ds = str_refs(&domains);
        let ghost dv = str_views(ds@);
        let r = match action {
            UrlGroupDomainAction::Add => self.url_groups().add_domains(name, ds),
            UrlGroupDomainAction::Remove => self.url_groups().remove_domains(name, ds),
            UrlGroupDomainAction::Replace => self.url_groups().replace_domains(name, ds),
        };
        let ghost add = adds_domains(action);
        let ghost remove = removes_domains(action);
        let ghost (first, second) = choose|first: Reply, second: Reply|
            write_view(r) == #[trigger] url_group_update_outcome(self.conn(), name@, dv, add, remove, first, second);
        assert(write_view(r) == url_group_update_outcome(self.conn(), name@, seq_views(domains@), add, remove, first, second));
        r
    }

    fn delete_url_group(&self, name: &str) -> (r: Result<ResourceResponse>)
        ensures
            match name_of("URL group name"@, name@) {
                Err(e) => r matches Err(x) && x@ == e,
                Ok(n) => exists|first: Reply, second: Reply|
                    write_view(r) == #[trigger] delete_outcome::<UrlGroup>(
                        self.conn(),
                        url_group_resource(),
                        "Name"@,
                        "URL group"@,
                        n,
                        url_group_reader(),
                        first,
                        second,
                    ),
            },
    {
        self.url_groups().delete_group(name)
    }

    fn list_firewall_rules(&self) -> (r: Result<Vec<FirewallRule>>)
        ensures
            exists|reply: Reply|
                list_view(r) == list_outcome(
                    exchange(self.conn(), read_request("FirewallRule"@), reply),
                    "FirewallRule"@,
                    object_reader("Name"@, "firewall rule name"@),
                ),
    {
        self.firewall().list_rules()
    }

    fn get_firewall_rule(&self, name: &str) -> (r: Result<Option<FirewallRule>>)
        ensures
            match name_of("firewall rule name"@, name@) {
                Err(e) => r matches Err(x) && x@ == e,
                Ok(n) => exists|reply: Reply|
                    opt_result_view(r) == get_outcome::<ApiObject>(
                        exchange(self.conn(), named_request(Action::Read, "FirewallRule"@, "Name"@, n, None, empty_object()), reply),
                        "FirewallRule"@,
                        n,
                        object_reader("Name"@, "firewall rule name"@),
                    ),
            },
    {
        self.firewall().get_rule(name)
    }

    fn create_firewall_rule(&self, rule: FirewallRuleCreate) -> (r: Result<ResourceResponse>)
        ensures
            exists|reply: Reply|
                write_view(r) == write_outcome(
                    exchange(
                        self.conn(),
                        named_request(Action::Create, "FirewallRule"@, "Name"@, rule@.name, None, payload_with_key("Name"@, rule@.name, rule@.fields)),
                        reply,
                    ),
                    "FirewallRule"@,
                ),
    {
        self.firewall().create_rule(rule)
    }

    fn update_firewall_rule(&self, rule: FirewallRuleUpdate) -> (r: Result<ResourceResponse>)
        ensures
            exists|first: Reply, second: Reply|
                write_view(r) == #[trigger] object_update_outcome(self.conn(), "FirewallRule"@, "Name"@, "firewall rule name"@, "firewall rule"@, rule@, first, second),
    {
        self.firewall().update_rule(rule)
    }

    fn delete_firewall_rule(&self, name: &str) -> (r: Result<ResourceResponse>)
        ensures
            match name_of("firewall rule name"@, name@) {
                Err(e) => r matches Err(x) && x@ == e,
                Ok(n) => exists|first: Reply, second: Reply|
                    write_view(r) == #[trigger] delete_outcome::<ApiObject>(
                        self.conn(),
                        "FirewallRule"@,
                        "Name"@,
                        "firewall rule"@,
                        n,
                        object_reader("Name"@, "firewall rule name"@),
                        first,
                        second,
                    ),
            },
    {
        self.firewall().delete_rule(name)
    }

    fn list_firewall_rule_groups(&self) -> (r: Result<Vec<FirewallRuleGroup>>)
        ensures
            exists|reply: Reply|
                list_view(r) == list_outcome(
                    exchange(self.conn(), read_request("FirewallRuleGroup"@), reply),
                    "FirewallRuleGroup"@,
                    object_reader("Name"@, "firewall rule group name"@),
                ),
    {
        self.firewall().list_rule_groups()
    }

    fn get_firewall_rule_group(&self, name: &str) -> (r: Result<Option<FirewallRuleGroup>>)
        ensures
            match name_of("firewall rule group name"@, name@) {
                Err(e) => r matches Err(x) && x@ == e,
                Ok(n) => exists|reply: Reply|
                    opt_result_view(r) == get_outcome::<ApiObject>(
                        exchange(self.conn(), named_request(Action::Read, "FirewallRuleGroup"@, "Name"@, n, None, empty_object()), reply),
                        "FirewallRuleGroup"@,
                        n,
                        object_reader("Name"@, "firewall rule group name"@),
                    ),
            },
    {
        self.firewall().get_rule_group(name)
    }

    fn create_firewall_rule_group(&self, group: FirewallRuleGroupCreate) -> (r: Result<ResourceResponse>)
        ensures
            exists|reply: Reply|
                write_view(r) == write_outcome(
                    exchange(
                        self.conn(),
                        named_request(Action::Create, "FirewallRuleGroup"@, "Name"@, group@.name, None, payload_with_key("Name"@, group@.name, group@.fields)),
                        reply,
                    ),
                    "FirewallRuleGroup"@,
                ),
    {
        self.firewall().create_rule_group(group)
    }

    fn update_firewall_rule_group(&self, group: FirewallRuleGroupUpdate) -> (r: Result<ResourceResponse>)
        ensures
            exists|first: Reply, second: Reply|
                write_view(r) == #[trigger] object_update_outcome(self.conn(), "FirewallRuleGroup"@, "Name"@, "firewall rule group name"@, "firewall rule group"@, group@, first, second),
    {
        self.firewall().update_rule_group(group)
    }

    fn delete_firewall_rule_group(&self, name: &str) -> (r: Result<ResourceResponse>)
        ensures
            match name_of("firewall rule group name"@, name@) {
                Err(e) => r matches Err(x) && x@ == e,
                Ok(n) => exists|first: Reply, second: Reply|
                    write_view(r) == #[trigger] delete_outcome::<ApiObject>(
                        self.conn(),
                        "FirewallRuleGroup"@,
                        "Name"@,
                        "firewall rule group"@,
                        n,
                        object_reader("Name"@, "firewall rule group name"@),
                        first,
                        second,
                    ),
            },
    {
        self.firewall().delete_rule_group(name)
    }
}

/// The state the HTTP handlers share: the firewall client.
#[derive(Clone)]
pub struct AppState<C> {
    client: Arc<C>,
}

impl<C> AppState<C> {
    /// The firewall client held.
    pub closed spec fn held(&self) -> C {
        *self.client
    }

    /// The state holding `client`.
    pub fn new(client: C) -> (s: AppState<C>)
        ensures
            s.held() == client,
    {
        AppState { client: Arc::new(client) }
    }

    /// The firewall client.
    pub fn client(&self) -> (c: &C)
        ensures
            *c == self.held(),
    {
        &*self.client
    }
}

} // verus!
