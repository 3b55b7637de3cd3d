//! Connection settings and the generic request description.

use vstd::prelude::*;
use crate::json::{FieldMap, Json, Value};
use crate::text::{decimal, decimal_chars, push_chars, push_str, string_of};

verus! {

/// What a request does to the addressed resource.
#[derive(Debug, Clone, Copy, PartialEq, Eq, Structural, PartialOrd, Ord)]
pub enum Action {
    Read,
    Create,
    Update,
    Delete,
    RawXml,
}

impl Action {
    /// Whether the action changes firewall state.
    pub fn is_change(self) -> (b: bool)
        ensures
            b == !(self is Read),
    {
        match self {
            Action::Create | Action::Update | Action::Delete | Action::RawXml => true,
            Action::Read => false,
        }
    }
}

/// How to reach and log in to a firewall.
#[derive(Debug, Clone, PartialEq, Eq)]
pub struct SophosConnection {
    pub host: String,
    pub username: String,
    pub password: String,
    pub port: u16,
    pub verify_tls: bool,
}

/// `https://{host}:{port}/webconsole/APIController`.
pub open spec fn api_url_of(host: Seq<char>, port: u16) -> Seq<char> {
    "https://"@ + host + ":"@ + decimal(port as nat) + "/webconsole/APIController"@
}

impl SophosConnection {
    /// Settings for `host` with the API port 4444 and TLS verification on.
    pub fn new(host: &str, username: &str, password: &str) -> (c: SophosConnection)
        ensures
            c.host@ == host@,
            c.username@ == username@,
            c.password@ == password@,
            c.port == 4444,
            c.verify_tls,
    {
        SophosConnection {
            host: host.to_owned(),
            username: username.to_owned(),
            password: password.to_owned(),
            port: 4444,
            verify_tls: true,
        }
    }

    /// The URL of the XML API controller.
    pub fn api_url(&self) -> (u: String)
        ensures
            u@ == api_url_of(self.host@, self.port),
    {
        let mut out: Vec<char> = Vec::new();
        push_str(&mut out, "https://");
        push_str(&mut out, self.host.as_str());
        push_str(&mut out, ":");
        let port = decimal_chars(self.port as u64);
        push_chars(&mut out, port.as_slice());
        push_str(&mut out, "/webconsole/APIController");
        string_of(out.as_slice())
    }
}

/// One structured API operation on a resource.
#[derive(Debug, PartialEq)]
pub struct SophosRequest {
    pub action: Action,
    pub resource: String,
    pub object_name: Option<String>,
    pub object_key: Option<String>,
    pub set_operation: Option<String>,
    pub payload: Value,
}

/// A [`SophosRequest`] with its texts as character sequences.
pub struct RequestView {
    pub action: Action,
    pub resource: Seq<char>,
    pub object_name: Option<Seq<char>>,
    pub object_key: Option<Seq<char>>,
    pub set_operation: Option<Seq<char>>,
    pub payload: Json,
}

impl View for SophosRequest {
    type V = RequestView;

    open spec fn view(&self) -> RequestView {
        RequestView {
            action: self.action,
            resource: self.resource@,
            object_name: crate::text::opt_view(self.object_name),
            object_key: crate::text::opt_view(self.object_key),
            set_operation: crate::text::opt_view(self.set_operation),
            payload: self.payload@,
        }
    }
}

impl SophosRequest {
    /// A request for `action` on `resource`, with no object, key, operation, and an empty
    /// object payload.
    pub fn new(action: Action, resource: &str) -> (r: SophosRequest)
        ensures
            r.action == action,
            r.resource@ == resource@,
            r.object_name is None,
            r.object_key is None,
            r.set_operation is None,
            r.payload@ == Json::Object(Seq::empty()),
    {
        SophosRequest {
            action,
            resource: resource.to_owned(),
            object_name: None,
            object_key: None,
            set_operation: None,
            payload: Value::Object(FieldMap::new()),
        }
    }

    /// A read of `resource`.
    pub fn read(resource: &str) -> (r: SophosRequest)
        ensures
            r.action == Action::Read,
            r.resource@ == resource@,
            r.object_name is None,
            r.object_key is None,
            r.set_operation is None,
            r.payload@ == Json::Object(Seq::empty()),
    {
        SophosRequest::new(Action::Read, resource)
    }

    /// An update of the object `object_name` of `resource`.
    pub fn update(resource: &str, object_name: &str) -> (r: SophosRequest)
        ensures
            r.action == Action::Update,
            r.resource@ == resource@,
            r.object_name matches Some(n) && n@ == object_name@,
            r.object_key is None,
            r.set_operation is None,
            r.payload@ == Json::Object(Seq::empty()),
    {
        SophosRequest::new(Action::Update, resource).for_object(object_name)
    }

    /// A request that sends the document `xml` as its body, naming the object
    /// `object_name` of `resource` it claims to touch.
    pub fn raw_xml(resource: &str, object_name: Option<&str>, xml: &str) -> (r: SophosRequest)
        ensures
            r.action == Action::RawXml,
            r.resource@ == resource@,
            crate::text::opt_view(r.object_name) == crate::xml::opt_str_view(object_name),
            r.object_key is None,
            r.set_operation is None,
            r.payload@ == Json::Str(xml@),
    {
        let object_name = match object_name {
            Some(n) => Some(n.to_owned()),
            None => None,
        };
        SophosRequest {
            action: Action::RawXml,
            resource: resource.to_owned(),
            object_name,
            object_key: None,
            set_operation: None,
            payload: Value::from_str(xml),
        }
    }

    /// The same request addressed to the object `object_name`.
    pub fn for_object(self, object_name: &str) -> (r: SophosRequest)
        ensures
            r.object_name matches Some(n) && n@ == object_name@,
            r.action == self.action,
            r.resource == self.resource,
            r.object_key == self.object_key,
            r.set_operation == self.set_operation,
            r.payload == self.payload,
    {
        let mut r = self;
        r.object_name = Some(object_name.to_owned());
        r
    }

    /// The same request naming objects by the field `object_key` instead of `Name`.
    pub fn with_object_key(self, object_key: &str) -> (r: SophosRequest)
        ensures
            r.object_key matches Some(k) && k@ == object_key@,
            r.action == self.action,
            r.resource == self.resource,
            r.object_name == self.object_name,
            r.set_operation == self.set_operation,
            r.payload == self.payload,
    {
        let mut r = self;
        r.object_key = Some(object_key.to_owned());
        r
    }

    /// The same request with the `Set` operation `operation`.
    pub fn with_set_operation(self, operation: &str) -> (r: SophosRequest)
        ensures
            r.set_operation matches Some(o) && o@ == operation@,
            r.action == self.action,
            r.resource == self.resource,
            r.object_name == self.object_name,
            r.object_key == self.object_key,
            r.payload == self.payload,
    {
        let mut r = self;
        r.set_operation = Some(operation.to_owned());
        r
    }

    /// The same request carrying `payload`.
    pub fn with_payload(self, payload: Value) -> (r: SophosRequest)
        ensures
            r.payload == payload,
            r.action == self.action,
            r.resource == self.resource,
            r.object_name == self.object_name,
            r.object_key == self.object_key,
            r.set_operation == self.set_operation,
    {
        let mut r = self;
        r.payload = payload;
        r
    }
}

} // verus!
