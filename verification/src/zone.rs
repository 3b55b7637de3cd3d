//! Zones, interfaces, VLANs and the DNS forwarder settings.

use vstd::prelude::*;
use crate::api::{
    delete_outcome, empty_object, get_outcome, list_outcome, list_view, named_request,
    opt_result_view, read_request, write_outcome, write_view,
};
use crate::client::{Link, exchange, Reply, SophosClient};
use crate::common::name_of;
use crate::error::{Error, Result};
use crate::json::{FieldMap, Value};
use crate::common::normalize_name;
use crate::json::Json;
use crate::objects::{
    create_object, delete_object, field_at, get_object, get_singleton, list_objects, object_reader,
    object_update_outcome, payload_with_key, result_view, settings_outcome, update_object,
    with_field_of, wrap_all, ApiObject, FieldsBuilder, ObjectFields, ObjectView, WrapsObject,
};
use crate::request::{Action, SophosConnection};
use crate::response::ResourceResponse;
use crate::transport::SophosTransport;

verus! {

/// A zone.
#[derive(Debug, PartialEq, Eq)]
pub struct Zone {
    inner: ApiObject,
}

impl View for Zone {
    type V = ObjectView;

    closed spec fn view(&self) -> ObjectView {
        self.inner@
    }
}

impl WrapsObject for Zone {
    fn wrap(inner: ApiObject) -> (r: Self) {
        Zone { inner }
    }
}

impl Zone {
    /// The name.
    pub fn name(&self) -> (r: &str)
        ensures
            r@ == self@.name,
    {
        self.inner.name()
    }

    /// The text at the dotted `path` (see [`field_at`]).
    pub fn field(&self, path: &str) -> (r: Option<&str>)
        ensures
            crate::xml::opt_str_view(r) == field_at(self@.fields, path@),
    {
        self.inner.field(path)
    }

    /// All fields.
    pub fn fields(&self) -> (r: &FieldMap)
        ensures
            r@ == self@.fields,
    {
        self.inner.fields()
    }
}

/// A network interface.
#[derive(Debug, PartialEq, Eq)]
pub struct Interface {
    inner: ApiObject,
}

impl View for Interface {
    type V = ObjectView;

    closed spec fn view(&self) -> ObjectView {
        self.inner@
    }
}

impl WrapsObject for Interface {
    fn wrap(inner: ApiObject) -> (r: Self) {
        Interface { inner }
    }
}

impl Interface {
    /// The name.
    pub fn name(&self) -> (r: &str)
        ensures
            r@ == self@.name,
    {
        self.inner.name()
    }

    /// The text at the dotted `path` (see [`field_at`]).
    pub fn field(&self, path: &str) -> (r: Option<&str>)
        ensures
            crate::xml::opt_str_view(r) == field_at(self@.fields, path@),
    {
        self.inner.field(path)
    }

    /// All fields.
    pub fn fields(&self) -> (r: &FieldMap)
        ensures
            r@ == self@.fields,
    {
        self.inner.fields()
    }
}

/// A VLAN.
#[derive(Debug, PartialEq, Eq)]
pub struct Vlan {
    inner: ApiObject,
}

impl View for Vlan {
    type V = ObjectView;

    closed spec fn view(&self) -> ObjectView {
        self.inner@
    }
}

impl WrapsObject for Vlan {
    fn wrap(inner: ApiObject) -> (r: Self) {
        Vlan { inner }
    }
}

impl Vlan {
    /// The name.
    pub fn name(&self) -> (r: &str)
        ensures
            r@ == self@.name,
    {
        self.inner.name()
    }

    /// The text at the dotted `path` (see [`field_at`]).
    pub fn field(&self, path: &str) -> (r: Option<&str>)
        ensures
            crate::xml::opt_str_view(r) == field_at(self@.fields, path@),
    {
        self.inner.field(path)
    }

    /// All fields.
    pub fn fields(&self) -> (r: &FieldMap)
        ensures
            r@ == self@.fields,
    {
        self.inner.fields()
    }
}

/// The DNS forwarder settings.
#[derive(Debug, PartialEq, Eq)]
pub struct DnsForwarders {
    inner: ApiObject,
}

impl View for DnsForwarders {
    type V = ObjectView;

    closed spec fn view(&self) -> ObjectView {
        self.inner@
    }
}

impl DnsForwarders {
    /// The text at the dotted `path` (see [`field_at`]).
    pub fn field(&self, path: &str) -> (r: Option<&str>)
        ensures
            crate::xml::opt_str_view(r) == field_at(self@.fields, path@),
    {
        self.inner.field(path)
    }

    /// All fields.
    pub fn fields(&self) -> (r: &FieldMap)
        ensures
            r@ == self@.fields,
    {
        self.inner.fields()
    }
}

/// A zone to create: a name and fields, each checked.
#[derive(Debug, PartialEq, Eq)]
pub struct ZoneCreate {
    inner: ObjectFields,
}

impl View for ZoneCreate {
    type V = ObjectView;

    closed spec fn view(&self) -> ObjectView {
        self.inner@
    }
}

impl ZoneCreate {
    /// A zone named `name` (trimmed) of the type `zone_type` (trimmed), which becomes its
    /// `Type` field; the type is checked first.
    pub fn new(name: &str, zone_type: &str) -> (r: Result<ZoneCreate>)
        ensures
            match name_of("zone type"@, zone_type@) {
                Err(e) => r matches Err(x) && x@ == e,
                Ok(t) => match name_of("zone name"@, name@) {
                    Err(e) => r matches Err(x) && x@ == e,
                    Ok(n) => r matches Ok(o) && o@ == (ObjectView { name: n, fields: seq![("Type"@, Json::Str(t))] }),
                },
            },
    {
        let t = match normalize_name("zone type", zone_type) {
            Ok(t) => t,
            Err(e) => return Err(e),
        };
        match ObjectFields::new("zone name", name) {
            Ok(inner) => Ok(ZoneCreate { inner: inner.with_member("Type".to_owned(), Value::String(t)) }),
            Err(e) => Err(e),
        }
    }

    /// The name.
    pub fn name(&self) -> (r: &str)
        ensures
            r@ == self@.name,
    {
        self.inner.name()
    }

    /// The object with `value` under `field` (see [`with_field_of`]).
    pub fn with_field(self, field: &str, value: Value) -> (r: Result<ZoneCreate>)
        ensures
            match with_field_of(self@, field@, value@) {
                Ok(o) => r matches Ok(x) && x@ == o,
                Err(e) => r matches Err(x) && x@ == e,
            },
    {
        match self.inner.with_field(field, value) {
            Ok(inner) => Ok(ZoneCreate { inner }),
            Err(e) => Err(e),
        }
    }

    /// The same name and fields as an update.
    pub fn into_update(self) -> (r: ZoneUpdate)
        ensures
            r@ == self@,
    {
        ZoneUpdate { inner: self.inner }
    }
}

impl FieldsBuilder for ZoneCreate {
    fn add_field(self, field: &str, value: Value) -> (r: Result<ZoneCreate>) {
        self.with_field(field, value)
    }
}

/// A change to a zone: a name and fields, each checked.
#[derive(Debug, PartialEq, Eq)]
pub struct ZoneUpdate {
    inner: ObjectFields,
}

impl View for ZoneUpdate {
    type V = ObjectView;

    closed spec fn view(&self) -> ObjectView {
        self.inner@
    }
}

impl ZoneUpdate {
    /// An object named `name` (trimmed) with no fields.
    pub fn new(name: &str) -> (r: Result<ZoneUpdate>)
        ensures
            match name_of("zone name"@, name@) {
                Ok(n) => r matches Ok(o) && o@ == (ObjectView { name: n, fields: Seq::empty() }),
                Err(e) => r matches Err(x) && x@ == e,
            },
    {
        match ObjectFields::new("zone name", name) {
            Ok(inner) => Ok(ZoneUpdate { inner }),
            Err(e) => Err(e),
        }
    }

    /// The name.
    pub fn name(&self) -> (r: &str)
        ensures
            r@ == self@.name,
    {
        self.inner.name()
    }

    /// The object with `value` under `field` (see [`with_field_of`]).
    pub fn with_field(self, field: &str, value: Value) -> (r: Result<ZoneUpdate>)
        ensures
            match with_field_of(self@, field@, value@) {
                Ok(o) => r matches Ok(x) && x@ == o,
                Err(e) => r matches Err(x) && x@ == e,
            },
    {
        match self.inner.with_field(field, value) {
            Ok(inner) => Ok(ZoneUpdate { inner }),
            Err(e) => Err(e),
        }
    }
}

impl FieldsBuilder for ZoneUpdate {
    fn add_field(self, field: &str, value: Value) -> (r: Result<ZoneUpdate>) {
        self.with_field(field, value)
    }
}

/// The zone operations of a client.
pub struct ZonesApi<'a, T> {
    client: &'a SophosClient<T>,
}

impl<'a, T: SophosTransport> ZonesApi<'a, T> {
    /// The connection of the client and what its transport answers.
    pub closed spec fn conn(&self) -> Link {
        self.client.conn()
    }
}

impl<T: SophosTransport> SophosClient<T> {
    /// The zone operations.
    pub fn zones(&self) -> (a: ZonesApi<'_, T>)
        ensures
            a.conn() == self.conn(),
    {
        ZonesApi { client: self }
    }
}

impl<'a, T: SophosTransport> ZonesApi<'a, T> {
    /// Every zone; zero records is an empty list.
    pub fn list_zones(&self) -> (r: Result<Vec<Zone>>)
        ensures
            exists|reply: Reply|
                list_view(r) == list_outcome(
                    exchange(self.conn(), read_request("Zone"@), reply),
                    "Zone"@,
                    object_reader("Name"@, "zone name"@),
                ),
    {
        let r = list_objects(self.client, "Zone", "Name", "zone name");
        let ghost reply = choose|reply: Reply|
            list_view(r) == list_outcome(exchange(self.client.conn(), read_request("Zone"@), reply), "Zone"@, object_reader("Name"@, "zone name"@));
        match r {
            Ok(objects) => {
                let w = wrap_all::<Zone>(objects);
                assert(list_view(Ok::<Vec<Zone>, Error>(w)) == list_outcome(exchange(self.conn(), read_request("Zone"@), reply), "Zone"@, object_reader("Name"@, "zone name"@)));
                Ok(w)
            },
            Err(e) => Err(e),
        }
    }

    /// The zone named `name` (trimmed); zero records is none.
    pub fn get_zone(&self, name: &str) -> (r: Result<Option<Zone>>)
        ensures
            match name_of("zone name"@, name@) {
                Err(e) => r matches Err(x) && x@ == e,
                Ok(n) => exists|reply: Reply|
                    opt_result_view(r) == get_outcome::<ApiObject>(
                        exchange(self.conn(), named_request(Action::Read, "Zone"@, "Name"@, n, None, empty_object()), reply),
                        "Zone"@,
                        n,
                        object_reader("Name"@, "zone name"@),
                    ),
            },
    {
        let r = get_object(self.client, "Zone", "Name", "zone name", name);
        let ghost go = opt_result_view(r);
        let out = match r {
            Ok(Some(o)) => Ok(Some(Zone::wrap(o))),
            Ok(None) => Ok(None),
            Err(e) => Err(e),
        };
        assert(opt_result_view(out) == go);
        proof {
            match name_of("zone name"@, name@) {
                Ok(n) => {
                    let reply = choose|reply: Reply|
                        go == get_outcome::<ApiObject>(
                            exchange(self.client.conn(), named_request(Action::Read, "Zone"@, "Name"@, n, None, empty_object()), reply),
                            "Zone"@,
                            n,
                            object_reader("Name"@, "zone name"@),
                        );
                    assert(opt_result_view(out) == get_outcome::<ApiObject>(
                        exchange(self.conn(), named_request(Action::Read, "Zone"@, "Name"@, n, None, empty_object()), reply),
                        "Zone"@,
                        n,
                        object_reader("Name"@, "zone name"@),
                    ));
                },
                Err(_) => {},
            }
        }
        out
    }

    /// Creates `object`.
    pub fn create_zone(&self, object: ZoneCreate) -> (r: Result<ResourceResponse>)
        ensures
            exists|reply: Reply|
                write_view(r) == write_outcome(
                    exchange(
                        self.conn(),
                        named_request(Action::Create, "Zone"@, "Name"@, object@.name, None, payload_with_key("Name"@, object@.name, object@.fields)),
                        reply,
                    ),
                    "Zone"@,
                ),
    {
        let ghost ov = object@;
        let r = create_object(self.client, "Zone", "Name", object.inner);
        let ghost reply = choose|reply: Reply|
            write_view(r) == write_outcome(
                exchange(
                    self.client.conn(),
                    named_request(Action::Create, "Zone"@, "Name"@, ov.name, None, payload_with_key("Name"@, ov.name, ov.fields)),
                    reply,
                ),
                "Zone"@,
            );
        assert(write_view(r) == write_outcome(
            exchange(
                self.conn(),
                named_request(Action::Create, "Zone"@, "Name"@, ov.name, None, payload_with_key("Name"@, ov.name, ov.fields)),
                reply,
            ),
            "Zone"@,
        ));
        r
    }

    /// Merges the fields of `object` into the existing zone (see
    /// [`object_update_outcome`]).
    pub fn update_zone(&self, object: ZoneUpdate) -> (r: Result<ResourceResponse>)
        ensures
            exists|first: Reply, second: Reply|
                write_view(r) == #[trigger] object_update_outcome(self.conn(), "Zone"@, "Name"@, "zone name"@, "zone"@, object@, first, second),
    {
        let ghost ov = object@;
        let r = update_object(self.client, "Zone", "Name", "zone name", "zone", object.inner);
        let ghost (first, second) = choose|first: Reply, second: Reply|
            write_view(r) == #[trigger] object_update_outcome(self.client.conn(), "Zone"@, "Name"@, "zone name"@, "zone"@, ov, first, second);
        assert(write_view(r) == object_update_outcome(self.conn(), "Zone"@, "Name"@, "zone name"@, "zone"@, ov, first, second));
        r
    }

    /// Deletes the zone `name` (trimmed) after checking that it exists.
    pub fn delete_zone(&self, name: &str) -> (r: Result<ResourceResponse>)
        ensures
            match name_of("zone name"@, name@) {
                Err(e) => r matches Err(x) && x@ == e,
                Ok(n) => exists|first: Reply, second: Reply|
                    write_view(r) == #[trigger] delete_outcome::<ApiObject>(
                        self.conn(),
                        "Zone"@,
                        "Name"@,
                        "zone"@,
                        n,
                        object_reader("Name"@, "zone name"@),
                        first,
                        second,
                    ),
            },
    {
        let r = delete_object(self.client, "Zone", "Name", "zone name", "zone", name);
        proof {
            match name_of("zone name"@, name@) {
                Ok(n) => {
                    let (first, second) = choose|first: Reply, second: Reply|
                        write_view(r) == #[trigger] delete_outcome::<ApiObject>(
                            self.client.conn(), "Zone"@, "Name"@, "zone"@, n, object_reader("Name"@, "zone name"@), first, second);
                    assert(write_view(r) == delete_outcome::<ApiObject>(
                        self.conn(), "Zone"@, "Name"@, "zone"@, n, object_reader("Name"@, "zone name"@), first, second));
                },
                Err(_) => {},
            }
        }
        r
    }

    /// Every interface; zero records is an empty list.
    pub fn list_interfaces(&self) -> (r: Result<Vec<Interface>>)
        ensures
            exists|reply: Reply|
                list_view(r) == list_outcome(
                    exchange(self.conn(), read_request("Interface"@), reply),
                    "Interface"@,
                    object_reader("Name"@, "interface name"@),
                ),
    {
        let r = list_objects(self.client, "Interface", "Name", "interface name");
        let ghost reply = choose|reply: Reply|
            list_view(r) == list_outcome(exchange(self.client.conn(), read_request("Interface"@), reply), "Interface"@, object_reader("Name"@, "interface name"@));
        match r {
            Ok(objects) => {
                let w = wrap_all::<Interface>(objects);
                assert(list_view(Ok::<Vec<Interface>, Error>(w)) == list_outcome(exchange(self.conn(), read_request("Interface"@), reply), "Interface"@, object_reader("Name"@, "interface name"@)));
                Ok(w)
            },
            Err(e) => Err(e),
        }
    }

    /// The interface named `name` (trimmed); zero records is none.
    pub fn get_interface(&self, name: &str) -> (r: Result<Option<Interface>>)
        ensures
            match name_of("interface name"@, name@) {
                Err(e) => r matches Err(x) && x@ == e,
                Ok(n) => exists|reply: Reply|
                    opt_result_view(r) == get_outcome::<ApiObject>(
                        exchange(self.conn(), named_request(Action::Read, "Interface"@, "Name"@, n, None, empty_object()), reply),
                        "Interface"@,
                        n,
                        object_reader("Name"@, "interface name"@),
                    ),
            },
    {
        let r = get_object(self.client, "Interface", "Name", "interface name", name);
        let ghost go = opt_result_view(r);
        let out = match r {
            Ok(Some(o)) => Ok(Some(Interface::wrap(o))),
            Ok(None) => Ok(None),
            Err(e) => Err(e),
        };
        assert(opt_result_view(out) == go);
        proof {
            match name_of("interface name"@, name@) {
                Ok(n) => {
                    let reply = choose|reply: Reply|
                        go == get_outcome::<ApiObject>(
                            exchange(self.client.conn(), named_request(Action::Read, "Interface"@, "Name"@, n, None, empty_object()), reply),
                            "Interface"@,
                            n,
                            object_reader("Name"@, "interface name"@),
                        );
                    assert(opt_result_view(out) == get_outcome::<ApiObject>(
                        exchange(self.conn(), named_request(Action::Read, "Interface"@, "Name"@, n, None, empty_object()), reply),
                        "Interface"@,
                        n,
                        object_reader("Name"@, "interface name"@),
                    ));
                },
                Err(_) => {},
            }
        }
        out
    }

    /// Every VLAN; zero records is an empty list.
    pub fn list_vlans(&self) -> (r: Result<Vec<Vlan>>)
        ensures
            exists|reply: Reply|
                list_view(r) == list_outcome(
                    exchange(self.conn(), read_request("VLAN"@), reply),
                    "VLAN"@,
                    object_reader("Name"@, "VLAN name"@),
                ),
    {
        let r = list_objects(self.client, "VLAN", "Name", "VLAN name");
        let ghost reply = choose|reply: Reply|
            list_view(r) == list_outcome(exchange(self.client.conn(), read_request("VLAN"@), reply), "VLAN"@, object_reader("Name"@, "VLAN name"@));
        match r {
            Ok(objects) => {
                let w = wrap_all::<Vlan>(objects);
                assert(list_view(Ok::<Vec<Vlan>, Error>(w)) == list_outcome(exchange(self.conn(), read_request("VLAN"@), reply), "VLAN"@, object_reader("Name"@, "VLAN name"@)));
                Ok(w)
            },
            Err(e) => Err(e),
        }
    }

    /// The VLAN named `name` (trimmed); zero records is none.
    pub fn get_vlan(&self, name: &str) -> (r: Result<Option<Vlan>>)
        ensures
            match name_of("VLAN name"@, name@) {
                Err(e) => r matches Err(x) && x@ == e,
                Ok(n) => exists|reply: Reply|
                    opt_result_view(r) == get_outcome::<ApiObject>(
                        exchange(self.conn(), named_request(Action::Read, "VLAN"@, "Name"@, n, None, empty_object()), reply),
                        "VLAN"@,
                        n,
                        object_reader("Name"@, "VLAN name"@),
                    ),
            },
    {
        let r = get_object(self.client, "VLAN", "Name", "VLAN name", name);
        let ghost go = opt_result_view(r);
        let out = match r {
            Ok(Some(o)) => Ok(Some(Vlan::wrap(o))),
            Ok(None) => Ok(None),
            Err(e) => Err(e),
        };
        assert(opt_result_view(out) == go);
        proof {
            match name_of("VLAN name"@, name@) {
                Ok(n) => {
                    let reply = choose|reply: Reply|
                        go == get_outcome::<ApiObject>(
                            exchange(self.client.conn(), named_request(Action::Read, "VLAN"@, "Name"@, n, None, empty_object()), reply),
                            "VLAN"@,
                            n,
                            object_reader("Name"@, "VLAN name"@),
                        );
                    assert(opt_result_view(out) == get_outcome::<ApiObject>(
                        exchange(self.conn(), named_request(Action::Read, "VLAN"@, "Name"@, n, None, empty_object()), reply),
                        "VLAN"@,
                        n,
                        object_reader("Name"@, "VLAN name"@),
                    ));
                },
                Err(_) => {},
            }
        }
        out
    }

    /// The DNS forwarder settings (see [`settings_outcome`]).
    pub fn get_dns_forwarders(&self) -> (r: Result<DnsForwarders>)
        ensures
            exists|reply: Reply|
                result_view(r) == settings_outcome(exchange(self.conn(), read_request("DNS"@), reply), "DNS"@),
    {
        let r = get_singleton(self.client, "DNS");
        let ghost reply = choose|reply: Reply|
            result_view(r) == settings_outcome(exchange(self.client.conn(), read_request("DNS"@), reply), "DNS"@);
        let out = match r {
            Ok(o) => Ok(DnsForwarders { inner: o }),
            Err(e) => Err(e),
        };
        assert(result_view(out) == settings_outcome(exchange(self.conn(), read_request("DNS"@), reply), "DNS"@));
        out
    }
}

} // verus!
