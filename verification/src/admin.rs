//! Administration profiles and the administration settings.

use vstd::prelude::*;
use crate::api::{
    delete_outcome, empty_object, get_outcome, list_outcome, list_view, named_request,
    opt_result_view, read_request, write_outcome, write_view,
};
use crate::client::{Link, exchange, Reply, SophosClient};
use crate::common::name_of;
use crate::error::{Error, Result};
use crate::json::{FieldMap, Value};
use crate::objects::{
    create_object, delete_object, field_at, get_object, get_singleton, list_objects, object_reader,
    object_update_outcome, payload_with_key, result_view, settings_outcome, update_object,
    with_field_of, wrap_all, ApiObject, FieldsBuilder, ObjectFields, ObjectView, WrapsObject,
};
use crate::request::{Action, SophosConnection};
use crate::response::ResourceResponse;
use crate::transport::SophosTransport;

verus! {

/// An administration profile.
#[derive(Debug, PartialEq, Eq)]
pub struct AdminProfile {
    inner: ApiObject,
}

impl View for AdminProfile {
    type V = ObjectView;

    closed spec fn view(&self) -> ObjectView {
        self.inner@
    }
}

impl WrapsObject for AdminProfile {
    fn wrap(inner: ApiObject) -> (r: Self) {
        AdminProfile { inner }
    }
}

impl AdminProfile {
    /// The name.
    pub fn name(&self) -> (r: &str)
        ensures
            r@ == self@.name,
    {
        self.inner.name()
    }

    /// The text at the dotted `path` (see [`field_at`]).
    pub fn field(&self, path: &str) -> (r: Option<&str>)
        ensures
            crate::xml::opt_str_view(r) == field_at(self@.fields, path@),
    {
        self.inner.field(path)
    }

    /// All fields.
    pub fn fields(&self) -> (r: &FieldMap)
        ensures
            r@ == self@.fields,
    {
        self.inner.fields()
    }
}

/// The administrator authentication settings.
#[derive(Debug, PartialEq, Eq)]
pub struct AdminAuthentication {
    inner: ApiObject,
}

impl View for AdminAuthentication {
    type V = ObjectView;

    closed spec fn view(&self) -> ObjectView {
        self.inner@
    }
}

impl AdminAuthentication {
    /// The text at the dotted `path` (see [`field_at`]).
    pub fn field(&self, path: &str) -> (r: Option<&str>)
        ensures
            crate::xml::opt_str_view(r) == field_at(self@.fields, path@),
    {
        self.inner.field(path)
    }

    /// All fields.
    pub fn fields(&self) -> (r: &FieldMap)
        ensures
            r@ == self@.fields,
    {
        self.inner.fields()
    }
}

/// The administration settings.
#[derive(Debug, PartialEq, Eq)]
pub struct AdminSettings {
    inner: ApiObject,
}

impl View for AdminSettings {
    type V = ObjectView;

    closed spec fn view(&self) -> ObjectView {
        self.inner@
    }
}

impl AdminSettings {
    /// The text at the dotted `path` (see [`field_at`]).
    pub fn field(&self, path: &str) -> (r: Option<&str>)
        ensures
            crate::xml::opt_str_view(r) == field_at(self@.fields, path@),
    {
        self.inner.field(path)
    }

    /// All fields.
    pub fn fields(&self) -> (r: &FieldMap)
        ensures
            r@ == self@.fields,
    {
        self.inner.fields()
    }
}

/// An administration profile to create: a name and fields, each checked.
#[derive(Debug, PartialEq, Eq)]
pub struct AdminProfileCreate {
    inner: ObjectFields,
}

impl View for AdminProfileCreate {
    type V = ObjectView;

    closed spec fn view(&self) -> ObjectView {
        self.inner@
    }
}

impl AdminProfileCreate {
    /// An object named `name` (trimmed) with no fields.
    pub fn new(name: &str) -> (r: Result<AdminProfileCreate>)
        ensures
            match name_of("admin profile name"@, name@) {
                Ok(n) => r matches Ok(o) && o@ == (ObjectView { name: n, fields: Seq::empty() }),
                Err(e) => r matches Err(x) && x@ == e,
            },
    {
        match ObjectFields::new("admin profile name", name) {
            Ok(inner) => Ok(AdminProfileCreate { inner }),
            Err(e) => Err(e),
        }
    }

    /// The name.
    pub fn name(&self) -> (r: &str)
        ensures
            r@ == self@.name,
    {
        self.inner.name()
    }

    /// The object with `value` under `field` (see [`with_field_of`]).
    pub fn with_field(self, field: &str, value: Value) -> (r: Result<AdminProfileCreate>)
        ensures
            match with_field_of(self@, field@, value@) {
                Ok(o) => r matches Ok(x) && x@ == o,
                Err(e) => r matches Err(x) && x@ == e,
            },
    {
        match self.inner.with_field(field, value) {
            Ok(inner) => Ok(AdminProfileCreate { inner }),
            Err(e) => Err(e),
        }
    }

    /// The same name and fields as an update.
    pub fn into_update(self) -> (r: AdminProfileUpdate)
        ensures
            r@ == self@,
    {
        AdminProfileUpdate { inner: self.inner }
    }
}

impl FieldsBuilder for AdminProfileCreate {
    fn add_field(self, field: &str, value: Value) -> (r: Result<AdminProfileCreate>) {
        self.with_field(field, value)
    }
}

/// A change to an administration profile: a name and fields, each checked.
#[derive(Debug, PartialEq, Eq)]
pub struct AdminProfileUpdate {
    inner: ObjectFields,
}

impl View for AdminProfileUpdate {
    type V = ObjectView;

    closed spec fn view(&self) -> ObjectView {
        self.inner@
    }
}

impl AdminProfileUpdate {
    /// An object named `name` (trimmed) with no fields.
    pub fn new(name: &str) -> (r: Result<AdminProfileUpdate>)
        ensures
            match name_of("admin profile name"@, name@) {
                Ok(n) => r matches Ok(o) && o@ == (ObjectView { name: n, fields: Seq::empty() }),
                Err(e) => r matches Err(x) && x@ == e,
            },
    {
        match ObjectFields::new("admin profile name", name) {
            Ok(inner) => Ok(AdminProfileUpdate { inner }),
            Err(e) => Err(e),
        }
    }

    /// The name.
    pub fn name(&self) -> (r: &str)
        ensures
            r@ == self@.name,
    {
        self.inner.name()
    }

    /// The object with `value` under `field` (see [`with_field_of`]).
    pub fn with_field(self, field: &str, value: Value) -> (r: Result<AdminProfileUpdate>)
        ensures
            match with_field_of(self@, field@, value@) {
                Ok(o) => r matches Ok(x) && x@ == o,
                Err(e) => r matches Err(x) && x@ == e,
            },
    {
        match self.inner.with_field(field, value) {
            Ok(inner) => Ok(AdminProfileUpdate { inner }),
            Err(e) => Err(e),
        }
    }
}

impl FieldsBuilder for AdminProfileUpdate {
    fn add_field(self, field: &str, value: Value) -> (r: Result<AdminProfileUpdate>) {
        self.with_field(field, value)
    }
}

/// The administration operations of a client.
pub struct AdminApi<'a, T> {
    client: &'a SophosClient<T>,
}

impl<'a, T: SophosTransport> AdminApi<'a, T> {
    /// The connection of the client and what its transport answers.
    pub closed spec fn conn(&self) -> Link {
        self.client.conn()
    }
}

impl<T: SophosTransport> SophosClient<T> {
    /// The administration operations.
    pub fn admin(&self) -> (a: AdminApi<'_, T>)
        ensures
            a.conn() == self.conn(),
    {
        AdminApi { client: self }
    }
}

impl<'a, T: SophosTransport> AdminApi<'a, T> {
    /// Every admin profile; zero records is an empty list.
    pub fn list_profiles(&self) -> (r: Result<Vec<AdminProfile>>)
        ensures
            exists|reply: Reply|
                list_view(r) == list_outcome(
                    exchange(self.conn(), read_request("AdministrationProfile"@), reply),
                    "AdministrationProfile"@,
                    object_reader("Name"@, "admin profile name"@),
                ),
    {
        let r = list_objects(self.client, "AdministrationProfile", "Name", "admin profile name");
        let ghost reply = choose|reply: Reply|
            list_view(r) == list_outcome(exchange(self.client.conn(), read_request("AdministrationProfile"@), reply), "AdministrationProfile"@, object_reader("Name"@, "admin profile name"@));
        match r {
            Ok(objects) => {
                let w = wrap_all::<AdminProfile>(objects);
                assert(list_view(Ok::<Vec<AdminProfile>, Error>(w)) == list_outcome(exchange(self.conn(), read_request("AdministrationProfile"@), reply), "AdministrationProfile"@, object_reader("Name"@, "admin profile name"@)));
                Ok(w)
            },
            Err(e) => Err(e),
        }
    }

    /// The admin profile named `name` (trimmed); zero records is none.
    pub fn get_profile(&self, name: &str) -> (r: Result<Option<AdminProfile>>)
        ensures
            match name_of("admin profile name"@, name@) {
                Err(e) => r matches Err(x) && x@ == e,
                Ok(n) => exists|reply: Reply|
                    opt_result_view(r) == get_outcome::<ApiObject>(
                        exchange(self.conn(), named_request(Action::Read, "AdministrationProfile"@, "Name"@, n, None, empty_object()), reply),
                        "AdministrationProfile"@,
                        n,
                        object_reader("Name"@, "admin profile name"@),
                    ),
            },
    {
        let r = get_object(self.client, "AdministrationProfile", "Name", "admin profile name", name);
        let ghost go = opt_result_view(r);
        let out = match r {
            Ok(Some(o)) => Ok(Some(AdminProfile::wrap(o))),
            Ok(None) => Ok(None),
            Err(e) => Err(e),
        };
        assert(opt_result_view(out) == go);
        proof {
            match name_of("admin profile name"@, name@) {
                Ok(n) => {
                    let reply = choose|reply: Reply|
                        go == get_outcome::<ApiObject>(
                            exchange(self.client.conn(), named_request(Action::Read, "AdministrationProfile"@, "Name"@, n, None, empty_object()), reply),
                            "AdministrationProfile"@,
                            n,
                            object_reader("Name"@, "admin profile name"@),
                        );
                    assert(opt_result_view(out) == get_outcome::<ApiObject>(
                        exchange(self.conn(), named_request(Action::Read, "AdministrationProfile"@, "Name"@, n, None, empty_object()), reply),
                        "AdministrationProfile"@,
                        n,
                        object_reader("Name"@, "admin profile name"@),
                    ));
                },
                Err(_) => {},
            }
        }
        out
    }

    /// Creates `object`.
    pub fn create_profile(&self, object: AdminProfileCreate) -> (r: Result<ResourceResponse>)
        ensures
            exists|reply: Reply|
                write_view(r) == write_outcome(
                    exchange(
                        self.conn(),
                        named_request(Action::Create, "AdministrationProfile"@, "Name"@, object@.name, None, payload_with_key("Name"@, object@.name, object@.fields)),
                        reply,
                    ),
                    "AdministrationProfile"@,
                ),
    {
        let ghost ov = object@;
        let r = create_object(self.client, "AdministrationProfile", "Name", object.inner);
        let ghost reply = choose|reply: Reply|
            write_view(r) == write_outcome(
                exchange(
                    self.client.conn(),
                    named_request(Action::Create, "AdministrationProfile"@, "Name"@, ov.name, None, payload_with_key("Name"@, ov.name, ov.fields)),
                    reply,
                ),
                "AdministrationProfile"@,
            );
        assert(write_view(r) == write_outcome(
            exchange(
                self.conn(),
                named_request(Action::Create, "AdministrationProfile"@, "Name"@, ov.name, None, payload_with_key("Name"@, ov.name, ov.fields)),
                reply,
            ),
            "AdministrationProfile"@,
        ));
        r
    }

    /// Merges the fields of `object` into the existing admin profile (see
    /// [`object_update_outcome`]).
    pub fn update_profile(&self, object: AdminProfileUpdate) -> (r: Result<ResourceResponse>)
        ensures
            exists|first: Reply, second: Reply|
                write_view(r) == #[trigger] object_update_outcome(self.conn(), "AdministrationProfile"@, "Name"@, "admin profile name"@, "admin profile"@, object@, first, second),
    {
        let ghost ov = object@;
        let r = update_object(self.client, "AdministrationProfile", "Name", "admin profile name", "admin profile", object.inner);
        let ghost (first, second) = choose|first: Reply, second: Reply|
            write_view(r) == #[trigger] object_update_outcome(self.client.conn(), "AdministrationProfile"@, "Name"@, "admin profile name"@, "admin profile"@, ov, first, second);
        assert(write_view(r) == object_update_outcome(self.conn(), "AdministrationProfile"@, "Name"@, "admin profile name"@, "admin profile"@, ov, first, second));
        r
    }

    /// Deletes the admin profile `name` (trimmed) after checking that it exists.
    pub fn delete_profile(&self, name: &str) -> (r: Result<ResourceResponse>)
        ensures
            match name_of("admin profile name"@, name@) {
                Err(e) => r matches Err(x) && x@ == e,
                Ok(n) => exists|first: Reply, second: Reply|
                    write_view(r) == #[trigger] delete_outcome::<ApiObject>(
                        self.conn(),
                        "AdministrationProfile"@,
                        "Name"@,
                        "admin profile"@,
                        n,
                        object_reader("Name"@, "admin profile name"@),
                        first,
                        second,
                    ),
            },
    {
        let r = delete_object(self.client, "AdministrationProfile", "Name", "admin profile name", "admin profile", name);
        proof {
            match name_of("admin profile name"@, name@) {
                Ok(n) => {
                    let (first, second) = choose|first: Reply, second: Reply|
                        write_view(r) == #[trigger] delete_outcome::<ApiObject>(
                            self.client.conn(), "AdministrationProfile"@, "Name"@, "admin profile"@, n, object_reader("Name"@, "admin profile name"@), first, second);
                    assert(write_view(r) == delete_outcome::<ApiObject>(
                        self.conn(), "AdministrationProfile"@, "Name"@, "admin profile"@, n, object_reader("Name"@, "admin profile name"@), first, second));
                },
                Err(_) => {},
            }
        }
        r
    }

    /// The administrator authentication settings (see [`settings_outcome`]).
    pub fn get_authentication(&self) -> (r: Result<AdminAuthentication>)
        ensures
            exists|reply: Reply|
                result_view(r) == settings_outcome(exchange(self.conn(), read_request("AdminAuthentication"@), reply), "AdminAuthentication"@),
    {
        let r = get_singleton(self.client, "AdminAuthentication");
        let ghost reply = choose|reply: Reply|
            result_view(r) == settings_outcome(exchange(self.client.conn(), read_request("AdminAuthentication"@), reply), "AdminAuthentication"@);
        let out = match r {
            Ok(o) => Ok(AdminAuthentication { inner: o }),
            Err(e) => Err(e),
        };
        assert(result_view(out) == settings_outcome(exchange(self.conn(), read_request("AdminAuthentication"@), reply), "AdminAuthentication"@));
        out
    }

    /// The administration settings (see [`settings_outcome`]).
    pub fn get_settings(&self) -> (r: Result<AdminSettings>)
        ensures
            exists|reply: Reply|
                result_view(r) == settings_outcome(exchange(self.conn(), read_request("AdminSettings"@), reply), "AdminSettings"@),
    {
        let r = get_singleton(self.client, "AdminSettings");
        let ghost reply = choose|reply: Reply|
            result_view(r) == settings_outcome(exchange(self.client.conn(), read_request("AdminSettings"@), reply), "AdminSettings"@);
        let out = match r {
            Ok(o) => Ok(AdminSettings { inner: o }),
            Err(e) => Err(e),
        };
        assert(result_view(out) == settings_outcome(exchange(self.conn(), read_request("AdminSettings"@), reply), "AdminSettings"@));
        out
    }
}

} // verus!
