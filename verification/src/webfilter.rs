//! Web filter policies and user activities.

use vstd::prelude::*;
use crate::api::{
    delete_outcome, empty_object, get_outcome, list_outcome, list_view, named_request,
    opt_result_view, read_request, write_outcome, write_view,
};
use crate::client::{Link, exchange, Reply, SophosClient};
use crate::common::name_of;
use crate::error::{Error, Result};
use crate::json::{FieldMap, Value};
use crate::objects::{
    create_object, delete_object, field_at, get_object, list_objects, object_reader,
    object_update_outcome, payload_with_key, update_object, with_field_of, wrap_all, ApiObject,
    FieldsBuilder, ObjectFields, ObjectView, WrapsObject,
};
use crate::request::{Action, SophosConnection};
use crate::response::ResourceResponse;
use crate::transport::SophosTransport;

verus! {

/// A web filter policy.
#[derive(Debug, PartialEq, Eq)]
pub struct WebFilterPolicy {
    inner: ApiObject,
}

impl View for WebFilterPolicy {
    type V = ObjectView;

    closed spec fn view(&self) -> ObjectView {
        self.inner@
    }
}

impl WrapsObject for WebFilterPolicy {
    fn wrap(inner: ApiObject) -> (r: Self) {
        WebFilterPolicy { inner }
    }
}

impl WebFilterPolicy {
    /// The name.
    pub fn name(&self) -> (r: &str)
        ensures
            r@ == self@.name,
    {
        self.inner.name()
    }

    /// The text at the dotted `path` (see [`field_at`]).
    pub fn field(&self, path: &str) -> (r: Option<&str>)
        ensures
            crate::xml::opt_str_view(r) == field_at(self@.fields, path@),
    {
        self.inner.field(path)
    }

    /// All fields.
    pub fn fields(&self) -> (r: &FieldMap)
        ensures
            r@ == self@.fields,
    {
        self.inner.fields()
    }
}

/// A user activity.
#[derive(Debug, PartialEq, Eq)]
pub struct UserActivity {
    inner: ApiObject,
}

impl View for UserActivity {
    type V = ObjectView;

    closed spec fn view(&self) -> ObjectView {
        self.inner@
    }
}

impl WrapsObject for UserActivity {
    fn wrap(inner: ApiObject) -> (r: Self) {
        UserActivity { inner }
    }
}

impl UserActivity {
    /// The name.
    pub fn name(&self) -> (r: &str)
        ensures
            r@ == self@.name,
    {
        self.inner.name()
    }

    /// The text at the dotted `path` (see [`field_at`]).
    pub fn field(&self, path: &str) -> (r: Option<&str>)
        ensures
            crate::xml::opt_str_view(r) == field_at(self@.fields, path@),
    {
        self.inner.field(path)
    }

    /// All fields.
    pub fn fields(&self) -> (r: &FieldMap)
        ensures
            r@ == self@.fields,
    {
        self.inner.fields()
    }
}

/// A web filter policy to create: a name and fields, each checked.
#[derive(Debug, PartialEq, Eq)]
pub struct WebFilterPolicyCreate {
    inner: ObjectFields,
}

impl View for WebFilterPolicyCreate {
    type V = ObjectView;

    closed spec fn view(&self) -> ObjectView {
        self.inner@
    }
}

impl WebFilterPolicyCreate {
    /// An object named `name` (trimmed) with no fields.
    pub fn new(name: &str) -> (r: Result<WebFilterPolicyCreate>)
        ensures
            match name_of("web filter policy name"@, name@) {
                Ok(n) => r matches Ok(o) && o@ == (ObjectView { name: n, fields: Seq::empty() }),
                Err(e) => r matches Err(x) && x@ == e,
            },
    {
        match ObjectFields::new("web filter policy name", name) {
            Ok(inner) => Ok(WebFilterPolicyCreate { inner }),
            Err(e) => Err(e),
        }
    }

    /// The name.
    pub fn name(&self) -> (r: &str)
        ensures
            r@ == self@.name,
    {
        self.inner.name()
    }

    /// The object with `value` under `field` (see [`with_field_of`]).
    pub fn with_field(self, field: &str, value: Value) -> (r: Result<WebFilterPolicyCreate>)
        ensures
            match with_field_of(self@, field@, value@) {
                Ok(o) => r matches Ok(x) && x@ == o,
                Err(e) => r matches Err(x) && x@ == e,
            },
    {
        match self.inner.with_field(field, value) {
            Ok(inner) => Ok(WebFilterPolicyCreate { inner }),
            Err(e) => Err(e),
        }
    }

    /// The same name and fields as an update.
    pub fn into_update(self) -> (r: WebFilterPolicyUpdate)
        ensures
            r@ == self@,
    {
        WebFilterPolicyUpdate { inner: self.inner }
    }
}

impl FieldsBuilder for WebFilterPolicyCreate {
    fn add_field(self, field: &str, value: Value) -> (r: Result<WebFilterPolicyCreate>) {
        self.with_field(field, value)
    }
}

/// A change to a web filter policy: a name and fields, each checked.
#[derive(Debug, PartialEq, Eq)]
pub struct WebFilterPolicyUpdate {
    inner: ObjectFields,
}

impl View for WebFilterPolicyUpdate {
    type V = ObjectView;

    closed spec fn view(&self) -> ObjectView {
        self.inner@
    }
}

impl WebFilterPolicyUpdate {
    /// An object named `name` (trimmed) with no fields.
    pub fn new(name: &str) -> (r: Result<WebFilterPolicyUpdate>)
        ensures
            match name_of("web filter policy name"@, name@) {
                Ok(n) => r matches Ok(o) && o@ == (ObjectView { name: n, fields: Seq::empty() }),
                Err(e) => r matches Err(x) && x@ == e,
            },
    {
        match ObjectFields::new("web filter policy name", name) {
            Ok(inner) => Ok(WebFilterPolicyUpdate { inner }),
            Err(e) => Err(e),
        }
    }

    /// The name.
    pub fn name(&self) -> (r: &str)
        ensures
            r@ == self@.name,
    {
        self.inner.name()
    }

    /// The object with `value` under `field` (see [`with_field_of`]).
    pub fn with_field(self, field: &str, value: Value) -> (r: Result<WebFilterPolicyUpdate>)
        ensures
            match with_field_of(self@, field@, value@) {
                Ok(o) => r matches Ok(x) && x@ == o,
                Err(e) => r matches Err(x) && x@ == e,
            },
    {
        match self.inner.with_field(field, value) {
            Ok(inner) => Ok(WebFilterPolicyUpdate { inner }),
            Err(e) => Err(e),
        }
    }
}

impl FieldsBuilder for WebFilterPolicyUpdate {
    fn add_field(self, field: &str, value: Value) -> (r: Result<WebFilterPolicyUpdate>) {
        self.with_field(field, value)
    }
}

/// A user activity to create: a name and fields, each checked.
#[derive(Debug, PartialEq, Eq)]
pub struct UserActivityCreate {
    inner: ObjectFields,
}

impl View for UserActivityCreate {
    type V = ObjectView;

    closed spec fn view(&self) -> ObjectView {
        self.inner@
    }
}

impl UserActivityCreate {
    /// An object named `name` (trimmed) with no fields.
    pub fn new(name: &str) -> (r: Result<UserActivityCreate>)
        ensures
            match name_of("user activity name"@, name@) {
                Ok(n) => r matches Ok(o) && o@ == (ObjectView { name: n, fields: Seq::empty() }),
                Err(e) => r matches Err(x) && x@ == e,
            },
    {
        match ObjectFields::new("user activity name", name) {
            Ok(inner) => Ok(UserActivityCreate { inner }),
            Err(e) => Err(e),
        }
    }

    /// The name.
    pub fn name(&self) -> (r: &str)
        ensures
            r@ == self@.name,
    {
        self.inner.name()
    }

    /// The object with `value` under `field` (see [`with_field_of`]).
    pub fn with_field(self, field: &str, value: Value) -> (r: Result<UserActivityCreate>)
        ensures
            match with_field_of(self@, field@, value@) {
                Ok(o) => r matches Ok(x) && x@ == o,
                Err(e) => r matches Err(x) && x@ == e,
            },
    {
        match self.inner.with_field(field, value) {
            Ok(inner) => Ok(UserActivityCreate { inner }),
            Err(e) => Err(e),
        }
    }
}

impl FieldsBuilder for UserActivityCreate {
    fn add_field(self, field: &str, value: Value) -> (r: Result<UserActivityCreate>) {
        self.with_field(field, value)
    }
}

/// The web filter operations of a client.
pub struct WebFilterApi<'a, T> {
    client: &'a SophosClient<T>,
}

impl<'a, T: SophosTransport> WebFilterApi<'a, T> {
    /// The connection of the client and what its transport answers.
    pub closed spec fn conn(&self) -> Link {
        self.client.conn()
    }
}

impl<T: SophosTransport> SophosClient<T> {
    /// The web filter operations.
    pub fn webfilter(&self) -> (a: WebFilterApi<'_, T>)
        ensures
            a.conn() == self.conn(),
    {
        WebFilterApi { client: self }
    }
}

impl<'a, T: SophosTransport> WebFilterApi<'a, T> {
    /// Every web filter policy; zero records is an empty list.
    pub fn list_policies(&self) -> (r: Result<Vec<WebFilterPolicy>>)
        ensures
            exists|reply: Reply|
                list_view(r) == list_outcome(
                    exchange(self.conn(), read_request("WebFilterPolicy"@), reply),
                    "WebFilterPolicy"@,
                    object_reader("Name"@, "web filter policy name"@),
                ),
    {
        let r = list_objects(self.client, "WebFilterPolicy", "Name", "web filter policy name");
        let ghost reply = choose|reply: Reply|
            list_view(r) == list_outcome(exchange(self.client.conn(), read_request("WebFilterPolicy"@), reply), "WebFilterPolicy"@, object_reader("Name"@, "web filter policy name"@));
        match r {
            Ok(objects) => {
                let w = wrap_all::<WebFilterPolicy>(objects);
                assert(list_view(Ok::<Vec<WebFilterPolicy>, Error>(w)) == list_outcome(exchange(self.conn(), read_request("WebFilterPolicy"@), reply), "WebFilterPolicy"@, object_reader("Name"@, "web filter policy name"@)));
                Ok(w)
            },
            Err(e) => Err(e),
        }
    }

    /// The web filter policy named `name` (trimmed); zero records is none.
    pub fn get_policy(&self, name: &str) -> (r: Result<Option<WebFilterPolicy>>)
        ensures
            match name_of("web filter policy name"@, name@) {
                Err(e) => r matches Err(x) && x@ == e,
                Ok(n) => exists|reply: Reply|
                    opt_result_view(r) == get_outcome::<ApiObject>(
                        exchange(self.conn(), named_request(Action::Read, "WebFilterPolicy"@, "Name"@, n, None, empty_object()), reply),
                        "WebFilterPolicy"@,
                        n,
                        object_reader("Name"@, "web filter policy name"@),
                    ),
            },
    {
        let r = get_object(self.client, "WebFilterPolicy", "Name", "web filter policy name", name);
        let ghost go = opt_result_view(r);
        let out = match r {
            Ok(Some(o)) => Ok(Some(WebFilterPolicy::wrap(o))),
            Ok(None) => Ok(None),
            Err(e) => Err(e),
        };
        assert(opt_result_view(out) == go);
        proof {
            match name_of("web filter policy name"@, name@) {
                Ok(n) => {
                    let reply = choose|reply: Reply|
                        go == get_outcome::<ApiObject>(
                            exchange(self.client.conn(), named_request(Action::Read, "WebFilterPolicy"@, "Name"@, n, None, empty_object()), reply),
                            "WebFilterPolicy"@,
                            n,
                            object_reader("Name"@, "web filter policy name"@),
                        );
                    assert(opt_result_view(out) == get_outcome::<ApiObject>(
                        exchange(self.conn(), named_request(Action::Read, "WebFilterPolicy"@, "Name"@, n, None, empty_object()), reply),
                        "WebFilterPolicy"@,
                        n,
                        object_reader("Name"@, "web filter policy name"@),
                    ));
                },
                Err(_) => {},
            }
        }
        out
    }

    /// Creates `object`.
    pub fn create_policy(&self, object: WebFilterPolicyCreate) -> (r: Result<ResourceResponse>)
        ensures
            exists|reply: Reply|
                write_view(r) == write_outcome(
                    exchange(
                        self.conn(),
                        named_request(Action::Create, "WebFilterPolicy"@, "Name"@, object@.name, None, payload_with_key("Name"@, object@.name, object@.fields)),
                        reply,
                    ),
                    "WebFilterPolicy"@,
                ),
    {
        let ghost ov = object@;
        let r = create_object(self.client, "WebFilterPolicy", "Name", object.inner);
        let ghost reply = choose|reply: Reply|
            write_view(r) == write_outcome(
                exchange(
                    self.client.conn(),
                    named_request(Action::Create, "WebFilterPolicy"@, "Name"@, ov.name, None, payload_with_key("Name"@, ov.name, ov.fields)),
                    reply,
                ),
                "WebFilterPolicy"@,
            );
        assert(write_view(r) == write_outcome(
            exchange(
                self.conn(),
                named_request(Action::Create, "WebFilterPolicy"@, "Name"@, ov.name, None, payload_with_key("Name"@, ov.name, ov.fields)),
                reply,
            ),
            "WebFilterPolicy"@,
        ));
        r
    }

    /// Merges the fields of `object` into the existing web filter policy (see
    /// [`object_update_outcome`]).
    pub fn update_policy(&self, object: WebFilterPolicyUpdate) -> (r: Result<ResourceResponse>)
        ensures
            exists|first: Reply, second: Reply|
                write_view(r) == #[trigger] object_update_outcome(self.conn(), "WebFilterPolicy"@, "Name"@, "web filter policy name"@, "web filter policy"@, object@, first, second),
    {
        let ghost ov = object@;
        let r = update_object(self.client, "WebFilterPolicy", "Name", "web filter policy name", "web filter policy", object.inner);
        let ghost (first, second) = choose|first: Reply, second: Reply|
            write_view(r) == #[trigger] object_update_outcome(self.client.conn(), "WebFilterPolicy"@, "Name"@, "web filter policy name"@, "web filter policy"@, ov, first, second);
        assert(write_view(r) == object_update_outcome(self.conn(), "WebFilterPolicy"@, "Name"@, "web filter policy name"@, "web filter policy"@, ov, first, second));
        r
    }

    /// Deletes the web filter policy `name` (trimmed) after checking that it exists.
    pub fn delete_policy(&self, name: &str) -> (r: Result<ResourceResponse>)
        ensures
            match name_of("web filter policy name"@, name@) {
                Err(e) => r matches Err(x) && x@ == e,
                Ok(n) => exists|first: Reply, second: Reply|
                    write_view(r) == #[trigger] delete_outcome::<ApiObject>(
                        self.conn(),
                        "WebFilterPolicy"@,
                        "Name"@,
                        "web filter policy"@,
                        n,
                        object_reader("Name"@, "web filter policy name"@),
                        first,
                        second,
                    ),
            },
    {
        let r = delete_object(self.client, "WebFilterPolicy", "Name", "web filter policy name", "web filter policy", name);
        proof {
            match name_of("web filter policy name"@, name@) {
                Ok(n) => {
                    let (first, second) = choose|first: Reply, second: Reply|
                        write_view(r) == #[trigger] delete_outcome::<ApiObject>(
                            self.client.conn(), "WebFilterPolicy"@, "Name"@, "web filter policy"@, n, object_reader("Name"@, "web filter policy name"@), first, second);
                    assert(write_view(r) == delete_outcome::<ApiObject>(
                        self.conn(), "WebFilterPolicy"@, "Name"@, "web filter policy"@, n, object_reader("Name"@, "web filter policy name"@), first, second));
                },
                Err(_) => {},
            }
        }
        r
    }

    /// Every user activity; zero records is an empty list.
    pub fn list_user_activities(&self) -> (r: Result<Vec<UserActivity>>)
        ensures
            exists|reply: Reply|
                list_view(r) == list_outcome(
                    exchange(self.conn(), read_request("UserActivity"@), reply),
                    "UserActivity"@,
                    object_reader("Name"@, "user activity name"@),
                ),
    {
        let r = list_objects(self.client, "UserActivity", "Name", "user activity name");
        let ghost reply = choose|reply: Reply|
            list_view(r) == list_outcome(exchange(self.client.conn(), read_request("UserActivity"@), reply), "UserActivity"@, object_reader("Name"@, "user activity name"@));
        match r {
            Ok(objects) => {
                let w = wrap_all::<UserActivity>(objects);
                assert(list_view(Ok::<Vec<UserActivity>, Error>(w)) == list_outcome(exchange(self.conn(), read_request("UserActivity"@), reply), "UserActivity"@, object_reader("Name"@, "user activity name"@)));
                Ok(w)
            },
            Err(e) => Err(e),
        }
    }

    /// The user activity named `name` (trimmed); zero records is none.
    pub fn get_user_activity(&self, name: &str) -> (r: Result<Option<UserActivity>>)
        ensures
            match name_of("user activity name"@, name@) {
                Err(e) => r matches Err(x) && x@ == e,
                Ok(n) => exists|reply: Reply|
                    opt_result_view(r) == get_outcome::<ApiObject>(
                        exchange(self.conn(), named_request(Action::Read, "UserActivity"@, "Name"@, n, None, empty_object()), reply),
                        "UserActivity"@,
                        n,
                        object_reader("Name"@, "user activity name"@),
                    ),
            },
    {
        let r = get_object(self.client, "UserActivity", "Name", "user activity name", name);
        let ghost go = opt_result_view(r);
        let out = match r {
            Ok(Some(o)) => Ok(Some(UserActivity::wrap(o))),
            Ok(None) => Ok(None),
            Err(e) => Err(e),
        };
        assert(opt_result_view(out) == go);
        proof {
            match name_of("user activity name"@, name@) {
                Ok(n) => {
                    let reply = choose|reply: Reply|
                        go == get_outcome::<ApiObject>(
                            exchange(self.client.conn(), named_request(Action::Read, "UserActivity"@, "Name"@, n, None, empty_object()), reply),
                            "UserActivity"@,
                            n,
                            object_reader("Name"@, "user activity name"@),
                        );
                    assert(opt_result_view(out) == get_outcome::<ApiObject>(
                        exchange(self.conn(), named_request(Action::Read, "UserActivity"@, "Name"@, n, None, empty_object()), reply),
                        "UserActivity"@,
                        n,
                        object_reader("Name"@, "user activity name"@),
                    ));
                },
                Err(_) => {},
            }
        }
        out
    }

    /// Creates `object`.
    pub fn create_user_activity(&self, object: UserActivityCreate) -> (r: Result<ResourceResponse>)
        ensures
            exists|reply: Reply|
                write_view(r) == write_outcome(
                    exchange(
                        self.conn(),
                        named_request(Action::Create, "UserActivity"@, "Name"@, object@.name, None, payload_with_key("Name"@, object@.name, object@.fields)),
                        reply,
                    ),
                    "UserActivity"@,
                ),
    {
        let ghost ov = object@;
        let r = create_object(self.client, "UserActivity", "Name", object.inner);
        let ghost reply = choose|reply: Reply|
            write_view(r) == write_outcome(
                exchange(
                    self.client.conn(),
                    named_request(Action::Create, "UserActivity"@, "Name"@, ov.name, None, payload_with_key("Name"@, ov.name, ov.fields)),
                    reply,
                ),
                "UserActivity"@,
            );
        assert(write_view(r) == write_outcome(
            exchange(
                self.conn(),
                named_request(Action::Create, "UserActivity"@, "Name"@, ov.name, None, payload_with_key("Name"@, ov.name, ov.fields)),
                reply,
            ),
            "UserActivity"@,
        ));
        r
    }

    /// Deletes the user activity `name` (trimmed) after checking that it exists.
    pub fn delete_user_activity(&self, name: &str) -> (r: Result<ResourceResponse>)
        ensures
            match name_of("user activity name"@, name@) {
                Err(e) => r matches Err(x) && x@ == e,
                Ok(n) => exists|first: Reply, second: Reply|
                    write_view(r) == #[trigger] delete_outcome::<ApiObject>(
                        self.conn(),
                        "UserActivity"@,
                        "Name"@,
                        "user activity"@,
                        n,
                        object_reader("Name"@, "user activity name"@),
                        first,
                        second,
                    ),
            },
    {
        let r = delete_object(self.client, "UserActivity", "Name", "user activity name", "user activity", name);
        proof {
            match name_of("user activity name"@, name@) {
                Ok(n) => {
                    let (first, second) = choose|first: Reply, second: Reply|
                        write_view(r) == #[trigger] delete_outcome::<ApiObject>(
                            self.client.conn(), "UserActivity"@, "Name"@, "user activity"@, n, object_reader("Name"@, "user activity name"@), first, second);
                    assert(write_view(r) == delete_outcome::<ApiObject>(
                        self.conn(), "UserActivity"@, "Name"@, "user activity"@, n, object_reader("Name"@, "user activity name"@), first, second));
                },
                Err(_) => {},
            }
        }
        r
    }
}

} // verus!
