//! Local users.

use vstd::prelude::*;
use crate::api::{
    delete_outcome, empty_object, get_outcome, list_outcome, list_view, named_request,
    opt_result_view, read_request, write_outcome, write_view,
};
use crate::client::{Link, exchange, Reply, SophosClient};
use crate::common::name_of;
use crate::error::{Error, Result};
use crate::json::{FieldMap, Value};
use crate::common::normalize_name;
use crate::json::Json;
use crate::objects::{
    create_object, delete_object, field_at, get_object, list_objects, object_reader,
    object_update_outcome, payload_with_key, update_object, with_field_of, wrap_all, ApiObject,
    FieldsBuilder, ObjectFields, ObjectView, WrapsObject,
};
use crate::request::{Action, SophosConnection};
use crate::response::ResourceResponse;
use crate::transport::SophosTransport;

verus! {

/// A user.
#[derive(Debug, PartialEq, Eq)]
pub struct User {
    inner: ApiObject,
}

impl View for User {
    type V = ObjectView;

    closed spec fn view(&self) -> ObjectView {
        self.inner@
    }
}

impl WrapsObject for User {
    fn wrap(inner: ApiObject) -> (r: Self) {
        User { inner }
    }
}

impl User {
    /// The name.
    pub fn name(&self) -> (r: &str)
        ensures
            r@ == self@.name,
    {
        self.inner.name()
    }

    /// The text at the dotted `path` (see [`field_at`]).
    pub fn field(&self, path: &str) -> (r: Option<&str>)
        ensures
            crate::xml::opt_str_view(r) == field_at(self@.fields, path@),
    {
        self.inner.field(path)
    }

    /// All fields.
    pub fn fields(&self) -> (r: &FieldMap)
        ensures
            r@ == self@.fields,
    {
        self.inner.fields()
    }
}

/// A user to create: a name and fields, each checked.
#[derive(Debug, PartialEq, Eq)]
pub struct UserCreate {
    inner: ObjectFields,
}

impl View for UserCreate {
    type V = ObjectView;

    closed spec fn view(&self) -> ObjectView {
        self.inner@
    }
}

impl UserCreate {
    /// A user named `username` (trimmed), which is also its `Username` field.
    pub fn new(username: &str) -> (r: Result<UserCreate>)
        ensures
            match name_of("username"@, username@) {
                Err(e) => r matches Err(x) && x@ == e,
                Ok(n) => r matches Ok(o) && o@ == (ObjectView { name: n, fields: seq![("Username"@, Json::Str(n))] }),
            },
    {
        let n = match normalize_name("username", username) {
            Ok(n) => n,
            Err(e) => return Err(e),
        };
        let login = n.clone();
        Ok(UserCreate { inner: ObjectFields::named(n).with_member("Username".to_owned(), Value::String(login)) })
    }

    /// The name.
    pub fn name(&self) -> (r: &str)
        ensures
            r@ == self@.name,
    {
        self.inner.name()
    }

    /// The object with `value` under `field` (see [`with_field_of`]).
    pub fn with_field(self, field: &str, value: Value) -> (r: Result<UserCreate>)
        ensures
            match with_field_of(self@, field@, value@) {
                Ok(o) => r matches Ok(x) && x@ == o,
                Err(e) => r matches Err(x) && x@ == e,
            },
    {
        match self.inner.with_field(field, value) {
            Ok(inner) => Ok(UserCreate { inner }),
            Err(e) => Err(e),
        }
    }
}

impl FieldsBuilder for UserCreate {
    fn add_field(self, field: &str, value: Value) -> (r: Result<UserCreate>) {
        self.with_field(field, value)
    }
}

/// The user operations of a client.
pub struct UsersApi<'a, T> {
    client: &'a SophosClient<T>,
}

impl<'a, T: SophosTransport> UsersApi<'a, T> {
    /// The connection of the client and what its transport answers.
    pub closed spec fn conn(&self) -> Link {
        self.client.conn()
    }
}

impl<T: SophosTransport> SophosClient<T> {
    /// The user operations.
    pub fn users(&self) -> (a: UsersApi<'_, T>)
        ensures
            a.conn() == self.conn(),
    {
        UsersApi { client: self }
    }
}

impl<'a, T: SophosTransport> UsersApi<'a, T> {
    /// Every user; zero records is an empty list.
    pub fn list_users(&self) -> (r: Result<Vec<User>>)
        ensures
            exists|reply: Reply|
                list_view(r) == list_outcome(
                    exchange(self.conn(), read_request("User"@), reply),
                    "User"@,
                    object_reader("Name"@, "user"@),
                ),
    {
        let r = list_objects(self.client, "User", "Name", "user");
        let ghost reply = choose|reply: Reply|
            list_view(r) == list_outcome(exchange(self.client.conn(), read_request("User"@), reply), "User"@, object_reader("Name"@, "user"@));
        match r {
            Ok(objects) => {
                let w = wrap_all::<User>(objects);
                assert(list_view(Ok::<Vec<User>, Error>(w)) == list_outcome(exchange(self.conn(), read_request("User"@), reply), "User"@, object_reader("Name"@, "user"@)));
                Ok(w)
            },
            Err(e) => Err(e),
        }
    }

    /// The user named `name` (trimmed); zero records is none.
    pub fn get_user(&self, name: &str) -> (r: Result<Option<User>>)
        ensures
            match name_of("user"@, name@) {
                Err(e) => r matches Err(x) && x@ == e,
                Ok(n) => exists|reply: Reply|
                    opt_result_view(r) == get_outcome::<ApiObject>(
                        exchange(self.conn(), named_request(Action::Read, "User"@, "Name"@, n, None, empty_object()), reply),
                        "User"@,
                        n,
                        object_reader("Name"@, "user"@),
                    ),
            },
    {
        let r = get_object(self.client, "User", "Name", "user", name);
        let ghost go = opt_result_view(r);
        let out = match r {
            Ok(Some(o)) => Ok(Some(User::wrap(o))),
            Ok(None) => Ok(None),
            Err(e) => Err(e),
        };
        assert(opt_result_view(out) == go);
        proof {
            match name_of("user"@, name@) {
                Ok(n) => {
                    let reply = choose|reply: Reply|
                        go == get_outcome::<ApiObject>(
                            exchange(self.client.conn(), named_request(Action::Read, "User"@, "Name"@, n, None, empty_object()), reply),
                            "User"@,
                            n,
                            object_reader("Name"@, "user"@),
                        );
                    assert(opt_result_view(out) == get_outcome::<ApiObject>(
                        exchange(self.conn(), named_request(Action::Read, "User"@, "Name"@, n, None, empty_object()), reply),
                        "User"@,
                        n,
                        object_reader("Name"@, "user"@),
                    ));
                },
                Err(_) => {},
            }
        }
        out
    }

    /// Creates `object`.
    pub fn create_user(&self, object: UserCreate) -> (r: Result<ResourceResponse>)
        ensures
            exists|reply: Reply|
                write_view(r) == write_outcome(
                    exchange(
                        self.conn(),
                        named_request(Action::Create, "User"@, "Name"@, object@.name, None, payload_with_key("Name"@, object@.name, object@.fields)),
                        reply,
                    ),
                    "User"@,
                ),
    {
        let ghost ov = object@;
        let r = create_object(self.client, "User", "Name", object.inner);
        let ghost reply = choose|reply: Reply|
            write_view(r) == write_outcome(
                exchange(
                    self.client.conn(),
                    named_request(Action::Create, "User"@, "Name"@, ov.name, None, payload_with_key("Name"@, ov.name, ov.fields)),
                    reply,
                ),
                "User"@,
            );
        assert(write_view(r) == write_outcome(
            exchange(
                self.conn(),
                named_request(Action::Create, "User"@, "Name"@, ov.name, None, payload_with_key("Name"@, ov.name, ov.fields)),
                reply,
            ),
            "User"@,
        ));
        r
    }

    /// Deletes the user `name` (trimmed) after checking that it exists.
    pub fn delete_user(&self, name: &str) -> (r: Result<ResourceResponse>)
        ensures
            match name_of("user"@, name@) {
                Err(e) => r matches Err(x) && x@ == e,
                Ok(n) => exists|first: Reply, second: Reply|
                    write_view(r) == #[trigger] delete_outcome::<ApiObject>(
                        self.conn(),
                        "User"@,
                        "Name"@,
                        "user"@,
                        n,
                        object_reader("Name"@, "user"@),
                        first,
                        second,
                    ),
            },
    {
        let r = delete_object(self.client, "User", "Name", "user", "user", name);
        proof {
            match name_of("user"@, name@) {
                Ok(n) => {
                    let (first, second) = choose|first: Reply, second: Reply|
                        write_view(r) == #[trigger] delete_outcome::<ApiObject>(
                            self.client.conn(), "User"@, "Name"@, "user"@, n, object_reader("Name"@, "user"@), first, second);
                    assert(write_view(r) == delete_outcome::<ApiObject>(
                        self.conn(), "User"@, "Name"@, "user"@, n, object_reader("Name"@, "user"@), first, second));
                },
                Err(_) => {},
            }
        }
        r
    }

    /// Sets the password of the existing user `username` (trimmed) to `new_password`
    /// (trimmed), keeping its other fields (see [`object_update_outcome`]); the username is
    /// checked first, then the password.
    pub fn update_password(&self, username: &str, new_password: &str) -> (r: Result<ResourceResponse>)
        ensures
            match name_of("user"@, username@) {
                Err(e) => r matches Err(x) && x@ == e,
                Ok(n) => match name_of("password"@, new_password@) {
                    Err(e) => r matches Err(x) && x@ == e,
                    Ok(p) => exists|first: Reply, second: Reply|
                        write_view(r) == #[trigger] object_update_outcome(
                            self.conn(),
                            "User"@,
                            "Name"@,
                            "user"@,
                            "user"@,
                            (ObjectView { name: n, fields: seq![("Password"@, Json::Str(p))] }),
                            first,
                            second,
                        ),
                },
            },
    {
        let n = match normalize_name("user", username) {
            Ok(n) => n,
            Err(e) => return Err(e),
        };
        let p = match normalize_name("password", new_password) {
            Ok(p) => p,
            Err(e) => return Err(e),
        };
        let fields = ObjectFields::named(n).with_member("Password".to_owned(), Value::String(p));
        let ghost fv = fields@;
        let r = update_object(self.client, "User", "Name", "user", "user", fields);
        let ghost (first, second) = choose|first: Reply, second: Reply|
            write_view(r) == #[trigger] object_update_outcome(self.client.conn(), "User"@, "Name"@, "user"@, "user"@, fv, first, second);
        assert(write_view(r) == object_update_outcome(self.conn(), "User"@, "Name"@, "user"@, "user"@, fv, first, second));
        r
    }
}

} // verus!
