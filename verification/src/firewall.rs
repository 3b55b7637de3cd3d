//! Firewall rules, firewall rule groups and local service ACL rules.

use vstd::prelude::*;
use crate::api::{
    delete_outcome, empty_object, get_outcome, list_outcome, list_view, named_request,
    opt_result_view, read_request, write_outcome, write_view,
};
use crate::client::{Link, exchange, Reply, SophosClient};
use crate::common::name_of;
use crate::error::{Error, Result};
use crate::json::{FieldMap, Value};
use crate::objects::{
    create_object, delete_object, field_at, get_object, list_objects, object_reader,
    object_update_outcome, payload_with_key, update_object, with_field_of, wrap_all, ApiObject,
    FieldsBuilder, ObjectFields, ObjectView, WrapsObject,
};
use crate::request::{Action, SophosConnection};
use crate::response::ResourceResponse;
use crate::transport::SophosTransport;

verus! {

/// A firewall rule.
#[derive(Debug, PartialEq, Eq)]
pub struct FirewallRule {
    inner: ApiObject,
}

impl View for FirewallRule {
    type V = ObjectView;

    closed spec fn view(&self) -> ObjectView {
        self.inner@
    }
}

impl WrapsObject for FirewallRule {
    fn wrap(inner: ApiObject) -> (r: Self) {
        FirewallRule { inner }
    }
}

impl FirewallRule {
    /// The name.
    pub fn name(&self) -> (r: &str)
        ensures
            r@ == self@.name,
    {
        self.inner.name()
    }

    /// The text at the dotted `path` (see [`field_at`]).
    pub fn field(&self, path: &str) -> (r: Option<&str>)
        ensures
            crate::xml::opt_str_view(r) == field_at(self@.fields, path@),
    {
        self.inner.field(path)
    }

    /// All fields.
    pub fn fields(&self) -> (r: &FieldMap)
        ensures
            r@ == self@.fields,
    {
        self.inner.fields()
    }
}

impl FirewallRule {
    /// The rule's `Status` field.
    pub fn status(&self) -> (r: Option<&str>)
        ensures
            crate::xml::opt_str_view(r) == field_at(self@.fields, "Status"@),
    {
        self.field("Status")
    }
}

/// A firewall rule group.
#[derive(Debug, PartialEq, Eq)]
pub struct FirewallRuleGroup {
    inner: ApiObject,
}

impl View for FirewallRuleGroup {
    type V = ObjectView;

    closed spec fn view(&self) -> ObjectView {
        self.inner@
    }
}

impl WrapsObject for FirewallRuleGroup {
    fn wrap(inner: ApiObject) -> (r: Self) {
        FirewallRuleGroup { inner }
    }
}

impl FirewallRuleGroup {
    /// The name.
    pub fn name(&self) -> (r: &str)
        ensures
            r@ == self@.name,
    {
        self.inner.name()
    }

    /// The text at the dotted `path` (see [`field_at`]).
    pub fn field(&self, path: &str) -> (r: Option<&str>)
        ensures
            crate::xml::opt_str_view(r) == field_at(self@.fields, path@),
    {
        self.inner.field(path)
    }

    /// All fields.
    pub fn fields(&self) -> (r: &FieldMap)
        ensures
            r@ == self@.fields,
    {
        self.inner.fields()
    }
}

/// A local service ACL rule.
#[derive(Debug, PartialEq, Eq)]
pub struct LocalServiceAcl {
    inner: ApiObject,
}

impl View for LocalServiceAcl {
    type V = ObjectView;

    closed spec fn view(&self) -> ObjectView {
        self.inner@
    }
}

impl WrapsObject for LocalServiceAcl {
    fn wrap(inner: ApiObject) -> (r: Self) {
        LocalServiceAcl { inner }
    }
}

impl LocalServiceAcl {
    /// The name.
    pub fn rule_name(&self) -> (r: &str)
        ensures
            r@ == self@.name,
    {
        self.inner.name()
    }

    /// The text at the dotted `path` (see [`field_at`]).
    pub fn field(&self, path: &str) -> (r: Option<&str>)
        ensures
            crate::xml::opt_str_view(r) == field_at(self@.fields, path@),
    {
        self.inner.field(path)
    }

    /// All fields.
    pub fn fields(&self) -> (r: &FieldMap)
        ensures
            r@ == self@.fields,
    {
        self.inner.fields()
    }
}

/// A firewall rule to create: a name and fields, each checked.
#[derive(Debug, PartialEq, Eq)]
pub struct FirewallRuleCreate {
    inner: ObjectFields,
}

impl View for FirewallRuleCreate {
    type V = ObjectView;

    closed spec fn view(&self) -> ObjectView {
        self.inner@
    }
}

impl FirewallRuleCreate {
    /// An object named `name` (trimmed) with no fields.
    pub fn new(name: &str) -> (r: Result<FirewallRuleCreate>)
        ensures
            match name_of("firewall rule name"@, name@) {
                Ok(n) => r matches Ok(o) && o@ == (ObjectView { name: n, fields: Seq::empty() }),
                Err(e) => r matches Err(x) && x@ == e,
            },
    {
        match ObjectFields::new("firewall rule name", name) {
            Ok(inner) => Ok(FirewallRuleCreate { inner }),
            Err(e) => Err(e),
        }
    }

    /// The name.
    pub fn name(&self) -> (r: &str)
        ensures
            r@ == self@.name,
    {
        self.inner.name()
    }

    /// The object with `value` under `field` (see [`with_field_of`]).
    pub fn with_field(self, field: &str, value: Value) -> (r: Result<FirewallRuleCreate>)
        ensures
            match with_field_of(self@, field@, value@) {
                Ok(o) => r matches Ok(x) && x@ == o,
                Err(e) => r matches Err(x) && x@ == e,
            },
    {
        match self.inner.with_field(field, value) {
            Ok(inner) => Ok(FirewallRuleCreate { inner }),
            Err(e) => Err(e),
        }
    }

    /// The same name and fields as an update.
    pub fn into_update(self) -> (r: FirewallRuleUpdate)
        ensures
            r@ == self@,
    {
        FirewallRuleUpdate { inner: self.inner }
    }
}

impl FieldsBuilder for FirewallRuleCreate {
    fn add_field(self, field: &str, value: Value) -> (r: Result<FirewallRuleCreate>) {
        self.with_field(field, value)
    }
}

/// A change to a firewall rule: a name and fields, each checked.
#[derive(Debug, PartialEq, Eq)]
pub struct FirewallRuleUpdate {
    inner: ObjectFields,
}

impl View for FirewallRuleUpdate {
    type V = ObjectView;

    closed spec fn view(&self) -> ObjectView {
        self.inner@
    }
}

impl FirewallRuleUpdate {
    /// An object named `name` (trimmed) with no fields.
    pub fn new(name: &str) -> (r: Result<FirewallRuleUpdate>)
        ensures
            match name_of("firewall rule name"@, name@) {
                Ok(n) => r matches Ok(o) && o@ == (ObjectView { name: n, fields: Seq::empty() }),
                Err(e) => r matches Err(x) && x@ == e,
            },
    {
        match ObjectFields::new("firewall rule name", name) {
            Ok(inner) => Ok(FirewallRuleUpdate { inner }),
            Err(e) => Err(e),
        }
    }

    /// The name.
    pub fn name(&self) -> (r: &str)
        ensures
            r@ == self@.name,
    {
        self.inner.name()
    }

    /// The object with `value` under `field` (see [`with_field_of`]).
    pub fn with_field(self, field: &str, value: Value) -> (r: Result<FirewallRuleUpdate>)
        ensures
            match with_field_of(self@, field@, value@) {
                Ok(o) => r matches Ok(x) && x@ == o,
                Err(e) => r matches Err(x) && x@ == e,
            },
    {
        match self.inner.with_field(field, value) {
            Ok(inner) => Ok(FirewallRuleUpdate { inner }),
            Err(e) => Err(e),
        }
    }
}

impl FieldsBuilder for FirewallRuleUpdate {
    fn add_field(self, field: &str, value: Value) -> (r: Result<FirewallRuleUpdate>) {
        self.with_field(field, value)
    }
}

/// A firewall rule group to create: a name and fields, each checked.
#[derive(Debug, PartialEq, Eq)]
pub struct FirewallRuleGroupCreate {
    inner: ObjectFields,
}

impl View for FirewallRuleGroupCreate {
    type V = ObjectView;

    closed spec fn view(&self) -> ObjectView {
        self.inner@
    }
}

impl FirewallRuleGroupCreate {
    /// An object named `name` (trimmed) with no fields.
    pub fn new(name: &str) -> (r: Result<FirewallRuleGroupCreate>)
        ensures
            match name_of("firewall rule group name"@, name@) {
                Ok(n) => r matches Ok(o) && o@ == (ObjectView { name: n, fields: Seq::empty() }),
                Err(e) => r matches Err(x) && x@ == e,
            },
    {
        match ObjectFields::new("firewall rule group name", name) {
            Ok(inner) => Ok(FirewallRuleGroupCreate { inner }),
            Err(e) => Err(e),
        }
    }

    /// The name.
    pub fn name(&self) -> (r: &str)
        ensures
            r@ == self@.name,
    {
        self.inner.name()
    }

    /// The object with `value` under `field` (see [`with_field_of`]).
    pub fn with_field(self, field: &str, value: Value) -> (r: Result<FirewallRuleGroupCreate>)
        ensures
            match with_field_of(self@, field@, value@) {
                Ok(o) => r matches Ok(x) && x@ == o,
                Err(e) => r matches Err(x) && x@ == e,
            },
    {
        match self.inner.with_field(field, value) {
            Ok(inner) => Ok(FirewallRuleGroupCreate { inner }),
            Err(e) => Err(e),
        }
    }

    /// The same name and fields as an update.
    pub fn into_update(self) -> (r: FirewallRuleGroupUpdate)
        ensures
            r@ == self@,
    {
        FirewallRuleGroupUpdate { inner: self.inner }
    }
}

impl FieldsBuilder for FirewallRuleGroupCreate {
    fn add_field(self, field: &str, value: Value) -> (r: Result<FirewallRuleGroupCreate>) {
        self.with_field(field, value)
    }
}

/// A change to a firewall rule group: a name and fields, each checked.
#[derive(Debug, PartialEq, Eq)]
pub struct FirewallRuleGroupUpdate {
    inner: ObjectFields,
}

impl View for FirewallRuleGroupUpdate {
    type V = ObjectView;

    closed spec fn view(&self) -> ObjectView {
        self.inner@
    }
}

impl FirewallRuleGroupUpdate {
    /// An object named `name` (trimmed) with no fields.
    pub fn new(name: &str) -> (r: Result<FirewallRuleGroupUpdate>)
        ensures
            match name_of("firewall rule group name"@, name@) {
                Ok(n) => r matches Ok(o) && o@ == (ObjectView { name: n, fields: Seq::empty() }),
                Err(e) => r matches Err(x) && x@ == e,
            },
    {
        match ObjectFields::new("firewall rule group name", name) {
            Ok(inner) => Ok(FirewallRuleGroupUpdate { inner }),
            Err(e) => Err(e),
        }
    }

    /// The name.
    pub fn name(&self) -> (r: &str)
        ensures
            r@ == self@.name,
    {
        self.inner.name()
    }

    /// The object with `value` under `field` (see [`with_field_of`]).
    pub fn with_field(self, field: &str, value: Value) -> (r: Result<FirewallRuleGroupUpdate>)
        ensures
            match with_field_of(self@, field@, value@) {
                Ok(o) => r matches Ok(x) && x@ == o,
                Err(e) => r matches Err(x) && x@ == e,
            },
    {
        match self.inner.with_field(field, value) {
            Ok(inner) => Ok(FirewallRuleGroupUpdate { inner }),
            Err(e) => Err(e),
        }
    }
}

impl FieldsBuilder for FirewallRuleGroupUpdate {
    fn add_field(self, field: &str, value: Value) -> (r: Result<FirewallRuleGroupUpdate>) {
        self.with_field(field, value)
    }
}

/// A local service ACL rule to create: a name and fields, each checked.
#[derive(Debug, PartialEq, Eq)]
pub struct LocalServiceAclCreate {
    inner: ObjectFields,
}

impl View for LocalServiceAclCreate {
    type V = ObjectView;

    closed spec fn view(&self) -> ObjectView {
        self.inner@
    }
}

impl LocalServiceAclCreate {
    /// An object named `name` (trimmed) with no fields.
    pub fn new(name: &str) -> (r: Result<LocalServiceAclCreate>)
        ensures
            match name_of("ACL rule name"@, name@) {
                Ok(n) => r matches Ok(o) && o@ == (ObjectView { name: n, fields: Seq::empty() }),
                Err(e) => r matches Err(x) && x@ == e,
            },
    {
        match ObjectFields::new("ACL rule name", name) {
            Ok(inner) => Ok(LocalServiceAclCreate { inner }),
            Err(e) => Err(e),
        }
    }

    /// The name.
    pub fn name(&self) -> (r: &str)
        ensures
            r@ == self@.name,
    {
        self.inner.name()
    }

    /// The object with `value` under `field` (see [`with_field_of`]).
    pub fn with_field(self, field: &str, value: Value) -> (r: Result<LocalServiceAclCreate>)
        ensures
            match with_field_of(self@, field@, value@) {
                Ok(o) => r matches Ok(x) && x@ == o,
                Err(e) => r matches Err(x) && x@ == e,
            },
    {
        match self.inner.with_field(field, value) {
            Ok(inner) => Ok(LocalServiceAclCreate { inner }),
            Err(e) => Err(e),
        }
    }

    /// The same name and fields as an update.
    pub fn into_update(self) -> (r: LocalServiceAclUpdate)
        ensures
            r@ == self@,
    {
        LocalServiceAclUpdate { inner: self.inner }
    }
}

impl FieldsBuilder for LocalServiceAclCreate {
    fn add_field(self, field: &str, value: Value) -> (r: Result<LocalServiceAclCreate>) {
        self.with_field(field, value)
    }
}

/// A change to a local service ACL rule: a name and fields, each checked.
#[derive(Debug, PartialEq, Eq)]
pub struct LocalServiceAclUpdate {
    inner: ObjectFields,
}

impl View for LocalServiceAclUpdate {
    type V = ObjectView;

    closed spec fn view(&self) -> ObjectView {
        self.inner@
    }
}

impl LocalServiceAclUpdate {
    /// An object named `name` (trimmed) with no fields.
    pub fn new(name: &str) -> (r: Result<LocalServiceAclUpdate>)
        ensures
            match name_of("ACL rule name"@, name@) {
                Ok(n) => r matches Ok(o) && o@ == (ObjectView { name: n, fields: Seq::empty() }),
                Err(e) => r matches Err(x) && x@ == e,
            },
    {
        match ObjectFields::new("ACL rule name", name) {
            Ok(inner) => Ok(LocalServiceAclUpdate { inner }),
            Err(e) => Err(e),
        }
    }

    /// The name.
    pub fn name(&self) -> (r: &str)
        ensures
            r@ == self@.name,
    {
        self.inner.name()
    }

    /// The object with `value` under `field` (see [`with_field_of`]).
    pub fn with_field(self, field: &str, value: Value) -> (r: Result<LocalServiceAclUpdate>)
        ensures
            match with_field_of(self@, field@, value@) {
                Ok(o) => r matches Ok(x) && x@ == o,
                Err(e) => r matches Err(x) && x@ == e,
            },
    {
        match self.inner.with_field(field, value) {
            Ok(inner) => Ok(LocalServiceAclUpdate { inner }),
            Err(e) => Err(e),
        }
    }
}

impl FieldsBuilder for LocalServiceAclUpdate {
    fn add_field(self, field: &str, value: Value) -> (r: Result<LocalServiceAclUpdate>) {
        self.with_field(field, value)
    }
}

/// The firewall rule operations of a client.
pub struct FirewallApi<'a, T> {
    client: &'a SophosClient<T>,
}

impl<'a, T: SophosTransport> FirewallApi<'a, T> {
    /// The connection of the client and what its transport answers.
    pub closed spec fn conn(&self) -> Link {
        self.client.conn()
    }
}

impl<T: SophosTransport> SophosClient<T> {
    /// The firewall rule operations.
    pub fn firewall(&self) -> (a: FirewallApi<'_, T>)
        ensures
            a.conn() == self.conn(),
    {
        FirewallApi { client: self }
    }
}

impl<'a, T: SophosTransport> FirewallApi<'a, T> {
    /// Every firewall rule; zero records is an empty list.
    pub fn list_rules(&self) -> (r: Result<Vec<FirewallRule>>)
        ensures
            exists|reply: Reply|
                list_view(r) == list_outcome(
                    exchange(self.conn(), read_request("FirewallRule"@), reply),
                    "FirewallRule"@,
                    object_reader("Name"@, "firewall rule name"@),
                ),
    {
        let r = list_objects(self.client, "FirewallRule", "Name", "firewall rule name");
        let ghost reply = choose|reply: Reply|
            list_view(r) == list_outcome(exchange(self.client.conn(), read_request("FirewallRule"@), reply), "FirewallRule"@, object_reader("Name"@, "firewall rule name"@));
        match r {
            Ok(objects) => {
                let w = wrap_all::<FirewallRule>(objects);
                assert(list_view(Ok::<Vec<FirewallRule>, Error>(w)) == list_outcome(exchange(self.conn(), read_request("FirewallRule"@), reply), "FirewallRule"@, object_reader("Name"@, "firewall rule name"@)));
                Ok(w)
            },
            Err(e) => Err(e),
        }
    }

    /// The firewall rule named `name` (trimmed); zero records is none.
    pub fn get_rule(&self, name: &str) -> (r: Result<Option<FirewallRule>>)
        ensures
            match name_of("firewall rule name"@, name@) {
                Err(e) => r matches Err(x) && x@ == e,
                Ok(n) => exists|reply: Reply|
                    opt_result_view(r) == get_outcome::<ApiObject>(
                        exchange(self.conn(), named_request(Action::Read, "FirewallRule"@, "Name"@, n, None, empty_object()), reply),
                        "FirewallRule"@,
                        n,
                        object_reader("Name"@, "firewall rule name"@),
                    ),
            },
    {
        let r = get_object(self.client, "FirewallRule", "Name", "firewall rule name", name);
        let ghost go = opt_result_view(r);
        let out = match r {
            Ok(Some(o)) => Ok(Some(FirewallRule::wrap(o))),
            Ok(None) => Ok(None),
            Err(e) => Err(e),
        };
        assert(opt_result_view(out) == go);
        proof {
            match name_of("firewall rule name"@, name@) {
                Ok(n) => {
                    let reply = choose|reply: Reply|
                        go == get_outcome::<ApiObject>(
                            exchange(self.client.conn(), named_request(Action::Read, "FirewallRule"@, "Name"@, n, None, empty_object()), reply),
                            "FirewallRule"@,
                            n,
                            object_reader("Name"@, "firewall rule name"@),
                        );
                    assert(opt_result_view(out) == get_outcome::<ApiObject>(
                        exchange(self.conn(), named_request(Action::Read, "FirewallRule"@, "Name"@, n, None, empty_object()), reply),
                        "FirewallRule"@,
                        n,
                        object_reader("Name"@, "firewall rule name"@),
                    ));
                },
                Err(_) => {},
            }
        }
        out
    }

    /// Creates `object`.
    pub fn create_rule(&self, object: FirewallRuleCreate) -> (r: Result<ResourceResponse>)
        ensures
            exists|reply: Reply|
                write_view(r) == write_outcome(
                    exchange(
                        self.conn(),
                        named_request(Action::Create, "FirewallRule"@, "Name"@, object@.name, None, payload_with_key("Name"@, object@.name, object@.fields)),
                        reply,
                    ),
                    "FirewallRule"@,
                ),
    {
        let ghost ov = object@;
        let r = create_object(self.client, "FirewallRule", "Name", object.inner);
        let ghost reply = choose|reply: Reply|
            write_view(r) == write_outcome(
                exchange(
                    self.client.conn(),
                    named_request(Action::Create, "FirewallRule"@, "Name"@, ov.name, None, payload_with_key("Name"@, ov.name, ov.fields)),
                    reply,
                ),
                "FirewallRule"@,
            );
        assert(write_view(r) == write_outcome(
            exchange(
                self.conn(),
                named_request(Action::Create, "FirewallRule"@, "Name"@, ov.name, None, payload_with_key("Name"@, ov.name, ov.fields)),
                reply,
            ),
            "FirewallRule"@,
        ));
        r
    }

    /// Merges the fields of `object` into the existing firewall rule (see
    /// [`object_update_outcome`]).
    pub fn update_rule(&self, object: FirewallRuleUpdate) -> (r: Result<ResourceResponse>)
        ensures
            exists|first: Reply, second: Reply|
                write_view(r) == #[trigger] object_update_outcome(self.conn(), "FirewallRule"@, "Name"@, "firewall rule name"@, "firewall rule"@, object@, first, second),
    {
        let ghost ov = object@;
        let r = update_object(self.client, "FirewallRule", "Name", "firewall rule name", "firewall rule", object.inner);
        let ghost (first, second) = choose|first: Reply, second: Reply|
            write_view(r) == #[trigger] object_update_outcome(self.client.conn(), "FirewallRule"@, "Name"@, "firewall rule name"@, "firewall rule"@, ov, first, second);
        assert(write_view(r) == object_update_outcome(self.conn(), "FirewallRule"@, "Name"@, "firewall rule name"@, "firewall rule"@, ov, first, second));
        r
    }

    /// Deletes the firewall rule `name` (trimmed) after checking that it exists.
    pub fn delete_rule(&self, name: &str) -> (r: Result<ResourceResponse>)
        ensures
            match name_of("firewall rule name"@, name@) {
                Err(e) => r matches Err(x) && x@ == e,
                Ok(n) => exists|first: Reply, second: Reply|
                    write_view(r) == #[trigger] delete_outcome::<ApiObject>(
                        self.conn(),
                        "FirewallRule"@,
                        "Name"@,
                        "firewall rule"@,
                        n,
                        object_reader("Name"@, "firewall rule name"@),
                        first,
                        second,
                    ),
            },
    {
        let r = delete_object(self.client, "FirewallRule", "Name", "firewall rule name", "firewall rule", name);
        proof {
            match name_of("firewall rule name"@, name@) {
                Ok(n) => {
                    let (first, second) = choose|first: Reply, second: Reply|
                        write_view(r) == #[trigger] delete_outcome::<ApiObject>(
                            self.client.conn(), "FirewallRule"@, "Name"@, "firewall rule"@, n, object_reader("Name"@, "firewall rule name"@), first, second);
                    assert(write_view(r) == delete_outcome::<ApiObject>(
                        self.conn(), "FirewallRule"@, "Name"@, "firewall rule"@, n, object_reader("Name"@, "firewall rule name"@), first, second));
                },
                Err(_) => {},
            }
        }
        r
    }

    /// Every firewall rule group; zero records is an empty list.
    pub fn list_rule_groups(&self) -> (r: Result<Vec<FirewallRuleGroup>>)
        ensures
            exists|reply: Reply|
                list_view(r) == list_outcome(
                    exchange(self.conn(), read_request("FirewallRuleGroup"@), reply),
                    "FirewallRuleGroup"@,
                    object_reader("Name"@, "firewall rule group name"@),
                ),
    {
        let r = list_objects(self.client, "FirewallRuleGroup", "Name", "firewall rule group name");
        let ghost reply = choose|reply: Reply|
            list_view(r) == list_outcome(exchange(self.client.conn(), read_request("FirewallRuleGroup"@), reply), "FirewallRuleGroup"@, object_reader("Name"@, "firewall rule group name"@));
        match r {
            Ok(objects) => {
                let w = wrap_all::<FirewallRuleGroup>(objects);
                assert(list_view(Ok::<Vec<FirewallRuleGroup>, Error>(w)) == list_outcome(exchange(self.conn(), read_request("FirewallRuleGroup"@), reply), "FirewallRuleGroup"@, object_reader("Name"@, "firewall rule group name"@)));
                Ok(w)
            },
            Err(e) => Err(e),
        }
    }

    /// The firewall rule group named `name` (trimmed); zero records is none.
    pub fn get_rule_group(&self, name: &str) -> (r: Result<Option<FirewallRuleGroup>>)
        ensures
            match name_of("firewall rule group name"@, name@) {
                Err(e) => r matches Err(x) && x@ == e,
                Ok(n) => exists|reply: Reply|
                    opt_result_view(r) == get_outcome::<ApiObject>(
                        exchange(self.conn(), named_request(Action::Read, "FirewallRuleGroup"@, "Name"@, n, None, empty_object()), reply),
                        "FirewallRuleGroup"@,
                        n,
                        object_reader("Name"@, "firewall rule group name"@),
                    ),
            },
    {
        let r = get_object(self.client, "FirewallRuleGroup", "Name", "firewall rule group name", name);
        let ghost go = opt_result_view(r);
        let out = match r {
            Ok(Some(o)) => Ok(Some(FirewallRuleGroup::wrap(o))),
            Ok(None) => Ok(None),
            Err(e) => Err(e),
        };
        assert(opt_result_view(out) == go);
        proof {
            match name_of("firewall rule group name"@, name@) {
                Ok(n) => {
                    let reply = choose|reply: Reply|
                        go == get_outcome::<ApiObject>(
                            exchange(self.client.conn(), named_request(Action::Read, "FirewallRuleGroup"@, "Name"@, n, None, empty_object()), reply),
                            "FirewallRuleGroup"@,
                            n,
                            object_reader("Name"@, "firewall rule group name"@),
                        );
                    assert(opt_result_view(out) == get_outcome::<ApiObject>(
                        exchange(self.conn(), named_request(Action::Read, "FirewallRuleGroup"@, "Name"@, n, None, empty_object()), reply),
                        "FirewallRuleGroup"@,
                        n,
                        object_reader("Name"@, "firewall rule group name"@),
                    ));
                },
                Err(_) => {},
            }
        }
        out
    }

    /// Creates `object`.
    pub fn create_rule_group(&self, object: FirewallRuleGroupCreate) -> (r: Result<ResourceResponse>)
        ensures
            exists|reply: Reply|
                write_view(r) == write_outcome(
                    exchange(
                        self.conn(),
                        named_request(Action::Create, "FirewallRuleGroup"@, "Name"@, object@.name, None, payload_with_key("Name"@, object@.name, object@.fields)),
                        reply,
                    ),
                    "FirewallRuleGroup"@,
                ),
    {
        let ghost ov = object@;
        let r = create_object(self.client, "FirewallRuleGroup", "Name", object.inner);
        let ghost reply = choose|reply: Reply|
            write_view(r) == write_outcome(
                exchange(
                    self.client.conn(),
                    named_request(Action::Create, "FirewallRuleGroup"@, "Name"@, ov.name, None, payload_with_key("Name"@, ov.name, ov.fields)),
                    reply,
                ),
                "FirewallRuleGroup"@,
            );
        assert(write_view(r) == write_outcome(
            exchange(
                self.conn(),
                named_request(Action::Create, "FirewallRuleGroup"@, "Name"@, ov.name, None, payload_with_key("Name"@, ov.name, ov.fields)),
                reply,
            ),
            "FirewallRuleGroup"@,
        ));
        r
    }

    /// Merges the fields of `object` into the existing firewall rule group (see
    /// [`object_update_outcome`]).
    pub fn update_rule_group(&self, object: FirewallRuleGroupUpdate) -> (r: Result<ResourceResponse>)
        ensures
            exists|first: Reply, second: Reply|
                write_view(r) == #[trigger] object_update_outcome(self.conn(), "FirewallRuleGroup"@, "Name"@, "firewall rule group name"@, "firewall rule group"@, object@, first, second),
    {
        let ghost ov = object@;
        let r = update_object(self.client, "FirewallRuleGroup", "Name", "firewall rule group name", "firewall rule group", object.inner);
        let ghost (first, second) = choose|first: Reply, second: Reply|
            write_view(r) == #[trigger] object_update_outcome(self.client.conn(), "FirewallRuleGroup"@, "Name"@, "firewall rule group name"@, "firewall rule group"@, ov, first, second);
        assert(write_view(r) == object_update_outcome(self.conn(), "FirewallRuleGroup"@, "Name"@, "firewall rule group name"@, "firewall rule group"@, ov, first, second));
        r
    }

    /// Deletes the firewall rule group `name` (trimmed) after checking that it exists.
    pub fn delete_rule_group(&self, name: &str) -> (r: Result<ResourceResponse>)
        ensures
            match name_of("firewall rule group name"@, name@) {
                Err(e) => r matches Err(x) && x@ == e,
                Ok(n) => exists|first: Reply, second: Reply|
                    write_view(r) == #[trigger] delete_outcome::<ApiObject>(
                        self.conn(),
                        "FirewallRuleGroup"@,
                        "Name"@,
                        "firewall rule group"@,
                        n,
                        object_reader("Name"@, "firewall rule group name"@),
                        first,
                        second,
                    ),
            },
    {
        let r = delete_object(self.client, "FirewallRuleGroup", "Name", "firewall rule group name", "firewall rule group", name);
        proof {
            match name_of("firewall rule group name"@, name@) {
                Ok(n) => {
                    let (first, second) = choose|first: Reply, second: Reply|
                        write_view(r) == #[trigger] delete_outcome::<ApiObject>(
                            self.client.conn(), "FirewallRuleGroup"@, "Name"@, "firewall rule group"@, n, object_reader("Name"@, "firewall rule group name"@), first, second);
                    assert(write_view(r) == delete_outcome::<ApiObject>(
                        self.conn(), "FirewallRuleGroup"@, "Name"@, "firewall rule group"@, n, object_reader("Name"@, "firewall rule group name"@), first, second));
                },
                Err(_) => {},
            }
        }
        r
    }

    /// Every ACL rule; zero records is an empty list.
    pub fn list_acl_rules(&self) -> (r: Result<Vec<LocalServiceAcl>>)
        ensures
            exists|reply: Reply|
                list_view(r) == list_outcome(
                    exchange(self.conn(), read_request("LocalServiceACL"@), reply),
                    "LocalServiceACL"@,
                    object_reader("RuleName"@, "ACL rule name"@),
                ),
    {
        let r = list_objects(self.client, "LocalServiceACL", "RuleName", "ACL rule name");
        let ghost reply = choose|reply: Reply|
            list_view(r) == list_outcome(exchange(self.client.conn(), read_request("LocalServiceACL"@), reply), "LocalServiceACL"@, object_reader("RuleName"@, "ACL rule name"@));
        match r {
            Ok(objects) => {
                let w = wrap_all::<LocalServiceAcl>(objects);
                assert(list_view(Ok::<Vec<LocalServiceAcl>, Error>(w)) == list_outcome(exchange(self.conn(), read_request("LocalServiceACL"@), reply), "LocalServiceACL"@, object_reader("RuleName"@, "ACL rule name"@)));
                Ok(w)
            },
            Err(e) => Err(e),
        }
    }

    /// The ACL rule named `name` (trimmed); zero records is none.
    pub fn get_acl_rule(&self, name: &str) -> (r: Result<Option<LocalServiceAcl>>)
        ensures
            match name_of("ACL rule name"@, name@) {
                Err(e) => r matches Err(x) && x@ == e,
                Ok(n) => exists|reply: Reply|
                    opt_result_view(r) == get_outcome::<ApiObject>(
                        exchange(self.conn(), named_request(Action::Read, "LocalServiceACL"@, "RuleName"@, n, None, empty_object()), reply),
                        "LocalServiceACL"@,
                        n,
                        object_reader("RuleName"@, "ACL rule name"@),
                    ),
            },
    {
        let r = get_object(self.client, "LocalServiceACL", "RuleName", "ACL rule name", name);
        let ghost go = opt_result_view(r);
        let out = match r {
            Ok(Some(o)) => Ok(Some(LocalServiceAcl::wrap(o))),
            Ok(None) => Ok(None),
            Err(e) => Err(e),
        };
        assert(opt_result_view(out) == go);
        proof {
            match name_of("ACL rule name"@, name@) {
                Ok(n) => {
                    let reply = choose|reply: Reply|
                        go == get_outcome::<ApiObject>(
                            exchange(self.client.conn(), named_request(Action::Read, "LocalServiceACL"@, "RuleName"@, n, None, empty_object()), reply),
                            "LocalServiceACL"@,
                            n,
                            object_reader("RuleName"@, "ACL rule name"@),
                        );
                    assert(opt_result_view(out) == get_outcome::<ApiObject>(
                        exchange(self.conn(), named_request(Action::Read, "LocalServiceACL"@, "RuleName"@, n, None, empty_object()), reply),
                        "LocalServiceACL"@,
                        n,
                        object_reader("RuleName"@, "ACL rule name"@),
                    ));
                },
                Err(_) => {},
            }
        }
        out
    }

    /// Creates `object`.
    pub fn create_acl_rule(&self, object: LocalServiceAclCreate) -> (r: Result<ResourceResponse>)
        ensures
            exists|reply: Reply|
                write_view(r) == write_outcome(
                    exchange(
                        self.conn(),
                        named_request(Action::Create, "LocalServiceACL"@, "RuleName"@, object@.name, None, payload_with_key("RuleName"@, object@.name, object@.fields)),
                        reply,
                    ),
                    "LocalServiceACL"@,
                ),
    {
        let ghost ov = object@;
        let r = create_object(self.client, "LocalServiceACL", "RuleName", object.inner);
        let ghost reply = choose|reply: Reply|
            write_view(r) == write_outcome(
                exchange(
                    self.client.conn(),
                    named_request(Action::Create, "LocalServiceACL"@, "RuleName"@, ov.name, None, payload_with_key("RuleName"@, ov.name, ov.fields)),
                    reply,
                ),
                "LocalServiceACL"@,
            );
        assert(write_view(r) == write_outcome(
            exchange(
                self.conn(),
                named_request(Action::Create, "LocalServiceACL"@, "RuleName"@, ov.name, None, payload_with_key("RuleName"@, ov.name, ov.fields)),
                reply,
            ),
            "LocalServiceACL"@,
        ));
        r
    }

    /// Merges the fields of `object` into the existing ACL rule (see
    /// [`object_update_outcome`]).
    pub fn update_acl_rule(&self, object: LocalServiceAclUpdate) -> (r: Result<ResourceResponse>)
        ensures
            exists|first: Reply, second: Reply|
                write_view(r) == #[trigger] object_update_outcome(self.conn(), "LocalServiceACL"@, "RuleName"@, "ACL rule name"@, "ACL rule"@, object@, first, second),
    {
        let ghost ov = object@;
        let r = update_object(self.client, "LocalServiceACL", "RuleName", "ACL rule name", "ACL rule", object.inner);
        let ghost (first, second) = choose|first: Reply, second: Reply|
            write_view(r) == #[trigger] object_update_outcome(self.client.conn(), "LocalServiceACL"@, "RuleName"@, "ACL rule name"@, "ACL rule"@, ov, first, second);
        assert(write_view(r) == object_update_outcome(self.conn(), "LocalServiceACL"@, "RuleName"@, "ACL rule name"@, "ACL rule"@, ov, first, second));
        r
    }

    /// Deletes the ACL rule `name` (trimmed) after checking that it exists.
    pub fn delete_acl_rule(&self, name: &str) -> (r: Result<ResourceResponse>)
        ensures
            match name_of("ACL rule name"@, name@) {
                Err(e) => r matches Err(x) && x@ == e,
                Ok(n) => exists|first: Reply, second: Reply|
                    write_view(r) == #[trigger] delete_outcome::<ApiObject>(
                        self.conn(),
                        "LocalServiceACL"@,
                        "RuleName"@,
                        "ACL rule"@,
                        n,
                        object_reader("RuleName"@, "ACL rule name"@),
                        first,
                        second,
                    ),
            },
    {
        let r = delete_object(self.client, "LocalServiceACL", "RuleName", "ACL rule name", "ACL rule", name);
        proof {
            match name_of("ACL rule name"@, name@) {
                Ok(n) => {
                    let (first, second) = choose|first: Reply, second: Reply|
                        write_view(r) == #[trigger] delete_outcome::<ApiObject>(
                            self.client.conn(), "LocalServiceACL"@, "RuleName"@, "ACL rule"@, n, object_reader("RuleName"@, "ACL rule name"@), first, second);
                    assert(write_view(r) == delete_outcome::<ApiObject>(
                        self.conn(), "LocalServiceACL"@, "RuleName"@, "ACL rule"@, n, object_reader("RuleName"@, "ACL rule name"@), first, second));
                },
                Err(_) => {},
            }
        }
        r
    }
}

} // verus!
