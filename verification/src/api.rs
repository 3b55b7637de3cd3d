//! The request patterns the resource APIs share: list, get one by name, and write one.

use vstd::prelude::*;
use crate::client::{Link, exchange, outcome_of, Outcome, Reply, SophosClient};
use crate::common::{
    first_named_resource, items_from_response, items_in_resources, named_resource_of, read_view,
    seq_views,
};
use crate::error::{Error, ErrorView, Result};
use crate::json::{FieldMap, Json, Value};
use crate::request::{Action, RequestView, SophosRequest};
use crate::response::{ResourceResponse, ResourceView};
use crate::text::{push_str, str_eq, string_of};
use crate::transport::SophosTransport;
use crate::tree::{NodeView, XmlNode};

verus! {

/// A value that carries the name it is looked up by.
pub trait Named: View + Sized {
    /// The name of a value.
    spec fn key_of(v: Self::V) -> Seq<char>;

    /// The name.
    fn key(&self) -> (k: &str)
        ensures
            k@ == Self::key_of(self@);
}

/// A read of every object of `resource`.
pub open spec fn read_request(resource: Seq<char>) -> RequestView {
    RequestView {
        action: Action::Read,
        resource,
        object_name: None,
        object_key: None,
        set_operation: None,
        payload: Json::Object(Seq::empty()),
    }
}

/// A request for `action` on the object of `resource` whose field `key` is `name`.
pub open spec fn named_request(
    action: Action,
    resource: Seq<char>,
    key: Seq<char>,
    name: Seq<char>,
    operation: Option<Seq<char>>,
    payload: Json,
) -> RequestView {
    RequestView {
        action,
        resource,
        object_name: Some(name),
        object_key: Some(key),
        set_operation: operation,
        payload,
    }
}

/// The objects a list read gives: those read from the replies, or none when the firewall
/// reports zero records for the resource.
pub open spec fn list_outcome<V>(
    o: Outcome,
    resource: Seq<char>,
    read: spec_fn(NodeView) -> core::result::Result<Option<V>, ErrorView>,
) -> core::result::Result<Seq<V>, ErrorView> {
    match o {
        Ok(rs) => items_in_resources(rs, resource, read),
        Err(e) => if e == ErrorView::ZeroRecords(resource) {
            Ok(Seq::empty())
        } else {
            Err(e)
        },
    }
}

/// The first of `items` whose name is `name`.
pub open spec fn first_named<T: Named>(items: Seq<T::V>, name: Seq<char>) -> Option<T::V>
    decreases items.len(),
{
    if items.len() == 0 {
        None
    } else if T::key_of(items[0]) == name {
        Some(items[0])
    } else {
        first_named::<T>(items.drop_first(), name)
    }
}

/// The object a filtered read gives: the first one read with the name asked for, or none
/// when the firewall reports zero records.
pub open spec fn get_outcome<T: Named>(
    o: Outcome,
    resource: Seq<char>,
    name: Seq<char>,
    read: spec_fn(NodeView) -> core::result::Result<Option<T::V>, ErrorView>,
) -> core::result::Result<Option<T::V>, ErrorView> {
    match list_outcome(o, resource, read) {
        Ok(items) => Ok(first_named::<T>(items, name)),
        Err(e) => Err(e),
    }
}

/// The reply to a write: the first resource reply for `resource`.
pub open spec fn write_outcome(o: Outcome, resource: Seq<char>) -> core::result::Result<ResourceView, ErrorView> {
    match o {
        Ok(rs) => named_resource_of(rs, resource),
        Err(e) => Err(e),
    }
}

/// The view of a list result.
pub open spec fn list_view<T: View>(r: Result<Vec<T>>) -> core::result::Result<Seq<T::V>, ErrorView> {
    match r {
        Ok(v) => Ok(seq_views(v@)),
        Err(e) => Err(e@),
    }
}

/// The view of an optional result.
pub open spec fn opt_result_view<T: View>(r: Result<Option<T>>) -> core::result::Result<Option<T::V>, ErrorView> {
    read_view(r)
}

/// The view of a write result.
pub open spec fn write_view(r: Result<ResourceResponse>) -> core::result::Result<ResourceView, ErrorView> {
    match r {
        Ok(x) => Ok(x@),
        Err(e) => Err(e@),
    }
}

/// The first of `items` named `name`.
pub fn find_named<T: Named>(items: Vec<T>, name: &str) -> (r: Option<T>)
    ensures
        match first_named::<T>(seq_views(items@), name@) {
            Some(x) => r matches Some(y) && y@ == x,
            None => r is None,
        },
{
    let ghost vs = seq_views(items@);
    let n = items.len();
    let mut rest = items;
    let mut i: usize = 0;
    assert(vs.skip(0) =~= vs);
    assert(seq_views(rest@) =~= vs.skip(0));
    while rest.len() > 0
        invariant
            i + rest@.len() == n,
            vs.len() == n,
            vs == seq_views(items@),
            seq_views(rest@) == vs.skip(i as int),
            first_named::<T>(vs, name@) == first_named::<T>(vs.skip(i as int), name@),
        decreases rest@.len(),
    {
        let ghost old_rest = rest@;
        let x = rest.remove(0);
        assert(seq_views(rest@) =~= seq_views(old_rest).drop_first());
        assert(vs.skip(i as int)[0] == x@);
        assert(vs.skip(i as int).drop_first() =~= vs.skip(i + 1));
        if str_eq(x.key(), name) {
            return Some(x);
        }
        i = i + 1;
    }
    None
}

/// Reads every object of `resource` and turns each into a value with `read`.
pub fn list_items<Tr: SophosTransport, T: View, F: Fn(&XmlNode) -> Result<Option<T>>>(
    client: &SophosClient<Tr>,
    resource: &str,
    read: F,
    Ghost(spec_read): Ghost<spec_fn(NodeView) -> core::result::Result<Option<T::V>, ErrorView>>,
) -> (r: Result<Vec<T>>)
    requires
        forall|n: &XmlNode| #[trigger] read.requires((n,)),
        forall|n: &XmlNode, x: Result<Option<T>>| read.ensures((n,), x) ==> read_view(x) == spec_read(n@),
    ensures
        exists|reply: Reply|
            list_view(r) == list_outcome(exchange(client.conn(), read_request(resource@), reply), resource@, spec_read),
{
    let request = SophosRequest::read(resource);
    let resp = client.execute(&request);
    let ghost reply = choose|reply: Reply| outcome_of(resp) == exchange(client.conn(), request@, reply);
    assert(request@ == read_request(resource@));
    match resp {
        Ok(resp) => items_from_response(&resp.resources, resource, read, Ghost(spec_read)),
        Err(e) => {
            match &e {
                Error::ZeroRecords { resource: r } => {
                    if str_eq(r.as_str(), resource) {
                        let empty: Vec<T> = Vec::new();
                        assert(seq_views(empty@) =~= Seq::<T::V>::empty());
                        return Ok(empty);
                    }
                },
                _ => {},
            }
            Err(e)
        },
    }
}

/// Reads the object of `resource` whose field `key` is `name` and turns it into a value
/// with `read`; the first value read with that name is the answer.
pub fn get_item<Tr: SophosTransport, T: Named, F: Fn(&XmlNode) -> Result<Option<T>>>(
    client: &SophosClient<Tr>,
    resource: &str,
    key: &str,
    name: &str,
    read: F,
    Ghost(spec_read): Ghost<spec_fn(NodeView) -> core::result::Result<Option<T::V>, ErrorView>>,
) -> (r: Result<Option<T>>)
    requires
        forall|n: &XmlNode| #[trigger] read.requires((n,)),
        forall|n: &XmlNode, x: Result<Option<T>>| read.ensures((n,), x) ==> read_view(x) == spec_read(n@),
    ensures
        exists|reply: Reply|
            opt_result_view(r) == get_outcome::<T>(
                exchange(
                    client.conn(),
                    named_request(Action::Read, resource@, key@, name@, None, Json::Object(Seq::empty())),
                    reply,
                ),
                resource@,
                name@,
                spec_read,
            ),
{
    let request = SophosRequest::read(resource).for_object(name).with_object_key(key);
    let resp = client.execute(&request);
    let ghost reply = choose|reply: Reply| outcome_of(resp) == exchange(client.conn(), request@, reply);
    assert(request@ == named_request(Action::Read, resource@, key@, name@, None, Json::Object(Seq::empty())));
    match resp {
        Ok(resp) => match items_from_response(&resp.resources, resource, read, Ghost(spec_read)) {
            Ok(items) => Ok(find_named(items, name)),
            Err(e) => Err(e),
        },
        Err(e) => {
            match &e {
                Error::ZeroRecords { resource: r } => {
                    if str_eq(r.as_str(), resource) {
                        return Ok(None);
                    }
                },
                _ => {},
            }
            Err(e)
        },
    }
}

/// Sends `action` on the object of `resource` whose field `key` is `name`, with
/// `operation` and `payload`, and returns the reply for `resource`.
pub fn write_item<Tr: SophosTransport>(
    client: &SophosClient<Tr>,
    action: Action,
    resource: &str,
    key: &str,
    name: &str,
    operation: Option<&str>,
    payload: Value,
) -> (r: Result<ResourceResponse>)
    ensures
        exists|reply: Reply|
            write_view(r) == write_outcome(
                exchange(
                    client.conn(),
                    named_request(action, resource@, key@, name@, crate::xml::opt_str_view(operation), payload@),
                    reply,
                ),
                resource@,
            ),
{
    let base = SophosRequest::new(action, resource).for_object(name).with_object_key(key);
    let with_op = match operation {
        Some(op) => base.with_set_operation(op),
        None => base,
    };
    let request = with_op.with_payload(payload);
    let resp = client.execute(&request);
    let ghost reply = choose|reply: Reply| outcome_of(resp) == exchange(client.conn(), request@, reply);
    assert(request@ == named_request(action, resource@, key@, name@, crate::xml::opt_str_view(operation), payload@));
    match resp {
        Ok(resp) => first_named_resource(resp.resources, resource),
        Err(e) => Err(e),
    }
}

/// `"{label} '{name}' does not exist"`.
pub open spec fn missing_error(label: Seq<char>, name: Seq<char>) -> ErrorView {
    ErrorView::InvalidRequest(label + " '"@ + name + "' does not exist"@)
}

/// The error for a `label` object named `name` that does not exist.
pub fn missing_error_exec(label: &str, name: &str) -> (e: Error)
    ensures
        e@ == missing_error(label@, name@),
{
    let mut m: Vec<char> = Vec::new();
    push_str(&mut m, label);
    push_str(&mut m, " '");
    push_str(&mut m, name);
    push_str(&mut m, "' does not exist");
    Error::InvalidRequest(string_of(m.as_slice()))
}

/// An empty object payload.
pub open spec fn empty_object() -> Json {
    Json::Object(Seq::empty())
}

/// The reply to deleting an object after checking that it exists: the lookup's error,
/// the error for a missing object (then nothing is deleted), or the delete's reply.
pub open spec fn delete_outcome<T: Named>(
    conn: Link,
    resource: Seq<char>,
    key: Seq<char>,
    label: Seq<char>,
    name: Seq<char>,
    read: spec_fn(NodeView) -> core::result::Result<Option<T::V>, ErrorView>,
    first: Reply,
    second: Reply,
) -> core::result::Result<ResourceView, ErrorView> {
    match get_outcome::<T>(exchange(conn, named_request(Action::Read, resource, key, name, None, empty_object()), first), resource, name, read) {
        Err(e) => Err(e),
        Ok(None) => Err(missing_error(label, name)),
        Ok(Some(_)) => write_outcome(
            exchange(conn, named_request(Action::Delete, resource, key, name, None, empty_object()), second),
            resource,
        ),
    }
}

/// Deletes the object of `resource` whose field `key` is `name`, after checking that it
/// exists; a missing object is an error and nothing is deleted.
pub fn delete_item<Tr: SophosTransport, T: Named, F: Fn(&XmlNode) -> Result<Option<T>>>(
    client: &SophosClient<Tr>,
    resource: &str,
    key: &str,
    label: &str,
    name: &str,
    read: F,
    Ghost(spec_read): Ghost<spec_fn(NodeView) -> core::result::Result<Option<T::V>, ErrorView>>,
) -> (r: Result<ResourceResponse>)
    requires
        forall|n: &XmlNode| #[trigger] read.requires((n,)),
        forall|n: &XmlNode, x: Result<Option<T>>| read.ensures((n,), x) ==> read_view(x) == spec_read(n@),
    ensures
        exists|first: Reply, second: Reply|
            write_view(r) == #[trigger] delete_outcome::<T>(
                client.conn(),
                resource@,
                key@,
                label@,
                name@,
                spec_read,
                first,
                second,
            ),
{
    let existing = get_item(client, resource, key, name, read, Ghost(spec_read));
    let ghost first = choose|reply: Reply|
        opt_result_view(existing) == get_outcome::<T>(
            exchange(client.conn(), named_request(Action::Read, resource@, key@, name@, None, Json::Object(Seq::empty())), reply),
            resource@,
            name@,
            spec_read,
        );
    match existing {
        Err(e) => {
            assert(write_view(Err(e)) == delete_outcome::<T>(client.conn(), resource@, key@, label@, name@, spec_read, first, first));
            Err(e)
        },
        Ok(None) => {
            let e = missing_error_exec(label, name);
            assert(write_view(Err(e)) == delete_outcome::<T>(client.conn(), resource@, key@, label@, name@, spec_read, first, first));
            Err(e)
        },
        Ok(Some(_)) => {
            let r = write_item(client, Action::Delete, resource, key, name, None, Value::Object(FieldMap::new()));
            let ghost second = choose|reply: Reply|
                write_view(r) == write_outcome(
                    exchange(client.conn(), named_request(Action::Delete, resource@, key@, name@, None, empty_object()), reply),
                    resource@,
                );
            assert(write_view(r) == delete_outcome::<T>(client.conn(), resource@, key@, label@, name@, spec_read, first, second));
            r
        },
    }
}

/// A delete of an object the lookup does not find is refused with the missing-object
/// error, whatever would have answered the delete.
pub proof fn lemma_delete_of_missing_refused<T: Named>(
    conn: Link,
    resource: Seq<char>,
    key: Seq<char>,
    label: Seq<char>,
    name: Seq<char>,
    read: spec_fn(NodeView) -> core::result::Result<Option<T::V>, ErrorView>,
    first: Reply,
    second: Reply,
)
    requires
        get_outcome::<T>(
            exchange(conn, named_request(Action::Read, resource, key, name, None, empty_object()), first),
            resource,
            name,
            read,
        ) == Ok::<Option<T::V>, ErrorView>(None),
    ensures
        delete_outcome::<T>(conn, resource, key, label, name, read, first, second)
            == Err::<ResourceView, ErrorView>(missing_error(label, name)),
{
}

} // verus!
