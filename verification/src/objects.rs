//! Objects known only by a name and a map of fields: reading them, building their payloads
//! and merging updates into them.

use vstd::prelude::*;
use crate::api::{
    delete_item, delete_outcome, empty_object, get_item, get_outcome, list_items, list_outcome,
    list_view, missing_error, missing_error_exec, named_request, opt_result_view, read_request,
    write_item, write_outcome, write_view, Named,
};
use crate::client::{Link, exchange, outcome_of, Outcome, Reply, SophosClient};
use crate::common::{first_named_resource, name_of, normalize_name, read_view, seq_views};
use crate::error::{Error, ErrorView, Result};
use crate::json::{
    jget, jinsert, jremove, lemma_jget_none, lemma_jinsert_other, lemma_jinsert_same,
    lemma_jremove_other, lemma_sorted_unique, unique_keys, FieldMap, Json, Value,
};
use crate::request::{Action, RequestView, SophosConnection, SophosRequest};
use crate::response::{ResourceResponse, ResourceView};
use crate::text::{chars_of, string_of, tag_error, trim, trim_chars, valid_tag, validate_tag};
use crate::transport::SophosTransport;
use crate::tree::{child_text_of, fields_from_node, node_fields, NodeView, XmlNode};

verus! {

/// An object as the firewall reports it: its name and all its fields.
#[derive(Debug, PartialEq, Eq)]
pub struct ApiObject {
    name: String,
    fields: FieldMap,
}

/// An object's name and fields.
pub struct ObjectView {
    pub name: Seq<char>,
    pub fields: Seq<(Seq<char>, Json)>,
}

impl View for ApiObject {
    type V = ObjectView;

    closed spec fn view(&self) -> ObjectView {
        ObjectView { name: self.name@, fields: self.fields@ }
    }
}

impl Named for ApiObject {
    open spec fn key_of(v: ObjectView) -> Seq<char> {
        v.name
    }

    fn key(&self) -> (k: &str) {
        self.name.as_str()
    }
}

/// The value reached from `cur` by following the field names `parts`: a name is looked up
/// in an object, or in the first item of an array when that item is an object.
pub open spec fn walk(cur: Json, parts: Seq<Seq<char>>) -> Option<Json>
    decreases parts.len(),
{
    if parts.len() == 0 {
        Some(cur)
    } else {
        match step_into(cur, parts[0]) {
            Some(n) => walk(n, parts.drop_first()),
            None => None,
        }
    }
}

/// The value under `name` in `cur`: in an object, or in the first item of an array when
/// that item is an object.
pub open spec fn step_into(cur: Json, name: Seq<char>) -> Option<Json> {
    match cur {
        Json::Object(m) => jget(m, name),
        Json::Array(vs) => if vs.len() > 0 && vs[0] is Object {
            jget(vs[0]->Object_0, name)
        } else {
            None
        },
        _ => None,
    }
}

/// The text at the dotted `path` in `fields`, when the path leads to a string.
pub open spec fn field_at(fields: Seq<(Seq<char>, Json)>, path: Seq<char>) -> Option<Seq<char>> {
    match walk(Json::Object(fields), crate::ip::split_on(path, '.')) {
        Some(Json::Str(s)) => Some(s),
        _ => None,
    }
}

impl ApiObject {
    /// An object named `name` with `fields`.
    pub fn new(name: String, fields: FieldMap) -> (o: ApiObject)
        ensures
            o@ == (ObjectView { name: name@, fields: fields@ }),
    {
        ApiObject { name, fields }
    }

    /// The name.
    pub fn name(&self) -> (r: &str)
        ensures
            r@ == self@.name,
    {
        self.name.as_str()
    }

    /// The fields.
    pub fn fields(&self) -> (r: &FieldMap)
        ensures
            r@ == self@.fields,
    {
        &self.fields
    }

    /// The text at the dotted `path`, such as `Status` or `Action.Name` (see
    /// [`field_at`]).
    pub fn field(&self, path: &str) -> (r: Option<&str>)
        ensures
            crate::xml::opt_str_view(r) == field_at(self@.fields, path@),
    {
        let pc = chars_of(path);
        let parts = crate::ip::split_chars_pub(pc.as_slice(), '.');
        let ghost ps = crate::ip::split_on(path@, '.');
        proof { crate::ip::lemma_split_nonempty(path@, '.'); }
        assert(parts@.len() == ps.len());
        let first = string_of(parts[0].as_slice());
        assert(first@ == ps[0]);
        let mut cur: &Value = match self.fields.get(first.as_str()) {
            Some(v) => v,
            None => return None,
        };
        assert(step_into(Json::Object(self@.fields), ps[0]) == Some(cur@));
        let mut i: usize = 1;
        assert(ps.skip(1) =~= ps.drop_first());
        while i < parts.len()
            invariant
                1 <= i <= parts@.len(),
                parts@.map_values(|p: Vec<char>| p@) == ps,
                field_at(self@.fields, path@) == match walk(cur@, ps.skip(i as int)) {
                    Some(Json::Str(s)) => Some(s),
                    _ => None::<Seq<char>>,
                },
            decreases parts@.len() - i,
        {
            let part = string_of(parts[i].as_slice());
            assert(part@ == ps.skip(i as int)[0]);
            assert(ps.skip(i as int).drop_first() =~= ps.skip(i + 1));
            let next: Option<&Value> = match cur {
                Value::Object(m) => m.get(part.as_str()),
                Value::Array(vs) => {
                    if vs.len() > 0 {
                        assert(cur@->Array_0[0] == vs@[0]@);
                        match &vs[0] {
                            Value::Object(m) => m.get(part.as_str()),
                            _ => None,
                        }
                    } else {
                        None
                    }
                },
                _ => None,
            };
            assert(match next {
                Some(n) => step_into(cur@, part@) == Some(n@),
                None => step_into(cur@, part@) is None,
            });
            match next {
                Some(n) => cur = n,
                None => return None,
            }
            i = i + 1;
        }
        assert(ps.skip(i as int) =~= Seq::<Seq<char>>::empty());
        match cur {
            Value::String(s) => Some(s.as_str()),
            _ => None,
        }
    }
}

/// The object an element describes: none without a `key` child; its name checked as a
/// `label`, its fields all its children (see [`node_fields`]).
pub open spec fn object_of_node(n: NodeView, key: Seq<char>, label: Seq<char>) -> core::result::Result<Option<ObjectView>, ErrorView> {
    match child_text_of(n, key) {
        None => Ok(None),
        Some(nm) => match name_of(label, nm) {
            Err(e) => Err(e),
            Ok(x) => Ok(Some(ObjectView { name: x, fields: node_fields(n, n.children.len()) })),
        },
    }
}

/// The object an element describes (see [`object_of_node`]).
pub fn object_from_node(node: &XmlNode, key: &str, label: &str) -> (r: Result<Option<ApiObject>>)
    ensures
        read_view(r) == object_of_node(node@, key@, label@),
{
    let nm = match node.child_text(key) {
        Some(n) => n,
        None => return Ok(None),
    };
    let name = match normalize_name(label, nm.as_str()) {
        Ok(n) => n,
        Err(e) => return Err(e),
    };
    Ok(Some(ApiObject { name, fields: fields_from_node(node) }))
}

/// [`object_of_node`] for `key` and `label` as a value.
pub open spec fn object_reader(key: Seq<char>, label: Seq<char>) -> spec_fn(NodeView) -> core::result::Result<Option<ObjectView>, ErrorView> {
    |n: NodeView| object_of_node(n, key, label)
}

/// The first member key, in document order, that is no valid tag, in `v` or anything it
/// holds, as its message.
pub open spec fn value_tags_error(v: Json) -> Option<Seq<char>>
    decreases v,
{
    match v {
        Json::Object(es) => members_tags_error(es),
        Json::Array(vs) => items_tags_error(vs),
        _ => None,
    }
}

/// The first invalid key among the members `es` and their values.
pub open spec fn members_tags_error(es: Seq<(Seq<char>, Json)>) -> Option<Seq<char>>
    decreases es,
{
    if es.len() == 0 {
        None
    } else {
        match members_tags_error(es.drop_last()) {
            Some(e) => Some(e),
            None => if !valid_tag(es.last().0) {
                Some(tag_error(es.last().0))
            } else {
                value_tags_error(es.last().1)
            },
        }
    }
}

/// The first invalid key among the items `vs`.
pub open spec fn items_tags_error(vs: Seq<Json>) -> Option<Seq<char>>
    decreases vs,
{
    if vs.len() == 0 {
        None
    } else {
        match items_tags_error(vs.drop_last()) {
            Some(e) => Some(e),
            None => value_tags_error(vs.last()),
        }
    }
}

/// Once a prefix of `es` holds an invalid key, so does `es`, the same one.
proof fn lemma_members_tags_prefix(es: Seq<(Seq<char>, Json)>, n: int)
    requires
        0 <= n <= es.len(),
        members_tags_error(es.take(n)) is Some,
    ensures
        members_tags_error(es) == members_tags_error(es.take(n)),
    decreases es.len() - n,
{
    if n < es.len() {
        assert(es.take(n + 1).drop_last() =~= es.take(n));
        lemma_members_tags_prefix(es, n + 1);
    } else {
        assert(es.take(n) =~= es);
    }
}

/// Once a prefix of `vs` holds an invalid key, so does `vs`, the same one.
proof fn lemma_items_tags_prefix(vs: Seq<Json>, n: int)
    requires
        0 <= n <= vs.len(),
        items_tags_error(vs.take(n)) is Some,
    ensures
        items_tags_error(vs) == items_tags_error(vs.take(n)),
    decreases vs.len() - n,
{
    if n < vs.len() {
        assert(vs.take(n + 1).drop_last() =~= vs.take(n));
        lemma_items_tags_prefix(vs, n + 1);
    } else {
        assert(vs.take(n) =~= vs);
    }
}

/// Checks every member key in `v` (see [`value_tags_error`]).
pub fn validate_value_tags(v: &Value) -> (r: Result<()>)
    ensures
        match value_tags_error(v@) {
            Some(m) => r matches Err(e) && e@ == ErrorView::InvalidRequest(m),
            None => r is Ok,
        },
    decreases v,
{
    match v {
        Value::Object(m) => {
            proof { assert(decreases_to!(*v => v->Object_0)); }
            validate_member_tags(m)
        },
        Value::Array(vs) => {
            let ghost model = v@->Array_0;
            let mut i: usize = 0;
            assert(model.take(0) =~= Seq::<Json>::empty());
            while i < vs.len()
                invariant
                    *v is Array,
                    v->Array_0 == *vs,
                    model == v@->Array_0,
                    model.len() == vs@.len(),
                    i <= vs@.len(),
                    items_tags_error(model.take(i as int)) is None,
                decreases vs@.len() - i,
            {
                proof {
                    vstd::std_specs::vec::axiom_vec_index_decreases(*vs, i as int);
                    assert(decreases_to!(*v => v->Array_0));
                }
                assert(model.take(i + 1).drop_last() =~= model.take(i as int));
                assert(model.take(i + 1).last() == vs@[i as int]@);
                match validate_value_tags(&vs[i]) {
                    Ok(()) => {},
                    Err(e) => {
                        proof { lemma_items_tags_prefix(model, (i + 1) as int); }
                        return Err(e);
                    },
                }
                i = i + 1;
            }
            assert(model.take(i as int) =~= model);
            Ok(())
        },
        _ => Ok(()),
    }
}

/// Checks every member key in `m` and its values (see [`members_tags_error`]).
fn validate_member_tags(m: &FieldMap) -> (r: Result<()>)
    ensures
        match members_tags_error(m@) {
            Some(msg) => r matches Err(e) && e@ == ErrorView::InvalidRequest(msg),
            None => r is Ok,
        },
    decreases m,
{
    let ghost es = m@;
    let mut i: usize = 0;
    assert(es.take(0) =~= Seq::<(Seq<char>, Json)>::empty());
    while i < m.len()
        invariant
            es == m@,
            i <= es.len(),
            members_tags_error(es.take(i as int)) is None,
        decreases es.len() - i,
    {
        let key = m.key_at(i);
        let val = m.value_at(i);
        assert(es.take(i + 1).drop_last() =~= es.take(i as int));
        assert(es.take(i + 1).last() == es[i as int]);
        proof { m.lemma_member_decreases(i as int); }
        match validate_tag(key.as_str()) {
            Ok(()) => {},
            Err(msg) => {
                proof { lemma_members_tags_prefix(es, (i + 1) as int); }
                return Err(Error::InvalidRequest(msg));
            },
        }
        match validate_value_tags(val) {
            Ok(()) => {},
            Err(e) => {
                proof { lemma_members_tags_prefix(es, (i + 1) as int); }
                return Err(e);
            },
        }
        i = i + 1;
    }
    assert(es.take(i as int) =~= es);
    Ok(())
}

/// The trimmed `field` when it is a valid tag, else its error.
pub open spec fn field_name_of(field: Seq<char>) -> core::result::Result<Seq<char>, ErrorView> {
    if valid_tag(trim(field)) {
        Ok(trim(field))
    } else {
        Err(ErrorView::InvalidRequest(tag_error(trim(field))))
    }
}

/// The name and fields of an object to write.
#[derive(Debug, PartialEq, Eq)]
pub struct ObjectFields {
    name: String,
    fields: FieldMap,
}

impl View for ObjectFields {
    type V = ObjectView;

    closed spec fn view(&self) -> ObjectView {
        ObjectView { name: self.name@, fields: self.fields@ }
    }
}

/// `o` with `value` set under the field `field` (trimmed), or why that is refused: an
/// invalid field name, or an invalid member key inside `value`.
pub open spec fn with_field_of(o: ObjectView, field: Seq<char>, value: Json) -> core::result::Result<ObjectView, ErrorView> {
    match field_name_of(field) {
        Err(e) => Err(e),
        Ok(f) => match value_tags_error(value) {
            Some(m) => Err(ErrorView::InvalidRequest(m)),
            None => Ok(ObjectView { name: o.name, fields: jinsert(o.fields, f, value) }),
        },
    }
}

impl ObjectFields {
    /// An object named `name` (trimmed; `label` names it in the error) with no fields.
    pub fn new(label: &str, name: &str) -> (r: Result<ObjectFields>)
        ensures
            match name_of(label@, name@) {
                Ok(n) => r matches Ok(o) && o@ == (ObjectView { name: n, fields: Seq::empty() }),
                Err(e) => r matches Err(x) && x@ == e,
            },
    {
        match normalize_name(label, name) {
            Ok(n) => Ok(ObjectFields { name: n, fields: FieldMap::new() }),
            Err(e) => Err(e),
        }
    }

    /// The name.
    pub fn name(&self) -> (r: &str)
        ensures
            r@ == self@.name,
    {
        self.name.as_str()
    }

    /// The fields.
    pub fn fields(&self) -> (r: &FieldMap)
        ensures
            r@ == self@.fields,
    {
        &self.fields
    }

    /// The name and the fields.
    pub fn into_parts(self) -> (r: (String, FieldMap))
        ensures
            r.0@ == self@.name,
            r.1@ == self@.fields,
    {
        (self.name, self.fields)
    }

    /// The object with `value` under `field` (see [`with_field_of`]).
    pub fn with_field(self, field: &str, value: Value) -> (r: Result<ObjectFields>)
        ensures
            match with_field_of(self@, field@, value@) {
                Ok(o) => r matches Ok(x) && x@ == o,
                Err(e) => r matches Err(x) && x@ == e,
            },
    {
        match validated_field(field, &value) {
            Ok(f) => Ok(self.with_member(f, value)),
            Err(e) => Err(e),
        }
    }

    /// An object named `name`, taken as it is, with no fields.
    pub(crate) fn named(name: String) -> (r: ObjectFields)
        ensures
            r@ == (ObjectView { name: name@, fields: Seq::empty() }),
    {
        ObjectFields { name, fields: FieldMap::new() }
    }

    /// The object with `value` under `field`, taken as it is.
    pub(crate) fn with_member(self, field: String, value: Value) -> (r: ObjectFields)
        ensures
            r@ == (ObjectView { name: self@.name, fields: jinsert(self@.fields, field@, value@) }),
    {
        let mut r = self;
        r.fields.insert(field, value);
        r
    }
}

/// The field name [`with_field_of`] stores `value` under: `field` trimmed, or the first
/// refusal.
pub open spec fn checked_field(field: Seq<char>, value: Json) -> core::result::Result<Seq<char>, ErrorView> {
    match field_name_of(field) {
        Err(e) => Err(e),
        Ok(f) => match value_tags_error(value) {
            Some(m) => Err(ErrorView::InvalidRequest(m)),
            None => Ok(f),
        },
    }
}

/// Checks a field name and the member keys of its value (see [`checked_field`]).
pub fn validated_field(field: &str, value: &Value) -> (r: Result<String>)
    ensures
        match checked_field(field@, value@) {
            Ok(f) => r matches Ok(x) && x@ == f,
            Err(e) => r matches Err(x) && x@ == e,
        },
{
    let f = string_of(trim_chars(chars_of(field).as_slice()).as_slice());
    match validate_tag(f.as_str()) {
        Ok(()) => {},
        Err(m) => return Err(Error::InvalidRequest(m)),
    }
    match validate_value_tags(value) {
        Ok(()) => {},
        Err(e) => return Err(e),
    }
    Ok(f)
}

/// The payload of an object: its fields with `key` set to its name.
pub open spec fn payload_with_key(key: Seq<char>, name: Seq<char>, fields: Seq<(Seq<char>, Json)>) -> Json {
    Json::Object(jinsert(fields, key, Json::Str(name)))
}

/// The payload of an object (see [`payload_with_key`]).
pub fn object_payload(key: &str, name: &str, fields: &FieldMap) -> (v: Value)
    ensures
        v@ == payload_with_key(key@, name@, fields@),
{
    let mut m = fields.copy();
    m.insert(key.to_owned(), Value::String(name.to_owned()));
    Value::Object(m)
}

/// `base` with `updates` merged in, member by member in key order: where both hold an
/// object under a key, the objects are merged; otherwise the update's value replaces the
/// base's.
pub open spec fn merged(base: Seq<(Seq<char>, Json)>, updates: Seq<(Seq<char>, Json)>) -> Seq<(Seq<char>, Json)>
    decreases updates,
{
    if updates.len() == 0 {
        base
    } else {
        let front = merged(base, updates.drop_last());
        let k = updates.last().0;
        let v = updates.last().1;
        match (jget(front, k), v) {
            (Some(Json::Object(b)), Json::Object(u)) => jinsert(jremove(front, k), k, Json::Object(merged(b, u))),
            _ => jinsert(front, k, v),
        }
    }
}

/// Merges `updates` into `base` (see [`merged`]): a field the updates do not mention
/// keeps its value; a field they mention holds their value, or, where both hold an object,
/// the two objects merged.
pub fn merge_fields(base: &mut FieldMap, updates: &FieldMap)
    ensures
        final(base)@ == merged(old(base)@, updates@),
        forall|k: Seq<char>| jget(updates@, k) is None ==> #[trigger] jget(final(base)@, k) == jget(old(base)@, k),
        forall|i: int| 0 <= i < updates@.len() ==> #[trigger] jget(final(base)@, updates@[i].0) == Some(
            match (jget(old(base)@, updates@[i].0), updates@[i].1) {
                (Some(Json::Object(b)), Json::Object(u)) => Json::Object(merged(b, u)),
                (_, v) => v,
            },
        ),
    decreases updates,
{
    proof {
        use_type_invariant(updates);
        lemma_sorted_unique(updates@);
        assert forall|k: Seq<char>| jget(updates@, k) is None implies #[trigger] jget(merged(old(base)@, updates@), k)
            == jget(old(base)@, k) by {
            lemma_merge_keeps_unmentioned(old(base)@, updates@, k);
        }
        assert forall|i: int| 0 <= i < updates@.len() implies #[trigger] jget(merged(old(base)@, updates@), updates@[i].0)
            == Some(
            match (jget(old(base)@, updates@[i].0), updates@[i].1) {
                (Some(Json::Object(b)), Json::Object(u)) => Json::Object(merged(b, u)),
                (_, v) => v,
            },
        ) by {
            lemma_merge_sets_mentioned(old(base)@, updates@, i);
        }
    }
    let ghost b0 = base@;
    let ghost us = updates@;
    let mut i: usize = 0;
    assert(us.take(0) =~= Seq::<(Seq<char>, Json)>::empty());
    while i < updates.len()
        invariant
            us == updates@,
            i <= us.len(),
            base@ == merged(b0, us.take(i as int)),
        decreases us.len() - i,
    {
        assert(us.take(i + 1).drop_last() =~= us.take(i as int));
        assert(us.take(i + 1).last() == us[i as int]);
        proof { updates.lemma_member_decreases(i as int); }
        let key = updates.key_at(i);
        let val = updates.value_at(i);
        let ghost front = base@;
        let is_obj = match val {
            Value::Object(_) => true,
            _ => false,
        };
        let base_obj = match base.get(key.as_str()) {
            Some(x) => match x {
                Value::Object(_) => true,
                _ => false,
            },
            None => false,
        };
        if is_obj && base_obj {
            let taken = base.remove(key.as_str());
            match (taken, val) {
                (Some(Value::Object(mut b)), Value::Object(u)) => {
                    proof { assert(decreases_to!(*val => val->Object_0)); }
                    merge_fields(&mut b, u);
                    base.insert(key.clone(), Value::Object(b));
                },
                _ => {},
            }
        } else {
            base.insert(key.clone(), val.copy());
        }
        i = i + 1;
    }
    assert(us.take(i as int) =~= us);
}

/// A typed face of an [`ApiObject`].
pub trait WrapsObject: Sized + View<V = ObjectView> {
    /// The typed object for `inner`.
    fn wrap(inner: ApiObject) -> (r: Self)
        ensures
            r@ == inner@;
}

/// Each object of `objects` in its typed face.
pub fn wrap_all<W: WrapsObject>(objects: Vec<ApiObject>) -> (r: Vec<W>)
    ensures
        seq_views(r@) == seq_views(objects@),
{
    let ghost os = seq_views(objects@);
    let n = objects.len();
    let mut out: Vec<W> = Vec::new();
    let mut rest = objects;
    let mut i: usize = 0;
    assert(seq_views(rest@) =~= os.skip(0));
    assert(seq_views(out@) =~= os.take(0));
    while rest.len() > 0
        invariant
            i + rest@.len() == n,
            os.len() == n,
            os == seq_views(objects@),
            seq_views(rest@) == os.skip(i as int),
            seq_views(out@) == os.take(i as int),
        decreases rest@.len(),
    {
        let ghost old_rest = rest@;
        let x = rest.remove(0);
        assert(seq_views(rest@) =~= seq_views(old_rest).drop_first());
        assert(x@ == os[i as int]) by {
            assert(os.skip(i as int)[0] == os[i as int]);
        }
        let ghost before = out@;
        let w = W::wrap(x);
        let ghost wv = w@;
        out.push(w);
        assert(seq_views(out@) =~= seq_views(before).push(wv));
        assert(os.take(i + 1) =~= os.take(i as int).push(os[i as int]));
        assert(seq_views(rest@) =~= os.skip(i + 1));
        i = i + 1;
    }
    assert(os.take(i as int) =~= os);
    out
}

/// Each object of `resource` named by its field `key`; zero records is an empty list.
pub fn list_objects<Tr: SophosTransport>(client: &SophosClient<Tr>, resource: &str, key: &str, label: &str) -> (r: Result<Vec<ApiObject>>)
    ensures
        exists|reply: Reply|
            list_view(r) == list_outcome(exchange(client.conn(), read_request(resource@), reply), resource@, object_reader(key@, label@)),
{
    let read = |n: &XmlNode| -> (x: Result<Option<ApiObject>>)
        ensures
            read_view(x) == object_of_node(n@, key@, label@),
        { object_from_node(n, key, label) };
    list_items(client, resource, read, Ghost(object_reader(key@, label@)))
}

/// The object of `resource` whose field `key` is `name` (trimmed; `label` names it in
/// errors); zero records is none.
pub fn get_object<Tr: SophosTransport>(client: &SophosClient<Tr>, resource: &str, key: &str, label: &str, name: &str) -> (r: Result<Option<ApiObject>>)
    ensures
        match name_of(label@, name@) {
            Err(e) => r matches Err(x) && x@ == e,
            Ok(n) => exists|reply: Reply|
                opt_result_view(r) == get_outcome::<ApiObject>(
                    exchange(client.conn(), named_request(Action::Read, resource@, key@, n, None, empty_object()), reply),
                    resource@,
                    n,
                    object_reader(key@, label@),
                ),
        },
{
    let n = match normalize_name(label, name) {
        Ok(n) => n,
        Err(e) => return Err(e),
    };
    get_named_object(client, resource, key, label, n.as_str())
}

/// The object of `resource` whose field `key` is exactly `name`.
fn get_named_object<Tr: SophosTransport>(client: &SophosClient<Tr>, resource: &str, key: &str, label: &str, name: &str) -> (r: Result<Option<ApiObject>>)
    ensures
        exists|reply: Reply|
            opt_result_view(r) == get_outcome::<ApiObject>(
                exchange(client.conn(), named_request(Action::Read, resource@, key@, name@, None, empty_object()), reply),
                resource@,
                name@,
                object_reader(key@, label@),
            ),
{
    let read = |n: &XmlNode| -> (x: Result<Option<ApiObject>>)
        ensures
            read_view(x) == object_of_node(n@, key@, label@),
        { object_from_node(n, key, label) };
    get_item(client, resource, key, name, read, Ghost(object_reader(key@, label@)))
}

/// Creates the object `fields` in `resource`, its name under `key`.
pub fn create_object<Tr: SophosTransport>(client: &SophosClient<Tr>, resource: &str, key: &str, fields: ObjectFields) -> (r: Result<ResourceResponse>)
    ensures
        exists|reply: Reply|
            write_view(r) == write_outcome(
                exchange(
                    client.conn(),
                    named_request(Action::Create, resource@, key@, fields@.name, None, payload_with_key(key@, fields@.name, fields@.fields)),
                    reply,
                ),
                resource@,
            ),
{
    let payload = object_payload(key, fields.name.as_str(), &fields.fields);
    write_item(client, Action::Create, resource, key, fields.name.as_str(), None, payload)
}

/// What updating the object `fields@.name` of `resource` with `fields` gives when the
/// lookup is answered `first` and the write `second`: the lookup's error, a missing
/// object (then nothing is written), or the reply to writing the existing fields with
/// `fields` merged in (see [`merged`]).
pub open spec fn object_update_outcome(
    conn: Link,
    resource: Seq<char>,
    key: Seq<char>,
    label: Seq<char>,
    entity: Seq<char>,
    fields: ObjectView,
    first: Reply,
    second: Reply,
) -> core::result::Result<ResourceView, ErrorView> {
    match get_outcome::<ApiObject>(
        exchange(conn, named_request(Action::Read, resource, key, fields.name, None, empty_object()), first),
        resource,
        fields.name,
        object_reader(key, label),
    ) {
        Err(e) => Err(e),
        Ok(None) => Err(missing_error(entity, fields.name)),
        Ok(Some(existing)) => write_outcome(
            exchange(
                conn,
                named_request(
                    Action::Update,
                    resource,
                    key,
                    fields.name,
                    None,
                    payload_with_key(key, fields.name, merged(existing.fields, fields.fields)),
                ),
                second,
            ),
            resource,
        ),
    }
}

/// Updates an existing object with `fields` merged into its fields (see
/// [`object_update_outcome`]).
pub fn update_object<Tr: SophosTransport>(
    client: &SophosClient<Tr>,
    resource: &str,
    key: &str,
    label: &str,
    entity: &str,
    fields: ObjectFields,
) -> (r: Result<ResourceResponse>)
    ensures
        exists|first: Reply, second: Reply|
            write_view(r) == #[trigger] object_update_outcome(client.conn(), resource@, key@, label@, entity@, fields@, first, second),
{
    let ghost fv = fields@;
    let existing = get_named_object(client, resource, key, label, fields.name.as_str());
    let ghost first = choose|reply: Reply|
        opt_result_view(existing) == get_outcome::<ApiObject>(
            exchange(client.conn(), named_request(Action::Read, resource@, key@, fv.name, None, empty_object()), reply),
            resource@,
            fv.name,
            object_reader(key@, label@),
        );
    match existing {
        Err(e) => {
            assert(write_view(Err(e)) == object_update_outcome(client.conn(), resource@, key@, label@, entity@, fv, first, first));
            Err(e)
        },
        Ok(None) => {
            let e = missing_error_exec(entity, fields.name.as_str());
            assert(write_view(Err(e)) == object_update_outcome(client.conn(), resource@, key@, label@, entity@, fv, first, first));
            Err(e)
        },
        Ok(Some(ex)) => {
            let mut all = ex.fields;
            merge_fields(&mut all, &fields.fields);
            let payload = object_payload(key, fields.name.as_str(), &all);
            let ghost pv = payload@;
            let r = write_item(client, Action::Update, resource, key, fields.name.as_str(), None, payload);
            let ghost second = choose|reply: Reply|
                write_view(r) == write_outcome(
                    exchange(client.conn(), named_request(Action::Update, resource@, key@, fv.name, crate::xml::opt_str_view(None), pv), reply),
                    resource@,
                );
            assert(write_view(r) == object_update_outcome(client.conn(), resource@, key@, label@, entity@, fv, first, second));
            r
        },
    }
}

/// Deletes the object of `resource` whose field `key` is `name` (trimmed) after checking
/// that it exists; `entity` names it in the error for a missing one.
pub fn delete_object<Tr: SophosTransport>(
    client: &SophosClient<Tr>,
    resource: &str,
    key: &str,
    label: &str,
    entity: &str,
    name: &str,
) -> (r: Result<ResourceResponse>)
    ensures
        match name_of(label@, name@) {
            Err(e) => r matches Err(x) && x@ == e,
            Ok(n) => exists|first: Reply, second: Reply|
                write_view(r) == #[trigger] delete_outcome::<ApiObject>(
                    client.conn(),
                    resource@,
                    key@,
                    entity@,
                    n,
                    object_reader(key@, label@),
                    first,
                    second,
                ),
        },
{
    let n = match normalize_name(label, name) {
        Ok(n) => n,
        Err(e) => return Err(e),
    };
    let read = |nd: &XmlNode| -> (x: Result<Option<ApiObject>>)
        ensures
            read_view(x) == object_of_node(nd@, key@, label@),
        { object_from_node(nd, key, label) };
    delete_item(client, resource, key, entity, n.as_str(), read, Ghost(object_reader(key@, label@)))
}

/// The view of a result.
pub open spec fn result_view<T: View>(r: Result<T>) -> core::result::Result<T::V, ErrorView> {
    match r {
        Ok(x) => Ok(x@),
        Err(e) => Err(e@),
    }
}

/// The object a settings element describes: no name, its fields all its children.
pub open spec fn settings_of_node(n: NodeView) -> core::result::Result<Option<ObjectView>, ErrorView> {
    Ok(Some(ObjectView { name: Seq::empty(), fields: node_fields(n, n.children.len()) }))
}

/// [`settings_of_node`] as a value.
pub open spec fn settings_reader() -> spec_fn(NodeView) -> core::result::Result<Option<ObjectView>, ErrorView> {
    |n: NodeView| settings_of_node(n)
}

/// The settings a read of the single object `resource` gives: the first element read, or
/// zero records when there is none.
pub open spec fn settings_outcome(o: Outcome, resource: Seq<char>) -> core::result::Result<ObjectView, ErrorView> {
    match list_outcome(o, resource, settings_reader()) {
        Err(e) => Err(e),
        Ok(items) => if items.len() > 0 {
            Ok(items[0])
        } else {
            Err(ErrorView::ZeroRecords(resource))
        },
    }
}

/// Reads the single object `resource` (see [`settings_outcome`]).
pub fn get_singleton<Tr: SophosTransport>(client: &SophosClient<Tr>, resource: &str) -> (r: Result<ApiObject>)
    ensures
        exists|reply: Reply|
            result_view(r) == settings_outcome(exchange(client.conn(), read_request(resource@), reply), resource@),
{
    let read = |n: &XmlNode| -> (x: Result<Option<ApiObject>>)
        ensures
            read_view(x) == settings_of_node(n@),
        { Ok(Some(ApiObject { name: String::new(), fields: fields_from_node(n) })) };
    let r = list_items(client, resource, read, Ghost(settings_reader()));
    match r {
        Ok(mut items) => {
            if items.len() > 0 {
                Ok(items.remove(0))
            } else {
                Err(Error::ZeroRecords { resource: resource.to_owned() })
            }
        },
        Err(e) => Err(e),
    }
}

/// A write of the single object `resource` with `payload`: an update naming no object.
pub open spec fn settings_write(resource: Seq<char>, payload: Json) -> RequestView {
    RequestView {
        action: Action::Update,
        resource,
        object_name: None,
        object_key: None,
        set_operation: None,
        payload,
    }
}

/// Writes the single object `resource` with `updates` merged into `existing` (see
/// [`merged`]).
pub fn update_singleton<Tr: SophosTransport>(
    client: &SophosClient<Tr>,
    resource: &str,
    existing: FieldMap,
    updates: &FieldMap,
) -> (r: Result<ResourceResponse>)
    ensures
        exists|reply: Reply|
            write_view(r) == write_outcome(
                exchange(client.conn(), settings_write(resource@, Json::Object(merged(existing@, updates@))), reply),
                resource@,
            ),
{
    let mut all = existing;
    merge_fields(&mut all, updates);
    let request = SophosRequest::new(Action::Update, resource).with_payload(Value::Object(all));
    let resp = client.execute(&request);
    let ghost reply = choose|reply: Reply| outcome_of(resp) == exchange(client.conn(), request@, reply);
    match resp {
        Ok(resp) => first_named_resource(resp.resources, resource),
        Err(e) => Err(e),
    }
}

/// What updating the single object `resource` with `updates` gives when the read is
/// answered `first` and the write `second`: the read's error, or the reply to writing the
/// settings read with `updates` merged in.
pub open spec fn settings_update_outcome(
    conn: Link,
    resource: Seq<char>,
    updates: Seq<(Seq<char>, Json)>,
    first: Reply,
    second: Reply,
) -> core::result::Result<ResourceView, ErrorView> {
    match settings_outcome(exchange(conn, read_request(resource), first), resource) {
        Err(e) => Err(e),
        Ok(existing) => write_outcome(
            exchange(conn, settings_write(resource, Json::Object(merged(existing.fields, updates))), second),
            resource,
        ),
    }
}

/// An object payload that takes checked fields one at a time.
pub trait FieldsBuilder: Sized + View<V = ObjectView> {
    /// The payload with `value` under `field` (see [`with_field_of`]).
    fn add_field(self, field: &str, value: Value) -> (r: Result<Self>)
        ensures
            match with_field_of(self@, field@, value@) {
                Ok(o) => r matches Ok(x) && x@ == o,
                Err(e) => r matches Err(x) && x@ == e,
            };
}

/// `o` with each member of `fields` set in turn (see [`with_field_of`]), or the first
/// refusal.
pub open spec fn with_fields_of(o: ObjectView, fields: Seq<(Seq<char>, Json)>) -> core::result::Result<ObjectView, ErrorView>
    decreases fields.len(),
{
    if fields.len() == 0 {
        Ok(o)
    } else {
        match with_fields_of(o, fields.drop_last()) {
            Err(e) => Err(e),
            Ok(p) => with_field_of(p, fields.last().0, fields.last().1),
        }
    }
}

/// A refusal among the first `k` fields is the refusal of all of them.
proof fn lemma_fields_refusal_stays(o: ObjectView, fields: Seq<(Seq<char>, Json)>, k: int)
    requires
        0 <= k <= fields.len(),
        with_fields_of(o, fields.take(k)) is Err,
    ensures
        with_fields_of(o, fields) == with_fields_of(o, fields.take(k)),
    decreases fields.len() - k,
{
    if k < fields.len() {
        assert(fields.take(k + 1).drop_last() =~= fields.take(k));
        lemma_fields_refusal_stays(o, fields, k + 1);
    } else {
        assert(fields.take(k) =~= fields);
    }
}

/// `builder` with each member of `fields` set in key order (see [`with_fields_of`]).
pub fn with_all_fields<B: FieldsBuilder>(builder: B, fields: &FieldMap) -> (r: Result<B>)
    ensures
        match with_fields_of(builder@, fields@) {
            Ok(o) => r matches Ok(x) && x@ == o,
            Err(e) => r matches Err(x) && x@ == e,
        },
{
    let ghost o = builder@;
    let ghost fs = fields@;
    let mut cur = builder;
    let mut i: usize = 0;
    assert(fs.take(0) =~= Seq::<(Seq<char>, Json)>::empty());
    while i < fields.len()
        invariant
            fs == fields@,
            o == builder@,
            i <= fs.len(),
            with_fields_of(o, fs.take(i as int)) == Ok::<ObjectView, ErrorView>(cur@),
        decreases fs.len() - i,
    {
        assert(fs.take(i + 1).drop_last() =~= fs.take(i as int));
        assert(fs.take(i + 1).last() == fs[i as int]);
        let key = fields.key_at(i);
        let value = fields.value_at(i).copy();
        match cur.add_field(key.as_str(), value) {
            Ok(next) => {
                cur = next;
            },
            Err(e) => {
                assert(with_fields_of(o, fs.take(i + 1)) == Err::<ObjectView, ErrorView>(e@));
                proof { lemma_fields_refusal_stays(o, fs, i + 1); }
                return Err(e);
            },
        }
        i = i + 1;
    }
    assert(fs.take(i as int) =~= fs);
    Ok(cur)
}

/// Merging never touches a field the updates do not mention: its value, or its absence,
/// stays as it was.
pub proof fn lemma_merge_keeps_unmentioned(
    base: Seq<(Seq<char>, Json)>,
    updates: Seq<(Seq<char>, Json)>,
    k: Seq<char>,
)
    requires
        jget(updates, k) is None,
    ensures
        jget(merged(base, updates), k) == jget(base, k),
    decreases updates.len(),
{
    if updates.len() > 0 {
        let rest = updates.drop_last();
        lemma_jget_none(updates, k);
        lemma_jget_none(rest, k);
        assert forall|i: int| 0 <= i < rest.len() implies rest[i].0 != k by {
            assert(rest[i] == updates[i]);
        }
        lemma_merge_keeps_unmentioned(base, rest, k);
        let front = merged(base, rest);
        let kk = updates.last().0;
        assert(kk != k) by {
            assert(updates[updates.len() - 1] == updates.last());
        }
        match (jget(front, kk), updates.last().1) {
            (Some(Json::Object(b)), Json::Object(u)) => {
                lemma_jremove_other(front, kk, k);
                lemma_jinsert_other(jremove(front, kk), kk, Json::Object(merged(b, u)), k);
            },
            _ => {
                lemma_jinsert_other(front, kk, updates.last().1, k);
            },
        }
    }
}

/// What a field mentioned once among the updates holds after merging: the update's
/// object merged into the base's object when both are objects, else the update's value.
pub proof fn lemma_merge_sets_mentioned(base: Seq<(Seq<char>, Json)>, updates: Seq<(Seq<char>, Json)>, i: int)
    requires
        unique_keys(updates),
        0 <= i < updates.len(),
    ensures
        jget(merged(base, updates), updates[i].0) == Some(
            match (jget(base, updates[i].0), updates[i].1) {
                (Some(Json::Object(b)), Json::Object(u)) => Json::Object(merged(b, u)),
                (_, v) => v,
            },
        ),
    decreases updates.len(),
{
    let k = updates[i].0;
    let rest = updates.drop_last();
    let front = merged(base, rest);
    let kk = updates.last().0;
    assert(updates[updates.len() - 1] == updates.last());
    if i == updates.len() - 1 {
        assert forall|j: int| 0 <= j < rest.len() implies rest[j].0 != k by {
            assert(rest[j] == updates[j]);
        }
        lemma_jget_none(rest, k);
        lemma_merge_keeps_unmentioned(base, rest, k);
        match (jget(front, kk), updates.last().1) {
            (Some(Json::Object(b)), Json::Object(u)) => {
                lemma_jinsert_same(jremove(front, kk), kk, Json::Object(merged(b, u)));
            },
            _ => {
                lemma_jinsert_same(front, kk, updates.last().1);
            },
        }
    } else {
        assert(rest[i] == updates[i]);
        assert(unique_keys(rest)) by {
            assert forall|a: int, b: int| 0 <= a < b < rest.len() implies rest[a].0 != rest[b].0 by {
                assert(rest[a] == updates[a]);
                assert(rest[b] == updates[b]);
            }
        }
        lemma_merge_sets_mentioned(base, rest, i);
        assert(kk != k);
        match (jget(front, kk), updates.last().1) {
            (Some(Json::Object(b)), Json::Object(u)) => {
                lemma_jremove_other(front, kk, k);
                lemma_jinsert_other(jremove(front, kk), kk, Json::Object(merged(b, u)), k);
            },
            _ => {
                lemma_jinsert_other(front, kk, updates.last().1, k);
            },
        }
    }
}

/// An update of an object the lookup does not find is refused with the missing-object
/// error, whatever would have answered a write.
pub proof fn lemma_update_of_missing_refused(
    conn: Link,
    resource: Seq<char>,
    key: Seq<char>,
    label: Seq<char>,
    entity: Seq<char>,
    fields: ObjectView,
    first: Reply,
    second: Reply,
)
    requires
        get_outcome::<ApiObject>(
            exchange(conn, named_request(Action::Read, resource, key, fields.name, None, empty_object()), first),
            resource,
            fields.name,
            object_reader(key, label),
        ) == Ok::<Option<ObjectView>, ErrorView>(None),
    ensures
        object_update_outcome(conn, resource, key, label, entity, fields, first, second)
            == Err::<ResourceView, ErrorView>(missing_error(entity, fields.name)),
{
}

} // verus!
