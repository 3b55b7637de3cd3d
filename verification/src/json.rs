//! A JSON-like value: the payload and field model of the library.

use vstd::prelude::*;
use crate::text::{chars_of, escape, str_eq, valid_tag, tag_error, push_str, validate_tag};

verus! {

/// A JSON value; object members are kept sorted by key, as a BTree map keeps them.
#[derive(Debug, PartialEq, Eq)]
pub enum Value {
    Null,
    Bool(bool),
    Number(String),
    String(String),
    Array(Vec<Value>),
    Object(FieldMap),
}

/// Object members of a [`Value`], sorted by key with no key twice.
#[derive(Debug, PartialEq, Eq)]
pub struct FieldMap {
    entries: Vec<(String, Value)>,
}

/// The mathematical form of a JSON value.
pub enum Json {
    Null,
    Bool(bool),
    Number(Seq<char>),
    Str(Seq<char>),
    Array(Seq<Json>),
    Object(Seq<(Seq<char>, Json)>),
}

impl View for FieldMap {
    type V = Seq<(Seq<char>, Json)>;

    closed spec fn view(&self) -> Seq<(Seq<char>, Json)>
        decreases self,
    {
        Seq::new(
            self.entries@.len(),
            |i: int|
                if 0 <= i < self.entries@.len() {
                    (self.entries@[i].0@, self.entries@[i].1@)
                } else {
                    (Seq::empty(), Json::Null)
                },
        )
    }
}

impl View for Value {
    type V = Json;

    open spec fn view(&self) -> Json
        decreases self,
    {
        match self {
            Value::Null => Json::Null,
            Value::Bool(b) => Json::Bool(*b),
            Value::Number(n) => Json::Number(n@),
            Value::String(s) => Json::Str(s@),
            Value::Array(vs) => Json::Array(
                Seq::new(vs@.len(), |i: int| if 0 <= i < vs@.len() { vs@[i]@ } else { Json::Null }),
            ),
            Value::Object(m) => Json::Object(m@),
        }
    }
}

/// Whether `a` sorts before `b`, comparing characters by code point as `String`'s order does.
pub open spec fn key_lt(a: Seq<char>, b: Seq<char>) -> bool
    decreases a.len(),
{
    if a.len() == 0 {
        b.len() > 0
    } else if b.len() == 0 {
        false
    } else if a[0] < b[0] {
        true
    } else if a[0] == b[0] {
        key_lt(a.drop_first(), b.drop_first())
    } else {
        false
    }
}

/// The value stored under `k`, if any.
pub open spec fn jget(es: Seq<(Seq<char>, Json)>, k: Seq<char>) -> Option<Json>
    decreases es.len(),
{
    if es.len() == 0 {
        None
    } else if es[0].0 == k {
        Some(es[0].1)
    } else {
        jget(es.drop_first(), k)
    }
}

/// `es` with `k` bound to `v`: the entry for `k` replaced, or a new one placed before the
/// first greater key.
pub open spec fn jinsert(es: Seq<(Seq<char>, Json)>, k: Seq<char>, v: Json) -> Seq<(Seq<char>, Json)>
    decreases es.len(),
{
    if es.len() == 0 {
        seq![(k, v)]
    } else if es[0].0 == k {
        seq![(k, v)] + es.drop_first()
    } else if key_lt(k, es[0].0) {
        seq![(k, v)] + es
    } else {
        seq![es[0]] + jinsert(es.drop_first(), k, v)
    }
}

/// `es` without its first entry for `k`.
pub open spec fn jremove(es: Seq<(Seq<char>, Json)>, k: Seq<char>) -> Seq<(Seq<char>, Json)>
    decreases es.len(),
{
    if es.len() == 0 {
        es
    } else if es[0].0 == k {
        es.drop_first()
    } else {
        seq![es[0]] + jremove(es.drop_first(), k)
    }
}

/// Exactly one of `a < b`, `a == b`, `b < a` holds.
pub proof fn lemma_key_trichotomy(a: Seq<char>, b: Seq<char>)
    ensures
        key_lt(a, b) || a == b || key_lt(b, a),
        !(key_lt(a, b) && key_lt(b, a)),
        !(key_lt(a, b) && a == b),
    decreases a.len(),
{
    if a.len() > 0 && b.len() > 0 && a[0] == b[0] {
        lemma_key_trichotomy(a.drop_first(), b.drop_first());
        if a.drop_first() == b.drop_first() {
            assert(a =~= seq![a[0]] + a.drop_first());
            assert(b =~= seq![b[0]] + b.drop_first());
        }
    }
    if a.len() == 0 && b.len() == 0 {
        assert(a =~= b);
    }
}

/// `<` on keys is transitive.
pub proof fn lemma_key_transitive(a: Seq<char>, b: Seq<char>, c: Seq<char>)
    requires
        key_lt(a, b),
        key_lt(b, c),
    ensures
        key_lt(a, c),
    decreases a.len(),
{
    if a.len() > 0 && b.len() > 0 && c.len() > 0 && a[0] == b[0] && b[0] == c[0] {
        lemma_key_transitive(a.drop_first(), b.drop_first(), c.drop_first());
    }
}

/// The members held by a list of entries, by views.
pub open spec fn entries_view(v: Seq<(String, Value)>) -> Seq<(Seq<char>, Json)> {
    Seq::new(v.len(), |i: int| (v[i].0@, v[i].1@))
}

/// Keys strictly increasing: sorted, none twice.
pub open spec fn sorted_keys(es: Seq<(Seq<char>, Json)>) -> bool {
    forall|i: int, j: int| 0 <= i < j < es.len() ==> key_lt(es[i].0, es[j].0)
}

/// Every key after binding `k` is `k` or a key that was there.
proof fn lemma_jinsert_keys(es: Seq<(Seq<char>, Json)>, k: Seq<char>, v: Json)
    ensures
        forall|i: int| 0 <= i < jinsert(es, k, v).len() ==> #[trigger] jinsert(es, k, v)[i].0 == k
            || exists|j: int| 0 <= j < es.len() && es[j].0 == jinsert(es, k, v)[i].0,
    decreases es.len(),
{
    if es.len() > 0 && es[0].0 != k && !key_lt(k, es[0].0) {
        let rest = es.drop_first();
        lemma_jinsert_keys(rest, k, v);
        let ins = jinsert(es, k, v);
        assert(ins == seq![es[0]] + jinsert(rest, k, v));
        assert forall|i: int| 0 <= i < ins.len() implies #[trigger] ins[i].0 == k
            || exists|j: int| 0 <= j < es.len() && es[j].0 == ins[i].0 by {
            if i == 0 {
                assert(es[0].0 == ins[0].0);
            } else {
                assert(ins[i] == jinsert(rest, k, v)[i - 1]);
                if jinsert(rest, k, v)[i - 1].0 != k {
                    let j = choose|j: int| 0 <= j < rest.len() && rest[j].0 == jinsert(rest, k, v)[i - 1].0;
                    assert(es[j + 1] == rest[j]);
                }
            }
        }
    } else if es.len() > 0 && es[0].0 == k {
        let ins = jinsert(es, k, v);
        assert forall|i: int| 0 <= i < ins.len() implies #[trigger] ins[i].0 == k
            || exists|j: int| 0 <= j < es.len() && es[j].0 == ins[i].0 by {
            if i > 0 {
                assert(ins[i] == es[i]);
            }
        }
    } else if es.len() > 0 {
        let ins = jinsert(es, k, v);
        assert forall|i: int| 0 <= i < ins.len() implies #[trigger] ins[i].0 == k
            || exists|j: int| 0 <= j < es.len() && es[j].0 == ins[i].0 by {
            if i > 0 {
                assert(ins[i] == es[i - 1]);
            }
        }
    }
}

/// Binding a key keeps the keys sorted.
pub proof fn lemma_jinsert_sorted(es: Seq<(Seq<char>, Json)>, k: Seq<char>, v: Json)
    requires
        sorted_keys(es),
    ensures
        sorted_keys(jinsert(es, k, v)),
    decreases es.len(),
{
    let ins = jinsert(es, k, v);
    if es.len() == 0 {
    } else if es[0].0 == k {
        assert forall|i: int, j: int| 0 <= i < j < ins.len() implies key_lt(ins[i].0, ins[j].0) by {
            assert(ins[j] == es[j]);
            if i > 0 {
                assert(ins[i] == es[i]);
            }
        }
    } else if key_lt(k, es[0].0) {
        assert forall|i: int, j: int| 0 <= i < j < ins.len() implies key_lt(ins[i].0, ins[j].0) by {
            assert(ins[j] == es[j - 1]);
            if i > 0 {
                assert(ins[i] == es[i - 1]);
            } else if j > 1 {
                lemma_key_transitive(k, es[0].0, es[j - 1].0);
            }
        }
    } else {
        let rest = es.drop_first();
        assert(sorted_keys(rest)) by {
            assert forall|i: int, j: int| 0 <= i < j < rest.len() implies key_lt(rest[i].0, rest[j].0) by {
                assert(rest[i] == es[i + 1]);
                assert(rest[j] == es[j + 1]);
            }
        }
        lemma_jinsert_sorted(rest, k, v);
        lemma_jinsert_keys(rest, k, v);
        lemma_key_trichotomy(k, es[0].0);
        let tail = jinsert(rest, k, v);
        assert(ins == seq![es[0]] + tail);
        assert forall|i: int, j: int| 0 <= i < j < ins.len() implies key_lt(ins[i].0, ins[j].0) by {
            assert(ins[j] == tail[j - 1]);
            if i > 0 {
                assert(ins[i] == tail[i - 1]);
            } else {
                assert(ins[0] == es[0]);
                if tail[j - 1].0 != k {
                    let m = choose|m: int| 0 <= m < rest.len() && rest[m].0 == tail[j - 1].0;
                    assert(rest[m] == es[m + 1]);
                }
            }
        }
    }
}

/// Removing a member keeps the keys sorted.
pub proof fn lemma_remove_sorted(es: Seq<(Seq<char>, Json)>, i: int)
    requires
        sorted_keys(es),
        0 <= i < es.len(),
    ensures
        sorted_keys(es.remove(i)),
{
    let r = es.remove(i);
    assert forall|a: int, b: int| 0 <= a < b < r.len() implies key_lt(r[a].0, r[b].0) by {
        let a0 = if a < i { a } else { a + 1 };
        let b0 = if b < i { b } else { b + 1 };
        assert(r[a] == es[a0]);
        assert(r[b] == es[b0]);
    }
}

/// Sorted keys are unique keys.
pub proof fn lemma_sorted_unique(es: Seq<(Seq<char>, Json)>)
    requires
        sorted_keys(es),
    ensures
        unique_keys(es),
{
    assert forall|i: int, j: int| 0 <= i < j < es.len() implies es[i].0 != es[j].0 by {
        lemma_key_trichotomy(es[i].0, es[j].0);
    }
}

/// Whether `a` sorts before `b`.
pub fn key_less(a: &str, b: &str) -> (r: bool)
    ensures
        r == key_lt(a@, b@),
{
    let x = chars_of(a);
    let y = chars_of(b);
    let mut i: usize = 0;
    assert(x@.skip(0) =~= x@);
    assert(y@.skip(0) =~= y@);
    while i < x.len() && i < y.len() && x[i] == y[i]
        invariant
            i <= x@.len(),
            i <= y@.len(),
            key_lt(a@, b@) == key_lt(x@.skip(i as int), y@.skip(i as int)),
            x@ == a@,
            y@ == b@,
        decreases x@.len() - i,
    {
        assert(x@.skip(i as int).drop_first() =~= x@.skip(i + 1));
        assert(y@.skip(i as int).drop_first() =~= y@.skip(i + 1));
        i = i + 1;
    }
    if i == x.len() {
        i < y.len()
    } else if i == y.len() {
        false
    } else {
        x[i] < y[i]
    }
}

impl FieldMap {
    /// The keys of a map are kept strictly increasing.
    #[verifier::type_invariant]
    pub open spec fn keys_sorted(self) -> bool {
        sorted_keys(self@)
    }

    /// An empty map.
    pub fn new() -> (m: FieldMap)
        ensures
            m@ == Seq::<(Seq<char>, Json)>::empty(),
    {
        let m = FieldMap { entries: Vec::new() };
        assert(m@ =~= Seq::<(Seq<char>, Json)>::empty());
        m
    }

    /// The number of members.
    pub fn len(&self) -> (n: usize)
        ensures
            n == self@.len(),
    {
        self.entries.len()
    }

    /// Whether the map has no member.
    pub fn is_empty(&self) -> (b: bool)
        ensures
            b == (self@.len() == 0),
    {
        self.entries.len() == 0
    }

    /// The key of the member at `i`, in key order.
    pub fn key_at(&self, i: usize) -> (k: &String)
        requires
            i < self@.len(),
        ensures
            k@ == self@[i as int].0,
    {
        &self.entries[i].0
    }

    /// The value of the member at `i`, in key order.
    pub fn value_at(&self, i: usize) -> (v: &Value)
        requires
            i < self@.len(),
        ensures
            v@ == self@[i as int].1,
            *v == self.member_value(i as int),
    {
        &self.entries[i].1
    }

    /// The position of `key`, if present.
    fn position(&self, key: &str) -> (r: Option<usize>)
        ensures
            match r {
                Some(i) => i < self@.len() && self@[i as int].0 == key@ && jget(self@, key@)
                    == Some(self@[i as int].1) && jremove(self@, key@) == self@.remove(i as int),
                None => jget(self@, key@) is None && jremove(self@, key@) == self@,
            },
    {
        let mut i: usize = 0;
        assert(self@.skip(0) =~= self@);
        assert(self@.take(0) + jremove(self@, key@) =~= jremove(self@, key@));
        while i < self.entries.len()
            invariant
                i <= self@.len(),
                self@.len() == self.entries@.len(),
                forall|j: int| 0 <= j < i ==> self@[j].0 != key@,
                jget(self@, key@) == jget(self@.skip(i as int), key@),
                jremove(self@, key@) == self@.take(i as int) + jremove(self@.skip(i as int), key@),
            decreases self@.len() - i,
        {
            let ghost rest = self@.skip(i as int);
            assert(rest.drop_first() =~= self@.skip(i + 1));
            if str_eq(self.entries[i].0.as_str(), key) {
                assert(self@.take(i as int) + rest.drop_first() =~= self@.remove(i as int));
                return Some(i);
            }
            assert(self@.take(i + 1) =~= self@.take(i as int) + seq![rest[0]]);
            i = i + 1;
        }
        assert(self@.skip(i as int) =~= Seq::<(Seq<char>, Json)>::empty());
        assert(self@.take(i as int) =~= self@);
        None
    }

    /// The value under `key`, if any.
    pub fn get(&self, key: &str) -> (r: Option<&Value>)
        ensures
            r matches Some(v) ==> jget(self@, key@) == Some(v@),
            r is None ==> jget(self@, key@) is None,
    {
        match self.position(key) {
            Some(i) => Some(&self.entries[i].1),
            None => None,
        }
    }

    /// Whether `key` has a member.
    pub fn contains_key(&self, key: &str) -> (b: bool)
        ensures
            b == (jget(self@, key@) is Some),
    {
        self.position(key).is_some()
    }

    /// Removes and returns the member under `key`.
    pub fn remove(&mut self, key: &str) -> (r: Option<Value>)
        ensures
            final(self)@ == jremove(old(self)@, key@),
            r matches Some(v) ==> jget(old(self)@, key@) == Some(v@),
            r is None ==> jget(old(self)@, key@) is None,
    {
        proof { use_type_invariant(&*self); }
        match self.position(key) {
            Some(i) => {
                let ghost before = self@;
                proof { lemma_remove_sorted(before, i as int); }
                assert(before =~= entries_view(self.entries@));
                let mut entries: Vec<(String, Value)> = Vec::new();
                std::mem::swap(&mut entries, &mut self.entries);
                let (_, v) = entries.remove(i);
                assert(entries_view(entries@) =~= before.remove(i as int));
                assert((FieldMap { entries: entries })@ =~= entries_view(entries@));
                self.entries = entries;
                assert(self@ =~= entries_view(self.entries@));
                Some(v)
            },
            None => None,
        }
    }

    /// Binds `key` to `value`, replacing an earlier value under the same key.
    pub fn insert(&mut self, key: String, value: Value)
        ensures
            final(self)@ == jinsert(old(self)@, key@, value@),
    {
        proof { use_type_invariant(&*self); }
        let ghost es = self@;
        let ghost k = key@;
        let ghost v = value@;
        proof { lemma_jinsert_sorted(es, k, v); }
        assert(es =~= entries_view(self.entries@));
        let mut entries: Vec<(String, Value)> = Vec::new();
        std::mem::swap(&mut entries, &mut self.entries);
        let mut i: usize = 0;
        assert(es.skip(0) =~= es);
        assert(es.take(0) + jinsert(es, k, v) =~= jinsert(es, k, v));
        while i < entries.len() && key_less(entries[i].0.as_str(), key.as_str())
            invariant
                i <= es.len(),
                entries_view(entries@) == es,
                entries@.len() == es.len(),
                k == key@,
                v == value@,
                jinsert(es, k, v) == es.take(i as int) + jinsert(es.skip(i as int), k, v),
            decreases es.len() - i,
        {
            let ghost rest = es.skip(i as int);
            assert(rest[0].0 == entries@[i as int].0@);
            proof { lemma_key_trichotomy(rest[0].0, k); }
            assert(rest.drop_first() =~= es.skip(i + 1));
            assert(es.take(i + 1) =~= es.take(i as int) + seq![rest[0]]);
            i = i + 1;
        }
        let ghost rest = es.skip(i as int);
        if i < entries.len() && str_eq(entries[i].0.as_str(), key.as_str()) {
            entries.set(i, (key, value));
            assert(rest.drop_first() =~= es.skip(i + 1));
            assert(entries_view(entries@) =~= es.take(i as int) + (seq![(k, v)] + rest.drop_first()));
        } else {
            if i < entries.len() {
                assert(rest[0].0 == entries@[i as int].0@);
                proof { lemma_key_trichotomy(rest[0].0, k); }
            } else {
                assert(rest =~= Seq::<(Seq<char>, Json)>::empty());
            }
            entries.insert(i, (key, value));
            assert(entries_view(entries@) =~= es.take(i as int) + (seq![(k, v)] + rest));
        }
        assert((FieldMap { entries: entries })@ =~= entries_view(entries@));
        self.entries = entries;
        assert(self@ =~= entries_view(self.entries@));
    }

    /// A copy with the same members.
    pub fn copy(&self) -> (r: FieldMap)
        ensures
            r@ == self@,
        decreases self,
    {
        let mut out: Vec<(String, Value)> = Vec::new();
        let mut i: usize = 0;
        while i < self.entries.len()
            invariant
                i <= self.entries@.len(),
                out@.len() == i,
                forall|j: int| 0 <= j < i ==> (#[trigger] out@[j]).0@ == self.entries@[j].0@ && out@[j].1@ == self.entries@[j].1@,
            decreases self.entries@.len() - i,
        {
            let k = self.entries[i].0.clone();
            proof {
                vstd::std_specs::vec::axiom_vec_index_decreases(self.entries, i as int);
            }
            let v = self.entries[i].1.copy();
            out.push((k, v));
            i = i + 1;
        }
        proof { use_type_invariant(self); }
        assert((FieldMap { entries: out })@ =~= self@);
        let r = FieldMap { entries: out };
        assert(r@ =~= self@);
        r
    }
}

impl Value {
    /// A copy holding the same value.
    pub fn copy(&self) -> (r: Value)
        ensures
            r@ == self@,
        decreases self,
    {
        match self {
            Value::Null => Value::Null,
            Value::Bool(b) => Value::Bool(*b),
            Value::Number(n) => Value::Number(n.clone()),
            Value::String(s) => Value::String(s.clone()),
            Value::Array(vs) => {
                let mut out: Vec<Value> = Vec::new();
                let mut i: usize = 0;
                while i < vs.len()
                    invariant
                        *self is Array,
                        self->Array_0 == *vs,
                        i <= vs@.len(),
                        out@.len() == i,
                        forall|j: int| 0 <= j < i ==> (#[trigger] out@[j])@ == vs@[j]@,
                    decreases vs@.len() - i,
                {
                    proof {
                        vstd::std_specs::vec::axiom_vec_index_decreases(*vs, i as int);
                        assert(decreases_to!(*self => self->Array_0));
                        assert(decreases_to!(*self => vs[i as int]));
                    }
                    out.push(vs[i].copy());
                    i = i + 1;
                }
                let r = Value::Array(out);
                assert(r@->Array_0 =~= self@->Array_0);
                r
            },
            Value::Object(m) => Value::Object(m.copy()),
        }
    }

    /// A string value holding `s`.
    pub fn from_str(s: &str) -> (v: Value)
        ensures
            v@ == Json::Str(s@),
    {
        Value::String(s.to_owned())
    }

    /// An object value holding `m`.
    pub fn object(m: FieldMap) -> (v: Value)
        ensures
            v@ == Json::Object(m@),
    {
        Value::Object(m)
    }
}

/// `<tag>`.
pub open spec fn open_tag(tag: Seq<char>) -> Seq<char> {
    seq!['<'] + tag + seq!['>']
}

/// `</tag>`.
pub open spec fn close_tag(tag: Seq<char>) -> Seq<char> {
    seq!['<', '/'] + tag + seq!['>']
}

/// The XML that a value renders to under `tag`: an element per array item, nested
/// elements per object member in key order, escaped text for strings. The error is
/// the message for the first member key that is no valid tag.
pub open spec fn json_xml(tag: Seq<char>, v: Json) -> Result<Seq<char>, Seq<char>>
    decreases v,
{
    match v {
        Json::Null => Ok(seq!['<'] + tag + seq!['/', '>']),
        Json::Bool(b) => Ok(
            open_tag(tag) + (if b {
                seq!['t', 'r', 'u', 'e']
            } else {
                seq!['f', 'a', 'l', 's', 'e']
            }) + close_tag(tag),
        ),
        Json::Number(n) => Ok(open_tag(tag) + n + close_tag(tag)),
        Json::Str(s) => Ok(open_tag(tag) + escape(s) + close_tag(tag)),
        Json::Array(vs) => items_xml(tag, vs),
        Json::Object(es) => match members_xml(es) {
            Ok(inner) => Ok(open_tag(tag) + inner + close_tag(tag)),
            Err(e) => Err(e),
        },
    }
}

/// The XML of each item of `vs` under `tag`, concatenated.
pub open spec fn items_xml(tag: Seq<char>, vs: Seq<Json>) -> Result<Seq<char>, Seq<char>>
    decreases vs,
{
    if vs.len() == 0 {
        Ok(Seq::empty())
    } else {
        match items_xml(tag, vs.drop_last()) {
            Err(e) => Err(e),
            Ok(front) => match json_xml(tag, vs.last()) {
                Err(e) => Err(e),
                Ok(x) => Ok(front + x),
            },
        }
    }
}

/// The XML of each member of `es`, its key as tag, concatenated; the first invalid key
/// is an error.
pub open spec fn members_xml(es: Seq<(Seq<char>, Json)>) -> Result<Seq<char>, Seq<char>>
    decreases es,
{
    if es.len() == 0 {
        Ok(Seq::empty())
    } else {
        match members_xml(es.drop_last()) {
            Err(e) => Err(e),
            Ok(front) => if !valid_tag(es.last().0) {
                Err(tag_error(es.last().0))
            } else {
                match json_xml(es.last().0, es.last().1) {
                    Err(e) => Err(e),
                    Ok(x) => Ok(front + x),
                }
            },
        }
    }
}

/// Appends the XML of `v` under `tag` (see [`json_xml`]); on an invalid member key
/// returns its message.
pub fn push_value_xml(out: &mut Vec<char>, tag: &str, v: &Value) -> (r: Result<(), String>)
    ensures
        match json_xml(tag@, v@) {
            Ok(x) => r is Ok && final(out)@ == old(out)@ + x,
            Err(e) => r matches Err(m) && m@ == e,
        },
    decreases v,
{
    let ghost start = out@;
    match v {
        Value::Null => {
            push_str(out, "<");
            push_str(out, tag);
            push_str(out, "/>");
            proof { reveal_strlit("<"); reveal_strlit("/>"); }
            assert(out@ =~= start + (seq!['<'] + tag@ + seq!['/', '>']));
            Ok(())
        },
        Value::Bool(b) => {
            push_open(out, tag);
            if *b {
                push_str(out, "true");
                proof { reveal_strlit("true"); }
            } else {
                push_str(out, "false");
                proof { reveal_strlit("false"); }
            }
            push_close(out, tag);
            assert(out@ =~= start + (open_tag(tag@) + (if *b { seq!['t', 'r', 'u', 'e'] } else { seq!['f', 'a', 'l', 's', 'e'] }) + close_tag(tag@)));
            Ok(())
        },
        Value::Number(n) => {
            push_open(out, tag);
            push_str(out, n.as_str());
            push_close(out, tag);
            assert(out@ =~= start + (open_tag(tag@) + n@ + close_tag(tag@)));
            Ok(())
        },
        Value::String(t) => {
            push_open(out, tag);
            let e = crate::text::xml_escape(t.as_str());
            push_str(out, e.as_str());
            push_close(out, tag);
            assert(out@ =~= start + (open_tag(tag@) + escape(t@) + close_tag(tag@)));
            Ok(())
        },
        Value::Array(vs) => {
            let ghost model = v@->Array_0;
            let mut i: usize = 0;
            assert(model.take(0) =~= Seq::<Json>::empty());
            assert(out@ =~= start + Seq::<char>::empty());
            while i < vs.len()
                invariant
                    *v is Array,
                    v->Array_0 == *vs,
                    model == v@->Array_0,
                    model.len() == vs@.len(),
                    i <= vs@.len(),
                    items_xml(tag@, model.take(i as int)) matches Ok(acc) && out@ == start + acc,
                decreases vs@.len() - i,
            {
                proof {
                    vstd::std_specs::vec::axiom_vec_index_decreases(*vs, i as int);
                    assert(decreases_to!(*v => v->Array_0));
                }
                let ghost before = out@;
                assert(model.take(i + 1).drop_last() =~= model.take(i as int));
                assert(model.take(i + 1).last() == vs@[i as int]@);
                match push_value_xml(out, tag, &vs[i]) {
                    Ok(()) => {},
                    Err(m) => {
                        proof { lemma_items_prefix_err(tag@, model, (i + 1) as int); }
                        return Err(m);
                    },
                }
                i = i + 1;
            }
            assert(model.take(i as int) =~= model);
            Ok(())
        },
        Value::Object(m) => {
            push_open(out, tag);
            proof { assert(decreases_to!(*v => v->Object_0)); }
            match push_members_xml(out, m) {
                Ok(()) => {},
                Err(msg) => return Err(msg),
            }
            push_close(out, tag);
            assert(out@ =~= start + (open_tag(tag@) + members_xml(m@)->Ok_0 + close_tag(tag@)));
            Ok(())
        },
    }
}

/// Appends the XML of each member of `m` in key order (see [`members_xml`]); on an
/// invalid key returns its message.
pub fn push_members_xml(out: &mut Vec<char>, m: &FieldMap) -> (r: Result<(), String>)
    ensures
        match members_xml(m@) {
            Ok(x) => r is Ok && final(out)@ == old(out)@ + x,
            Err(e) => r matches Err(msg) && msg@ == e,
        },
    decreases m,
{
    let ghost es = m@;
    let ghost opened = out@;
    let mut i: usize = 0;
    assert(es.take(0) =~= Seq::<(Seq<char>, Json)>::empty());
    assert(opened =~= opened + Seq::<char>::empty());
    while i < m.len()
        invariant
            es == m@,
            i <= es.len(),
            members_xml(es.take(i as int)) matches Ok(acc) && out@ == opened + acc,
        decreases es.len() - i,
    {
        let key = &m.entries[i].0;
        let val = &m.entries[i].1;
        assert(es.take(i + 1).drop_last() =~= es.take(i as int));
        assert(es.take(i + 1).last() == es[i as int]);
        proof { m.lemma_value_decreases(i as int); }
        match validate_tag(key.as_str()) {
            Ok(()) => {},
            Err(msg) => {
                proof { lemma_members_prefix_err(es, (i + 1) as int); }
                return Err(msg);
            },
        }
        match push_value_xml(out, key.as_str(), val) {
            Ok(()) => {},
            Err(msg) => {
                proof { lemma_members_prefix_err(es, (i + 1) as int); }
                return Err(msg);
            },
        }
        i = i + 1;
    }
    assert(es.take(i as int) =~= es);
    Ok(())
}

/// Appends `<tag>`.
pub fn push_open(out: &mut Vec<char>, tag: &str)
    ensures
        final(out)@ == old(out)@ + open_tag(tag@),
{
    push_str(out, "<");
    push_str(out, tag);
    push_str(out, ">");
    proof { reveal_strlit("<"); reveal_strlit(">"); }
    assert(final(out)@ =~= old(out)@ + open_tag(tag@));
}

/// Appends `</tag>`.
pub fn push_close(out: &mut Vec<char>, tag: &str)
    ensures
        final(out)@ == old(out)@ + close_tag(tag@),
{
    push_str(out, "</");
    push_str(out, tag);
    push_str(out, ">");
    proof { reveal_strlit("</"); reveal_strlit(">"); }
    assert(final(out)@ =~= old(out)@ + close_tag(tag@));
}

/// A failure within the first `n` items is a failure of the whole list.
pub proof fn lemma_items_prefix_err(tag: Seq<char>, vs: Seq<Json>, n: int)
    requires
        0 <= n <= vs.len(),
        items_xml(tag, vs.take(n)) is Err,
    ensures
        items_xml(tag, vs) == items_xml(tag, vs.take(n)),
    decreases vs.len() - n,
{
    if n < vs.len() {
        assert(vs.take(n + 1).drop_last() =~= vs.take(n));
        lemma_items_prefix_err(tag, vs, n + 1);
    } else {
        assert(vs.take(n) =~= vs);
    }
}

/// A failure within the first `n` members is a failure of the whole map.
pub proof fn lemma_members_prefix_err(es: Seq<(Seq<char>, Json)>, n: int)
    requires
        0 <= n <= es.len(),
        members_xml(es.take(n)) is Err,
    ensures
        members_xml(es) == members_xml(es.take(n)),
    decreases es.len() - n,
{
    if n < es.len() {
        assert(es.take(n + 1).drop_last() =~= es.take(n));
        lemma_members_prefix_err(es, n + 1);
    } else {
        assert(es.take(n) =~= es);
    }
}

impl FieldMap {
    /// The value of the member at `i`.
    pub closed spec fn member_value(&self, i: int) -> Value {
        self.entries@[i].1
    }

    /// Each member value is smaller than the map that holds it.
    pub proof fn lemma_member_decreases(&self, i: int)
        requires
            0 <= i < self@.len(),
        ensures
            decreases_to!(*self => self.member_value(i)),
    {
        vstd::std_specs::vec::axiom_vec_index_decreases(self.entries, i);
    }

    /// Each member value is smaller than the map that holds it.
    proof fn lemma_value_decreases(&self, i: int)
        requires
            0 <= i < self@.len(),
        ensures
            decreases_to!(*self => self.entries@[i].1),
    {
        vstd::std_specs::vec::axiom_vec_index_decreases(self.entries, i);
    }
}

/// No key occurs twice.
pub open spec fn unique_keys(es: Seq<(Seq<char>, Json)>) -> bool {
    forall|i: int, j: int| 0 <= i < j < es.len() ==> es[i].0 != es[j].0
}

/// `jget` finds nothing exactly when no entry has the key.
pub proof fn lemma_jget_none(es: Seq<(Seq<char>, Json)>, k: Seq<char>)
    ensures
        (jget(es, k) is None) <==> (forall|i: int| 0 <= i < es.len() ==> es[i].0 != k),
    decreases es.len(),
{
    if es.len() > 0 {
        lemma_jget_none(es.drop_first(), k);
        assert forall|i: int| 1 <= i < es.len() implies es[i] == es.drop_first()[i - 1] by {}
    }
}

/// Binding a key leaves the other keys as they were.
pub proof fn lemma_jinsert_other(es: Seq<(Seq<char>, Json)>, k: Seq<char>, v: Json, other: Seq<char>)
    requires
        other != k,
    ensures
        jget(jinsert(es, k, v), other) == jget(es, other),
    decreases es.len(),
{
    if es.len() > 0 && es[0].0 != k && !key_lt(k, es[0].0) {
        lemma_jinsert_other(es.drop_first(), k, v, other);
        let ins = seq![es[0]] + jinsert(es.drop_first(), k, v);
        assert(ins.drop_first() =~= jinsert(es.drop_first(), k, v));
        assert(ins[0] == es[0]);
    } else if es.len() > 0 && es[0].0 == k {
        assert((seq![(k, v)] + es.drop_first()).drop_first() =~= es.drop_first());
    } else if es.len() > 0 {
        assert((seq![(k, v)] + es).drop_first() =~= es);
    } else {
        assert(seq![(k, v)].drop_first() =~= Seq::<(Seq<char>, Json)>::empty());
        assert(jget(Seq::<(Seq<char>, Json)>::empty(), other) is None);
    }
}

/// A key just bound is found with its new value.
pub proof fn lemma_jinsert_same(es: Seq<(Seq<char>, Json)>, k: Seq<char>, v: Json)
    ensures
        jget(jinsert(es, k, v), k) == Some(v),
    decreases es.len(),
{
    if es.len() > 0 && es[0].0 != k && !key_lt(k, es[0].0) {
        lemma_jinsert_same(es.drop_first(), k, v);
        assert((seq![es[0]] + jinsert(es.drop_first(), k, v)).drop_first() =~= jinsert(es.drop_first(), k, v));
    }
}

/// Removing a key leaves the other keys as they were.
pub proof fn lemma_jremove_other(es: Seq<(Seq<char>, Json)>, k: Seq<char>, other: Seq<char>)
    requires
        other != k,
    ensures
        jget(jremove(es, k), other) == jget(es, other),
    decreases es.len(),
{
    if es.len() > 0 && es[0].0 != k {
        lemma_jremove_other(es.drop_first(), k, other);
        assert((seq![es[0]] + jremove(es.drop_first(), k)).drop_first() =~= jremove(es.drop_first(), k));
    }
}

} // verus!
