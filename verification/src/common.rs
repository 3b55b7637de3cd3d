//! Helpers shared by the resource APIs: name checks, member lists and their updates.

use vstd::prelude::*;
use crate::error::{Error, ErrorView, Result};
use crate::response::{ResourceResponse, ResourceView};
use crate::text::{chars_eq, chars_of, push_str, str_eq, string_of, trim, trim_chars};
use crate::tree::{nodes_of, parse_xml_nodes, NodeView, XmlNode};

verus! {

/// A value that can be compared with another by what it stands for.
pub trait SameValue: Sized + View {
    /// Whether `self` and `other` stand for the same value.
    fn same_as(&self, other: &Self) -> (b: bool)
        ensures
            b == (self@ == other@);
}

impl SameValue for String {
    fn same_as(&self, other: &Self) -> (b: bool) {
        str_eq(self.as_str(), other.as_str())
    }
}

/// The views of a list.
pub open spec fn seq_views<T: View>(v: Seq<T>) -> Seq<T::V> {
    v.map_values(|x: T| x@)
}

/// `xs` with `x` appended unless it is already there.
pub open spec fn push_unique<A>(xs: Seq<A>, x: A) -> Seq<A> {
    if xs.contains(x) {
        xs
    } else {
        xs.push(x)
    }
}

/// `existing` followed by the values of `requested` it lacks, in request order, each once.
pub open spec fn add_unique<A>(existing: Seq<A>, requested: Seq<A>) -> Seq<A>
    decreases requested.len(),
{
    if requested.len() == 0 {
        existing
    } else {
        push_unique(add_unique(existing, requested.drop_last()), requested.last())
    }
}

/// The values of `existing`, in order, that `requested` does not hold.
pub open spec fn remove_requested<A>(existing: Seq<A>, requested: Seq<A>) -> Seq<A>
    decreases existing.len(),
{
    if existing.len() == 0 {
        existing
    } else {
        let rest = remove_requested(existing.drop_last(), requested);
        if requested.contains(existing.last()) {
            rest
        } else {
            rest.push(existing.last())
        }
    }
}

/// Whether `v` holds `x`.
pub fn contains_value<T: SameValue>(v: &Vec<T>, x: &T) -> (b: bool)
    ensures
        b == seq_views(v@).contains(x@),
{
    let mut i: usize = 0;
    while i < v.len()
        invariant
            i <= v@.len(),
            forall|j: int| 0 <= j < i ==> seq_views(v@)[j] != x@,
        decreases v@.len() - i,
    {
        if v[i].same_as(x) {
            assert(seq_views(v@)[i as int] == x@);
            return true;
        }
        i = i + 1;
    }
    false
}

/// `existing` followed by the requested values it lacks (see [`add_unique`]).
pub fn add_unique_values<T: SameValue>(existing: Vec<T>, requested: Vec<T>) -> (r: Vec<T>)
    ensures
        seq_views(r@) == add_unique(seq_views(existing@), seq_views(requested@)),
{
    let ghost e = seq_views(existing@);
    let ghost q = seq_views(requested@);
    let n = requested.len();
    let mut out = existing;
    let mut rest = requested;
    let mut i: usize = 0;
    assert(q.take(0) =~= Seq::<T::V>::empty());
    assert(seq_views(rest@) =~= q.skip(0));
    while rest.len() > 0
        invariant
            i + rest@.len() == n,
            q.len() == n,
            seq_views(rest@) == q.skip(i as int),
            seq_views(out@) == add_unique(e, q.take(i as int)),
        decreases rest@.len(),
    {
        let ghost old_rest = rest@;
        let x = rest.remove(0);
        assert(seq_views(rest@) =~= seq_views(old_rest).drop_first());
        assert(x@ == q[i as int]) by {
            assert(q.skip(i as int)[0] == q[i as int]);
        }
        assert(q.take(i + 1).drop_last() =~= q.take(i as int));
        let ghost before = out@;
        if !contains_value(&out, &x) {
            out.push(x);
            assert(seq_views(out@) =~= seq_views(before).push(q[i as int]));
        }
        assert(seq_views(rest@) =~= q.skip(i + 1));
        i = i + 1;
    }
    assert(q.take(i as int) =~= q);
    out
}

/// The values of `existing` that `requested` does not hold (see [`remove_requested`]).
pub fn remove_requested_values<T: SameValue>(existing: Vec<T>, requested: &Vec<T>) -> (r: Vec<T>)
    ensures
        seq_views(r@) == remove_requested(seq_views(existing@), seq_views(requested@)),
{
    let ghost e = seq_views(existing@);
    let ghost q = seq_views(requested@);
    let n = existing.len();
    let mut out: Vec<T> = Vec::new();
    let mut rest = existing;
    let mut i: usize = 0;
    assert(e.take(0) =~= Seq::<T::V>::empty());
    assert(seq_views(out@) =~= Seq::<T::V>::empty());
    assert(seq_views(rest@) =~= e.skip(0));
    while rest.len() > 0
        invariant
            i + rest@.len() == n,
            e.len() == n,
            q == seq_views(requested@),
            seq_views(rest@) == e.skip(i as int),
            seq_views(out@) == remove_requested(e.take(i as int), q),
        decreases rest@.len(),
    {
        let ghost old_rest = rest@;
        let x = rest.remove(0);
        assert(seq_views(rest@) =~= seq_views(old_rest).drop_first());
        assert(x@ == e[i as int]) by {
            assert(e.skip(i as int)[0] == e[i as int]);
        }
        assert(e.take(i + 1).drop_last() =~= e.take(i as int));
        assert(e.take(i + 1).last() == e[i as int]);
        let ghost before = out@;
        if !contains_value(requested, &x) {
            out.push(x);
            assert(seq_views(out@) =~= seq_views(before).push(e[i as int]));
        }
        assert(seq_views(rest@) =~= e.skip(i + 1));
        i = i + 1;
    }
    assert(e.take(i as int) =~= e);
    out
}

/// Adding keeps what was there, in place: the old list is a prefix of the new one.
pub proof fn lemma_add_unique_keeps_existing<A>(existing: Seq<A>, requested: Seq<A>)
    ensures
        existing.len() <= add_unique(existing, requested).len(),
        add_unique(existing, requested).take(existing.len() as int) == existing,
    decreases requested.len(),
{
    if requested.len() > 0 {
        lemma_add_unique_keeps_existing(existing, requested.drop_last());
        let prev = add_unique(existing, requested.drop_last());
        assert(prev.push(requested.last()).take(existing.len() as int) =~= prev.take(existing.len() as int));
    }
}

/// After adding, a value is present exactly when it was there before or was requested.
pub proof fn lemma_add_unique_members<A>(existing: Seq<A>, requested: Seq<A>, x: A)
    ensures
        add_unique(existing, requested).contains(x) <==> (existing.contains(x) || requested.contains(x)),
    decreases requested.len(),
{
    if requested.len() > 0 {
        lemma_add_unique_members(existing, requested.drop_last(), x);
        let prev = add_unique(existing, requested.drop_last());
        if requested.contains(x) && !requested.drop_last().contains(x) {
            let j = choose|j: int| 0 <= j < requested.len() && requested[j] == x;
            if j < requested.len() - 1 {
                assert(requested.drop_last()[j] == x);
            }
        }
        if requested.drop_last().contains(x) {
            let j = choose|j: int| 0 <= j < requested.drop_last().len() && requested.drop_last()[j] == x;
            assert(requested[j] == x);
        }
        if !prev.contains(requested.last()) {
            if prev.contains(x) {
                let j = choose|j: int| 0 <= j < prev.len() && prev[j] == x;
                assert(prev.push(requested.last())[j] == x);
            }
            assert(prev.push(requested.last())[prev.len() as int] == requested.last());
            if prev.push(requested.last()).contains(x) && x != requested.last() {
                let j = choose|j: int| 0 <= j < prev.len() + 1 && prev.push(requested.last())[j] == x;
                assert(prev[j] == x);
            }
        }
        if x == requested.last() {
            assert(requested[requested.len() - 1] == x);
        }
    }
}

/// Adding to a list without repeats gives a list without repeats.
pub proof fn lemma_add_unique_no_duplicates<A>(existing: Seq<A>, requested: Seq<A>)
    requires
        existing.no_duplicates(),
    ensures
        add_unique(existing, requested).no_duplicates(),
    decreases requested.len(),
{
    if requested.len() > 0 {
        lemma_add_unique_no_duplicates(existing, requested.drop_last());
        let prev = add_unique(existing, requested.drop_last());
        let x = requested.last();
        if !prev.contains(x) {
            let next = prev.push(x);
            assert forall|i: int, j: int| 0 <= i < next.len() && 0 <= j < next.len() && i != j implies next[i] != next[j] by {
                if i == prev.len() as int {
                    assert(next[j] == prev[j]);
                } else if j == prev.len() as int {
                    assert(next[i] == prev[i]);
                } else {
                    assert(next[i] == prev[i] && next[j] == prev[j]);
                }
            }
        }
    }
}

/// Adding what is already there changes nothing.
pub proof fn lemma_add_unique_idempotent<A>(existing: Seq<A>, requested: Seq<A>)
    ensures
        add_unique(add_unique(existing, requested), requested) == add_unique(existing, requested),
{
    let once = add_unique(existing, requested);
    assert forall|x: A| requested.contains(x) implies once.contains(x) by {
        lemma_add_unique_members(existing, requested, x);
    }
    lemma_add_present(once, requested);
}

/// Adding values that are all present changes nothing.
proof fn lemma_add_present<A>(xs: Seq<A>, requested: Seq<A>)
    requires
        forall|x: A| requested.contains(x) ==> xs.contains(x),
    ensures
        add_unique(xs, requested) == xs,
    decreases requested.len(),
{
    if requested.len() > 0 {
        assert forall|x: A| requested.drop_last().contains(x) implies xs.contains(x) by {
            let j = choose|j: int| 0 <= j < requested.drop_last().len() && requested.drop_last()[j] == x;
            assert(requested[j] == x);
        }
        lemma_add_present(xs, requested.drop_last());
        assert(requested.contains(requested.last())) by {
            assert(requested[requested.len() - 1] == requested.last());
        }
    }
}

/// After removing, a value is present exactly when it was there and was not requested.
pub proof fn lemma_remove_requested_members<A>(existing: Seq<A>, requested: Seq<A>, x: A)
    ensures
        remove_requested(existing, requested).contains(x) <==> (existing.contains(x) && !requested.contains(x)),
    decreases existing.len(),
{
    if existing.len() > 0 {
        let init = existing.drop_last();
        let last = existing.last();
        lemma_remove_requested_members(init, requested, x);
        let rest = remove_requested(init, requested);
        if existing.contains(x) && x != last {
            let j = choose|j: int| 0 <= j < existing.len() && existing[j] == x;
            assert(init[j] == x);
        }
        if init.contains(x) {
            let j = choose|j: int| 0 <= j < init.len() && init[j] == x;
            assert(existing[j] == x);
        }
        if x == last {
            assert(existing[existing.len() - 1] == x);
        }
        if !requested.contains(last) {
            if rest.contains(x) {
                let j = choose|j: int| 0 <= j < rest.len() && rest[j] == x;
                assert(rest.push(last)[j] == x);
            }
            assert(rest.push(last)[rest.len() as int] == last);
            if rest.push(last).contains(x) && x != last {
                let j = choose|j: int| 0 <= j < rest.len() + 1 && rest.push(last)[j] == x;
                assert(rest[j] == x);
            }
        }
    }
}

/// Removing works element by element and keeps order: the values kept from two parts of a
/// list are those kept from the first part followed by those kept from the second.
pub proof fn lemma_remove_requested_append<A>(a: Seq<A>, b: Seq<A>, requested: Seq<A>)
    ensures
        remove_requested(a + b, requested) == remove_requested(a, requested) + remove_requested(b, requested),
    decreases b.len(),
{
    if b.len() == 0 {
        assert(a + b =~= a);
        assert(remove_requested(a, requested) + remove_requested(b, requested) =~= remove_requested(a, requested));
    } else {
        assert((a + b).drop_last() =~= a + b.drop_last());
        assert((a + b).last() == b.last());
        lemma_remove_requested_append(a, b.drop_last(), requested);
        let ra = remove_requested(a, requested);
        let rb = remove_requested(b.drop_last(), requested);
        assert((ra + rb).push(b.last()) =~= ra + rb.push(b.last()));
    }
}

/// Removing nothing that is present changes nothing.
pub proof fn lemma_remove_requested_unmentioned<A>(existing: Seq<A>, requested: Seq<A>)
    requires
        forall|x: A| existing.contains(x) ==> !requested.contains(x),
    ensures
        remove_requested(existing, requested) == existing,
    decreases existing.len(),
{
    if existing.len() > 0 {
        assert forall|x: A| existing.drop_last().contains(x) implies !requested.contains(x) by {
            let j = choose|j: int| 0 <= j < existing.drop_last().len() && existing.drop_last()[j] == x;
            assert(existing[j] == x);
        }
        lemma_remove_requested_unmentioned(existing.drop_last(), requested);
        assert(existing.contains(existing.last())) by {
            assert(existing[existing.len() - 1] == existing.last());
        }
        assert(existing.drop_last().push(existing.last()) =~= existing);
    }
}

/// Removing a superset of what was added gives the same as removing it from the old list.
proof fn lemma_remove_after_add<A>(existing: Seq<A>, added: Seq<A>, removed: Seq<A>)
    requires
        forall|x: A| added.contains(x) ==> removed.contains(x),
    ensures
        remove_requested(add_unique(existing, added), removed) == remove_requested(existing, removed),
    decreases added.len(),
{
    if added.len() > 0 {
        assert forall|x: A| added.drop_last().contains(x) implies removed.contains(x) by {
            let j = choose|j: int| 0 <= j < added.drop_last().len() && added.drop_last()[j] == x;
            assert(added[j] == x);
        }
        lemma_remove_after_add(existing, added.drop_last(), removed);
        let prev = add_unique(existing, added.drop_last());
        let last = added.last();
        assert(added.contains(last)) by {
            assert(added[added.len() - 1] == last);
        }
        if !prev.contains(last) {
            assert(prev.push(last).drop_last() =~= prev);
            assert(prev.push(last).last() == last);
        }
    }
}

/// Removing a list of values undoes adding it: what remains is the old list without them.
pub proof fn lemma_remove_undoes_add<A>(existing: Seq<A>, requested: Seq<A>)
    ensures
        remove_requested(add_unique(existing, requested), requested) == remove_requested(existing, requested),
{
    lemma_remove_after_add(existing, requested, requested);
}

/// `"{label} must not be empty"`.
pub open spec fn empty_error(label: Seq<char>) -> ErrorView {
    ErrorView::InvalidRequest(label + " must not be empty"@)
}

/// `value` trimmed, or the error for a blank one.
pub open spec fn name_of(label: Seq<char>, value: Seq<char>) -> core::result::Result<Seq<char>, ErrorView> {
    if trim(value).len() == 0 {
        Err(empty_error(label))
    } else {
        Ok(trim(value))
    }
}

/// A name already normalized normalizes to itself, under any label.
pub proof fn lemma_name_of_idempotent(label: Seq<char>, other: Seq<char>, value: Seq<char>)
    requires
        name_of(label, value) is Ok,
    ensures
        name_of(other, name_of(label, value)->Ok_0) == name_of(label, value),
{
    crate::text::lemma_trim_idempotent(value);
}

/// The error for a blank `label`.
pub fn empty_error_exec(label: &str) -> (e: Error)
    ensures
        e@ == empty_error(label@),
{
    let mut m: Vec<char> = Vec::new();
    push_str(&mut m, label);
    push_str(&mut m, " must not be empty");
    Error::InvalidRequest(string_of(m.as_slice()))
}

/// `value` without surrounding white space; blank values are refused.
pub fn normalize_name(label: &str, value: &str) -> (r: Result<String>)
    ensures
        match name_of(label@, value@) {
            Ok(n) => r matches Ok(s) && s@ == n,
            Err(e) => r matches Err(x) && x@ == e,
        },
{
    let v = chars_of(value);
    let t = trim_chars(v.as_slice());
    if t.len() == 0 {
        return Err(empty_error_exec(label));
    }
    Ok(string_of(t.as_slice()))
}

/// Whether some value of `vs` is blank.
pub open spec fn has_blank(vs: Seq<Seq<char>>) -> bool {
    exists|i: int| 0 <= i < vs.len() && trim(vs[i]).len() == 0
}

/// Each value trimmed.
pub open spec fn trimmed(vs: Seq<Seq<char>>) -> Seq<Seq<char>> {
    vs.map_values(|v: Seq<char>| trim(v))
}

/// The values trimmed, first occurrences kept, in order; a blank value, or no value when
/// one is required, is an error.
pub open spec fn named_list_of(label: Seq<char>, vs: Seq<Seq<char>>, require_non_empty: bool) -> core::result::Result<
    Seq<Seq<char>>,
    ErrorView,
> {
    if has_blank(vs) {
        Err(empty_error(label))
    } else {
        let u = add_unique(Seq::<Seq<char>>::empty(), trimmed(vs));
        if require_non_empty && u.len() == 0 {
            Err(ErrorView::InvalidRequest(label + "s must not be empty"@))
        } else {
            Ok(u)
        }
    }
}

/// The views of a list of string slices.
pub open spec fn str_views(v: Seq<&str>) -> Seq<Seq<char>> {
    v.map_values(|s: &str| s@)
}

/// The values trimmed and without repeats (see [`named_list_of`]).
pub fn normalize_named_list(label: &str, values: &Vec<&str>, require_non_empty: bool) -> (r: Result<Vec<String>>)
    ensures
        match named_list_of(label@, str_views(values@), require_non_empty) {
            Ok(u) => r matches Ok(v) && seq_views(v@) == u,
            Err(e) => r matches Err(x) && x@ == e,
        },
{
    let ghost vs = str_views(values@);
    let mut out: Vec<String> = Vec::new();
    let mut i: usize = 0;
    assert(trimmed(vs).take(0) =~= Seq::<Seq<char>>::empty());
    assert(seq_views(out@) =~= Seq::<Seq<char>>::empty());
    while i < values.len()
        invariant
            i <= values@.len(),
            vs == str_views(values@),
            forall|j: int| 0 <= j < i ==> trim(vs[j]).len() > 0,
            seq_views(out@) == add_unique(Seq::<Seq<char>>::empty(), trimmed(vs).take(i as int)),
        decreases values@.len() - i,
    {
        let c = chars_of(values[i]);
        let t = trim_chars(c.as_slice());
        if t.len() == 0 {
            assert(trim(vs[i as int]).len() == 0);
            return Err(empty_error_exec(label));
        }
        let s = string_of(t.as_slice());
        assert(trimmed(vs).take(i + 1).drop_last() =~= trimmed(vs).take(i as int));
        assert(trimmed(vs).take(i + 1).last() == s@);
        let ghost before = out@;
        if !contains_value(&out, &s) {
            out.push(s);
            assert(seq_views(out@) =~= seq_views(before).push(trim(vs[i as int])));
        }
        i = i + 1;
    }
    assert(trimmed(vs).take(i as int) =~= trimmed(vs));
    if require_non_empty && out.len() == 0 {
        let mut m: Vec<char> = Vec::new();
        push_str(&mut m, label);
        push_str(&mut m, "s must not be empty");
        return Err(Error::InvalidRequest(string_of(m.as_slice())));
    }
    Ok(out)
}

/// The first of `rs` named `name`.
pub open spec fn find_resource(rs: Seq<ResourceView>, name: Seq<char>) -> Option<ResourceView>
    decreases rs.len(),
{
    if rs.len() == 0 {
        None
    } else if rs[0].name == name {
        Some(rs[0])
    } else {
        find_resource(rs.drop_first(), name)
    }
}

/// The first of `rs` named `name`, or the error for a reply that lacks it.
pub open spec fn named_resource_of(rs: Seq<ResourceView>, name: Seq<char>) -> core::result::Result<ResourceView, ErrorView> {
    match find_resource(rs, name) {
        Some(r) => Ok(r),
        None => Err(ErrorView::ResponseParse("missing "@ + name + " response"@)),
    }
}

/// The first resource reply named `resource_name`.
pub fn first_named_resource(resources: Vec<ResourceResponse>, resource_name: &str) -> (r: Result<ResourceResponse>)
    ensures
        match named_resource_of(crate::response::resource_views(resources@), resource_name@) {
            Ok(x) => r matches Ok(y) && y@ == x,
            Err(e) => r matches Err(y) && y@ == e,
        },
{
    let ghost rs = crate::response::resource_views(resources@);
    let n = resources.len();
    let mut rest = resources;
    let mut i: usize = 0;
    assert(rs.skip(0) =~= rs);
    while rest.len() > 0
        invariant
            i + rest@.len() == n,
            rs.len() == n,
            rs == crate::response::resource_views(resources@),
            crate::response::resource_views(rest@) == rs.skip(i as int),
            find_resource(rs, resource_name@) == find_resource(rs.skip(i as int), resource_name@),
        decreases rest@.len(),
    {
        let ghost old_rest = rest@;
        let x = rest.remove(0);
        assert(old_rest[0] == x);
        assert(crate::response::resource_views(old_rest)[0] == x@);
        assert(rs.skip(i as int)[0] == x@);
        assert(rs.skip(i as int).drop_first() =~= rs.skip(i + 1));
        if str_eq(x.name.as_str(), resource_name) {
            assert(find_resource(rs.skip(i as int), resource_name@) == Some(x@));
            return Ok(x);
        }
        assert(crate::response::resource_views(rest@) =~= crate::response::resource_views(old_rest).drop_first());
        assert(crate::response::resource_views(rest@) =~= rs.skip(i + 1));
        i = i + 1;
    }
    let mut m: Vec<char> = Vec::new();
    push_str(&mut m, "missing ");
    push_str(&mut m, resource_name);
    push_str(&mut m, " response");
    Err(Error::ResponseParse(string_of(m.as_slice())))
}

/// The view of the result of reading one element.
pub open spec fn read_view<T: View>(r: Result<Option<T>>) -> core::result::Result<Option<T::V>, ErrorView> {
    match r {
        Ok(Some(x)) => Ok(Some(x@)),
        Ok(None) => Ok(None),
        Err(e) => Err(e@),
    }
}

/// The values `read` gives for the elements of `ns` named `name`, in order; the first
/// error stops the reading.
pub open spec fn items_in_nodes<V>(
    ns: Seq<NodeView>,
    name: Seq<char>,
    read: spec_fn(NodeView) -> core::result::Result<Option<V>, ErrorView>,
) -> core::result::Result<Seq<V>, ErrorView>
    decreases ns.len(),
{
    if ns.len() == 0 {
        Ok(Seq::empty())
    } else {
        match items_in_nodes(ns.drop_last(), name, read) {
            Err(e) => Err(e),
            Ok(acc) => if ns.last().name != name {
                Ok(acc)
            } else {
                match read(ns.last()) {
                    Err(e) => Err(e),
                    Ok(None) => Ok(acc),
                    Ok(Some(x)) => Ok(acc.push(x)),
                }
            },
        }
    }
}

/// The values `read` gives for the top-level elements named `name` in the bodies of the
/// resource replies named `name`, in order; the first error stops the reading.
pub open spec fn items_in_resources<V>(
    rs: Seq<ResourceView>,
    name: Seq<char>,
    read: spec_fn(NodeView) -> core::result::Result<Option<V>, ErrorView>,
) -> core::result::Result<Seq<V>, ErrorView>
    decreases rs.len(),
{
    if rs.len() == 0 {
        Ok(Seq::empty())
    } else {
        match items_in_resources(rs.drop_last(), name, read) {
            Err(e) => Err(e),
            Ok(acc) => if rs.last().name != name {
                Ok(acc)
            } else {
                match nodes_of(rs.last().body) {
                    Err(e) => Err(e),
                    Ok(ns) => match items_in_nodes(ns, name, read) {
                        Err(e) => Err(e),
                        Ok(xs) => Ok(acc + xs),
                    },
                }
            },
        }
    }
}

/// Once reading a prefix of `ns` has failed, reading `ns` fails the same way.
proof fn lemma_items_in_nodes_error<V>(
    ns: Seq<NodeView>,
    name: Seq<char>,
    read: spec_fn(NodeView) -> core::result::Result<Option<V>, ErrorView>,
    k: int,
)
    requires
        0 <= k <= ns.len(),
        items_in_nodes(ns.take(k), name, read) is Err,
    ensures
        items_in_nodes(ns, name, read) == items_in_nodes(ns.take(k), name, read),
    decreases ns.len(),
{
    if k == ns.len() {
        assert(ns.take(k) =~= ns);
    } else {
        assert(ns.drop_last().take(k) =~= ns.take(k));
        lemma_items_in_nodes_error(ns.drop_last(), name, read, k);
    }
}

/// Once reading a prefix of `rs` has failed, reading `rs` fails the same way.
proof fn lemma_items_in_resources_error<V>(
    rs: Seq<ResourceView>,
    name: Seq<char>,
    read: spec_fn(NodeView) -> core::result::Result<Option<V>, ErrorView>,
    k: int,
)
    requires
        0 <= k <= rs.len(),
        items_in_resources(rs.take(k), name, read) is Err,
    ensures
        items_in_resources(rs, name, read) == items_in_resources(rs.take(k), name, read),
    decreases rs.len(),
{
    if k == rs.len() {
        assert(rs.take(k) =~= rs);
    } else {
        assert(rs.drop_last().take(k) =~= rs.take(k));
        lemma_items_in_resources_error(rs.drop_last(), name, read, k);
    }
}

/// The values `read` gives for the elements of `nodes` named `name` (see
/// [`items_in_nodes`]).
fn items_from_nodes<T: View, F: Fn(&XmlNode) -> Result<Option<T>>>(
    nodes: &Vec<XmlNode>,
    name: &str,
    read: &F,
    Ghost(spec_read): Ghost<spec_fn(NodeView) -> core::result::Result<Option<T::V>, ErrorView>>,
) -> (r: Result<Vec<T>>)
    requires
        forall|n: &XmlNode| #[trigger] read.requires((n,)),
        forall|n: &XmlNode, x: Result<Option<T>>| read.ensures((n,), x) ==> read_view(x) == spec_read(n@),
    ensures
        match items_in_nodes(crate::tree::node_views(nodes@), name@, spec_read) {
            Ok(xs) => r matches Ok(v) && seq_views(v@) == xs,
            Err(e) => r matches Err(x) && x@ == e,
        },
{
    let ghost ns = crate::tree::node_views(nodes@);
    let nc = chars_of(name);
    let mut out: Vec<T> = Vec::new();
    let mut i: usize = 0;
    assert(ns.take(0) =~= Seq::<NodeView>::empty());
    assert(seq_views(out@) =~= Seq::<T::V>::empty());
    while i < nodes.len()
        invariant
            i <= nodes@.len(),
            ns == crate::tree::node_views(nodes@),
            nc@ == name@,
            forall|n: &XmlNode| #[trigger] read.requires((n,)),
            forall|n: &XmlNode, x: Result<Option<T>>| read.ensures((n,), x) ==> read_view(x) == spec_read(n@),
            items_in_nodes(ns.take(i as int), name@, spec_read) == Ok::<Seq<T::V>, ErrorView>(seq_views(out@)),
        decreases nodes@.len() - i,
    {
        assert(ns.take(i + 1).drop_last() =~= ns.take(i as int));
        assert(ns.take(i + 1).last() == nodes@[i as int]@);
        if chars_eq(nodes[i].name.as_slice(), nc.as_slice()) {
            let x = read(&nodes[i]);
            match x {
                Ok(Some(item)) => {
                    let ghost before = out@;
                    let ghost iv = item@;
                    out.push(item);
                    assert(seq_views(out@) =~= seq_views(before).push(iv));
                },
                Ok(None) => {},
                Err(e) => {
                    proof { lemma_items_in_nodes_error(ns, name@, spec_read, i + 1); }
                    return Err(e);
                },
            }
        }
        i = i + 1;
    }
    assert(ns.take(i as int) =~= ns);
    Ok(out)
}

/// The values `read` gives for the elements named `name` in the replies named `name`
/// (see [`items_in_resources`]).
pub fn items_from_response<T: View, F: Fn(&XmlNode) -> Result<Option<T>>>(
    resources: &Vec<ResourceResponse>,
    name: &str,
    read: F,
    Ghost(spec_read): Ghost<spec_fn(NodeView) -> core::result::Result<Option<T::V>, ErrorView>>,
) -> (r: Result<Vec<T>>)
    requires
        forall|n: &XmlNode| #[trigger] read.requires((n,)),
        forall|n: &XmlNode, x: Result<Option<T>>| read.ensures((n,), x) ==> read_view(x) == spec_read(n@),
    ensures
        match items_in_resources(crate::response::resource_views(resources@), name@, spec_read) {
            Ok(xs) => r matches Ok(v) && seq_views(v@) == xs,
            Err(e) => r matches Err(x) && x@ == e,
        },
{
    let ghost rs = crate::response::resource_views(resources@);
    let mut out: Vec<T> = Vec::new();
    let mut i: usize = 0;
    assert(rs.take(0) =~= Seq::<ResourceView>::empty());
    assert(seq_views(out@) =~= Seq::<T::V>::empty());
    while i < resources.len()
        invariant
            i <= resources@.len(),
            rs == crate::response::resource_views(resources@),
            forall|n: &XmlNode| #[trigger] read.requires((n,)),
            forall|n: &XmlNode, x: Result<Option<T>>| read.ensures((n,), x) ==> read_view(x) == spec_read(n@),
            items_in_resources(rs.take(i as int), name@, spec_read) == Ok::<Seq<T::V>, ErrorView>(seq_views(out@)),
        decreases resources@.len() - i,
    {
        assert(rs.take(i + 1).drop_last() =~= rs.take(i as int));
        assert(rs.take(i + 1).last() == resources@[i as int]@);
        if str_eq(resources[i].name.as_str(), name) {
            match parse_xml_nodes(resources[i].body_xml.as_str()) {
                Ok(nodes) => match items_from_nodes(&nodes, name, &read, Ghost(spec_read)) {
                    Ok(mut items) => {
                        let ghost before = out@;
                        let ghost more = items@;
                        out.append(&mut items);
                        assert(seq_views(out@) =~= seq_views(before) + seq_views(more));
                    },
                    Err(e) => {
                        proof { lemma_items_in_resources_error(rs, name@, spec_read, i + 1); }
                        return Err(e);
                    },
                },
                Err(e) => {
                    proof { lemma_items_in_resources_error(rs, name@, spec_read, i + 1); }
                    return Err(e);
                },
            }
        }
        i = i + 1;
    }
    assert(rs.take(i as int) =~= rs);
    Ok(out)
}

} // verus!
