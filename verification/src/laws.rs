//! What holds of the library across all inputs: properties of the normalizers, the
//! request builder, the reply parser and the batch and group operations, stated over the
//! spec functions the operations' contracts use.

use vstd::prelude::*;
use crate::common::{
    add_unique, lemma_add_unique_keeps_existing, lemma_add_unique_members,
    lemma_add_unique_no_duplicates, lemma_remove_requested_members, lemma_remove_requested_unmentioned,
    lemma_remove_undoes_add,
    named_list_of, remove_requested, trimmed,
};
use crate::dns::{
    address_of, address_problem, bulk_add_of, dns_add_outcome, bulk_update_of, first_bad_label, host_name_of,
    trim_end_dots, utf8_len, valid_label, AddressView, EntryType, EntryUpdateView,
    EntryView, IpFamily, PublishOnWan,
};
use crate::client::{Link, Reply};
use crate::error::{error_text, ErrorView};
use crate::ip::split_on;
use crate::json::{jget, jinsert, lemma_jinsert_other, lemma_jinsert_same, lemma_jremove_other, Json};
use crate::objects::{items_tags_error, members_tags_error, value_tags_error, with_field_of, ObjectView};
use crate::service::updated_values;
use crate::text::{tag_error, trim, valid_tag};
use crate::tree::grouped;
use crate::response::{parse_events, parse_response_of, parse_step, status_error, ParseView};
use crate::events::{classify, written_events, EventClass};
use crate::json::{items_xml, json_xml, members_xml};
use crate::request::{RequestView, SophosConnection};
use crate::xml::{request_xml_of, set_fields, valid_set_operation};
use crate::authz::{scope_decision, ObjectScope};
use crate::text::views;
use crate::web::{entry_of_body, request_name, url_group_of_body, DnsHostAddressBody};

verus! {

/// In a request body's conversion to an entry or a URL group to create, a name in the
/// path wins over the one in the body, which is then not looked at; without a path name
/// the body's name is taken, and without either the conversion is refused.
pub proof fn lemma_path_name_wins(
    path_name: String,
    body_name: Option<String>,
    addresses: Seq<DnsHostAddressBody>,
    add_reverse_dns_lookup: bool,
    domains: Seq<Seq<char>>,
)
    ensures
        request_name(Some(path_name), body_name) == Some(path_name@),
        entry_of_body(request_name(Some(path_name), body_name), addresses, add_reverse_dns_lookup)
            == entry_of_body(Some(path_name@), addresses, add_reverse_dns_lookup),
        url_group_of_body(request_name(Some(path_name), body_name), domains)
            == url_group_of_body(Some(path_name@), domains),
        request_name(None, body_name) == crate::text::opt_view(body_name),
        entry_of_body(None, addresses, add_reverse_dns_lookup)
            == Err::<EntryView, ErrorView>(ErrorView::InvalidRequest("host_name is required"@)),
        url_group_of_body(None, domains) is Err,
{
}

/// An object scope of any object covers every request; one of named objects covers no
/// request without an object, and a request's object exactly when it is among the names.
pub proof fn lemma_scope_decision(names: Vec<String>, object: Option<Seq<char>>, n: Seq<char>)
    ensures
        scope_decision(ObjectScope::Any, object) is Ok,
        scope_decision(ObjectScope::Named(names), None) is Err,
        (scope_decision(ObjectScope::Named(names), Some(n)) is Ok) <==> views(names@).contains(n),
{
}

/// A group update as filters: adding appends to the existing members the first
/// occurrence of each requested member they lack, in request order; removing keeps, in
/// order, the existing members not requested; replacing gives the requested members. Each
/// keeps a group without repeats free of them, when the requested members have none.
pub proof fn lemma_group_update_as_filters<A>(existing: Seq<A>, requested: Seq<A>)
    ensures
        updated_values(existing, requested, true, false)
            == existing + first_occurrences(requested).filter(|x: A| !existing.contains(x)),
        updated_values(existing, requested, false, true) == existing.filter(|x: A| !requested.contains(x)),
        updated_values(existing, requested, false, false) == requested,
        (existing.no_duplicates() && requested.no_duplicates()) ==> {
            &&& updated_values(existing, requested, true, false).no_duplicates()
            &&& updated_values(existing, requested, false, true).no_duplicates()
            &&& updated_values(existing, requested, false, false).no_duplicates()
        },
{
    lemma_add_as_filter(existing, requested);
    lemma_remove_as_filter(existing, requested);
    if existing.no_duplicates() {
        lemma_add_unique_no_duplicates(existing, requested);
        lemma_remove_keeps_no_duplicates(existing, requested);
    }
}

/// See [`lemma_group_update_as_filters`], for adding.
proof fn lemma_add_as_filter<A>(existing: Seq<A>, requested: Seq<A>)
    ensures
        add_unique(existing, requested) == existing + first_occurrences(requested).filter(|x: A| !existing.contains(x)),
    decreases requested.len(),
{
    let pred = |x: A| !existing.contains(x);
    if requested.len() == 0 {
        reveal(Seq::filter);
        assert(first_occurrences(requested).filter(pred) =~= Seq::<A>::empty());
        assert(existing + Seq::<A>::empty() =~= existing);
    } else {
        let r = requested.drop_last();
        let x = requested.last();
        lemma_add_as_filter(existing, r);
        lemma_add_unique_members(existing, r, x);
        let f = first_occurrences(r);
        if r.contains(x) {
            assert(first_occurrences(requested) == f);
        } else {
            assert(first_occurrences(requested) == f.push(x));
            f.lemma_filter_push(x, pred);
            if existing.contains(x) {
                assert(first_occurrences(requested).filter(pred) == f.filter(pred));
            } else {
                assert(first_occurrences(requested).filter(pred) == f.filter(pred).push(x));
                assert(existing + f.filter(pred).push(x) =~= (existing + f.filter(pred)).push(x));
            }
        }
    }
}

/// See [`lemma_group_update_as_filters`], for removing.
proof fn lemma_remove_as_filter<A>(existing: Seq<A>, requested: Seq<A>)
    ensures
        remove_requested(existing, requested) == existing.filter(|x: A| !requested.contains(x)),
    decreases existing.len(),
{
    reveal(Seq::filter);
    if existing.len() > 0 {
        lemma_remove_as_filter(existing.drop_last(), requested);
    }
}

/// Removing from a list without repeats leaves a list without repeats.
proof fn lemma_remove_keeps_no_duplicates<A>(existing: Seq<A>, requested: Seq<A>)
    requires
        existing.no_duplicates(),
    ensures
        remove_requested(existing, requested).no_duplicates(),
    decreases existing.len(),
{
    if existing.len() > 0 {
        let init = existing.drop_last();
        let last = existing.last();
        assert(init.no_duplicates()) by {
            assert forall|i: int, j: int| 0 <= i < init.len() && 0 <= j < init.len() && i != j implies init[i] != init[j] by {
                assert(init[i] == existing[i] && init[j] == existing[j]);
            }
        }
        lemma_remove_keeps_no_duplicates(init, requested);
        let rest = remove_requested(init, requested);
        if !requested.contains(last) {
            lemma_remove_requested_members(init, requested, last);
            assert(!init.contains(last)) by {
                if init.contains(last) {
                    let k = choose|k: int| 0 <= k < init.len() && init[k] == last;
                    assert(existing[k] == existing[existing.len() - 1]);
                }
            }
            let next = rest.push(last);
            assert forall|i: int, j: int| 0 <= i < next.len() && 0 <= j < next.len() && i != j implies next[i] != next[j] by {
                if i == rest.len() as int && j < rest.len() {
                    assert(rest.contains(rest[j]));
                } else if j == rest.len() as int && i < rest.len() {
                    assert(rest.contains(rest[i]));
                }
            }
        }
    }
}

/// A group update adds the requested members after the existing ones, each once;
/// removes exactly the requested ones, keeping the order of the rest; or replaces the
/// members by the requested ones. Removing what was just added gives back the group, when
/// none of its members was requested.
pub proof fn lemma_group_update_members<A>(existing: Seq<A>, requested: Seq<A>, x: A)
    ensures
        updated_values(existing, requested, true, false).contains(x) <==> (existing.contains(x)
            || requested.contains(x)),
        updated_values(existing, requested, true, false).take(existing.len() as int) == existing,
        existing.no_duplicates() ==> updated_values(existing, requested, true, false).no_duplicates(),
        updated_values(existing, requested, false, true).contains(x) <==> (existing.contains(x)
            && !requested.contains(x)),
        updated_values(existing, requested, false, true) == remove_requested(existing, requested),
        updated_values(existing, requested, false, false) == requested,
        (forall|y: A| existing.contains(y) ==> !requested.contains(y))
            ==> updated_values(updated_values(existing, requested, true, false), requested, false, true)
            == existing,
{
    lemma_add_unique_members(existing, requested, x);
    lemma_add_unique_keeps_existing(existing, requested);
    if existing.no_duplicates() {
        lemma_add_unique_no_duplicates(existing, requested);
    }
    lemma_remove_requested_members(existing, requested, x);
    if forall|y: A| existing.contains(y) ==> !requested.contains(y) {
        lemma_remove_undoes_add(existing, requested);
        lemma_remove_requested_unmentioned(existing, requested);
    }
}

/// Every label of `ls` is valid exactly when none is bad.
proof fn lemma_bad_label_iff(ls: Seq<Seq<char>>)
    ensures
        (first_bad_label(ls) is None) <==> forall|i: int| 0 <= i < ls.len() ==> valid_label(#[trigger] ls[i]),
    decreases ls.len(),
{
    if ls.len() > 0 {
        lemma_bad_label_iff(ls.drop_first());
        assert forall|i: int| 1 <= i < ls.len() implies ls[i] == #[trigger] ls.drop_first()[i - 1] by {}
        if forall|i: int| 0 <= i < ls.drop_first().len() ==> valid_label(#[trigger] ls.drop_first()[i]) {
            assert forall|i: int| 0 <= i < ls.len() && valid_label(ls[0]) implies valid_label(#[trigger] ls[i]) by {
                if i > 0 {
                    assert(ls[i] == ls.drop_first()[i - 1]);
                }
            }
        }
        if forall|i: int| 0 <= i < ls.len() ==> valid_label(#[trigger] ls[i]) {
            assert(valid_label(ls[0]));
            assert forall|i: int| 0 <= i < ls.drop_first().len() implies valid_label(#[trigger] ls.drop_first()[i]) by {
                assert(ls.drop_first()[i] == ls[i + 1]);
            }
        }
    }
}

/// A host name is accepted exactly when, trimmed and without its trailing dots, it is not
/// empty, takes at most 253 bytes, and each of its dot-separated labels is 1 to 63 ASCII
/// letters, digits and hyphens, starting and ending with a letter or digit; it is then
/// that trimmed form.
pub proof fn lemma_host_name_rules(value: Seq<char>)
    ensures
        (host_name_of(value) is Ok) <==> ({
            let n = trim_end_dots(trim(value));
            &&& n.len() > 0
            &&& utf8_len(n) <= 253
            &&& forall|i: int| 0 <= i < split_on(n, '.').len() ==> valid_label(#[trigger] split_on(n, '.')[i])
        }),
        host_name_of(value) matches Ok(n) ==> n == trim_end_dots(trim(value)),
{
    lemma_bad_label_iff(split_on(trim_end_dots(trim(value)), '.'));
}

/// An address is accepted exactly when its text is not blank, its TTL is within
/// 1..=604800 and, for a manual entry, the text is a host address of its family; the
/// accepted address keeps every field as given.
pub proof fn lemma_address_acceptance(
    entry_type: EntryType,
    ip_family: IpFamily,
    ip_address: Seq<char>,
    ttl: u32,
    weight: u8,
    publish_on_wan: PublishOnWan,
)
    ensures
        (address_of(entry_type, ip_family, ip_address, ttl, weight, publish_on_wan) is Ok) <==> (trim(ip_address).len()
            > 0 && 1 <= ttl <= 604800 && (entry_type == EntryType::Manual ==> address_problem(ip_family, ip_address) is None)),
        address_of(entry_type, ip_family, ip_address, ttl, weight, publish_on_wan) matches Ok(a) ==> a == (AddressView {
            entry_type,
            ip_family,
            ip_address,
            ttl,
            weight,
            publish_on_wan,
        }),
{
}

/// Each message of a refused member key is that of a key that is no valid tag.
proof fn lemma_value_tags_error_is_tag_error(v: Json)
    ensures
        value_tags_error(v) matches Some(m) ==> exists|t: Seq<char>| !valid_tag(t) && m == #[trigger] tag_error(t),
    decreases v,
{
    match v {
        Json::Object(es) => lemma_members_tags_error_is_tag_error(es),
        Json::Array(vs) => lemma_items_tags_error_is_tag_error(vs),
        _ => {},
    }
}

/// See [`lemma_value_tags_error_is_tag_error`], for members.
proof fn lemma_members_tags_error_is_tag_error(es: Seq<(Seq<char>, Json)>)
    ensures
        members_tags_error(es) matches Some(m) ==> exists|t: Seq<char>| !valid_tag(t) && m == #[trigger] tag_error(t),
    decreases es,
{
    if es.len() > 0 {
        lemma_members_tags_error_is_tag_error(es.drop_last());
        lemma_value_tags_error_is_tag_error(es.last().1);
    }
}

/// See [`lemma_value_tags_error_is_tag_error`], for items.
proof fn lemma_items_tags_error_is_tag_error(vs: Seq<Json>)
    ensures
        items_tags_error(vs) matches Some(m) ==> exists|t: Seq<char>| !valid_tag(t) && m == #[trigger] tag_error(t),
    decreases vs,
{
    if vs.len() > 0 {
        lemma_items_tags_error_is_tag_error(vs.drop_last());
        lemma_value_tags_error_is_tag_error(vs.last());
    }
}

/// Setting a field succeeds exactly when the trimmed field name and every member key
/// inside the value are valid tags; it then stores the value under the trimmed name and
/// leaves the name and every other field as they were. Every refusal is an invalid
/// request whose message names a key that is no valid tag.
pub proof fn lemma_with_field_sets_field(o: ObjectView, field: Seq<char>, value: Json, other: Seq<char>)
    ensures
        (with_field_of(o, field, value) is Ok) <==> (valid_tag(trim(field)) && value_tags_error(value) is None),
        with_field_of(o, field, value) matches Ok(r) ==> {
            &&& r.name == o.name
            &&& jget(r.fields, trim(field)) == Some(value)
            &&& other != trim(field) ==> jget(r.fields, other) == jget(o.fields, other)
        },
        with_field_of(o, field, value) matches Err(e) ==> exists|t: Seq<char>|
            !valid_tag(t) && e == ErrorView::InvalidRequest(#[trigger] tag_error(t)),
{
    lemma_value_tags_error_is_tag_error(value);
    lemma_jinsert_same(o.fields, trim(field), value);
    if other != trim(field) {
        lemma_jinsert_other(o.fields, trim(field), value, other);
    }
    if !valid_tag(trim(field)) {
        assert(with_field_of(o, field, value) == Err::<ObjectView, ErrorView>(ErrorView::InvalidRequest(tag_error(trim(field)))));
    } else if value_tags_error(value) is Some {
        let m = value_tags_error(value)->Some_0;
        let t = choose|t: Seq<char>| !valid_tag(t) && m == #[trigger] tag_error(t);
        assert(with_field_of(o, field, value) == Err::<ObjectView, ErrorView>(ErrorView::InvalidRequest(tag_error(t))));
    }
}

/// The counts of a batch of additions: no more outcomes than entries, one error text per
/// failure; a batch that goes on after failures, or has none, accounts for every entry,
/// and one that stops fails at most once.
pub proof fn lemma_bulk_add_counts(conn: Link, es: Seq<EntryView>, force: bool, cont: bool, replies: Seq<(Reply, Reply)>)
    ensures
        ({
            let b = bulk_add_of(conn, es, force, cont, replies);
            &&& b.created + b.updated + b.failed <= es.len()
            &&& b.errors.len() == b.failed
            &&& (cont || b.failed == 0) ==> b.created + b.updated + b.failed == es.len()
            &&& !cont ==> b.failed <= 1
        }),
    decreases es.len(),
{
    if es.len() > 0 {
        lemma_bulk_add_counts(conn, es.drop_last(), force, cont, replies.drop_last());
    }
}

/// Whether the addition of entry `j` of `es`, its lookup and write answered `replies[j]`,
/// fails.
pub open spec fn add_fails(conn: Link, es: Seq<EntryView>, force: bool, replies: Seq<(Reply, Reply)>, j: int) -> bool {
    dns_add_outcome(conn, es[j], force, replies[j].0, replies[j].1) is Err
}

/// Whether `idx` lists, in order, the entries behind the errors of the batch: error `i`
/// is `"{host}: {error}"` for the failing entry `idx[i]`; when the batch goes on, every
/// failing entry is listed, and when it stops, only the first.
pub open spec fn errors_name_failures(
    conn: Link,
    es: Seq<EntryView>,
    force: bool,
    cont: bool,
    replies: Seq<(Reply, Reply)>,
    idx: Seq<int>,
) -> bool {
    let b = bulk_add_of(conn, es, force, cont, replies);
    &&& idx.len() == b.failed
    &&& forall|i: int, k: int| 0 <= i < k < idx.len() ==> idx[i] < idx[k]
    &&& forall|i: int| #![trigger idx[i]] 0 <= i < idx.len() ==> {
        &&& 0 <= idx[i] < es.len()
        &&& add_fails(conn, es, force, replies, idx[i])
        &&& b.errors[i] == es[idx[i]].host_name + ": "@ + error_text(
            dns_add_outcome(conn, es[idx[i]], force, replies[idx[i]].0, replies[idx[i]].1)->Err_0,
        )
    }
    &&& cont ==> forall|j: int| 0 <= j < es.len() && #[trigger] add_fails(conn, es, force, replies, j)
        ==> exists|i: int| 0 <= i < idx.len() && idx[i] == j
    &&& !cont ==> forall|j: int| 0 <= j < es.len() && #[trigger] add_fails(conn, es, force, replies, j)
        ==> idx.len() == 1 && idx[0] <= j
}

/// The error texts of a batch of additions name the failing entries in order: error `i`
/// is `"{host}: {error}"` for the `i`-th failing entry tried. A batch that goes on after
/// failures has an error for every failing entry; one that stops has at most the first.
pub proof fn lemma_bulk_add_errors(conn: Link, es: Seq<EntryView>, force: bool, cont: bool, replies: Seq<(Reply, Reply)>)
    requires
        replies.len() == es.len(),
    ensures
        exists|idx: Seq<int>| #[trigger] errors_name_failures(conn, es, force, cont, replies, idx),
{
    let idx = bulk_add_error_indices(conn, es, force, cont, replies);
}

/// The indices of the entries behind the errors of a batch of additions (see
/// [`lemma_bulk_add_errors`]).
#[verifier::spinoff_prover]
#[verifier::rlimit(80)]
proof fn bulk_add_error_indices(conn: Link, es: Seq<EntryView>, force: bool, cont: bool, replies: Seq<(Reply, Reply)>) -> (idx: Seq<int>)
    requires
        replies.len() == es.len(),
    ensures
        errors_name_failures(conn, es, force, cont, replies, idx),
    decreases es.len(),
{
    lemma_bulk_add_counts(conn, es, force, cont, replies);
    if es.len() == 0 {
        Seq::empty()
    } else {
        let n = es.len() - 1;
        let init = es.drop_last();
        let rinit = replies.drop_last();
        let prev_idx = bulk_add_error_indices(conn, init, force, cont, rinit);
        lemma_bulk_add_counts(conn, init, force, cont, rinit);
        let prev = bulk_add_of(conn, init, force, cont, rinit);
        assert forall|j: int| 0 <= j < n implies #[trigger] add_fails(conn, es, force, replies, j) == add_fails(conn, init, force, rinit, j) by {
            assert(es[j] == init[j] && replies[j] == rinit[j]);
        }
        assert(es.last() == es[n] && replies.last() == replies[n]);
        let o = dns_add_outcome(conn, es[n], force, replies[n].0, replies[n].1);
        if !cont && prev.failed > 0 {
            assert forall|i: int| #![trigger prev_idx[i]] 0 <= i < prev_idx.len() implies add_fails(conn, es, force, replies, prev_idx[i]) by {
                assert(add_fails(conn, init, force, rinit, prev_idx[i]));
            }
            assert forall|j: int| 0 <= j < es.len() && #[trigger] add_fails(conn, es, force, replies, j)
                implies prev_idx.len() == 1 && prev_idx[0] <= j by {
                if j < n {
                    assert(add_fails(conn, init, force, rinit, j));
                } else {
                    assert(add_fails(conn, init, force, rinit, prev_idx[0]));
                }
            }
            prev_idx
        } else if o is Err {
            let idx = prev_idx.push(n);
            assert forall|i: int| #![trigger idx[i]] 0 <= i < idx.len() implies {
                &&& 0 <= idx[i] < es.len()
                &&& add_fails(conn, es, force, replies, idx[i])
            } by {
                if i < prev_idx.len() {
                    assert(idx[i] == prev_idx[i]);
                    assert(add_fails(conn, init, force, rinit, prev_idx[i]));
                }
            }
            assert forall|j: int| 0 <= j < es.len() && #[trigger] add_fails(conn, es, force, replies, j) && cont
                implies exists|i: int| 0 <= i < idx.len() && idx[i] == j by {
                if j < n {
                    assert(add_fails(conn, init, force, rinit, j));
                    let i = choose|i: int| 0 <= i < prev_idx.len() && prev_idx[i] == j;
                    assert(idx[i] == j);
                } else {
                    assert(idx[prev_idx.len() as int] == j);
                }
            }
            assert forall|j: int| 0 <= j < es.len() && #[trigger] add_fails(conn, es, force, replies, j) && !cont
                implies idx.len() == 1 && idx[0] <= j by {
                if j < n {
                    assert(add_fails(conn, init, force, rinit, j));
                }
            }
            idx
        } else {
            assert forall|i: int| #![trigger prev_idx[i]] 0 <= i < prev_idx.len() implies add_fails(conn, es, force, replies, prev_idx[i]) by {
                assert(add_fails(conn, init, force, rinit, prev_idx[i]));
            }
            assert forall|j: int| 0 <= j < es.len() && #[trigger] add_fails(conn, es, force, replies, j) && cont
                implies exists|i: int| 0 <= i < prev_idx.len() && prev_idx[i] == j by {
                if j < n {
                    assert(add_fails(conn, init, force, rinit, j));
                }
            }
            assert forall|j: int| 0 <= j < es.len() && #[trigger] add_fails(conn, es, force, replies, j) && !cont
                implies prev_idx.len() == 1 && prev_idx[0] <= j by {
                if j < n {
                    assert(add_fails(conn, init, force, rinit, j));
                }
            }
            prev_idx
        }
    }
}

/// The counts of a batch of updates, as for additions (see [`lemma_bulk_add_counts`]);
/// an update never creates.
pub proof fn lemma_bulk_update_counts(conn: Link, us: Seq<EntryUpdateView>, cont: bool, replies: Seq<(Reply, Reply)>)
    ensures
        ({
            let b = bulk_update_of(conn, us, cont, replies);
            &&& b.created == 0
            &&& b.updated + b.failed <= us.len()
            &&& b.errors.len() == b.failed
            &&& (cont || b.failed == 0) ==> b.updated + b.failed == us.len()
            &&& !cont ==> b.failed <= 1
        }),
    decreases us.len(),
{
    if us.len() > 0 {
        lemma_bulk_update_counts(conn, us.drop_last(), cont, replies.drop_last());
    }
}

/// The first occurrence of each value of `t`, in order.
pub open spec fn first_occurrences<A>(t: Seq<A>) -> Seq<A>
    decreases t.len(),
{
    if t.len() == 0 {
        t
    } else if t.drop_last().contains(t.last()) {
        first_occurrences(t.drop_last())
    } else {
        first_occurrences(t.drop_last()).push(t.last())
    }
}

/// Adding to nothing keeps the first occurrence of each value, in order.
proof fn lemma_add_unique_first_occurrences<A>(t: Seq<A>)
    ensures
        add_unique(Seq::<A>::empty(), t) == first_occurrences(t),
    decreases t.len(),
{
    if t.len() > 0 {
        lemma_add_unique_first_occurrences(t.drop_last());
        lemma_add_unique_members(Seq::<A>::empty(), t.drop_last(), t.last());
    }
}

/// A list of names is normalized by trimming each and keeping the first occurrence of
/// each trimmed name, in order; the result has no repeats and holds every trimmed name.
pub proof fn lemma_named_list_keeps_first_occurrences(
    label: Seq<char>,
    vs: Seq<Seq<char>>,
    require_non_empty: bool,
    x: Seq<char>,
)
    ensures
        named_list_of(label, vs, require_non_empty) matches Ok(u) ==> {
            &&& u == first_occurrences(trimmed(vs))
            &&& u.no_duplicates()
            &&& u.contains(x) <==> trimmed(vs).contains(x)
        },
{
    lemma_add_unique_first_occurrences(trimmed(vs));
    lemma_add_unique_no_duplicates(Seq::<Seq<char>>::empty(), trimmed(vs));
    lemma_add_unique_members(Seq::<Seq<char>>::empty(), trimmed(vs), x);
}

/// `es` after adding each of `vs` under `k` in turn (see [`grouped`]).
pub open spec fn grouped_all(es: Seq<(Seq<char>, Json)>, k: Seq<char>, vs: Seq<Json>) -> Seq<(Seq<char>, Json)>
    decreases vs.len(),
{
    if vs.len() == 0 {
        es
    } else {
        grouped(grouped_all(es, k, vs.drop_last()), k, vs.last())
    }
}

/// Adding values one after another under a key not yet present leaves the first value
/// alone under it, and two or more as an array of them in the order added, provided the
/// first is no array itself; the other keys keep their values.
pub proof fn lemma_grouped_inserts(es: Seq<(Seq<char>, Json)>, k: Seq<char>, vs: Seq<Json>, other: Seq<char>)
    requires
        jget(es, k) is None,
        vs.len() > 0 ==> !(vs[0] is Array),
    ensures
        vs.len() == 1 ==> jget(grouped_all(es, k, vs), k) == Some(vs[0]),
        vs.len() >= 2 ==> jget(grouped_all(es, k, vs), k) == Some(Json::Array(vs)),
        other != k ==> jget(grouped_all(es, k, vs), other) == jget(es, other),
    decreases vs.len(),
{
    if vs.len() > 0 {
        let prev = grouped_all(es, k, vs.drop_last());
        let v = vs.last();
        lemma_grouped_inserts(es, k, vs.drop_last(), other);
        if vs.len() >= 2 {
            assert(vs.drop_last()[0] == vs[0]);
        }
        match jget(prev, k) {
            None => {
                lemma_jinsert_same(prev, k, v);
                if other != k {
                    lemma_jinsert_other(prev, k, v, other);
                }
            },
            Some(Json::Array(xs)) => {
                let removed = crate::json::jremove(prev, k);
                lemma_jinsert_same(removed, k, Json::Array(xs.push(v)));
                assert(vs.drop_last() =~= xs);
                assert(xs.push(v) =~= vs);
                if other != k {
                    lemma_jinsert_other(removed, k, Json::Array(xs.push(v)), other);
                    lemma_jremove_other(prev, k, other);
                }
            },
            Some(x) => {
                let removed = crate::json::jremove(prev, k);
                lemma_jinsert_same(removed, k, Json::Array(seq![x, v]));
                assert(vs.len() == 2);
                assert(seq![x, v] =~= vs);
                if other != k {
                    lemma_jinsert_other(removed, k, Json::Array(seq![x, v]), other);
                    lemma_jremove_other(prev, k, other);
                }
            },
        }
    }
}

/// What the reply reader keeps to: every resource reply read so far passed its status
/// check and none is named `Status`, nor is the one being read.
pub open spec fn replies_pass(st: ParseView) -> bool {
    &&& forall|i: int| 0 <= i < st.resources.len() ==> status_error(#[trigger] st.resources[i]) is None
        && st.resources[i].name != "Status"@
    &&& st.current matches Some(c) ==> c.name != "Status"@
}

/// One reading step keeps [`replies_pass`].
proof fn lemma_step_keeps_replies_pass(st: ParseView, w: Seq<char>)
    requires
        replies_pass(st),
    ensures
        parse_step(st, w) matches Ok(next) ==> replies_pass(next),
{
    match parse_step(st, w) {
        Ok(next) => {
            let added = exists|r: crate::response::ResourceView|
                next.resources == st.resources.push(r) && status_error(r) is None && r.name != "Status"@;
            match classify(w) {
                EventClass::Empty(name) => {
                    if st.current is None && crate::response::is_resource_start(st.stack, name) {
                        let r = crate::response::ResourceView {
                            name,
                            status: crate::response::StatusView { code: None, text: Seq::empty() },
                            body: w,
                        };
                        assert(next.resources == st.resources.push(r));
                        reveal_strlit("Number of records Zero.");
                        assert("Number of records Zero."@.len() == 23);
                        assert(r.status.text.len() == 0);
                        assert(r.status.text != "Number of records Zero."@);
                        assert(status_error(r) is None);
                        assert(added);
                    } else {
                        assert(next.resources == st.resources);
                    }
                },
                EventClass::End(name) => {
                    if next.resources != st.resources {
                        let c = st.current->Some_0;
                        let c1 = crate::response::with_body(c, w);
                        let c2 = if c1.in_status && c1.depth == c1.status_depth && name == "Status"@ {
                            crate::response::CurrentView {
                                in_status: false,
                                status: Some(crate::response::StatusView { code: c1.status_code, text: trim(c1.status_text) }),
                                status_code: None,
                                ..c1
                            }
                        } else {
                            c1
                        };
                        let r = crate::response::finish(c2);
                        assert(next.resources == st.resources.push(r));
                        assert(added);
                    }
                },
                _ => {
                    assert(next.resources == st.resources);
                },
            }
            assert forall|i: int| 0 <= i < next.resources.len() implies status_error(#[trigger] next.resources[i]) is None
                && next.resources[i].name != "Status"@ by {
                if next.resources != st.resources {
                    let r = choose|r: crate::response::ResourceView|
                        next.resources == st.resources.push(r) && status_error(r) is None && r.name != "Status"@;
                    if i < st.resources.len() {
                        assert(next.resources[i] == st.resources[i]);
                    }
                }
            }
        },
        Err(_) => {},
    }
}

/// Reading any events keeps [`replies_pass`].
proof fn lemma_events_keep_replies_pass(ws: Seq<Seq<char>>)
    ensures
        parse_events(ws) matches Ok(st) ==> replies_pass(st),
    decreases ws.len(),
{
    if ws.len() > 0 {
        lemma_events_keep_replies_pass(ws.drop_last());
        match parse_events(ws.drop_last()) {
            Ok(st) => lemma_step_keeps_replies_pass(st, ws.last()),
            Err(_) => {},
        }
    }
}

/// A reply that parses holds only resource replies that are not named `Status`, do not
/// report zero records, and carry no status code that does not start with `2`: those
/// statuses are errors, never results.
pub proof fn lemma_parsed_replies_pass(xml: Seq<char>)
    ensures
        parse_response_of(xml) matches Ok(rs) ==> forall|i: int| 0 <= i < rs.len() ==> {
            &&& (#[trigger] rs[i]).name != "Status"@
            &&& rs[i].status.text != "Number of records Zero."@
            &&& rs[i].status.code matches Some(c) ==> c.len() > 0 && c[0] == '2'
        },
{
    lemma_events_keep_replies_pass(written_events(xml).0);
    match parse_response_of(xml) {
        Ok(rs) => {
            assert forall|i: int| 0 <= i < rs.len() implies status_error(#[trigger] rs[i]) is None && rs[i].name != "Status"@ by {}
        },
        Err(_) => {},
    }
}

/// A member key that is a valid tag, with a value whose member keys all are.
pub open spec fn member_ok(e: (Seq<char>, Json)) -> bool {
    valid_tag(e.0) && value_tags_error(e.1) is None
}

/// Whether every member of `es` is [`member_ok`].
pub open spec fn members_ok(es: Seq<(Seq<char>, Json)>) -> bool {
    forall|i: int| 0 <= i < es.len() ==> member_ok(#[trigger] es[i])
}

/// A value renders exactly when none of its member keys is refused.
proof fn lemma_value_xml_ok(tag: Seq<char>, v: Json)
    ensures
        (json_xml(tag, v) is Ok) == (value_tags_error(v) is None),
    decreases v,
{
    match v {
        Json::Array(vs) => lemma_items_xml_ok(tag, vs),
        Json::Object(es) => lemma_members_xml_ok(es),
        _ => {},
    }
}

/// See [`lemma_value_xml_ok`], for items.
proof fn lemma_items_xml_ok(tag: Seq<char>, vs: Seq<Json>)
    ensures
        (items_xml(tag, vs) is Ok) == (items_tags_error(vs) is None),
    decreases vs,
{
    if vs.len() > 0 {
        lemma_items_xml_ok(tag, vs.drop_last());
        lemma_value_xml_ok(tag, vs.last());
    }
}

/// See [`lemma_value_xml_ok`], for members.
proof fn lemma_members_xml_ok(es: Seq<(Seq<char>, Json)>)
    ensures
        (members_xml(es) is Ok) == (members_tags_error(es) is None),
    decreases es,
{
    if es.len() > 0 {
        lemma_members_xml_ok(es.drop_last());
        lemma_value_xml_ok(es.last().0, es.last().1);
    }
}

/// No member key of `es` is refused exactly when every member is [`member_ok`].
proof fn lemma_members_ok_iff(es: Seq<(Seq<char>, Json)>)
    ensures
        (members_tags_error(es) is None) == members_ok(es),
    decreases es.len(),
{
    if es.len() > 0 {
        lemma_members_ok_iff(es.drop_last());
        assert forall|i: int| 0 <= i < es.len() - 1 implies #[trigger] es[i] == es.drop_last()[i] by {}
        if members_ok(es) {
            assert(member_ok(es[es.len() - 1]));
            assert forall|i: int| 0 <= i < es.drop_last().len() implies member_ok(#[trigger] es.drop_last()[i]) by {
                assert(member_ok(es[i]));
            }
        }
        if members_ok(es.drop_last()) && member_ok(es.last()) {
            assert forall|i: int| 0 <= i < es.len() implies member_ok(#[trigger] es[i]) by {
                if i < es.len() - 1 {
                    assert(member_ok(es.drop_last()[i]));
                }
            }
        }
    }
}

/// Binding a new key keeps every member ok exactly when the old members and the new one
/// are.
proof fn lemma_jinsert_members_ok(es: Seq<(Seq<char>, Json)>, k: Seq<char>, v: Json)
    requires
        jget(es, k) is None,
    ensures
        members_ok(jinsert(es, k, v)) == (members_ok(es) && member_ok((k, v))),
    decreases es.len(),
{
    let ins = jinsert(es, k, v);
    if es.len() == 0 {
        assert(ins[0] == (k, v));
    } else if crate::json::key_lt(k, es[0].0) {
        assert(ins =~= seq![(k, v)] + es);
        assert forall|i: int| 0 <= i < es.len() implies #[trigger] es[i] == ins[i + 1] by {}
        if members_ok(ins) {
            assert(member_ok(ins[0]));
            assert forall|i: int| 0 <= i < es.len() implies member_ok(#[trigger] es[i]) by {
                assert(member_ok(ins[i + 1]));
            }
        }
        if members_ok(es) && member_ok((k, v)) {
            assert forall|i: int| 0 <= i < ins.len() implies member_ok(#[trigger] ins[i]) by {
                if i > 0 {
                    assert(member_ok(es[i - 1]));
                }
            }
        }
    } else {
        let rest = es.drop_first();
        lemma_jinsert_members_ok(rest, k, v);
        let rins = jinsert(rest, k, v);
        assert(ins =~= seq![es[0]] + rins);
        if members_ok(ins) {
            assert(member_ok(ins[0]));
            assert forall|i: int| 0 <= i < rins.len() implies member_ok(#[trigger] rins[i]) by {
                assert(ins[i + 1] == rins[i]);
                assert(member_ok(ins[i + 1]));
            }
            assert forall|i: int| 0 <= i < es.len() implies member_ok(#[trigger] es[i]) by {
                if i > 0 {
                    assert(es[i] == rest[i - 1]);
                    assert(member_ok(rest[i - 1]));
                }
            }
        }
        if members_ok(es) && member_ok((k, v)) {
            assert forall|i: int| 0 <= i < rest.len() implies member_ok(#[trigger] rest[i]) by {
                assert(member_ok(es[i + 1]));
            }
            assert forall|i: int| 0 <= i < ins.len() implies member_ok(#[trigger] ins[i]) by {
                if i == 0 {
                    assert(member_ok(es[0]));
                } else {
                    assert(ins[i] == rins[i - 1]);
                    assert(member_ok(rins[i - 1]));
                }
            }
        }
    }
}

/// Whether the builder refuses `request`: an invalid resource tag, an invalid object key
/// tag, an unknown `Set` operation, a blank object name, a delete without a name, a create
/// or update whose payload is neither an object nor `null` or holds a member key that is
/// no valid tag at any depth, or a raw request whose payload is no string.
pub open spec fn build_refused(request: RequestView) -> bool {
    ||| !valid_tag(request.resource)
    ||| request.object_key matches Some(k) && !valid_tag(k)
    ||| request.set_operation matches Some(op) && !valid_set_operation(op)
    ||| request.object_name matches Some(n) && trim(n).len() == 0
    ||| request.action is Delete && request.object_name is None
    ||| (request.action is Create || request.action is Update) && !(request.payload is Null
        || request.payload is Object)
    ||| (request.action is Create || request.action is Update) && value_tags_error(request.payload) is Some
    ||| request.action is RawXml && !(request.payload is Str)
}

/// The request builder refuses exactly the requests [`build_refused`] names, whatever
/// the connection, and builds every other.
pub proof fn lemma_build_refusals(connection: SophosConnection, request: RequestView)
    ensures
        (request_xml_of(connection, request) is Err) == build_refused(request),
{
    let key = match request.object_key {
        Some(k) => k,
        None => "Name"@,
    };
    reveal_strlit("Name");
    assert(valid_tag("Name"@));
    if (request.action is Create || request.action is Update) && (request.object_key is None || valid_tag(key)) {
        let op = crate::xml::operation_for(request.action, request.set_operation);
        let set = crate::xml::set_xml(op, request.resource, request.object_name, key, request.payload);
        match request.payload {
            Json::Object(es) => {
                lemma_members_ok_iff(es);
                let fields = set_fields(request.payload, request.object_name, key)->Ok_0;
                lemma_members_xml_ok(fields);
                lemma_members_ok_iff(fields);
                if request.object_name is Some && jget(es, key) is None {
                    lemma_jinsert_members_ok(es, key, Json::Str(request.object_name->Some_0));
                }
                assert((set is Err) == (value_tags_error(request.payload) is Some));
            },
            Json::Null => {
                let fields = set_fields(request.payload, request.object_name, key)->Ok_0;
                lemma_members_xml_ok(fields);
                lemma_members_ok_iff(fields);
                if request.object_name is Some {
                    lemma_jinsert_members_ok(Seq::empty(), key, Json::Str(request.object_name->Some_0));
                }
                assert(set is Ok);
            },
            _ => {
                assert(set is Err);
            },
        }
    }
}

} // verus!
