//! IP addresses in text, read as the standard library's address parsers read them:
//! dotted-decimal IPv4 (four decimal octets, no leading zeros, each at most 255) and IPv6
//! (eight hexadecimal groups, one `::` standing for one or more zero groups, an IPv4
//! address allowed in place of the last two groups).

use vstd::prelude::*;
use crate::common::{name_of, normalize_name};
use crate::error::{Error, ErrorView, Result};
use crate::text::{chars_of, push_str, string_of};

verus! {

/// Whether `c` is an ASCII digit.
pub open spec fn is_dec(c: char) -> bool {
    '0' <= c && c <= '9'
}

/// The value of the decimal digits `s`.
pub open spec fn digits_value(s: Seq<char>) -> nat
    decreases s.len(),
{
    if s.len() == 0 {
        0
    } else {
        digits_value(s.drop_last()) * 10 + ((s.last() as int) - ('0' as int)) as nat
    }
}

/// Whether `s` is one octet: one to three digits, no leading zero, at most 255.
pub open spec fn valid_octet(s: Seq<char>) -> bool {
    &&& 1 <= s.len() <= 3
    &&& forall|i: int| 0 <= i < s.len() ==> is_dec(#[trigger] s[i])
    &&& (s.len() == 1 || s[0] != '0')
    &&& digits_value(s) <= 255
}

/// `s` cut at each `sep`: one more part than there are separators.
pub open spec fn split_on(s: Seq<char>, sep: char) -> Seq<Seq<char>>
    decreases s.len(),
{
    if s.len() == 0 {
        seq![Seq::empty()]
    } else {
        let parts = split_on(s.drop_last(), sep);
        if s.last() == sep {
            parts.push(Seq::empty())
        } else {
            parts.update(parts.len() - 1, parts.last().push(s.last()))
        }
    }
}

/// The four octets of the address `s`, if it is one.
pub open spec fn ipv4_octets(s: Seq<char>) -> Option<Seq<nat>> {
    let parts = split_on(s, '.');
    if parts.len() == 4 && forall|i: int| 0 <= i < 4 ==> valid_octet(#[trigger] parts[i]) {
        Some(parts.map_values(|p: Seq<char>| digits_value(p)))
    } else {
        None
    }
}

/// Whether `s` is a dotted-decimal IPv4 address.
pub open spec fn is_ipv4(s: Seq<char>) -> bool {
    ipv4_octets(s) is Some
}

/// The 32-bit number of the octets `o`, most significant first.
pub open spec fn ipv4_number(o: Seq<nat>) -> nat {
    o[0] * 16777216 + o[1] * 65536 + o[2] * 256 + o[3]
}

/// `split_on` has at least one part.
pub proof fn lemma_split_nonempty(s: Seq<char>, sep: char)
    ensures
        split_on(s, sep).len() >= 1,
    decreases s.len(),
{
    if s.len() > 0 {
        lemma_split_nonempty(s.drop_last(), sep);
    }
}

/// The octet `p`'s value, if `p` is one.
fn octet_value(p: &Vec<char>) -> (r: Option<u32>)
    ensures
        match r {
            Some(v) => valid_octet(p@) && v == digits_value(p@),
            None => !valid_octet(p@),
        },
{
    let n = p.len();
    if n < 1 || n > 3 {
        return None;
    }
    if n > 1 && p[0] == '0' {
        return None;
    }
    let mut v: u32 = 0;
    let mut i: usize = 0;
    assert(p@.take(0) =~= Seq::<char>::empty());
    while i < n
        invariant
            n == p@.len(),
            n <= 3,
            i <= n,
            v == digits_value(p@.take(i as int)),
            v < 10 * (if i == 0 { 1nat } else if i == 1 { 10nat } else if i == 2 { 100nat } else { 1000nat }),
            forall|j: int| 0 <= j < i ==> is_dec(#[trigger] p@[j]),
        decreases n - i,
    {
        let c = p[i];
        if !('0' <= c && c <= '9') {
            assert(!is_dec(p@[i as int]));
            return None;
        }
        assert(p@.take(i + 1).drop_last() =~= p@.take(i as int));
        let d = (c as u32) - ('0' as u32);
        v = v * 10 + d;
        i = i + 1;
    }
    assert(p@.take(n as int) =~= p@);
    if v > 255 {
        return None;
    }
    Some(v)
}

/// The parts of `s` cut at `sep` (see [`split_on`]).
pub fn split_chars_pub(s: &[char], sep: char) -> (parts: Vec<Vec<char>>)
    ensures
        parts@.map_values(|p: Vec<char>| p@) == split_on(s@, sep),
{
    split_chars(s, sep)
}

/// The parts of `s` cut at `sep` (see [`split_on`]).
fn split_chars(s: &[char], sep: char) -> (parts: Vec<Vec<char>>)
    ensures
        parts@.map_values(|p: Vec<char>| p@) == split_on(s@, sep),
{
    let mut parts: Vec<Vec<char>> = Vec::new();
    parts.push(Vec::new());
    let mut i: usize = 0;
    assert(s@.take(0) =~= Seq::<char>::empty());
    assert(parts@.map_values(|p: Vec<char>| p@) =~= split_on(s@.take(0), sep));
    while i < s.len()
        invariant
            i <= s@.len(),
            parts@.len() >= 1,
            parts@.map_values(|p: Vec<char>| p@) == split_on(s@.take(i as int), sep),
        decreases s@.len() - i,
    {
        let ghost before = parts@.map_values(|p: Vec<char>| p@);
        assert(s@.take(i + 1).drop_last() =~= s@.take(i as int));
        assert(s@.take(i + 1).last() == s@[i as int]);
        if s[i] == sep {
            parts.push(Vec::new());
            assert(parts@.map_values(|p: Vec<char>| p@) =~= before.push(Seq::empty()));
        } else {
            let last = parts.len() - 1;
            let mut cur = parts.remove(last);
            cur.push(s[i]);
            parts.push(cur);
            assert(parts@.map_values(|p: Vec<char>| p@) =~= before.update(before.len() - 1, before.last().push(s@[i as int])));
        }
        i = i + 1;
    }
    assert(s@.take(i as int) =~= s@);
    parts
}

/// The 32-bit number of the address `s`, if it is one.
pub fn parse_ipv4(s: &str) -> (r: Option<u32>)
    ensures
        match ipv4_octets(s@) {
            Some(o) => r == Some(ipv4_number(o) as u32) && ipv4_number(o) < 0x1_0000_0000,
            None => r is None,
        },
{
    let cs = chars_of(s);
    let parts = split_chars(cs.as_slice(), '.');
    let ghost ps = split_on(s@, '.');
    assert(parts@.len() == ps.len());
    if parts.len() != 4 {
        return None;
    }
    assert(forall|i: int| 0 <= i < 4 ==> parts@[i]@ == #[trigger] ps[i]);
    let a = match octet_value(&parts[0]) {
        Some(v) => v,
        None => return None,
    };
    let b = match octet_value(&parts[1]) {
        Some(v) => v,
        None => return None,
    };
    let c = match octet_value(&parts[2]) {
        Some(v) => v,
        None => return None,
    };
    let d = match octet_value(&parts[3]) {
        Some(v) => v,
        None => return None,
    };
    assert(forall|i: int| 0 <= i < 4 ==> valid_octet(#[trigger] ps[i])) by {
        assert(valid_octet(ps[0]) && valid_octet(ps[1]) && valid_octet(ps[2]) && valid_octet(ps[3]));
    }
    let ghost o = ps.map_values(|p: Seq<char>| digits_value(p));
    assert(o[0] == a && o[1] == b && o[2] == c && o[3] == d);
    let n: u32 = a * 16777216 + b * 65536 + c * 256 + d;
    Some(n)
}

/// `"{label} must be an IPv4 address"`.
pub open spec fn not_ipv4_error(label: Seq<char>) -> ErrorView {
    ErrorView::InvalidRequest(label + " must be an IPv4 address"@)
}

/// `value` trimmed when it is an IPv4 address; a blank value or anything else is an error.
/// The address comes back as given: the form the standard parser accepts (no leading
/// zeros) is the form it prints.
pub open spec fn ipv4_of(label: Seq<char>, value: Seq<char>) -> core::result::Result<Seq<char>, ErrorView> {
    match name_of(label, value) {
        Err(e) => Err(e),
        Ok(v) => if is_ipv4(v) {
            Ok(v)
        } else {
            Err(not_ipv4_error(label))
        },
    }
}

/// An address already normalized normalizes to itself, under any label.
pub proof fn lemma_ipv4_of_idempotent(label: Seq<char>, other: Seq<char>, value: Seq<char>)
    requires
        ipv4_of(label, value) is Ok,
    ensures
        ipv4_of(other, ipv4_of(label, value)->Ok_0) == ipv4_of(label, value),
{
    crate::common::lemma_name_of_idempotent(label, other, value);
}

/// `value` trimmed when it is an IPv4 address (see [`ipv4_of`]).
pub fn normalize_ipv4(label: &str, value: &str) -> (r: Result<String>)
    ensures
        match ipv4_of(label@, value@) {
            Ok(v) => r matches Ok(s) && s@ == v,
            Err(e) => r matches Err(x) && x@ == e,
        },
{
    let v = match normalize_name(label, value) {
        Ok(v) => v,
        Err(e) => return Err(e),
    };
    match parse_ipv4(v.as_str()) {
        Some(_) => Ok(v),
        None => {
            let mut m: Vec<char> = Vec::new();
            push_str(&mut m, label);
            push_str(&mut m, " must be an IPv4 address");
            Err(Error::InvalidRequest(string_of(m.as_slice())))
        },
    }
}

/// Whether `c` is a hexadecimal digit.
pub open spec fn is_hex(c: char) -> bool {
    ('0' <= c && c <= '9') || ('a' <= c && c <= 'f') || ('A' <= c && c <= 'F')
}

/// The value of the hexadecimal digit `c`.
pub open spec fn hex_value(c: char) -> nat {
    if '0' <= c && c <= '9' {
        ((c as int) - ('0' as int)) as nat
    } else if 'a' <= c && c <= 'f' {
        ((c as int) - ('a' as int) + 10) as nat
    } else {
        ((c as int) - ('A' as int) + 10) as nat
    }
}

/// The value of the hexadecimal digits `s`.
pub open spec fn hex_digits_value(s: Seq<char>) -> nat
    decreases s.len(),
{
    if s.len() == 0 {
        0
    } else {
        hex_digits_value(s.drop_last()) * 16 + hex_value(s.last())
    }
}

/// Whether `s` is one IPv6 group: one to four hexadecimal digits.
pub open spec fn valid_group(s: Seq<char>) -> bool {
    1 <= s.len() <= 4 && forall|i: int| 0 <= i < s.len() ==> is_hex(#[trigger] s[i])
}

/// The 16-bit groups the parts `parts` stand for: each a hexadecimal group, except that
/// the last may be an IPv4 address (two groups) when `v4_last` allows it.
pub open spec fn groups_of(parts: Seq<Seq<char>>, v4_last: bool) -> Option<Seq<nat>> {
    if forall|i: int| 0 <= i < parts.len() ==> valid_group(#[trigger] parts[i]) {
        Some(parts.map_values(|p: Seq<char>| hex_digits_value(p)))
    } else if v4_last && parts.len() >= 1 && (forall|i: int| 0 <= i < parts.len() - 1 ==> valid_group(#[trigger] parts[i]))
        && ipv4_octets(parts.last()) is Some {
        let o = ipv4_octets(parts.last())->Some_0;
        Some(parts.drop_last().map_values(|p: Seq<char>| hex_digits_value(p)) + seq![o[0] * 256 + o[1], o[2] * 256 + o[3]])
    } else {
        None
    }
}

/// The index of the first `::` in `s` at or after `i`, if any.
pub open spec fn double_colon_from(s: Seq<char>, i: int) -> Option<int>
    decreases s.len() - i,
{
    if i < 0 || i + 1 >= s.len() {
        None
    } else if s[i] == ':' && s[i + 1] == ':' {
        Some(i)
    } else {
        double_colon_from(s, i + 1)
    }
}

/// `n` zero groups.
pub open spec fn zeros(n: nat) -> Seq<nat> {
    Seq::new(n, |i: int| 0nat)
}

/// The groups of the part of an address on one side of `::`: none for an empty side.
pub open spec fn side_groups(s: Seq<char>, v4_last: bool) -> Option<Seq<nat>> {
    if s.len() == 0 {
        Some(Seq::empty())
    } else {
        groups_of(split_on(s, ':'), v4_last)
    }
}

/// The eight 16-bit groups of the IPv6 address `s`, if it is one: eight groups, or six
/// and an IPv4 address; or with the first `::` standing for at least one zero group
/// between a head of plain groups and a tail whose last part may be an IPv4 address.
pub open spec fn ipv6_segments(s: Seq<char>) -> Option<Seq<nat>> {
    match double_colon_from(s, 0) {
        None => match groups_of(split_on(s, ':'), true) {
            Some(g) => if g.len() == 8 {
                Some(g)
            } else {
                None
            },
            None => None,
        },
        Some(d) => match (side_groups(s.take(d), false), side_groups(s.skip(d + 2), true)) {
            (Some(a), Some(b)) => if a.len() + b.len() <= 7 {
                Some(a + zeros((8 - a.len() - b.len()) as nat) + b)
            } else {
                None
            },
            _ => None,
        },
    }
}

/// The group `p`'s value, if `p` is one.
fn group_value(p: &Vec<char>) -> (r: Option<u32>)
    ensures
        match r {
            Some(v) => valid_group(p@) && v == hex_digits_value(p@),
            None => !valid_group(p@),
        },
{
    let n = p.len();
    if n < 1 || n > 4 {
        return None;
    }
    let mut v: u32 = 0;
    let mut i: usize = 0;
    assert(p@.take(0) =~= Seq::<char>::empty());
    while i < n
        invariant
            n == p@.len(),
            n <= 4,
            i <= n,
            v == hex_digits_value(p@.take(i as int)),
            v < (if i == 0 { 1nat } else if i == 1 { 16nat } else if i == 2 { 256nat } else if i == 3 { 4096nat } else { 65536nat }),
            forall|j: int| 0 <= j < i ==> is_hex(#[trigger] p@[j]),
        decreases n - i,
    {
        let c = p[i];
        let d: u32 = if '0' <= c && c <= '9' {
            (c as u32) - ('0' as u32)
        } else if 'a' <= c && c <= 'f' {
            (c as u32) - ('a' as u32) + 10
        } else if 'A' <= c && c <= 'F' {
            (c as u32) - ('A' as u32) + 10
        } else {
            assert(!is_hex(p@[i as int]));
            return None;
        };
        assert(p@.take(i + 1).drop_last() =~= p@.take(i as int));
        v = v * 16 + d;
        i = i + 1;
    }
    assert(p@.take(n as int) =~= p@);
    Some(v)
}

/// The octets of `s`, if it is an IPv4 address.
pub fn ipv4_octets_of_chars(s: &[char]) -> (r: Option<Vec<u32>>)
    ensures
        match ipv4_octets(s@) {
            Some(o) => r matches Some(v) && v@.len() == 4 && forall|i: int| 0 <= i < 4 ==> v@[i] == #[trigger] o[i],
            None => r is None,
        },
{
    let parts = split_chars(s, '.');
    let ghost ps = split_on(s@, '.');
    assert(parts@.len() == ps.len());
    if parts.len() != 4 {
        return None;
    }
    assert(forall|i: int| 0 <= i < 4 ==> parts@[i]@ == #[trigger] ps[i]);
    let mut out: Vec<u32> = Vec::new();
    let mut i: usize = 0;
    while i < 4
        invariant
            parts@.len() == 4,
            ps == split_on(s@, '.'),
            forall|k: int| 0 <= k < 4 ==> parts@[k]@ == #[trigger] ps[k],
            i <= 4,
            out@.len() == i,
            forall|k: int| 0 <= k < i ==> valid_octet(#[trigger] ps[k]) && out@[k] == digits_value(ps[k]),
        decreases 4 - i,
    {
        match octet_value(&parts[i]) {
            Some(v) => out.push(v),
            None => {
                assert(!valid_octet(ps[i as int]));
                return None;
            },
        }
        i = i + 1;
    }
    Some(out)
}

/// The groups the parts stand for (see [`groups_of`]).
fn groups_exec(parts: &Vec<Vec<char>>, v4_last: bool) -> (r: Option<Vec<u32>>)
    ensures
        match groups_of(parts@.map_values(|p: Vec<char>| p@), v4_last) {
            Some(g) => r matches Some(v) && v@.len() == g.len() && forall|i: int| 0 <= i < g.len() ==> v@[i] == #[trigger] g[i],
            None => r is None,
        },
{
    let ghost ps = parts@.map_values(|p: Vec<char>| p@);
    let n = parts.len();
    let mut out: Vec<u32> = Vec::new();
    let mut i: usize = 0;
    while i < n
        invariant
            n == parts@.len(),
            ps == parts@.map_values(|p: Vec<char>| p@),
            i <= n,
            out@.len() == i,
            forall|k: int| 0 <= k < i ==> valid_group(#[trigger] ps[k]) && out@[k] == hex_digits_value(ps[k]),
        decreases n - i,
    {
        match group_value(&parts[i]) {
            Some(v) => out.push(v),
            None => {
                assert(!valid_group(ps[i as int]));
                if v4_last && i + 1 == n {
                    match ipv4_octets_of_chars(parts[i].as_slice()) {
                        Some(o) => {
                            let hi = o[0] * 256 + o[1];
                            let lo = o[2] * 256 + o[3];
                            out.push(hi);
                            out.push(lo);
                            proof {
                                let g = groups_of(ps, v4_last)->Some_0;
                                assert(ps.last() == parts@[i as int]@);
                                assert(g.len() == out@.len());
                            }
                            return Some(out);
                        },
                        None => {
                            assert(ps.last() == parts@[i as int]@);
                            return None;
                        },
                    }
                }
                return None;
            },
        }
        i = i + 1;
    }
    Some(out)
}

/// The index of the first `::` in `s`, if any.
fn double_colon(s: &[char]) -> (r: Option<usize>)
    ensures
        match double_colon_from(s@, 0) {
            Some(d) => r == Some(d as usize),
            None => r is None,
        },
        r matches Some(d) ==> d + 1 < s@.len() && double_colon_from(s@, 0) == Some(d as int),
{
    let mut i: usize = 0;
    while i < s.len() && i + 1 < s.len()
        invariant
            i <= s@.len(),
            double_colon_from(s@, 0) == double_colon_from(s@, i as int),
        decreases s@.len() - i,
    {
        if s[i] == ':' && s[i + 1] == ':' {
            return Some(i);
        }
        i = i + 1;
    }
    None
}

/// The groups of one side of `::` (see [`side_groups`]).
fn side_groups_exec(s: &[char], v4_last: bool) -> (r: Option<Vec<u32>>)
    ensures
        match side_groups(s@, v4_last) {
            Some(g) => r matches Some(v) && v@.len() == g.len() && forall|i: int| 0 <= i < g.len() ==> v@[i] == #[trigger] g[i],
            None => r is None,
        },
{
    if s.len() == 0 {
        return Some(Vec::new());
    }
    let parts = split_chars(s, ':');
    groups_exec(&parts, v4_last)
}

/// The eight groups of the IPv6 address `s`, if it is one (see [`ipv6_segments`]).
pub fn parse_ipv6(s: &str) -> (r: Option<Vec<u32>>)
    ensures
        match ipv6_segments(s@) {
            Some(g) => r matches Some(v) && v@.len() == 8 && g.len() == 8 && forall|i: int| 0 <= i < 8 ==> v@[i] == #[trigger] g[i],
            None => r is None,
        },
{
    let cs = chars_of(s);
    let dc = double_colon(cs.as_slice());
    assert(cs@ == s@);
    match dc {
        None => {
            let parts = split_chars(cs.as_slice(), ':');
            match groups_exec(&parts, true) {
                Some(g) => {
                    if g.len() == 8 {
                        Some(g)
                    } else {
                        None
                    }
                },
                None => None,
            }
        },
        Some(d) => {
            let n = cs.len();
            assert(d + 1 < n);
            let head = crate::events::slice_of(cs.as_slice(), 0, d);
            let tail = crate::events::slice_of(cs.as_slice(), d + 2, n);
            assert(head@ =~= s@.take(d as int));
            assert(tail@ =~= s@.skip(d + 2));
            let a = match side_groups_exec(head.as_slice(), false) {
                Some(a) => a,
                None => return None,
            };
            let b = match side_groups_exec(tail.as_slice(), true) {
                Some(b) => b,
                None => return None,
            };
            if a.len() > 7 || b.len() > 7 || a.len() + b.len() > 7 {
                return None;
            }
            let ghost ga = side_groups(s@.take(d as int), false)->Some_0;
            let ghost gb = side_groups(s@.skip(d + 2), true)->Some_0;
            let ghost full = ga + zeros((8 - ga.len() - gb.len()) as nat) + gb;
            let mut out: Vec<u32> = Vec::new();
            let mut i: usize = 0;
            while i < a.len()
                invariant
                    i <= a@.len(),
                    a@.len() == ga.len(),
                    forall|k: int| 0 <= k < ga.len() ==> a@[k] == #[trigger] ga[k],
                    out@.len() == i,
                    forall|k: int| 0 <= k < i ==> out@[k] == #[trigger] ga[k],
                decreases a@.len() - i,
            {
                out.push(a[i]);
                i = i + 1;
            }
            let z = 8 - a.len() - b.len();
            let mut j: usize = 0;
            while j < z
                invariant
                    j <= z,
                    z == 8 - ga.len() - gb.len(),
                    out@.len() == ga.len() + j,
                    forall|k: int| 0 <= k < ga.len() ==> out@[k] == #[trigger] ga[k],
                    forall|k: int| ga.len() <= k < ga.len() + j ==> out@[k] == 0,
                decreases z - j,
            {
                out.push(0);
                j = j + 1;
            }
            let mut k: usize = 0;
            while k < b.len()
                invariant
                    k <= b@.len(),
                    b@.len() == gb.len(),
                    forall|m: int| 0 <= m < gb.len() ==> b@[m] == #[trigger] gb[m],
                    out@.len() == ga.len() + z + k,
                    z == 8 - ga.len() - gb.len(),
                    forall|m: int| 0 <= m < ga.len() ==> out@[m] == #[trigger] ga[m],
                    forall|m: int| ga.len() <= m < ga.len() + z ==> out@[m] == 0,
                    forall|m: int| 0 <= m < k ==> out@[ga.len() + z + m] == #[trigger] gb[m],
                decreases b@.len() - k,
            {
                out.push(b[k]);
                k = k + 1;
            }
            assert forall|m: int| 0 <= m < 8 implies out@[m] == #[trigger] full[m] by {
                if m < ga.len() {
                } else if m < ga.len() + z {
                } else {
                    assert(out@[ga.len() + z + (m - ga.len() - z)] == gb[m - ga.len() - z]);
                }
            }
            Some(out)
        },
    }
}

} // verus!
