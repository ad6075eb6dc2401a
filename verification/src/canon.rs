//! The canonical encoding of a value: the exact byte string that key IDs are
//! hashed over and that signatures cover.
//!
//! The encoding is deterministic and loss-free: no insignificant whitespace,
//! object members ordered by key, strings emitted as UTF-8 with only the
//! quote and the backslash escaped, numbers as plain decimal integers.  The
//! encoding of an object is a function of the *set* of its members, never of
//! the order they were parsed in.

use vstd::prelude::*;
use vstd::multiset::Multiset;
use crate::jsonval::{Jv, JsonValue, jv_view, mem_view, arr_view, lemma_mem_view_len, lemma_mem_view_index, lemma_mem_view_push, lemma_arr_view_len, lemma_arr_view_index};
use crate::error::{Error, ErrV};

verus! {

broadcast use {vstd::seq_lib::group_to_multiset_ensures, vstd::utf8::char_u32_cast,
    vstd::utf8::char_is_scalar};

/// Lexicographic order on strings, by scalar value.
pub open spec fn key_lt(a: Seq<char>, b: Seq<char>) -> bool
    decreases a.len(),
{
    if b.len() == 0 {
        false
    } else if a.len() == 0 {
        true
    } else if (a[0] as u32) < (b[0] as u32) {
        true
    } else if (a[0] as u32) > (b[0] as u32) {
        false
    } else {
        key_lt(a.drop_first(), b.drop_first())
    }
}

/// Members in strictly increasing key order (so all keys distinct).
pub open spec fn keys_sorted(ms: Seq<(Seq<char>, Jv)>) -> bool {
    forall|i: int, j: int| 0 <= i < j < ms.len() ==> key_lt(ms[i].0, ms[j].0)
}

/// Whether the members, taken as a multiset, admit a key-sorted arrangement.
pub open spec fn has_sorted_form(m: Multiset<(Seq<char>, Jv)>) -> bool {
    exists|r: Seq<(Seq<char>, Jv)>| r.to_multiset() == m && keys_sorted(r)
}

/// The key-sorted arrangement of a multiset of members.  A function of the
/// multiset alone, so member order cannot influence the encoding.
pub open spec fn sorted_form(m: Multiset<(Seq<char>, Jv)>) -> Seq<(Seq<char>, Jv)> {
    choose|r: Seq<(Seq<char>, Jv)>| r.to_multiset() == m && keys_sorted(r)
}

/// Nesting depth of a value; drives termination of the encoding.
pub open spec fn jv_depth(j: Jv) -> nat
    decreases j,
{
    match j {
        Jv::Arr(es) => 1 + depth_elems(es),
        Jv::Obj(ms) => 1 + depth_members(ms),
        _ => 1,
    }
}

/// Greatest depth among array elements.
pub open spec fn depth_elems(es: Seq<Jv>) -> nat
    decreases es,
{
    if es.len() == 0 {
        0
    } else {
        let d0 = jv_depth(es[0]);
        let dr = depth_elems(es.drop_first());
        if d0 > dr {
            d0
        } else {
            dr
        }
    }
}

/// Greatest depth among object member values.
pub open spec fn depth_members(ms: Seq<(Seq<char>, Jv)>) -> nat
    decreases ms,
{
    if ms.len() == 0 {
        0
    } else {
        let d0 = jv_depth(ms[0].1);
        let dr = depth_members(ms.drop_first());
        if d0 > dr {
            d0
        } else {
            dr
        }
    }
}

/// Each member value is at most as deep as the deepest member value.
pub proof fn lemma_depth_members_elem(ms: Seq<(Seq<char>, Jv)>, k: int)
    requires
        0 <= k < ms.len(),
    ensures
        jv_depth(ms[k].1) <= depth_members(ms),
    decreases ms.len(),
{
    if k > 0 {
        lemma_depth_members_elem(ms.drop_first(), k - 1);
    }
}

/// Each array element is at most as deep as the deepest element.
pub proof fn lemma_depth_elems_elem(es: Seq<Jv>, k: int)
    requires
        0 <= k < es.len(),
    ensures
        jv_depth(es[k]) <= depth_elems(es),
    decreases es.len(),
{
    if k > 0 {
        lemma_depth_elems_elem(es.drop_first(), k - 1);
    }
}

/// A member list drawn from another list's members is no deeper than it.
pub proof fn lemma_depth_members_contained(s: Seq<(Seq<char>, Jv)>, ms: Seq<(Seq<char>, Jv)>)
    requires
        forall|x: (Seq<char>, Jv)| s.contains(x) ==> ms.contains(x),
    ensures
        depth_members(s) <= depth_members(ms),
    decreases s.len(),
{
    if s.len() > 0 {
        assert(s.contains(s[0]));
        let k = choose|k: int| 0 <= k < ms.len() && ms[k] == s[0];
        lemma_depth_members_elem(ms, k);
        assert(forall|x: (Seq<char>, Jv)| s.drop_first().contains(x) ==> s.contains(x)) by {
            assert forall|x: (Seq<char>, Jv)| s.drop_first().contains(x) implies s.contains(
                x,
            ) by {
                let i = choose|i: int| 0 <= i < s.drop_first().len() && s.drop_first()[i] == x;
                assert(s[i + 1] == x);
            }
        }
        lemma_depth_members_contained(s.drop_first(), ms);
    }
}

/// Member lists with the same members have member values of the same depth.
pub proof fn lemma_depth_members_multiset(s: Seq<(Seq<char>, Jv)>, ms: Seq<(Seq<char>, Jv)>)
    requires
        s.to_multiset() == ms.to_multiset(),
    ensures
        depth_members(s) <= depth_members(ms),
{
    assert forall|x: (Seq<char>, Jv)| s.contains(x) implies ms.contains(x) by {
        s.to_multiset_ensures();
        ms.to_multiset_ensures();
        assert(s.to_multiset().count(x) > 0);
    }
    lemma_depth_members_contained(s, ms);
}

/// Decimal digits of a non-negative integer, most significant first.
pub open spec fn dec_digits(n: nat) -> Seq<u8>
    decreases n,
{
    if n < 10 {
        seq![(48 + n) as u8]
    } else {
        dec_digits(n / 10).push((48 + n % 10) as u8)
    }
}

/// Decimal encoding of an integer, with a leading minus sign if negative.
pub open spec fn int_bytes(i: int) -> Seq<u8> {
    if i >= 0 {
        dec_digits(i as nat)
    } else {
        seq![45u8] + dec_digits((-i) as nat)
    }
}

/// The UTF-8 encoding of one character.
pub open spec fn utf8_of_char(c: char) -> Seq<u8> {
    let n = c as int;
    if n < 0x80 {
        seq![n as u8]
    } else if n < 0x800 {
        seq![(0xC0 + n / 0x40) as u8, (0x80 + n % 0x40) as u8]
    } else if n < 0x10000 {
        seq![(0xE0 + n / 0x1000) as u8, (0x80 + (n / 0x40) % 0x40) as u8, (0x80 + n % 0x40) as u8]
    } else {
        seq![
            (0xF0 + n / 0x40000) as u8,
            (0x80 + (n / 0x1000) % 0x40) as u8,
            (0x80 + (n / 0x40) % 0x40) as u8,
            (0x80 + n % 0x40) as u8,
        ]
    }
}

/// One character of a canonical string: only the quote and the backslash are
/// escaped, everything else is plain UTF-8.
pub open spec fn esc_char(c: char) -> Seq<u8> {
    if c == '"' {
        seq![92u8, 34u8]
    } else if c == '\\' {
        seq![92u8, 92u8]
    } else {
        utf8_of_char(c)
    }
}

/// The body of a canonical string (without the surrounding quotes).
pub open spec fn str_bytes(s: Seq<char>) -> Seq<u8>
    decreases s.len(),
{
    if s.len() == 0 {
        Seq::empty()
    } else {
        esc_char(s[0]) + str_bytes(s.drop_first())
    }
}

/// The canonical encoding of a value.  For an object it is determined by the
/// multiset of members: the members are emitted in key-sorted order whatever
/// order they were inserted in.
pub open spec fn canon(j: Jv) -> Seq<u8>
    decreases jv_depth(j), 0nat,
{
    match j {
        Jv::Null => seq![110u8, 117u8, 108u8, 108u8],
        Jv::Bool(b) => if b {
            seq![116u8, 114u8, 117u8, 101u8]
        } else {
            seq![102u8, 97u8, 108u8, 115u8, 101u8]
        },
        Jv::Int(i) => int_bytes(i),
        Jv::Str(s) => seq![34u8] + str_bytes(s) + seq![34u8],
        Jv::Arr(es) => seq![91u8] + canon_elems(es) + seq![93u8],
        Jv::Obj(ms) => {
            if has_sorted_form(ms.to_multiset()) {
                proof {
                    let s = sorted_form(ms.to_multiset());
                    assert(s.to_multiset() == ms.to_multiset());
                    lemma_depth_members_multiset(s, ms);
                }
                seq![123u8] + canon_members(sorted_form(ms.to_multiset())) + seq![125u8]
            } else {
                Seq::empty()
            }
        },
    }
}

/// Array elements, comma separated.
pub open spec fn canon_elems(es: Seq<Jv>) -> Seq<u8>
    decreases depth_elems(es), es.len(),
{
    if es.len() == 0 {
        Seq::empty()
    } else {
        let first = canon(es[0]);
        if es.len() == 1 {
            first
        } else {
            first + seq![44u8] + canon_elems(es.drop_first())
        }
    }
}

/// Object members, comma separated, each as a quoted key, a colon and the
/// member's value.
pub open spec fn canon_members(ms: Seq<(Seq<char>, Jv)>) -> Seq<u8>
    decreases depth_members(ms), ms.len(),
{
    if ms.len() == 0 {
        Seq::empty()
    } else {
        let first = seq![34u8] + str_bytes(ms[0].0) + seq![34u8, 58u8] + canon(ms[0].1);
        if ms.len() == 1 {
            first
        } else {
            first + seq![44u8] + canon_members(ms.drop_first())
        }
    }
}

/// One encoded member: quoted key, colon, value.
pub open spec fn member_entry(x: (Seq<char>, Jv)) -> Seq<u8> {
    seq![34u8] + str_bytes(x.0) + seq![34u8, 58u8] + canon(x.1)
}

/// Whether a value can be canonically encoded: every object in it must have
/// distinct keys.
pub open spec fn canonicalizable(j: Jv) -> bool
    decreases j,
{
    match j {
        Jv::Arr(es) => elems_canonicalizable(es),
        Jv::Obj(ms) => has_sorted_form(ms.to_multiset()) && members_canonicalizable(ms),
        _ => true,
    }
}

/// Every array element can be encoded.
pub open spec fn elems_canonicalizable(es: Seq<Jv>) -> bool
    decreases es,
{
    if es.len() == 0 {
        true
    } else {
        canonicalizable(es[0]) && elems_canonicalizable(es.drop_first())
    }
}

/// Every member value can be encoded.
pub open spec fn members_canonicalizable(ms: Seq<(Seq<char>, Jv)>) -> bool
    decreases ms,
{
    if ms.len() == 0 {
        true
    } else {
        canonicalizable(ms[0].1) && members_canonicalizable(ms.drop_first())
    }
}

/// Characters with the same scalar value are the same character.
pub proof fn lemma_char_injective(c1: char, c2: char)
    requires
        (c1 as u32) == (c2 as u32),
    ensures
        c1 == c2,
{
    vstd::utf8::char_u32_cast(c1, c1 as u32);
    vstd::utf8::char_u32_cast(c2, c2 as u32);
}

/// The order on strings never holds reflexively.
pub proof fn lemma_key_lt_irreflexive(a: Seq<char>)
    ensures
        !key_lt(a, a),
    decreases a.len(),
{
    if a.len() > 0 {
        lemma_key_lt_irreflexive(a.drop_first());
    }
}

/// The order on strings is asymmetric, so ordered strings are distinct.
pub proof fn lemma_key_lt_asymmetric(a: Seq<char>, b: Seq<char>)
    requires
        key_lt(a, b),
    ensures
        !key_lt(b, a),
        a != b,
    decreases a.len(),
{
    if a.len() > 0 && b.len() > 0 && (a[0] as u32) == (b[0] as u32) {
        lemma_char_injective(a[0], b[0]);
        lemma_key_lt_asymmetric(a.drop_first(), b.drop_first());
        assert(a != b) by {
            if a == b {
                assert(a.drop_first() == b.drop_first());
            }
        }
    } else {
        if a == b {
            lemma_key_lt_irreflexive(a);
        }
    }
}

/// The order on strings is transitive.
pub proof fn lemma_key_lt_trans(a: Seq<char>, b: Seq<char>, c: Seq<char>)
    requires
        key_lt(a, b),
        key_lt(b, c),
    ensures
        key_lt(a, c),
    decreases a.len(),
{
    if a.len() > 0 && b.len() > 0 && c.len() > 0 && (a[0] as u32) == (b[0] as u32) && (
    b[0] as u32) == (c[0] as u32) {
        lemma_key_lt_trans(a.drop_first(), b.drop_first(), c.drop_first());
    }
}

/// Equal prefixes do not influence the order.
pub proof fn lemma_key_lt_skip(a: Seq<char>, b: Seq<char>, i: int)
    requires
        0 <= i <= a.len(),
        i <= b.len(),
        forall|j: int| 0 <= j < i ==> a[j] == b[j],
    ensures
        key_lt(a, b) == key_lt(a.skip(i), b.skip(i)),
    decreases i,
{
    if i == 0 {
        assert(a.skip(0) =~= a);
        assert(b.skip(0) =~= b);
    } else {
        assert(a.drop_first().skip(i - 1) =~= a.skip(i));
        assert(b.drop_first().skip(i - 1) =~= b.skip(i));
        lemma_key_lt_skip(a.drop_first(), b.drop_first(), i - 1);
    }
}

/// Three-way comparison of two strings under the canonical key order.
pub fn str_cmp(a: &str, b: &str) -> (r: i8)
    ensures
        r == -1i8 || r == 0i8 || r == 1i8,
        (r == -1i8) == key_lt(a@, b@),
        (r == 0i8) == (a@ == b@),
        (r == 1i8) == key_lt(b@, a@),
{
    let al = a.unicode_len();
    let bl = b.unicode_len();
    let n = if al < bl {
        al
    } else {
        bl
    };
    let mut i: usize = 0;
    while i < n
        invariant
            i <= n,
            al == a@.len(),
            bl == b@.len(),
            n == if al < bl {
                al
            } else {
                bl
            },
            forall|j: int| 0 <= j < i ==> a@[j] == b@[j],
        decreases n - i,
    {
        let ca = a.get_char(i);
        let cb = b.get_char(i);
        if (ca as u32) < (cb as u32) {
            proof {
                lemma_key_lt_skip(a@, b@, i as int);
                assert(key_lt(a@.skip(i as int), b@.skip(i as int)));
                lemma_key_lt_asymmetric(a@, b@);
            }
            return -1;
        }
        if (ca as u32) > (cb as u32) {
            proof {
                lemma_key_lt_skip(b@, a@, i as int);
                assert(key_lt(b@.skip(i as int), a@.skip(i as int)));
                lemma_key_lt_asymmetric(b@, a@);
            }
            return 1;
        }
        proof {
            assert(ca == cb);
        }
        i += 1;
    }
    if al == bl {
        proof {
            assert(a@ =~= b@);
            lemma_key_lt_irreflexive(a@);
        }
        0
    } else if al < bl {
        proof {
            lemma_key_lt_skip(a@, b@, i as int);
            assert(a@.skip(i as int).len() == 0);
            assert(key_lt(a@.skip(i as int), b@.skip(i as int)));
            lemma_key_lt_asymmetric(a@, b@);
        }
        -1
    } else {
        proof {
            lemma_key_lt_skip(b@, a@, i as int);
            assert(b@.skip(i as int).len() == 0);
            assert(key_lt(b@.skip(i as int), a@.skip(i as int)));
            lemma_key_lt_asymmetric(b@, a@);
        }
        1
    }
}

/// Writes the decimal digits of `n`.
fn write_digits(n: u64, out: &mut Vec<u8>)
    ensures
        final(out)@ == old(out)@ + dec_digits(n as nat),
    decreases n,
{
    if n < 10 {
        out.push(48 + n as u8);
        proof {
            assert(final(out)@ =~= old(out)@ + dec_digits(n as nat));
        }
    } else {
        write_digits(n / 10, out);
        out.push(48 + (n % 10) as u8);
        proof {
            assert(final(out)@ =~= old(out)@ + dec_digits(n as nat));
        }
    }
}

/// Writes the canonical decimal form of an integer.
pub fn write_int(i: i64, out: &mut Vec<u8>)
    ensures
        final(out)@ == old(out)@ + int_bytes(i as int),
{
    if i >= 0 {
        write_digits(i as u64, out);
    } else {
        out.push(45);
        let mag: u64 = if i == i64::MIN {
            9223372036854775808u64
        } else {
            (-i) as u64
        };
        proof {
            assert(mag as nat == (-(i as int)) as nat);
        }
        write_digits(mag, out);
        proof {
            assert(final(out)@ =~= old(out)@ + int_bytes(i as int));
        }
    }
}

/// Writes the UTF-8 encoding of one character.
fn write_char_utf8(c: char, out: &mut Vec<u8>)
    ensures
        final(out)@ == old(out)@ + utf8_of_char(c),
{
    let n = c as u32;
    if n < 0x80 {
        out.push(n as u8);
        proof {
            assert(final(out)@ =~= old(out)@ + utf8_of_char(c));
        }
    } else if n < 0x800 {
        out.push((0xC0 + n / 0x40) as u8);
        out.push((0x80 + n % 0x40) as u8);
        proof {
            assert(final(out)@ =~= old(out)@ + utf8_of_char(c));
        }
    } else if n < 0x10000 {
        out.push((0xE0 + n / 0x1000) as u8);
        out.push((0x80 + (n / 0x40) % 0x40) as u8);
        out.push((0x80 + n % 0x40) as u8);
        proof {
            assert(final(out)@ =~= old(out)@ + utf8_of_char(c));
        }
    } else {
        out.push((0xF0 + n / 0x40000) as u8);
        out.push((0x80 + (n / 0x1000) % 0x40) as u8);
        out.push((0x80 + (n / 0x40) % 0x40) as u8);
        out.push((0x80 + n % 0x40) as u8);
        proof {
            assert(final(out)@ =~= old(out)@ + utf8_of_char(c));
        }
    }
}

/// Adding a character extends the string body by that character's bytes.
pub proof fn lemma_str_bytes_push(s: Seq<char>, c: char)
    ensures
        str_bytes(s.push(c)) == str_bytes(s) + esc_char(c),
    decreases s.len(),
{
    let p = s.push(c);
    if s.len() == 0 {
        assert(p[0] == c);
        assert(p.drop_first() =~= Seq::<char>::empty());
        assert(str_bytes(p.drop_first()) =~= Seq::<u8>::empty());
        assert(str_bytes(p) =~= str_bytes(s) + esc_char(c));
    } else {
        assert(p[0] == s[0]);
        assert(p.drop_first() =~= s.drop_first().push(c));
        lemma_str_bytes_push(s.drop_first(), c);
        assert(str_bytes(p) == esc_char(p[0]) + str_bytes(p.drop_first()));
        assert(str_bytes(s) == esc_char(s[0]) + str_bytes(s.drop_first()));
        assert(str_bytes(p.drop_first()) == str_bytes(s.drop_first()) + esc_char(c));
        vstd::seq_lib::lemma_concat_associative(
            esc_char(s[0]),
            str_bytes(s.drop_first()),
            esc_char(c),
        );
        assert(str_bytes(p) =~= str_bytes(s) + esc_char(c));
    }
}

/// Writes a canonical string: quoted, with only quote and backslash escaped.
pub fn write_string(s: &str, out: &mut Vec<u8>)
    ensures
        final(out)@ == old(out)@ + seq![34u8] + str_bytes(s@) + seq![34u8],
{
    out.push(34);
    let n = s.unicode_len();
    let mut i: usize = 0;
    proof {
        assert(s@.take(0) =~= Seq::<char>::empty());
        assert(out@ =~= old(out)@ + seq![34u8] + str_bytes(s@.take(0)));
    }
    while i < n
        invariant
            i <= n,
            n == s@.len(),
            out@ == old(out)@ + seq![34u8] + str_bytes(s@.take(i as int)),
        decreases n - i,
    {
        let c = s.get_char(i);
        if c == '"' {
            out.push(92);
            out.push(34);
        } else if c == '\\' {
            out.push(92);
            out.push(92);
        } else {
            write_char_utf8(c, out);
        }
        proof {
            lemma_str_bytes_push(s@.take(i as int), c);
            assert(s@.take(i + 1 as int) =~= s@.take(i as int).push(s@[i as int]));
            assert(out@ =~= old(out)@ + seq![34u8] + str_bytes(s@.take(i + 1 as int)));
        }
        i += 1;
    }
    proof {
        assert(s@.take(n as int) =~= s@);
    }
    out.push(34);
    proof {
        assert(out@ =~= old(out)@ + seq![34u8] + str_bytes(s@) + seq![34u8]);
    }
}

/// The canonical encoding of an object is insensitive to member order: two
/// objects whose member lists are permutations of one another encode to the
/// same bytes.
pub proof fn lemma_canon_obj_order_insensitive(ms1: Seq<(Seq<char>, Jv)>, ms2: Seq<(Seq<char>, Jv)>)
    requires
        ms1.to_multiset() == ms2.to_multiset(),
    ensures
        canon(Jv::Obj(ms1)) == canon(Jv::Obj(ms2)),
{
}

/// Two key-sorted member lists with the same members are the same list.
pub proof fn lemma_sorted_members_unique(x: Seq<(Seq<char>, Jv)>, y: Seq<(Seq<char>, Jv)>)
    requires
        keys_sorted(x),
        keys_sorted(y),
        x.to_multiset() == y.to_multiset(),
    ensures
        x == y,
    decreases x.len(),
{
    x.to_multiset_ensures();
    y.to_multiset_ensures();
    if x.len() == 0 || y.len() == 0 {
        assert(x =~= y);
    } else {
        assert(y.contains(y[0]));
        assert(x.to_multiset().count(y[0]) > 0);
        assert(x.contains(y[0]));
        let i = choose|i: int| 0 <= i < x.len() && x[i] == y[0];
        assert(x.contains(x[0]));
        assert(y.to_multiset().count(x[0]) > 0);
        assert(y.contains(x[0]));
        let j = choose|j: int| 0 <= j < y.len() && y[j] == x[0];
        if i > 0 && j > 0 {
            assert(key_lt(x[0].0, x[i].0));
            assert(key_lt(y[0].0, y[j].0));
            lemma_key_lt_asymmetric(x[0].0, x[i].0);
            assert(false);
        }
        assert(x[0] == y[0]);
        assert(x.drop_first().to_multiset() =~= x.to_multiset().remove(x[0])) by {
            assert(x.remove(0) =~= x.drop_first());
        }
        assert(y.drop_first().to_multiset() =~= y.to_multiset().remove(y[0])) by {
            assert(y.remove(0) =~= y.drop_first());
        }
        assert(keys_sorted(x.drop_first())) by {
            assert forall|p: int, q: int|
                0 <= p < q < x.drop_first().len() implies key_lt(
                x.drop_first()[p].0,
                x.drop_first()[q].0,
            ) by {
                assert(x.drop_first()[p] == x[p + 1]);
                assert(x.drop_first()[q] == x[q + 1]);
            }
        }
        assert(keys_sorted(y.drop_first())) by {
            assert forall|p: int, q: int|
                0 <= p < q < y.drop_first().len() implies key_lt(
                y.drop_first()[p].0,
                y.drop_first()[q].0,
            ) by {
                assert(y.drop_first()[p] == y[p + 1]);
                assert(y.drop_first()[q] == y[q + 1]);
            }
        }
        lemma_sorted_members_unique(x.drop_first(), y.drop_first());
        assert(x =~= y) by {
            assert forall|p: int| 0 <= p < x.len() implies x[p] == y[p] by {
                if p > 0 {
                    assert(x[p] == x.drop_first()[p - 1]);
                    assert(y[p] == y.drop_first()[p - 1]);
                }
            }
        }
    }
}

/// A value counted at least twice sits at two different positions.
pub proof fn lemma_count_two_indices<A>(s: Seq<A>, x: A)
    requires
        s.to_multiset().count(x) >= 2,
    ensures
        exists|i: int, j: int| 0 <= i < j < s.len() && s[i] == x && s[j] == x,
{
    broadcast use vstd::multiset::group_multiset_axioms;

    s.to_multiset_ensures();
    assert(s.contains(x));
    let i1 = choose|i: int| 0 <= i < s.len() && s[i] == x;
    let s2 = s.remove(i1);
    assert(s2.to_multiset() == s.to_multiset().remove(s[i1]));
    assert(s2.to_multiset().count(x) >= 1);
    s2.to_multiset_ensures();
    assert(s2.contains(x));
    let i2 = choose|i: int| 0 <= i < s2.len() && s2[i] == x;
    if i2 < i1 {
        assert(s[i2] == s2[i2]);
        assert(0 <= i2 < i1 < s.len() && s[i2] == x && s[i1] == x);
    } else {
        assert(s[i2 + 1] == s2[i2]);
        assert(0 <= i1 < i2 + 1 < s.len() && s[i1] == x && s[i2 + 1] == x);
    }
}

/// Two members with one key (or one member twice) rule out a sorted form.
pub proof fn lemma_dup_key_no_sorted(
    mt: Multiset<(Seq<char>, Jv)>,
    x: (Seq<char>, Jv),
    y: (Seq<char>, Jv),
)
    requires
        x.0 == y.0,
        x == y ==> mt.count(x) >= 2,
        x != y ==> mt.count(x) >= 1 && mt.count(y) >= 1,
    ensures
        !has_sorted_form(mt),
{
    assert forall|r: Seq<(Seq<char>, Jv)>| !(r.to_multiset() == mt && keys_sorted(r)) by {
        if r.to_multiset() == mt && keys_sorted(r) {
            r.to_multiset_ensures();
            if x == y {
                lemma_count_two_indices(r, x);
                let (i, j): (int, int) = choose|i: int, j: int|
                    0 <= i < j < r.len() && r[i] == x && r[j] == x;
                assert(key_lt(r[i].0, r[j].0));
                lemma_key_lt_irreflexive(x.0);
            } else {
                assert(r.contains(x));
                assert(r.contains(y));
                let i = choose|i: int| 0 <= i < r.len() && r[i] == x;
                let j = choose|j: int| 0 <= j < r.len() && r[j] == y;
                if i < j {
                    assert(key_lt(r[i].0, r[j].0));
                    lemma_key_lt_irreflexive(x.0);
                } else if j < i {
                    assert(key_lt(r[j].0, r[i].0));
                    lemma_key_lt_irreflexive(x.0);
                }
            }
        }
    }
}

/// The member models of a concatenation are the concatenated member models.
pub proof fn lemma_mem_view_concat(a: Seq<(String, JsonValue)>, b: Seq<(String, JsonValue)>)
    ensures
        mem_view(a + b) == mem_view(a) + mem_view(b),
    decreases a.len(),
{
    if a.len() == 0 {
        assert(a + b =~= b);
        assert(mem_view(a) =~= Seq::<(Seq<char>, Jv)>::empty());
        assert(mem_view(a) + mem_view(b) =~= mem_view(b));
    } else {
        assert((a + b)[0] == a[0]);
        assert((a + b).drop_first() =~= a.drop_first() + b);
        lemma_mem_view_concat(a.drop_first(), b);
        vstd::seq_lib::lemma_concat_associative(
            seq![(a[0].0@, jv_view(a[0].1))],
            mem_view(a.drop_first()),
            mem_view(b),
        );
        assert(mem_view(a + b) =~= mem_view(a) + mem_view(b));
    }
}

/// Inserting one member inserts its model.
pub proof fn lemma_mem_view_insert(s: Seq<(String, JsonValue)>, p: int, v: (String, JsonValue))
    requires
        0 <= p <= s.len(),
    ensures
        mem_view(s.insert(p, v)) == mem_view(s).insert(p, (v.0@, jv_view(v.1))),
    decreases p,
{
    lemma_mem_view_len(s);
    if p == 0 {
        let t = s.insert(0, v);
        assert(t[0] == v);
        assert(t.drop_first() =~= s);
        assert(mem_view(t) =~= mem_view(s).insert(0, (v.0@, jv_view(v.1))));
    } else {
        let t = s.insert(p, v);
        assert(t[0] == s[0]);
        assert(t.drop_first() =~= s.drop_first().insert(p - 1, v));
        lemma_mem_view_insert(s.drop_first(), p - 1, v);
        assert(mem_view(t) =~= mem_view(s).insert(p, (v.0@, jv_view(v.1)))) by {
            lemma_mem_view_len(s.drop_first());
        }
    }
}

/// Every member value of an encodable member list is itself encodable.
pub proof fn lemma_members_canonicalizable_index(ms: Seq<(Seq<char>, Jv)>, k: int)
    requires
        members_canonicalizable(ms),
        0 <= k < ms.len(),
    ensures
        canonicalizable(ms[k].1),
    decreases k,
{
    if k > 0 {
        lemma_members_canonicalizable_index(ms.drop_first(), k - 1);
    }
}

/// A member list is encodable when each of its member values is.
pub proof fn lemma_members_canonicalizable_all(ms: Seq<(Seq<char>, Jv)>)
    requires
        forall|k: int| 0 <= k < ms.len() ==> canonicalizable(#[trigger] ms[k].1),
    ensures
        members_canonicalizable(ms),
    decreases ms.len(),
{
    if ms.len() > 0 {
        assert(forall|k: int|
            0 <= k < ms.drop_first().len() ==> canonicalizable(
                #[trigger] ms.drop_first()[k].1,
            )) by {
            assert(forall|k: int|
                0 <= k < ms.drop_first().len() ==> ms.drop_first()[k] == ms[k + 1]);
        }
        lemma_members_canonicalizable_all(ms.drop_first());
    }
}

/// Every element of an encodable element list is itself encodable.
pub proof fn lemma_elems_canonicalizable_index(es: Seq<Jv>, k: int)
    requires
        elems_canonicalizable(es),
        0 <= k < es.len(),
    ensures
        canonicalizable(es[k]),
    decreases k,
{
    if k > 0 {
        lemma_elems_canonicalizable_index(es.drop_first(), k - 1);
    }
}

/// An element list is encodable when each of its elements is.
pub proof fn lemma_elems_canonicalizable_all(es: Seq<Jv>)
    requires
        forall|k: int| 0 <= k < es.len() ==> canonicalizable(#[trigger] es[k]),
    ensures
        elems_canonicalizable(es),
    decreases es.len(),
{
    if es.len() > 0 {
        assert(forall|k: int|
            0 <= k < es.drop_first().len() ==> canonicalizable(#[trigger] es.drop_first()[k]))
            by {
            assert(forall|k: int| 0 <= k < es.drop_first().len() ==> es.drop_first()[k] == es[k
                + 1]);
        }
        lemma_elems_canonicalizable_all(es.drop_first());
    }
}

/// Encodability of members carries across any rearrangement.
pub proof fn lemma_members_canonicalizable_multiset(
    s: Seq<(Seq<char>, Jv)>,
    t: Seq<(Seq<char>, Jv)>,
)
    requires
        s.to_multiset() == t.to_multiset(),
        members_canonicalizable(s),
    ensures
        members_canonicalizable(t),
{
    s.to_multiset_ensures();
    t.to_multiset_ensures();
    assert(forall|k: int| 0 <= k < t.len() ==> canonicalizable(#[trigger] t[k].1)) by {
        assert forall|k: int| 0 <= k < t.len() implies canonicalizable(#[trigger] t[k].1) by {
            assert(t.contains(t[k]));
            assert(s.to_multiset().count(t[k]) > 0);
            assert(s.contains(t[k]));
            let i = choose|i: int| 0 <= i < s.len() && s[i] == t[k];
            lemma_members_canonicalizable_index(s, i);
        }
    }
    lemma_members_canonicalizable_all(t);
}

/// Appending a member appends its entry, after a comma if one is due.
pub proof fn lemma_canon_members_push(t: Seq<(Seq<char>, Jv)>, x: (Seq<char>, Jv))
    ensures
        canon_members(t.push(x)) == if t.len() == 0 {
            member_entry(x)
        } else {
            canon_members(t) + seq![44u8] + member_entry(x)
        },
    decreases t.len(),
{
    let p = t.push(x);
    if t.len() == 0 {
        assert(p[0] == x);
        assert(canon_members(p) =~= member_entry(x));
    } else {
        assert(p[0] == t[0]);
        assert(p.drop_first() =~= t.drop_first().push(x));
        lemma_canon_members_push(t.drop_first(), x);
        if t.len() == 1 {
            assert(canon_members(p) =~= canon_members(t) + seq![44u8] + member_entry(x));
        } else {
            assert(canon_members(p) =~= canon_members(t) + seq![44u8] + member_entry(x));
        }
    }
}

/// Appending an element appends its encoding, after a comma if one is due.
pub proof fn lemma_canon_elems_push(t: Seq<Jv>, x: Jv)
    ensures
        canon_elems(t.push(x)) == if t.len() == 0 {
            canon(x)
        } else {
            canon_elems(t) + seq![44u8] + canon(x)
        },
    decreases t.len(),
{
    let p = t.push(x);
    if t.len() == 0 {
        assert(p[0] == x);
        assert(canon_elems(p) =~= canon(x));
    } else {
        assert(p[0] == t[0]);
        assert(p.drop_first() =~= t.drop_first().push(x));
        lemma_canon_elems_push(t.drop_first(), x);
        assert(canon_elems(p) =~= canon_elems(t) + seq![44u8] + canon(x));
    }
}

/// Finds where a key belongs among key-sorted members, or reports that the
/// key is already present.
fn find_insert_pos(out: &Vec<(String, JsonValue)>, k: &str) -> (r: Result<usize, Error>)
    requires
        keys_sorted(mem_view(out@)),
    ensures
        match r {
            Ok(p) => p <= out@.len() && (forall|q: int|
                0 <= q < p ==> key_lt(#[trigger] mem_view(out@)[q].0, k@)) && (p < out@.len()
                ==> key_lt(k@, mem_view(out@)[p as int].0)),
            Err(e) => e@ == ErrV::MalformedDocument && (exists|q: int|
                0 <= q < out@.len() && (#[trigger] mem_view(out@)[q].0) == k@),
        },
{
    let ghost ov = mem_view(out@);
    proof {
        lemma_mem_view_len(out@);
    }
    let mut p: usize = 0;
    while p < out.len()
        invariant
            p <= out.len(),
            ov == mem_view(out@),
            ov.len() == out@.len(),
            forall|q: int| 0 <= q < p ==> key_lt(#[trigger] ov[q].0, k@),
        decreases out.len() - p,
    {
        proof {
            lemma_mem_view_index(out@, p as int);
        }
        let c = str_cmp(out[p].0.as_str(), k);
        if c == 0 {
            proof {
                assert(mem_view(out@)[p as int].0 == k@);
            }
            return Err(Error::MalformedDocument);
        }
        if c == 1 {
            return Ok(p);
        }
        p += 1;
    }
    Ok(p)
}

/// Produces the members in key-sorted order, or reports a duplicate key.
fn sort_members(m: &Vec<(String, JsonValue)>) -> (r: Result<Vec<(String, JsonValue)>, Error>)
    ensures
        match r {
            Ok(s) => mem_view(s@).to_multiset() == mem_view(m@).to_multiset() && keys_sorted(
                mem_view(s@),
            ),
            Err(e) => e@ == ErrV::MalformedDocument && !has_sorted_form(
                mem_view(m@).to_multiset(),
            ),
        },
{
    let ghost mv = mem_view(m@);
    let mut out: Vec<(String, JsonValue)> = Vec::new();
    let mut i: usize = 0;
    proof {
        lemma_mem_view_len(m@);
        assert(m@.take(0) =~= Seq::<(String, JsonValue)>::empty());
        assert(mem_view(m@.take(0)) =~= Seq::<(Seq<char>, Jv)>::empty());
        assert(mem_view(out@) =~= Seq::<(Seq<char>, Jv)>::empty());
    }
    while i < m.len()
        invariant
            i <= m.len(),
            mv == mem_view(m@),
            mv.len() == m@.len(),
            mem_view(out@).to_multiset() == mem_view(m@.take(i as int)).to_multiset(),
            keys_sorted(mem_view(out@)),
            out@.len() == i,
        decreases m.len() - i,
    {
        let k = m[i].0.clone();
        let v = m[i].1.deep_clone();
        let ghost nv = mv[i as int];
        proof {
            lemma_mem_view_index(m@, i as int);
            lemma_mem_view_len(out@);
            assert((k@, jv_view(v)) == nv);
        }
        let p = match find_insert_pos(&out, k.as_str()) {
            Ok(p) => p,
            Err(e) => {
                proof {
                    let ov = mem_view(out@);
                    let q = choose|q: int| 0 <= q < ov.len() && ov[q].0 == k@;
                    let x = ov[q];
                    ov.to_multiset_ensures();
                    assert(ov.contains(x));
                    assert(mem_view(m@.take(i as int)).to_multiset().count(x) > 0);
                    assert(m@ =~= m@.take(i as int) + m@.skip(i as int));
                    lemma_mem_view_concat(m@.take(i as int), m@.skip(i as int));
                    vstd::seq_lib::lemma_multiset_commutative(
                        mem_view(m@.take(i as int)),
                        mem_view(m@.skip(i as int)),
                    );
                    lemma_mem_view_index(m@.skip(i as int), 0);
                    assert(m@.skip(i as int)[0] == m@[i as int]);
                    let sk = mem_view(m@.skip(i as int));
                    sk.to_multiset_ensures();
                    assert(sk[0] == nv);
                    assert(sk.contains(nv));
                    assert(sk.to_multiset().count(nv) > 0);
                    assert(mv.to_multiset() == mem_view(m@.take(i as int)).to_multiset().add(
                        sk.to_multiset(),
                    ));
                    if x == nv {
                        assert(mv.to_multiset().count(x) >= 2);
                    } else {
                        assert(mv.to_multiset().count(x) >= 1);
                        assert(mv.to_multiset().count(nv) >= 1);
                    }
                    lemma_dup_key_no_sorted(mv.to_multiset(), x, nv);
                }
                return Err(e);
            },
        };
        let ghost prev = out@;
        out.insert(p, (k, v));
        proof {
            lemma_mem_view_insert(prev, p as int, (k, v));
            let ov = mem_view(prev);
            let ov2 = mem_view(out@);
            lemma_mem_view_len(prev);
            assert(ov2 == ov.insert(p as int, nv));
            // sortedness of the extended list
            assert forall|a: int, b: int| 0 <= a < b < ov2.len() implies key_lt(
                ov2[a].0,
                ov2[b].0,
            ) by {
                assert(ov2[a] == if a < p {
                    ov[a]
                } else if a == p {
                    nv
                } else {
                    ov[a - 1]
                });
                assert(ov2[b] == if b < p {
                    ov[b]
                } else if b == p {
                    nv
                } else {
                    ov[b - 1]
                });
                if a == p && b > p {
                    if b - 1 == p {
                        assert(key_lt(nv.0, ov[p as int].0));
                    } else {
                        assert(key_lt(nv.0, ov[p as int].0));
                        assert(key_lt(ov[p as int].0, ov[b - 1].0));
                        lemma_key_lt_trans(nv.0, ov[p as int].0, ov[b - 1].0);
                    }
                }
            }
            // the multiset gains exactly the new member
            assert(ov2.to_multiset() == ov.to_multiset().insert(nv));
            assert(m@.take(i + 1 as int) =~= m@.take(i as int).push(m@[i as int]));
            lemma_mem_view_push(m@.take(i as int), m@[i as int]);
            assert(mem_view(m@.take(i + 1 as int)) == mem_view(m@.take(i as int)).push(nv));
            assert(mem_view(m@.take(i + 1 as int)).to_multiset() == mem_view(
                m@.take(i as int),
            ).to_multiset().insert(nv));
        }
        i += 1;
    }
    proof {
        assert(m@.take(i as int) =~= m@);
    }
    Ok(out)
}

/// Writes the canonical encoding of a value, or reports that the value has
/// an object with a duplicate key somewhere in it.
fn canon_value(v: &JsonValue, out: &mut Vec<u8>) -> (r: Result<(), Error>)
    ensures
        r is Ok <==> canonicalizable(v@),
        r is Ok ==> final(out)@ == old(out)@ + canon(v@),
        r matches Err(e) ==> e@ == ErrV::MalformedDocument,
    decreases jv_depth(v@),
{
    match v {
        JsonValue::Null => {
            out.push(110);
            out.push(117);
            out.push(108);
            out.push(108);
            proof {
                assert(out@ =~= old(out)@ + canon(v@));
            }
            Ok(())
        },
        JsonValue::Bool(b) => {
            if *b {
                out.push(116);
                out.push(114);
                out.push(117);
                out.push(101);
            } else {
                out.push(102);
                out.push(97);
                out.push(108);
                out.push(115);
                out.push(101);
            }
            proof {
                assert(out@ =~= old(out)@ + canon(v@));
            }
            Ok(())
        },
        JsonValue::Int(i) => {
            write_int(*i, out);
            Ok(())
        },
        JsonValue::Str(s) => {
            write_string(s.as_str(), out);
            proof {
                assert(out@ =~= old(out)@ + canon(v@));
            }
            Ok(())
        },
        JsonValue::Array(a) => {
            let ghost av = arr_view(a@);
            proof {
                lemma_arr_view_len(a@);
                assert(v@ == Jv::Arr(av));
            }
            out.push(91);
            let mut i: usize = 0;
            proof {
                assert(av.take(0) =~= Seq::<Jv>::empty());
                assert(out@ =~= old(out)@ + seq![91u8] + canon_elems(av.take(0)));
            }
            while i < a.len()
                invariant
                    i <= a.len(),
                    av == arr_view(a@),
                    av.len() == a@.len(),
                    v@ == Jv::Arr(av),
                    out@ == old(out)@ + seq![91u8] + canon_elems(av.take(i as int)),
                    forall|k: int| 0 <= k < i ==> canonicalizable(#[trigger] av[k]),
                decreases a@.len() - i,
            {
                if i > 0 {
                    out.push(44);
                }
                proof {
                    lemma_arr_view_index(a@, i as int);
                    lemma_depth_elems_elem(av, i as int);
                    assert(jv_depth(a@[i as int]@) <= depth_elems(av));
                    assert(jv_depth(v@) == 1 + depth_elems(av));
                }
                match canon_value(&a[i], out) {
                    Ok(()) => (),
                    Err(e) => {
                        proof {
                            assert(canonicalizable(v@) == elems_canonicalizable(av));
                            if elems_canonicalizable(av) {
                                lemma_elems_canonicalizable_index(av, i as int);
                            }
                        }
                        return Err(e);
                    },
                }
                proof {
                    lemma_canon_elems_push(av.take(i as int), av[i as int]);
                    assert(av.take(i + 1 as int) =~= av.take(i as int).push(av[i as int]));
                    assert(out@ =~= old(out)@ + seq![91u8] + canon_elems(av.take(i + 1 as int)));
                }
                i += 1;
            }
            out.push(93);
            proof {
                assert(av.take(i as int) =~= av);
                lemma_elems_canonicalizable_all(av);
                assert(out@ =~= old(out)@ + canon(v@));
            }
            Ok(())
        },
        JsonValue::Object(m) => {
            let ghost mvv = mem_view(m@);
            proof {
                lemma_mem_view_len(m@);
                assert(v@ == Jv::Obj(mvv));
            }
            let sorted = match sort_members(m) {
                Ok(s) => s,
                Err(e) => {
                    return Err(e);
                },
            };
            let ghost sv = mem_view(sorted@);
            proof {
                lemma_mem_view_len(sorted@);
                assert(has_sorted_form(mvv.to_multiset())) by {
                    assert(sv.to_multiset() == mvv.to_multiset() && keys_sorted(sv));
                }
                let sf = sorted_form(mvv.to_multiset());
                assert(sf.to_multiset() == mvv.to_multiset() && keys_sorted(sf));
                lemma_sorted_members_unique(sf, sv);
                assert(sorted_form(mvv.to_multiset()) == sv);
            }
            out.push(123);
            let mut i: usize = 0;
            proof {
                assert(sv.take(0) =~= Seq::<(Seq<char>, Jv)>::empty());
                assert(out@ =~= old(out)@ + seq![123u8] + canon_members(sv.take(0)));
            }
            while i < sorted.len()
                invariant
                    i <= sorted.len(),
                    sv == mem_view(sorted@),
                    sv.len() == sorted@.len(),
                    mvv == mem_view(m@),
                    v@ == Jv::Obj(mvv),
                    sv.to_multiset() == mvv.to_multiset(),
                    keys_sorted(sv),
                    has_sorted_form(mvv.to_multiset()),
                    sorted_form(mvv.to_multiset()) == sv,
                    out@ == old(out)@ + seq![123u8] + canon_members(sv.take(i as int)),
                    forall|k: int| 0 <= k < i ==> canonicalizable(#[trigger] sv[k].1),
                decreases sorted@.len() - i,
            {
                if i > 0 {
                    out.push(44);
                }
                write_string(sorted[i].0.as_str(), out);
                out.push(58);
                proof {
                    lemma_mem_view_index(sorted@, i as int);
                    lemma_depth_members_elem(sv, i as int);
                    lemma_depth_members_multiset(sv, mvv);
                    assert(jv_depth(sorted@[i as int].1@) <= depth_members(mvv));
                    assert(jv_depth(v@) == 1 + depth_members(mvv));
                }
                match canon_value(&sorted[i].1, out) {
                    Ok(()) => (),
                    Err(e) => {
                        proof {
                            assert(canonicalizable(v@) == (has_sorted_form(mvv.to_multiset())
                                && members_canonicalizable(mvv)));
                            if members_canonicalizable(mvv) {
                                lemma_members_canonicalizable_multiset(mvv, sv);
                                lemma_members_canonicalizable_index(sv, i as int);
                            }
                        }
                        return Err(e);
                    },
                }
                proof {
                    lemma_canon_members_push(sv.take(i as int), sv[i as int]);
                    assert(sv.take(i + 1 as int) =~= sv.take(i as int).push(sv[i as int]));
                    assert(out@ =~= old(out)@ + seq![123u8] + canon_members(
                        sv.take(i + 1 as int),
                    ));
                }
                i += 1;
            }
            out.push(125);
            proof {
                assert(sv.take(i as int) =~= sv);
                lemma_members_canonicalizable_all(sv);
                lemma_members_canonicalizable_multiset(sv, mvv);
                assert(out@ =~= old(out)@ + canon(v@));
            }
            Ok(())
        },
    }
}

/// The canonical byte encoding of a value: deterministic, whitespace-free,
/// with object members in key order.  Rejected exactly when some object in
/// the value has two members with one key.
pub fn canonicalize(v: &JsonValue) -> (r: Result<Vec<u8>, Error>)
    ensures
        r is Ok <==> canonicalizable(v@),
        r matches Ok(bytes) ==> bytes@ == canon(v@),
        r matches Err(e) ==> e@ == ErrV::MalformedDocument,
{
    let mut out: Vec<u8> = Vec::new();
    match canon_value(v, &mut out) {
        Ok(()) => {
            proof {
                assert(out@ =~= canon(v@));
            }
            Ok(out)
        },
        Err(e) => Err(e),
    }
}

} // verus!
