//! Lowercase hexadecimal encoding and decoding, used for key IDs, signature
//! values and digest values.

use vstd::prelude::*;
use crate::error::Error;
use crate::error::ErrV;

verus! {

/// The lowercase hex digit of a half-byte, as an ASCII byte.
pub open spec fn hex_digit(n: u8) -> u8
    recommends
        n < 16,
{
    if n < 10 {
        (48 + n) as u8
    } else {
        (87 + n) as u8
    }
}

/// The ASCII bytes of the lowercase hex form of a byte string.
pub open spec fn hex_bytes(bs: Seq<u8>) -> Seq<u8>
    decreases bs.len(),
{
    if bs.len() == 0 {
        Seq::empty()
    } else {
        seq![hex_digit(bs[0] / 16), hex_digit(bs[0] % 16)] + hex_bytes(bs.drop_first())
    }
}

/// The lowercase hex form of a byte string, as characters.
pub open spec fn hex_str(bs: Seq<u8>) -> Seq<char> {
    hex_bytes(bs).map_values(|b: u8| b as char)
}

/// A lowercase hex digit character.
pub open spec fn is_hex_char(c: char) -> bool {
    (48 <= c as u32 && c as u32 <= 57) || (97 <= c as u32 && c as u32 <= 102)
}

/// The value of a lowercase hex digit character.
pub open spec fn hex_val(c: char) -> u8
    recommends
        is_hex_char(c),
{
    if c as u32 <= 57 {
        (c as u32 - 48) as u8
    } else {
        (c as u32 - 87) as u8
    }
}

/// A string of lowercase hex digit pairs.
pub open spec fn is_hex(s: Seq<char>) -> bool {
    s.len() % 2 == 0 && forall|i: int| 0 <= i < s.len() ==> is_hex_char(#[trigger] s[i])
}

/// The bytes a hex string decodes to.
pub open spec fn unhex(s: Seq<char>) -> Seq<u8>
    decreases s.len(),
{
    if s.len() < 2 {
        Seq::empty()
    } else {
        seq![(16 * hex_val(s[0]) + hex_val(s[1])) as u8] + unhex(s.skip(2))
    }
}

/// Relies on std's String::from_utf8: ASCII bytes become the string of
/// exactly those characters.
#[verifier::external_body]
fn ascii_to_string(v: Vec<u8>) -> (r: String)
    requires
        forall|i: int| 0 <= i < v@.len() ==> v@[i] < 128,
    ensures
        r@.len() == v@.len(),
        forall|i: int| 0 <= i < v@.len() ==> r@[i] == (#[trigger] v@[i]) as char,
{
    match String::from_utf8(v) {
        Ok(s) => s,
        Err(_) => String::new(),
    }
}

/// Two more hex digits extend the encoding by one byte.
proof fn lemma_hex_bytes_push(bs: Seq<u8>, b: u8)
    ensures
        hex_bytes(bs.push(b)) == hex_bytes(bs) + seq![hex_digit(b / 16), hex_digit(b % 16)],
    decreases bs.len(),
{
    let p = bs.push(b);
    if bs.len() == 0 {
        assert(p[0] == b);
        assert(p.drop_first() =~= Seq::<u8>::empty());
        assert(hex_bytes(p.drop_first()) =~= Seq::<u8>::empty());
        assert(hex_bytes(p) =~= hex_bytes(bs) + seq![hex_digit(b / 16), hex_digit(b % 16)]);
    } else {
        assert(p[0] == bs[0]);
        assert(p.drop_first() =~= bs.drop_first().push(b));
        lemma_hex_bytes_push(bs.drop_first(), b);
        vstd::seq_lib::lemma_concat_associative(
            seq![hex_digit(bs[0] / 16), hex_digit(bs[0] % 16)],
            hex_bytes(bs.drop_first()),
            seq![hex_digit(b / 16), hex_digit(b % 16)],
        );
        assert(hex_bytes(p) =~= hex_bytes(bs) + seq![hex_digit(b / 16), hex_digit(b % 16)]);
    }
}

/// Each hex digit is an ASCII byte.
proof fn lemma_hex_bytes_ascii(bs: Seq<u8>)
    ensures
        forall|i: int| 0 <= i < hex_bytes(bs).len() ==> (#[trigger] hex_bytes(bs)[i]) < 128,
        hex_bytes(bs).len() == 2 * bs.len(),
    decreases bs.len(),
{
    if bs.len() > 0 {
        lemma_hex_bytes_ascii(bs.drop_first());
    }
}

/// Encodes bytes as a lowercase hex string.
pub fn hex_encode(bs: &[u8]) -> (r: String)
    ensures
        r@ == hex_str(bs@),
{
    let mut out: Vec<u8> = Vec::new();
    let mut i: usize = 0;
    proof {
        assert(bs@.take(0) =~= Seq::<u8>::empty());
        assert(out@ =~= hex_bytes(bs@.take(0)));
    }
    while i < bs.len()
        invariant
            i <= bs@.len(),
            out@ == hex_bytes(bs@.take(i as int)),
            out@.len() == 2 * i,
        decreases bs@.len() - i,
    {
        let b = bs[i];
        let hi = b / 16;
        let lo = b % 16;
        out.push(if hi < 10 {
            48 + hi
        } else {
            87 + hi
        });
        out.push(if lo < 10 {
            48 + lo
        } else {
            87 + lo
        });
        proof {
            lemma_hex_bytes_push(bs@.take(i as int), b);
            assert(bs@.take(i + 1 as int) =~= bs@.take(i as int).push(b));
            assert(out@ =~= hex_bytes(bs@.take(i + 1 as int)));
        }
        i += 1;
    }
    proof {
        assert(bs@.take(i as int) =~= bs@);
        lemma_hex_bytes_ascii(bs@);
    }
    let r = ascii_to_string(out);
    proof {
        assert(r@ =~= hex_str(bs@)) by {
            assert(hex_str(bs@).len() == hex_bytes(bs@).len());
            assert(forall|i: int|
                0 <= i < hex_bytes(bs@).len() ==> hex_str(bs@)[i] == (#[trigger] hex_bytes(
                    bs@,
                )[i]) as char);
        }
    }
    r
}

/// Adding one hex digit pair appends its byte.
proof fn lemma_unhex_snoc(t: Seq<char>, c1: char, c2: char)
    requires
        t.len() % 2 == 0,
    ensures
        unhex(t + seq![c1, c2]) == unhex(t).push((16 * hex_val(c1) + hex_val(c2)) as u8),
    decreases t.len(),
{
    let p = t + seq![c1, c2];
    if t.len() == 0 {
        assert(p.len() == 2);
        assert(p[0] == c1 && p[1] == c2);
        assert(p.skip(2) =~= Seq::<char>::empty());
        assert(unhex(p.skip(2)) =~= Seq::<u8>::empty());
        assert(unhex(t) =~= Seq::<u8>::empty());
        assert(unhex(p) =~= unhex(t).push((16 * hex_val(c1) + hex_val(c2)) as u8));
    } else {
        assert(p[0] == t[0] && p[1] == t[1]);
        assert(p.skip(2) =~= t.skip(2) + seq![c1, c2]);
        lemma_unhex_snoc(t.skip(2), c1, c2);
        assert(unhex(p) =~= unhex(t).push((16 * hex_val(c1) + hex_val(c2)) as u8));
    }
}

/// Decodes a lowercase hex string; rejects odd lengths and other characters.
pub fn hex_decode(s: &str) -> (r: Result<Vec<u8>, Error>)
    ensures
        r is Ok <==> is_hex(s@),
        r matches Ok(v) ==> v@ == unhex(s@),
        r matches Err(e) ==> e@ == ErrV::MalformedDocument,
{
    let n = s.unicode_len();
    if n % 2 != 0 {
        return Err(Error::MalformedDocument);
    }
    let mut out: Vec<u8> = Vec::new();
    let mut i: usize = 0;
    proof {
        assert(s@.take(0) =~= Seq::<char>::empty());
        assert(out@ =~= unhex(s@.take(0)));
    }
    while i < n
        invariant
            i <= n,
            i % 2 == 0,
            n % 2 == 0,
            n == s@.len(),
            out@ == unhex(s@.take(i as int)),
            forall|j: int| 0 <= j < i ==> is_hex_char(#[trigger] s@[j]),
        decreases n - i,
    {
        let c1 = s.get_char(i);
        let c2 = s.get_char(i + 1);
        let v1 = c1 as u32;
        let v2 = c2 as u32;
        let h1: u8 = if 48 <= v1 && v1 <= 57 {
            (v1 - 48) as u8
        } else if 97 <= v1 && v1 <= 102 {
            (v1 - 87) as u8
        } else {
            return Err(Error::MalformedDocument);
        };
        let h2: u8 = if 48 <= v2 && v2 <= 57 {
            (v2 - 48) as u8
        } else if 97 <= v2 && v2 <= 102 {
            (v2 - 87) as u8
        } else {
            return Err(Error::MalformedDocument);
        };
        out.push(16 * h1 + h2);
        proof {
            assert(s@.take(i as int).len() % 2 == 0);
            lemma_unhex_snoc(s@.take(i as int), c1, c2);
            assert(s@.take(i + 2 as int) =~= s@.take(i as int) + seq![c1, c2]);
            assert(out@ =~= unhex(s@.take(i + 2 as int)));
        }
        i += 2;
    }
    proof {
        assert(s@.take(i as int) =~= s@);
    }
    Ok(out)
}

} // verus!
