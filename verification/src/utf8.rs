//! Facts about the UTF-8 encoding of texts.

use vstd::prelude::*;
use vstd::utf8::*;

verus! {

/// The encoding of two texts in a row is the two encodings in a row.
pub proof fn lemma_encode_concat(a: Seq<char>, b: Seq<char>)
    ensures
        encode_utf8(a + b) == encode_utf8(a) + encode_utf8(b),
    decreases a.len(),
{
    if a.len() == 0 {
        assert(a + b =~= b);
        assert(encode_utf8(a) + encode_utf8(b) =~= encode_utf8(b));
    } else {
        lemma_encode_concat(a.drop_first(), b);
        assert((a + b).drop_first() =~= a.drop_first() + b);
        assert(encode_utf8(a + b) =~= encode_utf8(a) + encode_utf8(b));
    }
}

/// A character of the ASCII range is encoded as itself.
pub proof fn lemma_encode_ascii_char(c: char)
    requires
        c as u32 <= 0x7f,
    ensures
        encode_scalar(c as u32) == seq![c as u8],
{
    let s = c as u32;
    assert(s <= 0x7f ==> (s & 0x7F) as u8 == s as u8) by (bit_vector);
}

/// The encoding of any other character has no byte of the ASCII range.
pub proof fn lemma_encode_wide_char(c: char)
    requires
        c as u32 > 0x7f,
    ensures
        forall|i: int|
            0 <= i < encode_scalar(c as u32).len() ==> #[trigger] encode_scalar(c as u32)[i] >= 0x80,
{
    let s = c as u32;
    assert((0xC0u8 | ((s >> 6) & 0x1F) as u8) >= 0x80u8) by (bit_vector);
    assert((0xE0u8 | ((s >> 12) & 0x0F) as u8) >= 0x80u8) by (bit_vector);
    assert((0xF0u8 | ((s >> 18) & 0x7) as u8) >= 0x80u8) by (bit_vector);
    assert((0x80u8 | (s & 0x3F) as u8) >= 0x80u8) by (bit_vector);
    assert((0x80u8 | ((s >> 6) & 0x3F) as u8) >= 0x80u8) by (bit_vector);
    assert((0x80u8 | ((s >> 12) & 0x3F) as u8) >= 0x80u8) by (bit_vector);
}

/// A byte of the ASCII range occurs in the encoding of its own character alone.
pub proof fn lemma_encode_other_char(c: char, b: u8)
    requires
        b <= 0x7f,
        c != b as char,
    ensures
        !encode_scalar(c as u32).contains(b),
{
    if c as u32 <= 0x7f {
        lemma_encode_ascii_char(c);
    } else {
        lemma_encode_wide_char(c);
    }
}

/// A byte of the ASCII range occurs in an encoding only where its character
/// occurs in the text.
pub proof fn lemma_encode_ascii_bytes(s: Seq<char>, b: u8)
    requires
        b <= 0x7f,
        !s.contains(b as char),
    ensures
        !encode_utf8(s).contains(b),
    decreases s.len(),
{
    if s.len() > 0 {
        let rest = s.drop_first();
        assert forall|i: int| 0 <= i < rest.len() implies rest[i] != b as char by {
            assert(s[i + 1] == rest[i]);
        }
        lemma_encode_ascii_bytes(rest, b);
        assert(s.contains(s[0]));
        lemma_encode_other_char(s[0], b);
        let head = encode_scalar(s[0] as u32);
        assert forall|i: int| 0 <= i < encode_utf8(s).len() implies encode_utf8(s)[i] != b by {
            if i < head.len() {
                assert(encode_utf8(s)[i] == head[i]);
                assert(head.contains(head[i]));
            } else {
                assert(encode_utf8(rest)[i - head.len()] == encode_utf8(s)[i]);
            }
        }
    }
}

/// Where the encoding of `a` begins the encoding of `v`, `a` begins `v`.
pub proof fn lemma_encode_prefix(a: Seq<char>, v: Seq<char>)
    requires
        encode_utf8(a).len() <= encode_utf8(v).len(),
        encode_utf8(v).take(encode_utf8(a).len() as int) == encode_utf8(a),
    ensures
        a.len() <= v.len(),
        v.take(a.len() as int) == a,
    decreases a.len(),
{
    if a.len() == 0 {
        assert(v.take(0) =~= a);
    } else {
        let x = encode_utf8(a);
        let y = encode_utf8(v);
        encode_utf8_first_scalar(a);
        assert forall|i: int| 0 <= i < x.len() implies x[i] == y[i] by {
            assert(y.take(x.len() as int)[i] == y[i]);
        }
        assert(v.len() > 0);
        encode_utf8_first_scalar(v);
        assert(decode_first_scalar(x) == decode_first_scalar(y));
        char_u32_cast(a[0], decode_first_scalar(x));
        char_u32_cast(v[0], decode_first_scalar(y));
        assert(a[0] == v[0]);
        let n = encode_scalar(a[0] as u32).len() as int;
        let x2 = encode_utf8(a.drop_first());
        let y2 = encode_utf8(v.drop_first());
        assert(x2 =~= x.skip(n));
        assert(y2 =~= y.skip(n));
        assert(y2.take(x2.len() as int) =~= x2);
        lemma_encode_prefix(a.drop_first(), v.drop_first());
        assert forall|i: int| 0 <= i < a.len() implies #[trigger] v.take(a.len() as int)[i] == a[i] by {
            if i > 0 {
                assert(v.drop_first().take(a.len() - 1)[i - 1] == a.drop_first()[i - 1]);
            }
        }
        assert(v.take(a.len() as int) =~= a);
    }
}

/// Text of the ASCII range is encoded character by character.
pub proof fn lemma_encode_ascii(s: Seq<char>)
    requires
        forall|i: int| 0 <= i < s.len() ==> (#[trigger] s[i]) as u32 <= 0x7f,
    ensures
        encode_utf8(s).len() == s.len(),
        forall|i: int| 0 <= i < s.len() ==> #[trigger] encode_utf8(s)[i] == s[i] as u8,
    decreases s.len(),
{
    if s.len() > 0 {
        let rest = s.drop_first();
        assert forall|i: int| 0 <= i < rest.len() implies (#[trigger] rest[i]) as u32 <= 0x7f by {
            assert(rest[i] == s[i + 1]);
        }
        lemma_encode_ascii(rest);
        lemma_encode_ascii_char(s[0]);
        assert(encode_utf8(s) == encode_scalar(s[0] as u32) + encode_utf8(rest));
        assert forall|i: int| 0 <= i < s.len() implies #[trigger] encode_utf8(s)[i] == s[i] as u8 by {
            if i > 0 {
                assert(encode_utf8(rest)[i - 1] == rest[i - 1] as u8);
            }
        }
    }
}

} // verus!
