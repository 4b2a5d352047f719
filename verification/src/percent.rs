//! Percent-encoding of operation paths.
//!
//! Paths are encoded byte by byte over their UTF-8 form.  Escaping and its
//! inverse are modelled on byte sequences.

use vstd::prelude::*;
use vstd::utf8::*;

use crate::utf8;

verus! {

/// `%`, which starts an escape.
pub const PERCENT: u8 = 0x25;

/// The value of a hexadecimal digit in either case.
pub open spec fn hex_value(b: u8) -> Option<int> {
    if 0x30 <= b <= 0x39 {
        Some(b - 0x30)
    } else if 0x41 <= b <= 0x46 {
        Some(b - 0x41 + 10)
    } else if 0x61 <= b <= 0x66 {
        Some(b - 0x61 + 10)
    } else {
        None
    }
}

/// Whether bytes start with an escape: `%` and two hexadecimal digits.
pub open spec fn starts_escape(b: Seq<u8>) -> bool {
    b.len() >= 3 && b[0] == PERCENT && hex_value(b[1]) is Some && hex_value(b[2]) is Some
}

/// Bytes with every escape replaced by the byte that it stands for.  All else,
/// malformed escapes among it, stays.
pub open spec fn unescape(b: Seq<u8>) -> Seq<u8>
    decreases b.len(),
{
    if b.len() == 0 {
        Seq::empty()
    } else if starts_escape(b) {
        seq![(16 * hex_value(b[1])->0 + hex_value(b[2])->0) as u8] + unescape(b.skip(3))
    } else {
        seq![b[0]] + unescape(b.skip(1))
    }
}

/// What escaped text stands for, where that is UTF-8.
pub open spec fn decoded(s: Seq<char>) -> Option<Seq<char>> {
    let bytes = unescape(encode_utf8(s));
    if valid_utf8(bytes) {
        Some(decode_utf8(bytes))
    } else {
        None
    }
}

/// `percent_encoding::percent_decode_str` followed by `decode_utf8`: escapes
/// become bytes, and the outcome is text exactly where those bytes are UTF-8.
#[verifier::external_body]
pub(crate) fn decode(encoded: &str) -> (plain: Option<String>)
    ensures
        plain is Some <==> decoded(encoded@) is Some,
        plain matches Some(s) ==> decoded(encoded@) == Some(s@),
{
    percent_encoding::percent_decode_str(encoded).decode_utf8().ok().map(|plain| plain.into_owned())
}

/// An upper-case hexadecimal digit.
pub open spec fn hex_digit(n: int) -> char {
    if n < 10 {
        (0x30 + n) as char
    } else {
        (0x41 + n - 10) as char
    }
}

/// The escape of a byte.
pub open spec fn escape(b: u8) -> Seq<char> {
    seq!['%', hex_digit(b as int / 16), hex_digit(b as int % 16)]
}

/// `percent_encoding::percent_encode_byte` gives the escape of a byte: `%` and
/// two upper-case hexadecimal digits.
pub assume_specification[ percent_encoding::percent_encode_byte ](byte: u8) -> (escaped:
    &'static str)
    ensures
        escaped@ == escape(byte),
;

/// Whether a byte of a path stands for itself in a URL: the printable ASCII
/// characters but for space, `"`, `#`, `%` and `?`.
pub open spec fn keeps(b: u8) -> bool {
    0x20 < b < 0x7f && b != 0x22 && b != 0x23 && b != PERCENT && b != 0x3f
}

/// A path's bytes as they are written in a URL.
pub open spec fn escaped(b: Seq<u8>) -> Seq<char>
    decreases b.len(),
{
    if b.len() == 0 {
        Seq::empty()
    } else if keeps(b[0]) {
        seq![b[0] as char] + escaped(b.skip(1))
    } else {
        escape(b[0]) + escaped(b.skip(1))
    }
}

/// A path as it is written in a URL.
pub fn encode_path(path: &str) -> (encoded: String)
    ensures
        encoded@ == escaped(encode_utf8(path@)),
{
    let bytes: &[u8] = path.as_bytes();
    let mut encoded: String = String::new();
    let mut i: usize = 0;
    assert(bytes@.skip(0) =~= bytes@);
    while i < bytes.len()
        invariant
            i <= bytes@.len(),
            escaped(bytes@) == encoded@ + escaped(bytes@.skip(i as int)),
        decreases bytes@.len() - i,
    {
        let b: u8 = bytes[i];
        let ghost before = encoded@;
        let ghost rest = bytes@.skip(i as int);
        assert(rest.skip(1) =~= bytes@.skip(i + 1));
        if 0x20 < b && b < 0x7f && b != 0x22 && b != 0x23 && b != PERCENT && b != 0x3f {
            encoded.push(b as char);
        } else {
            encoded.append(percent_encoding::percent_encode_byte(b));
        }
        assert(encoded@ + escaped(rest.skip(1)) =~= before + escaped(rest));
        i += 1;
    }
    assert(bytes@.skip(i as int) =~= Seq::<u8>::empty());
    assert(encoded@ + Seq::<char>::empty() =~= encoded@);
    encoded
}

/// The digits of an escape read back as its byte.
proof fn lemma_escape(b: u8)
    ensures
        forall|i: int| 0 <= i < 3 ==> (#[trigger] escape(b)[i]) as u32 <= 0x7f,
        encode_utf8(escape(b)).len() == 3,
        starts_escape(encode_utf8(escape(b))),
        16 * hex_value(encode_utf8(escape(b))[1])->0 + hex_value(encode_utf8(escape(b))[2])->0 == b,
{
    utf8::lemma_encode_ascii(escape(b));
}

/// Escaping loses nothing: the written form of a path stands for the path.
pub proof fn law_escapes_read_back(b: Seq<u8>)
    ensures
        unescape(encode_utf8(escaped(b))) == b,
    decreases b.len(),
{
    if b.len() == 0 {
        assert(encode_utf8(escaped(b)) =~= Seq::<u8>::empty());
        assert(b =~= Seq::<u8>::empty());
    } else {
        let rest = b.skip(1);
        law_escapes_read_back(rest);
        let tail = encode_utf8(escaped(rest));
        if keeps(b[0]) {
            let head = seq![b[0] as char];
            utf8::lemma_encode_concat(head, escaped(rest));
            utf8::lemma_encode_ascii(head);
            let all = encode_utf8(escaped(b));
            assert(all =~= seq![b[0]] + tail);
            assert(all.skip(1) =~= tail);
        } else {
            let head = escape(b[0]);
            utf8::lemma_encode_concat(head, escaped(rest));
            lemma_escape(b[0]);
            let all = encode_utf8(escaped(b));
            assert(all =~= encode_utf8(head) + tail);
            assert(all.skip(3) =~= tail);
        }
        assert(unescape(encode_utf8(escaped(b))) =~= b);
    }
}

/// Decoding the written form of a path gives back the path.
pub proof fn law_encoded_paths_decode(path: Seq<char>)
    ensures
        decoded(escaped(encode_utf8(path))) == Some(path),
{
    law_escapes_read_back(encode_utf8(path));
    encode_utf8_valid_utf8(path);
    encode_utf8_decode_utf8(path);
}

/// The written form of a path uses printable ASCII characters only, holds
/// neither `?` nor `#`, and escapes no `/`.
pub proof fn law_escaped_characters(b: Seq<u8>)
    ensures
        forall|i: int|
            0 <= i < escaped(b).len() ==> {
                let c = #[trigger] escaped(b)[i];
                &&& 0x20 < c as u32
                &&& (c as u32) < 0x7f
                &&& c != '?'
                &&& c != '#'
            },
        forall|i: int|
            0 <= i < escaped(b).len() && #[trigger] escaped(b)[i] == '%' ==> {
                &&& i + 2 < escaped(b).len()
                &&& !(escaped(b)[i + 1] == '2' && (escaped(b)[i + 2] == 'F' || escaped(b)[i + 2]
                    == 'f'))
            },
    decreases b.len(),
{
    if b.len() > 0 {
        let rest = b.skip(1);
        law_escaped_characters(rest);
        let tail = escaped(rest);
        let head = if keeps(b[0]) {
            seq![b[0] as char]
        } else {
            escape(b[0])
        };
        let all = escaped(b);
        assert(all == head + tail);
        assert forall|i: int| 0 <= i < all.len() implies {
            let c = #[trigger] all[i];
            &&& 0x20 < c as u32
            &&& (c as u32) < 0x7f
            &&& c != '?'
            &&& c != '#'
        } by {
            if i >= head.len() {
                assert(all[i] == tail[i - head.len()]);
            }
        }
        assert forall|i: int| 0 <= i < all.len() && #[trigger] all[i] == '%' implies {
            &&& i + 2 < all.len()
            &&& !(all[i + 1] == '2' && (all[i + 2] == 'F' || all[i + 2] == 'f'))
        } by {
            if i >= head.len() {
                assert(all[i] == tail[i - head.len()]);
                assert(all[i + 1] == tail[i + 1 - head.len()]);
                assert(all[i + 2] == tail[i + 2 - head.len()]);
            }
        }
    }
}

} // verus!
