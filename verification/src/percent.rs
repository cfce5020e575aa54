//! Percent encoding, in which a browser writes the name of an uploaded file.

use crate::text::text_of_bytes;
use vstd::prelude::*;

#[allow(unused_imports)]
use crate::text::{longest_text, lossy_text};
#[allow(unused_imports)]
use vstd::utf8::{
    decode_utf8, encode_scalar, encode_utf8,
    encode_utf8_decode_utf8, encode_utf8_valid_utf8, is_ascii_chars, is_ascii_chars_encode_utf8,
    is_scalar, valid_utf8,
};

verus! {

/// The value of a hexadecimal digit, in either case.
pub open spec fn hex_value(b: u8) -> Option<u8> {
    if 48 <= b <= 57 {
        Some((b - 48) as u8)
    } else if 97 <= b <= 102 {
        Some((b - 87) as u8)
    } else if 65 <= b <= 70 {
        Some((b - 55) as u8)
    } else {
        None
    }
}

/// The byte that two characters behind a percent sign stand for: two hexadecimal
/// digits, or a plus sign and one digit.
pub open spec fn hex_pair(a: u8, b: u8) -> Option<u8> {
    match (hex_value(a), hex_value(b)) {
        (Some(high), Some(low)) => Some((16 * high + low) as u8),
        (None, Some(low)) => if a == 43 {
            Some(low)
        } else {
            None
        },
        _ => None,
    }
}

/// The bytes that an encoded text stands for: a percent sign with two characters that
/// stand for a byte is that byte, a plus sign is a space, all else is itself.
pub open spec fn percent_decoded(s: Seq<u8>) -> Seq<u8>
    decreases s.len(),
{
    if s.len() == 0 {
        seq![]
    } else if s[0] == 37 && s.len() > 2 && hex_pair(s[1], s[2]) is Some {
        seq![hex_pair(s[1], s[2])->0] + percent_decoded(s.skip(3))
    } else {
        seq![if s[0] == 43 { 32u8 } else { s[0] }] + percent_decoded(s.skip(1))
    }
}

/// Whether a byte is encoded as itself: letters, digits and `-_.!~*'()`.
pub open spec fn is_plain(b: u8) -> bool {
    ||| 48 <= b <= 57
    ||| 65 <= b <= 90
    ||| 97 <= b <= 122
    ||| b == 45
    ||| b == 95
    ||| b == 46
    ||| b == 33
    ||| b == 126
    ||| b == 42
    ||| b == 39
    ||| b == 40
    ||| b == 41
}

/// The hexadecimal digit of a value below 16.
pub open spec fn hex_digit(v: int) -> u8 {
    if v < 10 {
        (48 + v) as u8
    } else {
        (55 + v) as u8
    }
}

/// The bytes as a browser encodes them in the address of a request.
pub open spec fn percent_encoded(bytes: Seq<u8>) -> Seq<u8>
    decreases bytes.len(),
{
    if bytes.len() == 0 {
        seq![]
    } else if is_plain(bytes[0]) {
        seq![bytes[0]] + percent_encoded(bytes.skip(1))
    } else {
        seq![37u8, hex_digit(bytes[0] as int / 16), hex_digit(bytes[0] as int % 16)]
            + percent_encoded(bytes.skip(1))
    }
}

/// The text that a browser puts into the address of a request for a name.
pub open spec fn component(name: Seq<char>) -> Seq<char> {
    let bytes = percent_encoded(encode_utf8(name));
    Seq::new(bytes.len(), |i: int| bytes[i] as char)
}

fn hex_digit_value(b: u8) -> (v: Option<u8>)
    ensures
        v == hex_value(b),
        v matches Some(d) ==> d < 16,
{
    if 48 <= b && b <= 57 {
        Some(b - 48)
    } else if 97 <= b && b <= 102 {
        Some(b - 87)
    } else if 65 <= b && b <= 70 {
        Some(b - 55)
    } else {
        None
    }
}

fn pair_value(a: u8, b: u8) -> (v: Option<u8>)
    ensures
        v == hex_pair(a, b),
{
    match (hex_digit_value(a), hex_digit_value(b)) {
        (Some(high), Some(low)) => Some(16 * high + low),
        (None, Some(low)) => if a == 43 {
            Some(low)
        } else {
            None
        },
        _ => None,
    }
}

/// Decodes the bytes of an encoded text.
pub fn percent_decode(s: &[u8]) -> (bytes: Vec<u8>)
    ensures
        bytes@ == percent_decoded(s@),
{
    let mut bytes: Vec<u8> = Vec::new();
    let mut i: usize = 0;
    assert(s@.skip(0) == s@);
    assert(bytes@ + percent_decoded(s@) == percent_decoded(s@));
    while i < s.len()
        invariant
            i <= s.len(),
            bytes@ + percent_decoded(s@.skip(i as int)) == percent_decoded(s@),
        decreases s.len() - i,
    {
        let ghost rest = s@.skip(i as int);
        let ghost before = bytes@;
        if s[i] == 37 && s.len() - i > 2 {
            if let Some(value) = pair_value(s[i + 1], s[i + 2]) {
                bytes.push(value);
                proof {
                    assert(rest.skip(3) == s@.skip(i + 3));
                    assert(bytes@ + percent_decoded(rest.skip(3)) == before + (seq![value]
                        + percent_decoded(rest.skip(3))));
                }
                i += 3;
                continue;
            }
        }
        let b: u8 = if s[i] == 43 {
            32
        } else {
            s[i]
        };
        bytes.push(b);
        proof {
            assert(rest.skip(1) == s@.skip(i + 1));
            assert(bytes@ + percent_decoded(rest.skip(1)) == before + (seq![b] + percent_decoded(
                rest.skip(1),
            )));
        }
        i += 1;
    }
    assert(s@.skip(i as int).len() == 0);
    bytes
}

/// A text with spaces for its plus signs.
pub open spec fn spaced(s: Seq<char>) -> Seq<char> {
    s.map_values(
        |c: char|
            if c == '+' {
                ' '
            } else {
                c
            },
    )
}

/// The text that an encoded text stands for. A name that a browser encoded comes out
/// as it was. In front of the first percent sign only plus signs change, and what follows
/// comes out as it does alone. The text is no longer than the encoded one, in bytes.
pub fn url_decode(s: &str) -> (text: String)
    ensures
        text@ == lossy_text(percent_decoded(encode_utf8(s@))),
        forall|name: Seq<char>| s@ == #[trigger] component(name) ==> text@ == name,
        forall|front: Seq<char>, rest: Seq<char>|
            s@ == #[trigger] (front + rest) && !front.contains('%') ==> text@ == spaced(front)
                + lossy_text(percent_decoded(encode_utf8(rest))),
        encode_utf8(text@).len() <= encode_utf8(s@).len(),
{
    let bytes = percent_decode(s.as_bytes());
    let text = text_of_bytes(&bytes);
    proof {
        assert forall|name: Seq<char>| s@ == #[trigger] component(name) implies text@ == name by {
            law_name_round_trip(name);
        }
        assert forall|front: Seq<char>, rest: Seq<char>|
            s@ == #[trigger] (front + rest) && !front.contains('%') implies text@ == spaced(front)
            + lossy_text(percent_decoded(encode_utf8(rest))) by {
            law_decoding_splits(front, rest);
            encode_utf8_valid_utf8(spaced(front));
            encode_utf8_decode_utf8(spaced(front));
            assert(bytes@ == encode_utf8(spaced(front)) + percent_decoded(encode_utf8(rest)));
        }
        let pieces = lemma_pieces(s@);
        assert(bytes@ == pieces.flatten());
    }
    text
}

/// What is decoded is never longer than it was.
pub proof fn law_decoded_is_no_longer(s: Seq<u8>)
    ensures
        percent_decoded(s).len() <= s.len(),
    decreases s.len(),
{
    if s.len() > 0 {
        if s[0] == 37 && s.len() > 2 && hex_pair(s[1], s[2]) is Some {
            law_decoded_is_no_longer(s.skip(3));
        } else {
            law_decoded_is_no_longer(s.skip(1));
        }
    }
}

/// How a character is encoded in UTF-8: below 128 as itself, else in bytes from 128 on.
proof fn lemma_scalar_bytes(v: u32)
    requires
        is_scalar(v),
    ensures
        v < 128 ==> encode_scalar(v).len() == 1 && encode_scalar(v)[0] == v,
        v >= 128 ==> forall|i: int|
            0 <= i < encode_scalar(v).len() ==> #[trigger] encode_scalar(v)[i] >= 128,
{
    assert(v < 128 ==> (v & 0x7F) as u8 == v) by (bit_vector);
    assert(0xC0u8 | ((v >> 6) & 0x1F) as u8 >= 128) by (bit_vector);
    assert(0xE0u8 | ((v >> 12) & 0x0F) as u8 >= 128) by (bit_vector);
    assert(0xF0u8 | ((v >> 18) & 0x7) as u8 >= 128) by (bit_vector);
    assert(0x80u8 | (v & 0x3F) as u8 >= 128) by (bit_vector);
    assert(0x80u8 | ((v >> 6) & 0x3F) as u8 >= 128) by (bit_vector);
    assert(0x80u8 | ((v >> 12) & 0x3F) as u8 >= 128) by (bit_vector);
}

/// Bytes from 128 on are decoded as themselves.
proof fn lemma_high_bytes(bytes: Seq<u8>, rest: Seq<u8>)
    requires
        forall|i: int| 0 <= i < bytes.len() ==> #[trigger] bytes[i] >= 128,
    ensures
        percent_decoded(bytes + rest) == bytes + percent_decoded(rest),
    decreases bytes.len(),
{
    let all = bytes + rest;
    if bytes.len() == 0 {
        assert(all == rest);
        assert(bytes + percent_decoded(rest) == percent_decoded(rest));
    } else {
        let tail = bytes.skip(1);
        assert(all[0] == bytes[0]);
        assert(all.skip(1) == tail + rest);
        lemma_high_bytes(tail, rest);
        assert(seq![bytes[0]] + (tail + percent_decoded(rest)) == bytes + percent_decoded(rest));
    }
}

/// A character other than the percent sign is decoded as itself, a plus sign as a space.
proof fn lemma_char_decoded(c: char, rest: Seq<u8>)
    requires
        c != '%',
    ensures
        percent_decoded(encode_scalar(c as u32) + rest) == encode_scalar(
            (if c == '+' {
                ' '
            } else {
                c
            }) as u32,
        ) + percent_decoded(rest),
{
    let all = encode_scalar(c as u32) + rest;
    lemma_scalar_bytes(c as u32);
    if (c as u32) < 128 {
        let b = encode_scalar(c as u32)[0];
        assert(all[0] == b);
        assert(all.skip(1) == rest);
        if c == '+' {
            lemma_scalar_bytes(32);
            assert(encode_scalar(32) == seq![32u8]);
        } else {
            assert(encode_scalar(c as u32) == seq![b]);
        }
    } else {
        lemma_high_bytes(encode_scalar(c as u32), rest);
    }
}

/// Decoding a text that begins with a part without percent signs: there only the plus
/// signs change, and the rest is decoded as it is alone.
pub proof fn law_decoding_splits(front: Seq<char>, rest: Seq<char>)
    requires
        !front.contains('%'),
    ensures
        percent_decoded(encode_utf8(front + rest)) == encode_utf8(spaced(front)) + percent_decoded(
            encode_utf8(rest),
        ),
    decreases front.len(),
{
    if front.len() == 0 {
        assert(front + rest == rest);
        assert(spaced(front) == Seq::<char>::empty());
        assert(encode_utf8(spaced(front)) == Seq::<u8>::empty());
        let decoded = percent_decoded(encode_utf8(rest));
        assert(Seq::<u8>::empty() + decoded == decoded);
    } else {
        let c = front[0];
        let tail = front.drop_first();
        assert(front.contains(c));
        assert forall|i: int| 0 <= i < tail.len() implies tail[i] != '%' by {
            assert(front.contains(front[i + 1]));
        }
        law_decoding_splits(tail, rest);
        assert((front + rest).drop_first() == tail + rest);
        assert((front + rest)[0] == c);
        assert(spaced(front).drop_first() == spaced(tail));
        let after = encode_utf8(tail + rest);
        let d = spaced(front)[0];
        assert(encode_utf8(front + rest) == encode_scalar(c as u32) + after);
        lemma_char_decoded(c, after);
        assert(encode_scalar(d as u32) + (encode_utf8(spaced(tail)) + percent_decoded(
            encode_utf8(rest),
        )) == encode_utf8(spaced(front)) + percent_decoded(encode_utf8(rest)));
    }
}

/// The bytes that an encoded text stands for, in pieces: one for each character and one
/// for each escaped byte. As a text they take no more bytes than the encoded text: an
/// escaped byte was written in three.
proof fn lemma_pieces(s: Seq<char>) -> (pieces: Seq<Seq<u8>>)
    ensures
        pieces.flatten() == percent_decoded(encode_utf8(s)),
        longest_text(pieces) <= encode_utf8(s).len(),
    decreases s.len(),
{
    let bytes = encode_utf8(s);
    if s.len() == 0 {
        Seq::empty()
    } else if bytes[0] == 37 && bytes.len() > 2 && hex_pair(bytes[1], bytes[2]) is Some {
        lemma_escape(s);
        let value = hex_pair(bytes[1], bytes[2])->0;
        let rest = lemma_pieces(s.skip(3));
        let pieces = seq![seq![value]] + rest;
        assert(pieces.drop_first() == rest);
        pieces
    } else {
        let c = s[0];
        let d = if c == '+' {
            ' '
        } else {
            c
        };
        let piece = encode_scalar(d as u32);
        let after = encode_utf8(s.drop_first());
        let rest = lemma_pieces(s.drop_first());
        lemma_kept_char(c, after);
        let pieces = seq![piece] + rest;
        assert(pieces.drop_first() == rest);
        pieces
    }
}

/// An escaped byte is written in three characters of one byte each.
proof fn lemma_escape(s: Seq<char>)
    requires
        encode_utf8(s).len() > 2,
        encode_utf8(s)[0] == 37,
        hex_pair(encode_utf8(s)[1], encode_utf8(s)[2]) is Some,
    ensures
        s.len() >= 3,
        encode_utf8(s.skip(3)) == encode_utf8(s).skip(3),
{
    lemma_ascii_front(s);
    lemma_ascii_front(s.drop_first());
    lemma_ascii_front(s.drop_first().drop_first());
    assert(s.drop_first().drop_first().drop_first() == s.skip(3));
    assert(encode_utf8(s).skip(1).skip(1).skip(1) == encode_utf8(s).skip(3));
}

/// A first byte below 128 is a character of its own.
proof fn lemma_ascii_front(s: Seq<char>)
    ensures
        encode_utf8(s).len() > 0 && encode_utf8(s)[0] < 128 ==> s.len() > 0 && encode_utf8(
            s.drop_first(),
        ) == encode_utf8(s).skip(1),
{
    if s.len() > 0 {
        lemma_scalar_of(s[0]);
        let first = encode_scalar(s[0] as u32);
        assert(encode_utf8(s)[0] == first[0]);
        if first[0] < 128 {
            assert(encode_utf8(s).skip(1) == encode_utf8(s.drop_first()));
        }
    }
}

/// `lemma_scalar_bytes` of a character.
proof fn lemma_scalar_of(c: char)
    ensures
        encode_scalar(c as u32).len() > 0,
        encode_scalar(c as u32)[0] < 128 ==> encode_scalar(c as u32).len() == 1,
{
    lemma_scalar_bytes(c as u32);
}

/// A character that begins no escape is kept, with as many bytes as it had.
proof fn lemma_kept_char(c: char, rest: Seq<u8>)
    ensures
        ({
            let d = if c == '+' {
                ' '
            } else {
                c
            };
            let all = encode_scalar(c as u32) + rest;
            let kept = encode_scalar(d as u32);
            &&& valid_utf8(kept)
            &&& kept.len() == encode_scalar(c as u32).len()
            &&& !(all[0] == 37 && all.len() > 2 && hex_pair(all[1], all[2]) is Some)
                ==> percent_decoded(all) == kept + percent_decoded(rest)
        }),
{
    let d = if c == '+' {
        ' '
    } else {
        c
    };
    let all = encode_scalar(c as u32) + rest;
    encode_utf8_valid_utf8(seq![d]);
    assert(seq![d].drop_first() == Seq::<char>::empty());
    assert(encode_utf8(seq![d]) == encode_scalar(d as u32)) by {
        assert(encode_utf8(Seq::<char>::empty()) == Seq::<u8>::empty());
    }
    lemma_scalar_bytes(c as u32);
    lemma_scalar_bytes(d as u32);
    if c == '%' {
        assert(all[0] == 37);
        assert(all.skip(1) == rest);
        assert(encode_scalar(c as u32) == seq![37u8]);
    } else {
        lemma_char_decoded(c, rest);
    }
}

/// A text without percent signs comes out with spaces for its plus signs.
pub proof fn law_text_without_percent(s: Seq<char>)
    requires
        !s.contains('%'),
    ensures
        lossy_text(percent_decoded(encode_utf8(s))) == spaced(s),
{
    let none = Seq::<char>::empty();
    law_decoding_splits(s, none);
    assert(s + none == s);
    assert(encode_utf8(none) == Seq::<u8>::empty());
    assert(percent_decoded(encode_utf8(none)) == Seq::<u8>::empty());
    assert(encode_utf8(spaced(s)) + Seq::<u8>::empty() == encode_utf8(spaced(s)));
    encode_utf8_valid_utf8(spaced(s));
    encode_utf8_decode_utf8(spaced(s));
}

/// What was encoded is decoded to what it was.
pub proof fn law_percent_round_trip(bytes: Seq<u8>)
    ensures
        percent_decoded(percent_encoded(bytes)) == bytes,
    decreases bytes.len(),
{
    if bytes.len() > 0 {
        let rest = bytes.skip(1);
        law_percent_round_trip(rest);
        let s = percent_encoded(bytes);
        let b = bytes[0];
        if is_plain(b) {
            assert(s.skip(1) == percent_encoded(rest));
            assert(s[0] == b);
        } else {
            assert(s.skip(3) == percent_encoded(rest));
            assert(s[0] == 37 && s.len() > 2);
            assert(hex_pair(s[1], s[2]) == Some(b));
        }
        assert(seq![b] + rest == bytes);
    }
}

/// The name of a file comes out of its encoding as it was.
pub proof fn law_name_round_trip(name: Seq<char>)
    ensures
        lossy_text(percent_decoded(encode_utf8(component(name)))) == name,
{
    lemma_component(name);
    law_percent_round_trip(encode_utf8(name));
    encode_utf8_valid_utf8(name);
    encode_utf8_decode_utf8(name);
}

/// An encoded text holds only characters that are encoded as themselves, and percent
/// signs.
proof fn lemma_encoded_is_plain(bytes: Seq<u8>)
    ensures
        forall|i: int|
            0 <= i < percent_encoded(bytes).len() ==> is_plain(#[trigger] percent_encoded(bytes)[i])
                || percent_encoded(bytes)[i] == 37,
    decreases bytes.len(),
{
    if bytes.len() > 0 {
        lemma_encoded_is_plain(bytes.skip(1));
        let tail = percent_encoded(bytes.skip(1));
        let s = percent_encoded(bytes);
        let n = s.len() - tail.len();
        assert forall|i: int| 0 <= i < s.len() implies is_plain(#[trigger] s[i]) || s[i] == 37 by {
            if i >= n {
                assert(s[i] == tail[i - n]);
            }
        }
    }
}

/// The text of an encoded name is ASCII, and its bytes are the encoded bytes.
pub proof fn lemma_component(name: Seq<char>)
    ensures
        encode_utf8(component(name)) == percent_encoded(encode_utf8(name)),
        forall|i: int|
            0 <= i < component(name).len() ==> is_plain(#[trigger] component(name)[i] as u8)
                && component(name)[i] <= '\u{7f}' || component(name)[i] == '%',
{
    let bytes = percent_encoded(encode_utf8(name));
    let text = component(name);
    lemma_encoded_is_plain(encode_utf8(name));
    assert forall|i: int| 0 <= i < text.len() implies is_plain(#[trigger] text[i] as u8) && text[i]
        <= '\u{7f}' || text[i] == '%' by {
        assert(is_plain(bytes[i]) || bytes[i] == 37);
    }
    assert(is_ascii_chars(text));
    is_ascii_chars_encode_utf8(text);
    assert(encode_utf8(text) == bytes);
}

/// The value of a digit that is written as a decimal digit, or as one of the letters from
/// a to f, small or capital.
pub proof fn law_hex_digits(b: u8)
    ensures
        48 <= b <= 57 ==> hex_value(b) == Some((b - 48) as u8),
        65 <= b <= 70 ==> hex_value(b) == Some((b - 65 + 10) as u8),
        97 <= b <= 102 ==> hex_value(b) == Some((b - 97 + 10) as u8),
        !(48 <= b <= 57) && !(65 <= b <= 70) && !(97 <= b <= 102) ==> hex_value(b) is None,
{
}

/// A percent sign with two such digits is the byte that they spell, wherever it stands,
/// at the end too.
pub proof fn law_escape(a: u8, b: u8, rest: Seq<u8>)
    requires
        hex_value(a) is Some,
        hex_value(b) is Some,
    ensures
        ({
            let decoded = percent_decoded(seq![37u8, a, b] + rest);
            &&& decoded.len() == 1 + percent_decoded(rest).len()
            &&& decoded[0] == 16 * hex_value(a)->0 + hex_value(b)->0
            &&& decoded.skip(1) == percent_decoded(rest)
        }),
{
    let s = seq![37u8, a, b] + rest;
    assert(s.skip(3) == rest);
    let decoded = percent_decoded(s);
    assert(decoded.skip(1) == percent_decoded(rest));
}

/// A percent sign without two such digits behind it stands for itself, unless a plus sign
/// and one digit follow, which are that digit.
pub proof fn law_stray_percent(rest: Seq<u8>)
    ensures
        rest.len() < 2 || hex_value(rest[1]) is None || (hex_value(rest[0]) is None && rest[0]
            != 43) ==> percent_decoded(seq![37u8] + rest) == seq![37u8] + percent_decoded(rest),
        rest.len() >= 2 && rest[0] == 43 && hex_value(rest[1]) is Some ==> percent_decoded(
            seq![37u8] + rest,
        ) == seq![hex_value(rest[1])->0] + percent_decoded(rest.skip(2)),
{
    let s = seq![37u8] + rest;
    assert(s.skip(1) == rest);
    if rest.len() >= 2 {
        assert(s.skip(3) == rest.skip(2));
    }
}

/// A plus sign is a space, and every other byte but the percent sign is itself.
pub proof fn law_other_bytes(b: u8, rest: Seq<u8>)
    requires
        b != 37,
    ensures
        percent_decoded(Seq::empty()) == Seq::<u8>::empty(),
        b == 43 ==> percent_decoded(seq![b] + rest) == seq![32u8] + percent_decoded(rest),
        b != 43 ==> percent_decoded(seq![b] + rest) == seq![b] + percent_decoded(rest),
{
    assert((seq![b] + rest).skip(1) == rest);
}

/// Spaces take the place of plus signs, and nothing else changes.
pub proof fn law_spaced(s: Seq<char>, i: int)
    requires
        0 <= i < s.len(),
    ensures
        spaced(s).len() == s.len(),
        s[i] == '+' ==> spaced(s)[i] == ' ',
        s[i] != '+' ==> spaced(s)[i] == s[i],
{
}

} // verus!
