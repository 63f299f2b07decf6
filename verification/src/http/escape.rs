//! Percent-coding of request paths and link components.
//!
//! Decoding and encoding are done by the `url_escape` crate; this module
//! states what those calls return, checks request paths for malformed
//! escapes, and proves that encoding followed by decoding is the identity.

use vstd::prelude::*;
use vstd::string::*;
use vstd::utf8::*;

verus! {

/// The byte that begins an escape sequence: `%`.
pub const PERCENT: u8 = 0x25;

/// Whether `b` is an ASCII hexadecimal digit, of either case.
pub open spec fn is_hex_digit(b: u8) -> bool {
    ||| 0x30 <= b <= 0x39  // 0-9
    ||| 0x41 <= b <= 0x46  // A-F
    ||| 0x61 <= b <= 0x66  // a-f

}

/// The value of the hexadecimal digit `b`.
pub open spec fn hex_value(b: u8) -> int
    recommends
        is_hex_digit(b),
{
    if 0x30 <= b <= 0x39 {
        b - 0x30
    } else if 0x41 <= b <= 0x46 {
        b - 0x41 + 10
    } else {
        b - 0x61 + 10
    }
}

/// Whether an escape sequence, `%` and two hexadecimal digits, starts `bytes`.
pub open spec fn starts_with_escape(bytes: Seq<u8>) -> bool {
    &&& bytes.len() >= 3
    &&& bytes[0] == PERCENT
    &&& is_hex_digit(bytes[1])
    &&& is_hex_digit(bytes[2])
}

/// Percent-decoding of bytes: every `%` that is followed by two hexadecimal
/// digits becomes the byte they denote, and every other byte stands as it is.
pub open spec fn percent_unescaped(bytes: Seq<u8>) -> Seq<u8>
    decreases bytes.len(),
{
    if bytes.len() == 0 {
        Seq::empty()
    } else if starts_with_escape(bytes) {
        seq![(hex_value(bytes[1]) * 16 + hex_value(bytes[2])) as u8] + percent_unescaped(
            bytes.skip(3),
        )
    } else {
        seq![bytes[0]] + percent_unescaped(bytes.drop_first())
    }
}

/// The text that lossy UTF-8 conversion makes of bytes that are not valid
/// UTF-8, each invalid sequence replaced by U+FFFD.
pub uninterp spec fn utf8_repaired(bytes: Seq<u8>) -> Seq<char>;

/// Lossy UTF-8 conversion: the text that valid bytes encode, and the
/// repaired text otherwise.
pub open spec fn utf8_lossy(bytes: Seq<u8>) -> Seq<char> {
    if valid_utf8(bytes) {
        decode_utf8(bytes)
    } else {
        utf8_repaired(bytes)
    }
}

/// The decoded form of a percent-encoded text.
pub open spec fn percent_decoded(text: Seq<char>) -> Seq<char> {
    utf8_lossy(percent_unescaped(encode_utf8(text)))
}

/// Whether every `%` in `bytes` begins an escape sequence.
pub open spec fn well_formed_escapes(bytes: Seq<u8>) -> bool {
    forall|i: int|
        0 <= i < bytes.len() && #[trigger] bytes[i] == PERCENT ==> starts_with_escape(
            bytes.skip(i),
        )
}

/// Whether `b` is left as it is in a URL component: an ASCII letter or digit,
/// or one of `- _ . ! ~ * ' ( )`.
pub open spec fn is_unreserved(b: u8) -> bool {
    ||| 0x30 <= b <= 0x39  // 0-9
    ||| 0x41 <= b <= 0x5a  // A-Z
    ||| 0x61 <= b <= 0x7a  // a-z
    ||| b == 0x2d || b == 0x5f || b == 0x2e || b == 0x21 || b == 0x7e  // - _ . ! ~
    ||| b == 0x2a || b == 0x27 || b == 0x28 || b == 0x29  // * ' ( )

}

/// Whether `b` can stand in an encoded URL component: whether it is
/// unreserved or `%`.
pub open spec fn is_component_byte(b: u8) -> bool {
    is_unreserved(b) || b == PERCENT
}

/// The upper-case hexadecimal digit for a value below sixteen.
pub open spec fn hex_upper(n: int) -> u8
    recommends
        0 <= n < 16,
{
    if n < 10 {
        (0x30 + n) as u8
    } else {
        (0x41 + n - 10) as u8
    }
}

/// What one byte becomes in a URL component.
pub open spec fn escaped_byte(b: u8) -> Seq<u8> {
    if is_unreserved(b) {
        seq![b]
    } else {
        seq![PERCENT, hex_upper(b as int / 16), hex_upper(b as int % 16)]
    }
}

/// Percent-encoding of bytes for use in a URL component.
pub open spec fn percent_escaped(bytes: Seq<u8>) -> Seq<u8>
    decreases bytes.len(),
{
    if bytes.len() == 0 {
        Seq::empty()
    } else {
        escaped_byte(bytes[0]) + percent_escaped(bytes.drop_first())
    }
}

/// The encoded form of a text for use in a URL component: the
/// percent-encoding of the text's UTF-8 bytes, each byte of it as a character.
pub open spec fn component_encoded(text: Seq<char>) -> Seq<char> {
    percent_escaped(encode_utf8(text)).map_values(|b: u8| b as char)
}

/// Whether `c` can stand in an encoded URL component: whether it is an
/// unreserved ASCII character or `%`.
pub open spec fn is_component_char(c: char) -> bool {
    c <= '\u{7f}' && is_component_byte(c as u8)
}

/// Calls `url_escape::decode`. Its contract claims what the crate's source
/// shows: the bytes of `text` are percent-decoded, every `%` with two
/// hexadecimal digits behind it becoming one byte, and the outcome is made a
/// text by `String::from_utf8_lossy`.
#[verifier::external_body]
pub(crate) fn decode(text: &str) -> (decoded: String)
    ensures
        decoded@ == percent_decoded(text@),
{
    url_escape::decode(text).into_owned()
}

/// Calls `url_escape::encode_component_to_string` on an empty output. Its
/// contract claims what the crate documents: the bytes of `text` are written
/// out, each byte that is not an ASCII letter, a digit or one of
/// `- _ . ! ~ * ' ( )` as `%` and its two upper-case hexadecimal digits. The
/// outcome is ASCII, so its characters are its bytes.
#[verifier::external_body]
pub(crate) fn encode_component(text: &str) -> (encoded: String)
    ensures
        encoded@ == component_encoded(text@),
{
    let mut encoded = String::new();
    url_escape::encode_component_to_string(text, &mut encoded);
    encoded
}

/// Calls `String::from_utf8_lossy`. Its contract claims that valid UTF-8
/// comes back as the text it encodes; of the text that is made of other
/// bytes, with U+FFFD in place of what is invalid, it claims only that the
/// bytes determine it.
#[verifier::external_body]
pub(crate) fn from_utf8_lossy(bytes: &[u8]) -> (text: String)
    ensures
        valid_utf8(bytes@) ==> text@ == decode_utf8(bytes@),
        !valid_utf8(bytes@) ==> text@ == utf8_repaired(bytes@),
{
    String::from_utf8_lossy(bytes).into_owned()
}

fn hex_digit(b: u8) -> (hex: bool)
    ensures
        hex == is_hex_digit(b),
{
    (0x30 <= b && b <= 0x39) || (0x41 <= b && b <= 0x46) || (0x61 <= b && b <= 0x66)
}

/// Whether every `%` in `text` is followed by two hexadecimal digits.
pub fn escapes_well_formed(text: &str) -> (ok: bool)
    ensures
        ok == well_formed_escapes(text.spec_bytes()),
{
    let bytes = text.as_bytes();
    let n = bytes.len();
    let mut i: usize = 0;
    while i < n
        invariant
            i <= n,
            n == bytes@.len(),
            bytes@ == text.spec_bytes(),
            forall|k: int|
                0 <= k < i && #[trigger] bytes@[k] == PERCENT ==> starts_with_escape(
                    bytes@.skip(k),
                ),
        decreases n - i,
    {
        if bytes[i] == PERCENT {
            let escape = n - i >= 3 && hex_digit(bytes[i + 1]) && hex_digit(bytes[i + 2]);
            if !escape {
                assert(!starts_with_escape(bytes@.skip(i as int)));
                return false;
            }
        }
        i = i + 1;
    }
    true
}

proof fn lemma_hex_round_trip(b: u8)
    ensures
        is_hex_digit(hex_upper(b as int / 16)),
        is_hex_digit(hex_upper(b as int % 16)),
        hex_value(hex_upper(b as int / 16)) * 16 + hex_value(hex_upper(b as int % 16)) == b,
{
}

/// The percent-encoding of bytes holds nothing but unreserved characters and
/// `%`: no separator, no space, no quote and no other reserved character.
pub proof fn lemma_escaped_is_unreserved(bytes: Seq<u8>)
    ensures
        forall|i: int|
            0 <= i < percent_escaped(bytes).len() ==> is_component_byte(
                #[trigger] percent_escaped(bytes)[i],
            ),
    decreases bytes.len(),
{
    if bytes.len() > 0 {
        let head = escaped_byte(bytes[0]);
        let tail = percent_escaped(bytes.drop_first());
        lemma_escaped_is_unreserved(bytes.drop_first());
        assert forall|i: int| 0 <= i < (head + tail).len() implies is_component_byte(
            #[trigger] (head + tail)[i],
        ) by {
            if i < head.len() {
                assert((head + tail)[i] == head[i]);
            } else {
                assert((head + tail)[i] == tail[i - head.len()]);
            }
        }
    }
}

/// An encoded component holds nothing but unreserved characters and `%`, and
/// its UTF-8 bytes are the percent-encoding of the bytes of the text.
pub proof fn lemma_encoded_is_unreserved(text: Seq<char>)
    ensures
        forall|i: int|
            0 <= i < component_encoded(text).len() ==> is_component_char(
                #[trigger] component_encoded(text)[i],
            ),
        encode_utf8(component_encoded(text)) == percent_escaped(encode_utf8(text)),
{
    let escaped = percent_escaped(encode_utf8(text));
    let encoded = component_encoded(text);
    lemma_escaped_is_unreserved(encode_utf8(text));
    assert forall|i: int| 0 <= i < encoded.len() implies is_component_char(
        #[trigger] encoded[i],
    ) && encoded[i] as u8 == escaped[i] by {
        let b = escaped[i];
        assert(is_component_byte(b));
        assert(encoded[i] == b as char);
    }
    assert(is_ascii_chars(encoded));
    is_ascii_chars_encode_utf8(encoded);
    assert(encode_utf8(encoded) =~= escaped);
}

/// Percent-decoding the percent-encoding of bytes gives the bytes back.
pub proof fn lemma_unescape_escaped(bytes: Seq<u8>)
    ensures
        percent_unescaped(percent_escaped(bytes)) == bytes,
    decreases bytes.len(),
{
    if bytes.len() > 0 {
        let b = bytes[0];
        let rest = bytes.drop_first();
        let head = escaped_byte(b);
        let all = percent_escaped(bytes);
        lemma_unescape_escaped(rest);
        lemma_hex_round_trip(b);
        assert(all == head + percent_escaped(rest));
        if is_unreserved(b) {
            assert(all[0] == b);
            assert(!starts_with_escape(all));
            assert(all.drop_first() =~= percent_escaped(rest));
        } else {
            assert(all[0] == PERCENT && all[1] == head[1] && all[2] == head[2]);
            assert(starts_with_escape(all));
            assert(all.skip(3) =~= percent_escaped(rest));
        }
        assert(percent_unescaped(all) =~= bytes);
    }
}

/// Percent-decoding leaves bytes that hold no `%` as they are.
pub proof fn lemma_unescaped_without_percent(bytes: Seq<u8>)
    requires
        forall|i: int| 0 <= i < bytes.len() ==> bytes[i] != PERCENT,
    ensures
        percent_unescaped(bytes) == bytes,
    decreases bytes.len(),
{
    if bytes.len() > 0 {
        let rest = bytes.drop_first();
        assert forall|i: int| 0 <= i < rest.len() implies rest[i] != PERCENT by {
            assert(rest[i] == bytes[i + 1]);
        }
        lemma_unescaped_without_percent(rest);
        assert(percent_unescaped(bytes) =~= bytes);
    }
}

proof fn lemma_scalar_without_percent(scalar: u32)
    requires
        is_scalar(scalar),
        scalar != 0x25,
    ensures
        forall|i: int|
            0 <= i < encode_scalar(scalar).len() ==> #[trigger] encode_scalar(scalar)[i]
                != PERCENT,
{
    assert(scalar <= 0x7f ==> (scalar & 0x7f) as u8 != 0x25) by (bit_vector)
        requires
            scalar != 0x25,
    ;
    assert(0xC0 | ((scalar >> 6) & 0x1F) as u8 >= 0x80) by (bit_vector);
    assert(0xE0 | ((scalar >> 12) & 0x0F) as u8 >= 0x80) by (bit_vector);
    assert(0xF0 | ((scalar >> 18) & 0x7) as u8 >= 0x80) by (bit_vector);
    assert(0x80 | (scalar & 0x3F) as u8 >= 0x80) by (bit_vector);
    assert(0x80 | ((scalar >> 6) & 0x3F) as u8 >= 0x80) by (bit_vector);
    assert(0x80 | ((scalar >> 12) & 0x3F) as u8 >= 0x80) by (bit_vector);
}

/// The UTF-8 bytes of a text that holds no `%` hold no `%` either.
pub proof fn lemma_bytes_without_percent(text: Seq<char>)
    requires
        !text.contains('%'),
    ensures
        forall|i: int| 0 <= i < encode_utf8(text).len() ==> encode_utf8(text)[i] != PERCENT,
    decreases text.len(),
{
    if text.len() > 0 {
        let first = encode_scalar(text[0] as u32);
        let rest = encode_utf8(text.drop_first());
        assert(text[0] != '%');
        char_is_scalar(text[0]);
        assert(text[0] as u32 != 0x25) by {
            char_u32_cast(text[0], text[0] as u32);
            char_u32_cast('%', 0x25u32);
        }
        lemma_scalar_without_percent(text[0] as u32);
        assert(!text.drop_first().contains('%')) by {
            if text.drop_first().contains('%') {
                let j = choose|j: int|
                    0 <= j < text.drop_first().len() && text.drop_first()[j] == '%';
                assert(text[j + 1] == '%');
            }
        }
        lemma_bytes_without_percent(text.drop_first());
        assert forall|i: int| 0 <= i < (first + rest).len() implies (first + rest)[i]
            != PERCENT by {
            if i < first.len() {
                assert((first + rest)[i] == first[i]);
            } else {
                assert((first + rest)[i] == rest[i - first.len()]);
            }
        }
    }
}

/// A text that holds no `%` has well-formed escapes, having none, and decodes
/// to itself.
pub proof fn lemma_decoded_without_percent(text: Seq<char>)
    requires
        !text.contains('%'),
    ensures
        well_formed_escapes(encode_utf8(text)),
        percent_decoded(text) == text,
{
    lemma_bytes_without_percent(text);
    lemma_unescaped_without_percent(encode_utf8(text));
    encode_utf8_valid_utf8(text);
    encode_utf8_decode_utf8(text);
}

/// Percent-decoding leaves a prefix without `%` as it is and decodes what
/// follows it.
pub proof fn lemma_unescaped_after_prefix(prefix: Seq<u8>, rest: Seq<u8>)
    requires
        forall|i: int| 0 <= i < prefix.len() ==> prefix[i] != PERCENT,
    ensures
        percent_unescaped(prefix + rest) == prefix + percent_unescaped(rest),
    decreases prefix.len(),
{
    if prefix.len() == 0 {
        assert(prefix + rest =~= rest);
        assert(prefix + percent_unescaped(rest) =~= percent_unescaped(rest));
    } else {
        let shorter = prefix.drop_first();
        assert forall|i: int| 0 <= i < shorter.len() implies shorter[i] != PERCENT by {
            assert(shorter[i] == prefix[i + 1]);
        }
        lemma_unescaped_after_prefix(shorter, rest);
        assert((prefix + rest)[0] == prefix[0]);
        assert((prefix + rest).drop_first() =~= shorter + rest);
        assert(percent_unescaped(prefix + rest) =~= prefix + percent_unescaped(rest));
    }
}

/// Every `%` in the percent-encoding of bytes begins an escape sequence.
pub proof fn lemma_escaped_is_well_formed(bytes: Seq<u8>)
    ensures
        well_formed_escapes(percent_escaped(bytes)),
    decreases bytes.len(),
{
    if bytes.len() > 0 {
        let head = escaped_byte(bytes[0]);
        let tail = percent_escaped(bytes.drop_first());
        let all = head + tail;
        lemma_escaped_is_well_formed(bytes.drop_first());
        lemma_hex_round_trip(bytes[0]);
        lemma_escaped_is_unreserved(seq![bytes[0]]);
        assert forall|i: int|
            0 <= i < all.len() && #[trigger] all[i] == PERCENT implies starts_with_escape(
            all.skip(i),
        ) by {
            if i < head.len() {
                assert(all[i] == head[i]);
                assert(i == 0 && !is_unreserved(bytes[0]));
                assert(all.skip(0)[1] == head[1] && all.skip(0)[2] == head[2]);
            } else {
                let k = i - head.len();
                assert(all[i] == tail[k]);
                assert(starts_with_escape(tail.skip(k)));
                assert(all.skip(i) =~= tail.skip(k));
            }
        }
    }
}

/// Escapes stay well formed behind a prefix that holds no `%`.
pub proof fn lemma_well_formed_after_prefix(prefix: Seq<u8>, rest: Seq<u8>)
    requires
        forall|i: int| 0 <= i < prefix.len() ==> prefix[i] != PERCENT,
        well_formed_escapes(rest),
    ensures
        well_formed_escapes(prefix + rest),
{
    let all = prefix + rest;
    assert forall|i: int|
        0 <= i < all.len() && #[trigger] all[i] == PERCENT implies starts_with_escape(
        all.skip(i),
    ) by {
        if i < prefix.len() {
            assert(all[i] == prefix[i]);
        } else {
            let k = i - prefix.len();
            assert(all[i] == rest[k]);
            assert(starts_with_escape(rest.skip(k)));
            assert(all.skip(i) =~= rest.skip(k));
        }
    }
}

/// Encoding a name for a URL component and decoding the outcome gives the
/// name back.
pub proof fn lemma_component_round_trip(name: Seq<char>)
    ensures
        percent_decoded(component_encoded(name)) == name,
{
    lemma_encoded_is_unreserved(name);
    lemma_unescape_escaped(encode_utf8(name));
    encode_utf8_valid_utf8(name);
    encode_utf8_decode_utf8(name);
}

} // verus!
