//! Validation of note identifiers: exactly 32 lowercase hexadecimal
//! characters.

use vstd::prelude::*;
use vstd::string::*;
use vstd::utf8::*;

verus! {

/// The byte value of the character `0`.
pub const DIGIT_LO: u8 = 48;

/// The byte value of the character `9`.
pub const DIGIT_HI: u8 = 57;

/// The byte value of the character `a`.
pub const HEX_LO: u8 = 97;

/// The byte value of the character `f`.
pub const HEX_HI: u8 = 102;

/// A lowercase hexadecimal digit, as a byte.
pub open spec fn is_lower_hex_byte(b: u8) -> bool {
    (DIGIT_LO <= b && b <= DIGIT_HI) || (HEX_LO <= b && b <= HEX_HI)
}

/// The identifier format of the external note store: exactly 32 lowercase
/// hexadecimal characters (all ASCII, so bytes and characters coincide).
pub open spec fn is_valid_note_id(s: Seq<u8>) -> bool {
    s.len() == 32 && forall|i: int| 0 <= i < s.len() ==> is_lower_hex_byte(#[trigger] s[i])
}

/// A lowercase hexadecimal digit, as a character.
pub open spec fn is_lower_hex_char(c: char) -> bool {
    (DIGIT_LO <= c as u32 && c as u32 <= DIGIT_HI) || (HEX_LO <= c as u32 && c as u32
        <= HEX_HI)
}

/// Hex digits are ASCII, so the byte-level format and the
/// character-level one coincide: a string's UTF-8 bytes form a valid
/// identifier exactly when the string is 32 lowercase hex characters.
pub proof fn lemma_valid_id_bytes_iff_chars(s: Seq<char>)
    ensures
        is_valid_note_id(encode_utf8(s)) <==> (s.len() == 32 && forall|i: int|
            0 <= i < s.len() ==> is_lower_hex_char(#[trigger] s[i])),
{
    lemma_hex_encoding(s);
    if s.len() == 32 && forall|i: int| 0 <= i < s.len() ==> is_lower_hex_char(#[trigger] s[i]) {
        assert(is_valid_note_id(encode_utf8(s)));
    }
    if is_valid_note_id(encode_utf8(s)) {
        assert(forall|j: int|
            0 <= j < encode_utf8(s).len() ==> is_lower_hex_byte(#[trigger] encode_utf8(s)[j]));
    }
}

/// Each hex character encodes to exactly its one hex byte, and only
/// hex characters produce hex bytes: a multi-byte encoding starts with
/// a leading byte of at least 0xC0, which is no hex digit.
proof fn lemma_hex_encoding(s: Seq<char>)
    ensures
        (forall|i: int| 0 <= i < s.len() ==> is_lower_hex_char(#[trigger] s[i])) ==> (encode_utf8(
            s,
        ).len() == s.len() && forall|j: int|
            0 <= j < s.len() ==> is_lower_hex_byte(#[trigger] encode_utf8(s)[j])),
        (forall|j: int|
            0 <= j < encode_utf8(s).len() ==> is_lower_hex_byte(#[trigger] encode_utf8(s)[j]))
            ==> (encode_utf8(s).len() == s.len() && forall|i: int|
            0 <= i < s.len() ==> is_lower_hex_char(#[trigger] s[i])),
    decreases s.len(),
{
    if s.len() == 0 {
    } else {
        let c = s[0];
        let sc = c as u32;
        let rest = s.drop_first();
        let b = encode_utf8(s);
        char_is_scalar(c);
        lemma_hex_encoding(rest);
        assert(b == encode_scalar(sc) + encode_utf8(rest));

        if forall|i: int| 0 <= i < s.len() ==> is_lower_hex_char(#[trigger] s[i]) {
            assert(is_lower_hex_char(c));
            assert(has_width_1_encoding(sc));
            assert(sc <= 0x7F ==> (sc & 0x7F) == sc) by (bit_vector);
            assert(encode_scalar(sc) == seq![sc as u8]);
            assert(is_lower_hex_byte(sc as u8));
            assert(forall|i: int| 0 <= i < rest.len() ==> is_lower_hex_char(#[trigger] rest[i]));
            assert(b.len() == s.len());
            assert forall|j: int| 0 <= j < s.len() implies is_lower_hex_byte(#[trigger] b[j]) by {
                if j == 0 {
                    assert(b[0] == sc as u8);
                } else {
                    assert(b[j] == encode_utf8(rest)[j - 1]);
                }
            }
        }

        if forall|j: int| 0 <= j < b.len() ==> is_lower_hex_byte(#[trigger] b[j]) {
            assert(encode_scalar(sc).len() >= 1);
            assert(b[0] == encode_scalar(sc)[0]);
            assert(is_lower_hex_byte(b[0]));
            if has_width_1_encoding(sc) {
                assert(b[0] == (sc & 0x7F) as u8);
                assert(sc <= 0x7F ==> (sc & 0x7F) == sc) by (bit_vector);
                assert(is_lower_hex_char(c));
                assert(encode_scalar(sc) == seq![sc as u8]);
            } else if has_width_2_encoding(sc) {
                let y = ((sc >> 6) & 0x1F) as u8;
                assert((0xC0 | y) >= 0xC0u8) by (bit_vector);
                assert(false);
            } else if has_width_3_encoding(sc) {
                let y = ((sc >> 12) & 0x0F) as u8;
                assert((0xE0 | y) >= 0xE0u8) by (bit_vector);
                assert(false);
            } else {
                assert(is_scalar(sc));
                assert(has_width_4_encoding(sc));
                let y = ((sc >> 18) & 0x7) as u8;
                assert((0xF0 | y) >= 0xF0u8) by (bit_vector);
                assert(false);
            }
            assert(forall|j: int|
                0 <= j < encode_utf8(rest).len() ==> is_lower_hex_byte(
                    #[trigger] encode_utf8(rest)[j],
                )) by {
                assert(forall|j: int|
                    0 <= j < encode_utf8(rest).len() ==> encode_utf8(rest)[j] == b[j + 1]);
            }
            assert(encode_utf8(rest).len() == rest.len());
            assert(b.len() == s.len());
            assert forall|i: int| 0 <= i < s.len() implies is_lower_hex_char(#[trigger] s[i]) by {
                if i > 0 {
                    assert(s[i] == rest[i - 1]);
                }
            }
        }
    }
}

/// Validate that a note id is a 32-character lowercase hex string.
/// Accepts exactly the strings whose bytes satisfy `is_valid_note_id`;
/// every other string, of any length or character set, is rejected.
pub fn is_valid_joplin_id(id: &str) -> (r: bool)
    ensures
        r == is_valid_note_id(id.spec_bytes()),
        r == (id@.len() == 32 && forall|i: int|
            0 <= i < id@.len() ==> is_lower_hex_char(#[trigger] id@[i])),
{
    proof {
        lemma_valid_id_bytes_iff_chars(id@);
        assert(id.spec_bytes() == encode_utf8(id@));
        assert(is_valid_note_id(id.spec_bytes()) <==> (id@.len() == 32 && forall|i: int|
            0 <= i < id@.len() ==> is_lower_hex_char(#[trigger] id@[i])));
    }
    let bytes = id.as_bytes();
    if bytes.len() != 32 {
        return false;
    }
    let n = bytes.len();
    for i in 0..n
        invariant
            n == bytes@.len(),
            bytes@ == id.spec_bytes(),
            forall|j: int| 0 <= j < i ==> is_lower_hex_byte(#[trigger] bytes@[j]),
            is_valid_note_id(id.spec_bytes()) <==> (id@.len() == 32 && forall|k: int|
                0 <= k < id@.len() ==> is_lower_hex_char(#[trigger] id@[k])),
    {
        let b = bytes[i];
        if !((DIGIT_LO <= b && b <= DIGIT_HI) || (HEX_LO <= b && b <= HEX_HI)) {
            return false;
        }
    }
    true
}

} // verus!
