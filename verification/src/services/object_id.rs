//! Reading the id of a stored file: twelve bytes written as 24 hex digits.
use vstd::prelude::*;

verus! {

/// Whether `c` is a hexadecimal digit, in either case.
pub open spec fn is_hex_digit(c: char) -> bool {
    ('0' <= c && c <= '9') || ('a' <= c && c <= 'f') || ('A' <= c && c <= 'F')
}

/// The value of the hexadecimal digit `c`.
pub open spec fn hex_value(c: char) -> nat {
    if '0' <= c && c <= '9' {
        (c as int - '0' as int) as nat
    } else if 'a' <= c && c <= 'f' {
        (c as int - 'a' as int + 10) as nat
    } else {
        (c as int - 'A' as int + 10) as nat
    }
}

/// The bytes an object id text stands for, as `ObjectId::parse_str` reads
/// it: exactly 24 hex digits, two per byte, the high half first.
pub open spec fn spec_parse_object_id(text: Seq<char>) -> Option<Seq<u8>> {
    if text.len() == 24 && forall|i: int| 0 <= i < 24 ==> is_hex_digit(#[trigger] text[i]) {
        Some(Seq::new(12, |i: int| (hex_value(text[2 * i]) * 16 + hex_value(text[2 * i + 1])) as u8))
    } else {
        None
    }
}

/// The lower-case hex digit of `d` (below sixteen).
pub open spec fn hex_char(d: nat) -> char {
    if d < 10 {
        (d + '0' as nat) as char
    } else {
        (d - 10 + 'a' as nat) as char
    }
}

/// The 24 lower-case hex digits of twelve bytes, as `ObjectId::to_hex`
/// writes them.
pub open spec fn object_id_text(bytes: Seq<u8>) -> Seq<char> {
    Seq::new(24, |i: int| if i % 2 == 0 {
        hex_char((bytes[i / 2] / 16) as nat)
    } else {
        hex_char((bytes[i / 2] % 16) as nat)
    })
}

/// Hex digits are read without regard to case: every one of `A` to `F` and
/// `a` to `f` is a digit worth ten to fifteen, and every one of `0` to `9` a
/// digit worth its value; nothing else is a digit.
pub proof fn lemma_hex_digits(c: char)
    ensures
        'A' <= c && c <= 'F' ==> is_hex_digit(c) && hex_value(c) == c as int - 'A' as int + 10,
        'a' <= c && c <= 'f' ==> is_hex_digit(c) && hex_value(c) == c as int - 'a' as int + 10,
        '0' <= c && c <= '9' ==> is_hex_digit(c) && hex_value(c) == c as int - '0' as int,
        is_hex_digit(c) ==> ('0' <= c && c <= '9') || ('a' <= c && c <= 'f') || ('A' <= c && c <= 'F'),
{
}

/// The upper-case hex digit of `d` (below sixteen).
pub open spec fn hex_char_upper(d: nat) -> char {
    if d < 10 {
        (d + '0' as nat) as char
    } else {
        (d - 10 + 'A' as nat) as char
    }
}

/// The 24 upper-case hex digits of twelve bytes.
pub open spec fn object_id_text_upper(bytes: Seq<u8>) -> Seq<char> {
    Seq::new(24, |i: int| if i % 2 == 0 {
        hex_char_upper((bytes[i / 2] / 16) as nat)
    } else {
        hex_char_upper((bytes[i / 2] % 16) as nat)
    })
}

/// Reading the upper-case hex text of twelve bytes gives the bytes back.
pub proof fn lemma_object_id_upper_round_trip(bytes: Seq<u8>)
    requires
        bytes.len() == 12,
    ensures
        spec_parse_object_id(object_id_text_upper(bytes)) == Some(bytes),
{
    let text = object_id_text_upper(bytes);
    assert forall|i: int| 0 <= i < 24 implies is_hex_digit(#[trigger] text[i]) by {
        if i % 2 == 0 {
            assert(bytes[i / 2] / 16 < 16);
        } else {
            assert(bytes[i / 2] % 16 < 16);
        }
    }
    let parsed = Seq::new(12, |k: int| (hex_value(text[2 * k]) * 16 + hex_value(text[2 * k + 1])) as u8);
    assert forall|k: int| 0 <= k < 12 implies parsed[k] == bytes[k] by {
        assert((2 * k) % 2 == 0);
        assert((2 * k + 1) % 2 == 1);
        assert((2 * k) / 2 == k);
        assert((2 * k + 1) / 2 == k);
        let b = bytes[k];
        assert(hex_value(hex_char_upper((b / 16) as nat)) == b / 16);
        assert(hex_value(hex_char_upper((b % 16) as nat)) == b % 16);
        assert((b / 16) * 16 + b % 16 == b);
    }
    assert(parsed =~= bytes);
}

/// The value of one hex digit.
fn hex_digit_value(c: char) -> (value: Option<u8>)
    ensures
        match value {
            Some(v) => is_hex_digit(c) && v as nat == hex_value(c),
            None => !is_hex_digit(c),
        },
{
    if '0' <= c && c <= '9' {
        Some((c as u32 - '0' as u32) as u8)
    } else if 'a' <= c && c <= 'f' {
        Some((c as u32 - 'a' as u32 + 10) as u8)
    } else if 'A' <= c && c <= 'F' {
        Some((c as u32 - 'A' as u32 + 10) as u8)
    } else {
        None
    }
}

/// The twelve bytes of an object id text, or nothing when it is not 24 hex
/// digits.
pub fn parse_object_id(text: &str) -> (bytes: Option<Vec<u8>>)
    ensures
        match bytes {
            Some(b) => spec_parse_object_id(text@) == Some(b@),
            None => spec_parse_object_id(text@) is None,
        },
{
    let len = text.unicode_len();
    if len != 24 {
        return None;
    }
    let mut bytes: Vec<u8> = Vec::new();
    let mut i: usize = 0;
    while i < 12
        invariant
            len == text@.len(),
            len == 24,
            i <= 12,
            bytes@.len() == i,
            forall|j: int| 0 <= j < 2 * i ==> is_hex_digit(#[trigger] text@[j]),
            forall|j: int|
                0 <= j < i ==> bytes@[j] == (hex_value(text@[2 * j]) * 16 + hex_value(
                    text@[2 * j + 1],
                )) as u8,
        decreases 12 - i,
    {
        let high = match hex_digit_value(text.get_char(2 * i)) {
            Some(v) => v,
            None => return None,
        };
        let low = match hex_digit_value(text.get_char(2 * i + 1)) {
            Some(v) => v,
            None => return None,
        };
        bytes.push(high * 16 + low);
        i = i + 1;
        assert forall|j: int| 0 <= j < 2 * i implies is_hex_digit(#[trigger] text@[j]) by {
            if j >= 2 * i - 2 {
                assert(j == 2 * i - 2 || j == 2 * i - 1);
            }
        }
    }
    proof {
        let expected = Seq::new(12, |k: int| (hex_value(text@[2 * k]) * 16 + hex_value(text@[2 * k + 1])) as u8);
        assert(bytes@ =~= expected);
    }
    Some(bytes)
}

/// Reading the hex text of twelve bytes gives the bytes back.
pub proof fn lemma_object_id_round_trip(bytes: Seq<u8>)
    requires
        bytes.len() == 12,
    ensures
        spec_parse_object_id(object_id_text(bytes)) == Some(bytes),
{
    let text = object_id_text(bytes);
    assert forall|i: int| 0 <= i < 24 implies is_hex_digit(#[trigger] text[i]) by {
        if i % 2 == 0 {
            assert(bytes[i / 2] / 16 < 16);
        } else {
            assert(bytes[i / 2] % 16 < 16);
        }
    }
    let parsed = Seq::new(12, |k: int| (hex_value(text[2 * k]) * 16 + hex_value(text[2 * k + 1])) as u8);
    assert forall|k: int| 0 <= k < 12 implies parsed[k] == bytes[k] by {
        assert((2 * k) % 2 == 0);
        assert((2 * k + 1) % 2 == 1);
        assert((2 * k) / 2 == k);
        assert((2 * k + 1) / 2 == k);
        let b = bytes[k];
        assert(hex_value(hex_char((b / 16) as nat)) == b / 16);
        assert(hex_value(hex_char((b % 16) as nat)) == b % 16);
        assert((b / 16) * 16 + b % 16 == b);
    }
    assert(parsed =~= bytes);
}

} // verus!
