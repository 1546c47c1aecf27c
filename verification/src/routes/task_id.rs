//! Reading the id of a queued job.
use apalis::prelude::TaskId;
use std::str::FromStr;
use vstd::prelude::*;

verus! {

#[verifier::external_type_specification]
#[verifier::external_body]
pub struct ExTaskId(TaskId);

/// Whether `c` is a digit of Crockford's base 32, in either case: a decimal
/// digit or a letter other than I, L, O and U.
pub open spec fn is_crockford_digit(c: char) -> bool {
    ('0' <= c && c <= '9') || (('A' <= c && c <= 'Z') || ('a' <= c && c <= 'z')) && !(c == 'I'
        || c == 'i' || c == 'L' || c == 'l' || c == 'O' || c == 'o' || c == 'U' || c == 'u')
}

/// Whether `text` is a ULID as `Ulid::from_str` reads one: 26 digits of
/// Crockford's base 32.
pub open spec fn is_ulid_text(text: Seq<char>) -> bool {
    text.len() == 26 && forall|i: int| 0 <= i < 26 ==> is_crockford_digit(#[trigger] text[i])
}

/// `c` with an ASCII lower-case letter turned to upper case.
pub open spec fn ascii_upper_char(c: char) -> char {
    if 'a' <= c && c <= 'z' {
        (c as int - 32) as char
    } else {
        c
    }
}

/// The value of a Crockford base-32 digit: its place in
/// `0123456789ABCDEFGHJKMNPQRSTVWXYZ`, in either case.
pub open spec fn crockford_value(c: char) -> nat {
    let u = ascii_upper_char(c);
    if '0' <= u && u <= '9' {
        (u as int - '0' as int) as nat
    } else if u <= 'H' {
        (u as int - 'A' as int + 10) as nat
    } else if u <= 'K' {
        (u as int - 'A' as int + 9) as nat
    } else if u <= 'N' {
        (u as int - 'A' as int + 8) as nat
    } else if u <= 'T' {
        (u as int - 'A' as int + 7) as nat
    } else {
        (u as int - 'A' as int + 6) as nat
    }
}

/// The number that the base-32 digits `text` write, most significant first.
pub open spec fn crockford_digits_value(text: Seq<char>) -> nat
    decreases text.len(),
{
    if text.len() == 0 {
        0
    } else {
        crockford_digits_value(text.drop_last()) * 32 + crockford_value(text.last())
    }
}

/// The 128-bit value of a ULID text: its base-32 value modulo 2^128, since
/// the decoder shifts the high bits of the first digit out.
pub open spec fn ulid_value(text: Seq<char>) -> nat {
    crockford_digits_value(text) % 0x1_0000_0000_0000_0000_0000_0000_0000_0000nat
}

/// The 128-bit value that a task id holds (`TaskId::inner`).
pub uninterp spec fn task_id_bits(id: TaskId) -> u128;

/// `TaskId::from_str`, which reads the text as a ULID: it fails on any text
/// that is not 26 base-32 digits, and otherwise holds the digits' value
/// modulo 2^128.
#[verifier::external_body]
fn parse_task_id(text: &str) -> (id: Option<TaskId>)
    ensures
        id is Some <==> is_ulid_text(text@),
        id matches Some(t) ==> task_id_bits(t) as nat == ulid_value(text@),
{
    TaskId::from_str(text).ok()
}

/// The id of the job that `text` names, or nothing when `text` is not a
/// ULID.
pub fn read_task_id(text: &str) -> (id: Option<TaskId>)
    ensures
        id is Some <==> is_ulid_text(text@),
        id matches Some(t) ==> task_id_bits(t) as nat == ulid_value(text@),
{
    parse_task_id(text)
}

} // verus!
