//! The request headers that the storage routes read.
use rocket::http::HeaderMap;
use vstd::prelude::*;

verus! {

#[verifier::external_type_specification]
#[verifier::external_body]
pub struct ExHeaderMap<'h>(HeaderMap<'h>);

/// What a header map holds: for each header name, written in ASCII lower
/// case, the values added under that name, in the order they were added.
pub uninterp spec fn header_values(headers: HeaderMap<'_>) -> Map<Seq<char>, Seq<Seq<char>>>;

/// `c` with ASCII upper-case letters turned to lower case.
pub open spec fn ascii_lower_char(c: char) -> char {
    if 'A' <= c && c <= 'Z' {
        (c as int + 32) as char
    } else {
        c
    }
}

/// `s` with ASCII upper-case letters turned to lower case.
pub open spec fn ascii_lowercase(s: Seq<char>) -> Seq<char> {
    s.map_values(|c: char| ascii_lower_char(c))
}

/// The first value of the header `name`, if it has one; names are compared
/// without regard to ASCII case.
pub open spec fn first_value(headers: HeaderMap<'_>, name: Seq<char>) -> Option<Seq<char>> {
    let key = ascii_lowercase(name);
    if header_values(headers).dom().contains(key) && header_values(headers)[key].len() > 0 {
        Some(header_values(headers)[key][0])
    } else {
        None
    }
}

/// `HeaderMap::get(name).next()`. Rocket's map keys each list of values by
/// the header name compared without regard to ASCII case, and `get` yields
/// that list in the order the values were added; so the first item is the
/// first value stored under `name`, or nothing.
#[verifier::external_body]
pub(crate) fn first_header_value<'a, 'h>(headers: &'a HeaderMap<'h>, name: &str) -> (value: Option<&'a str>)
    ensures
        match value {
            Some(v) => header_values(*headers).dom().contains(ascii_lowercase(name@))
                && header_values(*headers)[ascii_lowercase(name@)].len() > 0
                && v@ == header_values(*headers)[ascii_lowercase(name@)][0],
            None => !(header_values(*headers).dom().contains(ascii_lowercase(name@))
                && header_values(*headers)[ascii_lowercase(name@)].len() > 0),
        },
{
    headers.get(name).next()
}

} // verus!
