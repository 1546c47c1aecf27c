//! The byte range that a download request asks for.
use super::headers::{first_header_value, first_value};
use super::text::{
    after_separator, decimal, lemma_decimal, lemma_digits_exclude, lemma_first_index_absent,
    lemma_first_index_concat, lemma_parse_decimal, parse_u64, same_text, segment_before,
    spec_parse_u64, split_first,
};
use rocket::http::HeaderMap;
use vstd::prelude::*;

verus! {

/// The part of a stored file that a request asks for: from `start` up to
/// `end` included, when an end is given.
pub struct Range {
    pub start: u64,
    pub end: Option<u64>,
    pub read_length: Option<u64>,
}

/// `start-end` as `Range::parse_data` reads it: the text before the first `-`
/// is the start (zero when it is not a number), the text between the first
/// and a second `-` is the end (none when it is not a number or when there is
/// no `-`).
pub open spec fn spec_parse_data(data: Seq<char>) -> (u64, Option<u64>) {
    let start = match spec_parse_u64(segment_before(data, '-')) {
        Some(v) => v,
        None => 0,
    };
    match after_separator(data, '-') {
        None => (start, None),
        Some(rest) => (start, spec_parse_u64(segment_before(rest, '-'))),
    }
}

/// A `range` header value as `Range::parse_range` reads it: `bytes=` and
/// then the data up to a second `=`; anything else, or no header, is the
/// whole file.
pub open spec fn spec_parse_range_value(value: Option<Seq<char>>) -> (u64, Option<u64>) {
    match value {
        None => (0, None),
        Some(v) => if segment_before(v, '=') == "bytes"@ {
            match after_separator(v, '=') {
                Some(rest) => spec_parse_data(segment_before(rest, '=')),
                None => (0, None),
            }
        } else {
            (0, None)
        },
    }
}

/// The bounds that the `range` header of `headers` asks for.
pub open spec fn spec_parse_range(headers: HeaderMap<'_>) -> (u64, Option<u64>) {
    spec_parse_range_value(first_value(headers, "range"@))
}

/// Whether the length `end - start + 1` of the bounds can be computed: the
/// end, if any, is not before the start and the length fits in a `u64`.
pub open spec fn bounds_have_length(bounds: (u64, Option<u64>)) -> bool {
    match bounds.1 {
        Some(end) => bounds.0 <= end && end - bounds.0 < u64::MAX,
        None => true,
    }
}

/// The number of bytes from `start` to `end` included.
pub open spec fn spec_read_length(bounds: (u64, Option<u64>)) -> Option<u64> {
    match bounds.1 {
        Some(end) => Some((end - bounds.0 + 1) as u64),
        None => None,
    }
}

/// The text `start-end` of two numbers.
pub open spec fn bounds_text(start: u64, end: u64) -> Seq<char> {
    decimal(start as nat) + seq!['-'] + decimal(end as nat)
}

/// Reading `start-end` written in decimal gives back both numbers, and
/// reading a number alone gives it as the start, with no end.
pub proof fn lemma_parse_data_round_trip(start: u64, end: u64)
    ensures
        spec_parse_data(bounds_text(start, end)) == (start, Some(end)),
        spec_parse_data(decimal(start as nat)) == (start, None::<u64>),
{
    lemma_decimal(start as nat);
    lemma_decimal(end as nat);
    lemma_first_index_concat(decimal(start as nat), '-', decimal(end as nat));
    lemma_first_index_absent(decimal(end as nat), '-');
    lemma_first_index_absent(decimal(start as nat), '-');
    lemma_parse_decimal(start);
    lemma_parse_decimal(end);
}

/// The header value `bytes=start-end` asks for the bytes from `start` to
/// `end`.
pub proof fn lemma_range_header_round_trip(start: u64, end: u64)
    ensures
        spec_parse_range_value(Some("bytes="@ + bounds_text(start, end))) == (start, Some(end)),
{
    reveal_strlit("bytes=");
    reveal_strlit("bytes");
    let data = bounds_text(start, end);
    lemma_decimal(start as nat);
    lemma_decimal(end as nat);
    lemma_digits_exclude(decimal(start as nat), '=');
    lemma_digits_exclude(decimal(end as nat), '=');
    assert(!data.contains('=')) by {
        if data.contains('=') {
            let i = choose|i: int| 0 <= i < data.len() && data[i] == '=';
            if i < decimal(start as nat).len() {
                assert(decimal(start as nat)[i] == '=');
            } else if i > decimal(start as nat).len() {
                assert(decimal(end as nat)[i - decimal(start as nat).len() - 1] == '=');
            }
        }
    }
    assert(!"bytes"@.contains('='));
    let value = "bytes"@ + seq!['='] + data;
    assert(value =~= "bytes="@ + data);
    lemma_first_index_concat("bytes"@, '=', data);
    lemma_first_index_absent(data, '=');
    lemma_parse_data_round_trip(start, end);
}

/// When the bounds have an end not before the start, the read length is the
/// number of bytes from the start to the end, both included.
pub proof fn lemma_read_length_counts_bytes(start: u64, end: u64)
    requires
        start <= end,
        end - start < u64::MAX,
    ensures
        spec_read_length((start, Some(end))) matches Some(length) && length + start == end + 1,
        spec_read_length((start, None)) is None,
{
}

/// An empty end gives no end: the text before a lone trailing `-` is read
/// as the start (zero when it is not a number), and the range is open to the
/// end of the file.
pub proof fn lemma_parse_data_open_end(first: Seq<char>)
    requires
        !first.contains('-'),
    ensures
        spec_parse_data(first + seq!['-']) == (
            match spec_parse_u64(first) {
                Some(v) => v,
                None => 0u64,
            },
            None::<u64>,
        ),
{
    lemma_first_index_concat(first, '-', Seq::<char>::empty());
    assert(first + seq!['-'] + Seq::<char>::empty() =~= first + seq!['-']);
    lemma_first_index_absent(Seq::<char>::empty(), '-');
    assert(spec_parse_u64(Seq::<char>::empty()) is None);
}

/// `s-` reads as the start `s` with no end, for every number `s`, and so does
/// the header value `bytes=s-`.
pub proof fn lemma_open_range_round_trip(start: u64)
    ensures
        spec_parse_data(decimal(start as nat) + seq!['-']) == (start, None::<u64>),
        spec_parse_range_value(Some("bytes="@ + decimal(start as nat) + seq!['-'])) == (start, None::<u64>),
{
    reveal_strlit("bytes=");
    reveal_strlit("bytes");
    lemma_decimal(start as nat);
    lemma_parse_decimal(start);
    lemma_parse_data_open_end(decimal(start as nat));
    let data = decimal(start as nat) + seq!['-'];
    lemma_digits_exclude(decimal(start as nat), '=');
    assert(!data.contains('=')) by {
        if data.contains('=') {
            let i = choose|i: int| 0 <= i < data.len() && data[i] == '=';
            if i < decimal(start as nat).len() {
                assert(decimal(start as nat)[i] == '=');
            }
        }
    }
    assert(!"bytes"@.contains('='));
    assert("bytes"@ + seq!['='] + data =~= "bytes="@ + data);
    assert("bytes="@ + decimal(start as nat) + seq!['-'] =~= "bytes="@ + data);
    lemma_first_index_concat("bytes"@, '=', data);
    lemma_first_index_absent(data, '=');
}

impl Range {
    /// The range that the `range` header of `headers` asks for.
    pub fn new(headers: &HeaderMap) -> (range: Self)
        requires
            bounds_have_length(spec_parse_range(*headers)),
        ensures
            (range.start, range.end) == spec_parse_range(*headers),
            range.read_length == spec_read_length(spec_parse_range(*headers)),
            range.end matches Some(end) ==> range.read_length matches Some(length) && length
                + range.start == end + 1,
            range.end is None ==> range.read_length is None,
    {
        let (start, end) = Self::parse_range(headers);
        let read_length = match end {
            Some(end) => Some(end - start + 1),
            None => None,
        };
        Range { start, end, read_length }
    }

    /// Whether only a part of the file is asked for.
    pub fn partial(&self) -> (partial: bool)
        ensures
            partial == (self.start > 0 || self.end is Some),
    {
        self.start > 0 || self.end.is_some()
    }

    /// The start and end that the `range` header of `headers` gives.
    pub fn parse_range(headers: &HeaderMap) -> (bounds: (u64, Option<u64>))
        ensures
            bounds == spec_parse_range(*headers),
    {
        let value = first_header_value(headers, "range");
        proof {
            reveal_strlit("range");
        }
        Self::parse_range_value(value)
    }

    /// The start and end that a `range` header value gives.
    pub fn parse_range_value(value: Option<&str>) -> (bounds: (u64, Option<u64>))
        ensures
            bounds == spec_parse_range_value(match value {
                Some(v) => Some(v@),
                None => None,
            }),
    {
        match value {
            None => (0, None),
            Some(range) => {
                let (unit, rest) = split_first(range, '=');
                proof {
                    reveal_strlit("bytes");
                }
                if !same_text(unit, "bytes") {
                    return (0, None);
                }
                match rest {
                    Some(rest) => {
                        let (data, _) = split_first(rest, '=');
                        Self::parse_data(data)
                    },
                    None => (0, None),
                }
            },
        }
    }

    /// Reads `start-end`.
    pub fn parse_data(bytes_data: &str) -> (bounds: (u64, Option<u64>))
        ensures
            bounds == spec_parse_data(bytes_data@),
    {
        let (first, rest) = split_first(bytes_data, '-');
        let start = match parse_u64(first) {
            Some(v) => v,
            None => 0,
        };
        match rest {
            None => (start, None),
            Some(rest) => {
                let (second, _) = split_first(rest, '-');
                (start, parse_u64(second))
            },
        }
    }
}

} // verus!
