//! What an upload request says of the file it carries.
use super::headers::{first_header_value, first_value};
use super::text::{after_separator, lemma_first_index_absent, lemma_first_index_concat, segment_before, split_first};
use rocket::http::HeaderMap;
use vstd::prelude::*;

verus! {

/// The media type, its subtype (the extension) and the name of an uploaded
/// file.
#[derive(Debug)]
pub struct FileMeta<'r> {
    pub _type: &'r str,
    pub extension: &'r str,
    pub name: &'r str,
}

/// The type and subtype that a `content-type` value gives: the text before
/// the first `/`, and the text between it and a second `/`, or
/// `octet-stream` when there is no `/`. Without the header the file is
/// `application/octet-stream`.
pub open spec fn spec_content_type(value: Option<Seq<char>>) -> (Seq<char>, Seq<char>) {
    match value {
        None => ("application"@, "octet-stream"@),
        Some(content) => (
            segment_before(content, '/'),
            match after_separator(content, '/') {
                Some(rest) => segment_before(rest, '/'),
                None => "octet-stream"@,
            },
        ),
    }
}

/// The file name that an `x-file-name` value gives, `no_name` without one.
pub open spec fn spec_file_name(value: Option<Seq<char>>) -> Seq<char> {
    match value {
        Some(name) => name,
        None => "no_name"@,
    }
}

/// `type/subtype` reads back as its two parts.
pub proof fn lemma_content_type_round_trip(file_type: Seq<char>, extension: Seq<char>)
    requires
        !file_type.contains('/'),
        !extension.contains('/'),
    ensures
        spec_content_type(Some(file_type + seq!['/'] + extension)) == (file_type, extension),
{
    lemma_first_index_concat(file_type, '/', extension);
    lemma_first_index_absent(extension, '/');
}

/// The file name is the `x-file-name` value exactly as sent, whatever it
/// holds; `no_name` only when there is no such header.
pub proof fn lemma_file_name_as_sent(sent: Seq<char>)
    ensures
        spec_file_name(Some(sent)) == sent,
        spec_file_name(None) == "no_name"@,
{
}

impl<'r> FileMeta<'r> {
    /// What the `content-type` and `x-file-name` headers of `headers` say.
    pub fn new(headers: &'r HeaderMap) -> (meta: Self)
        ensures
            (meta._type@, meta.extension@) == spec_content_type(first_value(*headers, "content-type"@)),
            meta.name@ == spec_file_name(first_value(*headers, "x-file-name"@)),
            first_value(*headers, "x-file-name"@) matches Some(sent) ==> meta.name@ == sent,
            first_value(*headers, "x-file-name"@) is None ==> meta.name@ == "no_name"@,
    {
        let (_type, extension) = Self::parse_content_type(headers);
        let name = match first_header_value(headers, "x-file-name") {
            Some(name) => name,
            None => "no_name",
        };
        proof {
            reveal_strlit("x-file-name");
        }
        FileMeta { _type, extension, name }
    }

    /// The type and subtype that the `content-type` header of `headers` gives.
    pub fn parse_content_type(headers: &'r HeaderMap) -> (parts: (&'r str, &'r str))
        ensures
            (parts.0@, parts.1@) == spec_content_type(first_value(*headers, "content-type"@)),
    {
        proof {
            reveal_strlit("content-type");
        }
        match first_header_value(headers, "content-type") {
            None => ("application", "octet-stream"),
            Some(content) => {
                let (file_type, rest) = split_first(content, '/');
                let file_extension = match rest {
                    Some(rest) => split_first(rest, '/').0,
                    None => "octet-stream",
                };
                (file_type, file_extension)
            },
        }
    }
}

} // verus!
