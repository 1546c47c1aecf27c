//! The decisions of the bucket service: how an upload is hashed and judged,
//! which media type a stored file is served as, and where its record lives.
use super::digest::{md5_digest, md5_finalize, md5_input, Md5Hasher};
use crate::common::text::{all_digits, decimal, digit_char, is_digit, lemma_decimal, same_text};
use vstd::prelude::*;

verus! {

/// The decimal text of each byte of `digest`, one after another, as the
/// service writes a file hash.
pub open spec fn spec_hash_text(digest: Seq<u8>) -> Seq<char>
    decreases digest.len(),
{
    if digest.len() == 0 {
        Seq::<char>::empty()
    } else {
        spec_hash_text(digest.drop_last()) + decimal(digest.last() as nat)
    }
}

/// The decimal text of a byte has one to three digits.
proof fn lemma_byte_decimal(b: u8)
    ensures
        1 <= decimal(b as nat).len() <= 3,
        all_digits(decimal(b as nat)),
{
    lemma_decimal(b as nat);
    if b >= 10 {
        let t = (b / 10) as nat;
        if t >= 10 {
            assert(decimal((t / 10) as nat).len() == 1);
        }
        assert(decimal(t).len() <= 2);
    }
}

/// The hash text of `digest` is made of decimal digits, one to three for
/// each byte.
pub proof fn lemma_hash_text_shape(digest: Seq<u8>)
    ensures
        digest.len() <= spec_hash_text(digest).len() <= 3 * digest.len(),
        all_digits(spec_hash_text(digest)),
    decreases digest.len(),
{
    if digest.len() > 0 {
        let prefix = spec_hash_text(digest.drop_last());
        let last = decimal(digest.last() as nat);
        lemma_hash_text_shape(digest.drop_last());
        lemma_byte_decimal(digest.last());
        let text = spec_hash_text(digest);
        assert(text == prefix + last);
        assert forall|i: int| 0 <= i < text.len() implies is_digit(#[trigger] text[i]) by {
            if i < prefix.len() {
                assert(text[i] == prefix[i]);
            } else {
                assert(text[i] == last[i - prefix.len()]);
            }
        }
    }
}

/// The one-character text of the digit `d`.
fn digit_text(d: u8) -> (text: &'static str)
    requires
        d < 10,
    ensures
        text@ == seq![digit_char(d as nat)],
{
    proof {
        reveal_strlit("0");
        reveal_strlit("1");
        reveal_strlit("2");
        reveal_strlit("3");
        reveal_strlit("4");
        reveal_strlit("5");
        reveal_strlit("6");
        reveal_strlit("7");
        reveal_strlit("8");
        reveal_strlit("9");
    }
    match d {
        0 => "0",
        1 => "1",
        2 => "2",
        3 => "3",
        4 => "4",
        5 => "5",
        6 => "6",
        7 => "7",
        8 => "8",
        _ => "9",
    }
}

/// The decimal text of a byte, as `u8::to_string` writes it.
pub fn byte_text(b: u8) -> (text: String)
    ensures
        text@ == decimal(b as nat),
{
    let mut text = String::new();
    if b >= 100 {
        text.append(digit_text(b / 100));
        text.append(digit_text(b / 10 % 10));
        text.append(digit_text(b % 10));
        proof {
            assert(decimal((b / 100) as nat) == seq![digit_char((b / 100) as nat)]);
            assert(decimal((b / 10) as nat) == decimal((b / 100) as nat).push(digit_char((b / 10 % 10) as nat)));
            assert(decimal(b as nat) == decimal((b / 10) as nat).push(digit_char((b % 10) as nat)));
        }
    } else if b >= 10 {
        text.append(digit_text(b / 10));
        text.append(digit_text(b % 10));
        proof {
            assert(decimal((b / 10) as nat) == seq![digit_char((b / 10) as nat)]);
            assert(decimal(b as nat) == decimal((b / 10) as nat).push(digit_char((b % 10) as nat)));
        }
    } else {
        text.append(digit_text(b));
    }
    assert(text@ =~= decimal(b as nat));
    text
}

/// Writes `digest` as the decimal text of each of its bytes, one after
/// another.
pub fn hash_text(digest: &[u8]) -> (text: String)
    ensures
        text@ == spec_hash_text(digest@),
{
    let mut text = String::new();
    let mut i: usize = 0;
    while i < digest.len()
        invariant
            0 <= i <= digest@.len(),
            text@ == spec_hash_text(digest@.take(i as int)),
        decreases digest@.len() - i,
    {
        let piece = byte_text(digest[i]);
        text.append(piece.as_str());
        assert(digest@.take(i + 1).drop_last() =~= digest@.take(i as int));
        i = i + 1;
    }
    assert(digest@.take(i as int) =~= digest@);
    text
}

/// The text that names a file by the MD5 digest of the bytes fed to `hasher`:
/// 16 to 48 decimal digits.
pub fn get_hash_str(hasher: Md5Hasher) -> (hash: String)
    ensures
        md5_digest(md5_input(hasher)).len() == 16,
        hash@ == spec_hash_text(md5_digest(md5_input(hasher))),
        16 <= hash@.len() <= 48,
        all_digits(hash@),
{
    let digest = md5_finalize(hasher);
    proof {
        lemma_hash_text_shape(digest@);
    }
    hash_text(digest.as_slice())
}

/// The name of the collection that holds the file records of a bucket.
pub fn files_collection_name(bucket_name: &str) -> (name: String)
    ensures
        name@ == bucket_name@ + ".files"@,
{
    let mut name = String::from_str(bucket_name);
    name.append(".files");
    name
}

/// The media types that a stored file is served as.
#[derive(Debug, Clone, Copy, PartialEq, Eq, Structural)]
pub enum MediaType {
    Mp4,
    Mov,
    Mpeg,
    Jpeg,
    Png,
    Bytes,
}

/// The Unicode lower-case form of `s`, as `str::to_lowercase` writes it.
pub uninterp spec fn lowercase(s: Seq<char>) -> Seq<char>;

/// `str::to_lowercase`, which maps every character to its Unicode lower
/// case, the same way on every machine.
#[verifier::external_body]
fn to_lowercase(s: &str) -> (lower: String)
    ensures
        lower@ == lowercase(s@),
{
    s.to_lowercase()
}

/// The media type of a lower-case file extension.
pub open spec fn media_type_of(extension: Seq<char>) -> MediaType {
    if extension == "mp4"@ {
        MediaType::Mp4
    } else if extension == "mov"@ {
        MediaType::Mov
    } else if extension == "mpeg"@ || extension == "mpg"@ {
        MediaType::Mpeg
    } else if extension == "jpg"@ || extension == "jpeg"@ {
        MediaType::Jpeg
    } else if extension == "png"@ {
        MediaType::Png
    } else {
        MediaType::Bytes
    }
}

/// Only `mp4`, `mov`, `mpeg`, `mpg`, `jpg`, `jpeg` and `png` get a media
/// type of their own, each its own one; every other extension is served as
/// plain bytes.
pub proof fn lemma_media_types(extension: Seq<char>)
    ensures
        media_type_of(extension) == MediaType::Mp4 <==> extension == "mp4"@,
        media_type_of(extension) == MediaType::Mov <==> extension == "mov"@,
        media_type_of(extension) == MediaType::Mpeg <==> (extension == "mpeg"@ || extension
            == "mpg"@),
        media_type_of(extension) == MediaType::Jpeg <==> (extension == "jpg"@ || extension
            == "jpeg"@),
        media_type_of(extension) == MediaType::Png <==> extension == "png"@,
        media_type_of(extension) == MediaType::Bytes <==> !(extension == "mp4"@ || extension
            == "mov"@ || extension == "mpeg"@ || extension == "mpg"@ || extension == "jpg"@
            || extension == "jpeg"@ || extension == "png"@),
{
    reveal_strlit("mp4");
    reveal_strlit("mov");
    reveal_strlit("mpeg");
    reveal_strlit("mpg");
    reveal_strlit("jpg");
    reveal_strlit("jpeg");
    reveal_strlit("png");
    assert("mp4"@ != "mov"@ && "mp4"@ != "mpeg"@ && "mp4"@ != "mpg"@ && "mp4"@ != "jpg"@
        && "mp4"@ != "jpeg"@ && "mp4"@ != "png"@) by {
        assert("mp4"@[1] != "mov"@[1]);
        assert("mp4"@[2] != "mpg"@[2]);
        assert("mp4"@[0] != "jpg"@[0]);
        assert("mp4"@[0] != "png"@[0]);
    }
    assert("mov"@ != "mpeg"@ && "mov"@ != "mpg"@ && "mov"@ != "jpg"@ && "mov"@ != "jpeg"@
        && "mov"@ != "png"@) by {
        assert("mov"@[1] != "mpg"@[1]);
        assert("mov"@[0] != "jpg"@[0]);
        assert("mov"@[0] != "png"@[0]);
    }
    assert("mpeg"@ != "jpg"@ && "mpeg"@ != "jpeg"@ && "mpeg"@ != "png"@ && "mpg"@ != "jpg"@
        && "mpg"@ != "jpeg"@ && "mpg"@ != "png"@) by {
        assert("mpeg"@[0] != "jpeg"@[0]);
        assert("mpg"@[0] != "jpg"@[0]);
        assert("mpg"@[0] != "png"@[0]);
    }
    assert("jpg"@ != "png"@ && "jpeg"@ != "png"@) by {
        assert("jpg"@[0] != "png"@[0]);
    }
}

/// The media type of an extension already in lower case.
pub fn media_type_for_lowercase(extension: &str) -> (media: MediaType)
    ensures
        media == media_type_of(extension@),
{
    if same_text(extension, "mp4") {
        MediaType::Mp4
    } else if same_text(extension, "mov") {
        MediaType::Mov
    } else if same_text(extension, "mpeg") || same_text(extension, "mpg") {
        MediaType::Mpeg
    } else if same_text(extension, "jpg") || same_text(extension, "jpeg") {
        MediaType::Jpeg
    } else if same_text(extension, "png") {
        MediaType::Png
    } else {
        MediaType::Bytes
    }
}

/// The media type a stored file is served as, from the extension recorded
/// with it (compared in lower case); plain bytes without one.
pub fn get_content_type(extension: Option<&str>) -> (media: MediaType)
    ensures
        media == match extension {
            Some(e) => media_type_of(lowercase(e@)),
            None => MediaType::Bytes,
        },
{
    match extension {
        Some(extension) => {
            let lower = to_lowercase(extension);
            media_type_for_lowercase(lower.as_str())
        },
        None => MediaType::Bytes,
    }
}

/// What the search for a file with the same hash came to.
#[derive(Debug, Clone, Copy, PartialEq, Eq, Structural)]
pub enum HashSearch {
    /// The query could not be run.
    QueryFailed,
    /// A file with that hash is stored.
    Found,
    /// No file with that hash is stored.
    NotFound,
}

/// `Ok` when the hash is free to use: no file with it was found, or the
/// query could not be run; `Err` when a file with that hash is stored.
pub fn search_by_hash(search: HashSearch) -> (free: Result<(), ()>)
    ensures
        free is Err <==> search == HashSearch::Found,
{
    match search {
        HashSearch::QueryFailed => Ok(()),
        HashSearch::Found => Err(()),
        HashSearch::NotFound => Ok(()),
    }
}

/// The message of an upload refused as a duplicate.
pub open spec fn duplicate_message() -> Seq<char> {
    "Such file already exists"@
}

/// What an upload answers once its hash was searched for: the id of the
/// new file, or the refusal of a duplicate.
pub fn upload_outcome(hash_free: Result<(), ()>, file_id: String) -> (outcome: Result<String, String>)
    ensures
        match outcome {
            Ok(id) => hash_free is Ok && id@ == file_id@,
            Err(message) => hash_free is Err && message@ == duplicate_message(),
        },
{
    match hash_free {
        Ok(()) => Ok(file_id),
        Err(()) => Err(String::from_str("Such file already exists")),
    }
}

/// The number of bytes in `gigabytes` gigabytes of 10^9 bytes, saturating at
/// `u64::MAX`, as `ToByteUnit::gigabytes` counts them.
pub fn upload_limit(gigabytes: u64) -> (bytes: u64)
    ensures
        bytes == if gigabytes * 1_000_000_000 > u64::MAX {
            u64::MAX as int
        } else {
            gigabytes * 1_000_000_000
        },
{
    if gigabytes > 18_446_744_073 {
        u64::MAX
    } else {
        gigabytes * 1_000_000_000
    }
}

} // verus!
