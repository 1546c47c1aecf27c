use rocket::http::HeaderMap;
use storage::common::{DataBaseError, FileMeta, JobError, Range};

fn headers(pairs: &[(&'static str, &'static str)]) -> HeaderMap<'static> {
    let mut map = HeaderMap::new();
    for (name, value) in pairs {
        map.add_raw(*name, *value);
    }
    map
}

#[test]
fn parse_data_reads_start_and_end() {
    assert_eq!(Range::parse_data("0-499"), (0, Some(499)));
    assert_eq!(Range::parse_data("500-"), (500, None));
    assert_eq!(Range::parse_data("-500"), (0, Some(500)));
    assert_eq!(Range::parse_data("7"), (7, None));
    assert_eq!(Range::parse_data(""), (0, None));
}

#[test]
fn parse_data_reads_like_str_parse() {
    assert_eq!(Range::parse_data("abc-10"), (0, Some(10)));
    assert_eq!(Range::parse_data("+7-+9"), (7, Some(9)));
    assert_eq!(Range::parse_data("+-9"), (0, Some(9)));
    assert_eq!(Range::parse_data("1-2-3"), (1, Some(2)));
    assert_eq!(Range::parse_data(" 1-2 "), (0, None));
    assert_eq!(Range::parse_data("18446744073709551615-18446744073709551616"), (u64::MAX, None));
    assert_eq!(Range::parse_data("18446744073709551616-1"), (0, Some(1)));
    assert_eq!(Range::parse_data("0007-010"), (7, Some(10)));
}

#[test]
fn parse_data_round_trip_on_values() {
    for (start, end) in [(0u64, 0u64), (1, 99), (123456789, u64::MAX), (u64::MAX, 3)] {
        let text = format!("{}-{}", start, end);
        assert_eq!(Range::parse_data(&text), (start, Some(end)));
        assert_eq!(Range::parse_data(&start.to_string()), (start, None));
        let header = format!("bytes={}", text);
        assert_eq!(Range::parse_range_value(Some(&header)), (start, Some(end)));
    }
}

#[test]
fn parse_range_value_needs_bytes_unit() {
    assert_eq!(Range::parse_range_value(Some("bytes=0-99")), (0, Some(99)));
    assert_eq!(Range::parse_range_value(Some("bytes=10-20=30")), (10, Some(20)));
    assert_eq!(Range::parse_range_value(Some("items=0-99")), (0, None));
    assert_eq!(Range::parse_range_value(Some("Bytes=0-99")), (0, None));
    assert_eq!(Range::parse_range_value(Some("bytes")), (0, None));
    assert_eq!(Range::parse_range_value(Some("bytes=")), (0, None));
    assert_eq!(Range::parse_range_value(None), (0, None));
}

#[test]
fn range_new_reads_the_range_header() {
    let map = headers(&[("Range", "bytes=100-199")]);
    let range = Range::new(&map);
    assert_eq!(range.start, 100);
    assert_eq!(range.end, Some(199));
    assert_eq!(range.read_length, Some(100));
    assert!(range.partial());
}

#[test]
fn range_new_uses_the_first_value() {
    let map = headers(&[("range", "bytes=5-5"), ("RANGE", "bytes=0-1")]);
    let range = Range::new(&map);
    assert_eq!((range.start, range.end, range.read_length), (5, Some(5), Some(1)));
}

#[test]
fn range_new_without_header_is_whole_file() {
    let map = headers(&[("content-type", "image/png")]);
    let range = Range::new(&map);
    assert_eq!((range.start, range.end, range.read_length), (0, None, None));
    assert!(!range.partial());
}

#[test]
fn range_new_open_ended() {
    let map = headers(&[("range", "bytes=1024-")]);
    let range = Range::new(&map);
    assert_eq!((range.start, range.end, range.read_length), (1024, None, None));
    assert!(range.partial());
    assert_eq!(Range::parse_range(&map), (1024, None));
}

#[test]
fn file_meta_reads_type_and_name() {
    let map = headers(&[("Content-Type", "image/png"), ("X-File-Name", "cat.png")]);
    let meta = FileMeta::new(&map);
    assert_eq!((meta._type, meta.extension, meta.name), ("image", "png", "cat.png"));
}

#[test]
fn file_meta_defaults() {
    let map = headers(&[]);
    let meta = FileMeta::new(&map);
    assert_eq!((meta._type, meta.extension, meta.name), ("application", "octet-stream", "no_name"));
}

#[test]
fn file_meta_content_type_shapes() {
    let map = headers(&[("content-type", "text")]);
    assert_eq!(FileMeta::parse_content_type(&map), ("text", "octet-stream"));
    let map = headers(&[("content-type", "a/b/c")]);
    assert_eq!(FileMeta::parse_content_type(&map), ("a", "b"));
    let map = headers(&[("content-type", "")]);
    assert_eq!(FileMeta::parse_content_type(&map), ("", "octet-stream"));
    let map = headers(&[("content-type", "video/")]);
    assert_eq!(FileMeta::parse_content_type(&map), ("video", ""));
}

#[test]
fn error_messages() {
    assert_eq!(DataBaseError::InternalError.message(), "DataBase Internal Error");
    assert_eq!(DataBaseError::ConnectionError.message(), "DataBase Connection Error");
    assert_eq!(DataBaseError::NotFoundError.message(), "File not found Error");
    assert_eq!(JobError::InternalError.message(), "Job Internal Error");
    assert_eq!(JobError::ConnectionError.message(), "Job Connection Error");
    assert_eq!(JobError::TaskFailed.message(), "Job failed Error");
}
