use bson::oid::ObjectId;
use storage::common::ArchiveJob;
use storage::routes::{
    check_task_reply, read_task_id, produce_task_reply, retrieve_reply, upload_reply, HttpStatus,
};
use storage::services::bucket::{
    byte_text, files_collection_name, get_content_type, hash_text, search_by_hash, upload_limit,
    upload_outcome, HashSearch, MediaType,
};
use storage::services::object_id::parse_object_id;
use storage::services::transfer::{
    exact_read_item, stored_file_name, stream_item, DownloadCursor, SkipPlan,
};
use storage::services::upload::{ReadOutcome, UploadSession};
use storage::{BUCKET_CHUNK_SIZE, MAX_STREAM_LENGTH, MONGO_DB_NAME, SKIP_BUFFER_SIZE};

#[test]
fn constants() {
    assert_eq!(BUCKET_CHUNK_SIZE, 524288);
    assert_eq!(SKIP_BUFFER_SIZE, 10485760);
    assert_eq!(MAX_STREAM_LENGTH, 10);
    assert_eq!(MONGO_DB_NAME, "storage");
}

#[test]
fn byte_and_hash_text() {
    assert_eq!(byte_text(0), "0");
    assert_eq!(byte_text(9), "9");
    assert_eq!(byte_text(10), "10");
    assert_eq!(byte_text(99), "99");
    assert_eq!(byte_text(100), "100");
    assert_eq!(byte_text(255), "255");
    assert_eq!(hash_text(&[0, 9, 10, 255]), "0910255");
    assert_eq!(hash_text(&[]), "");
}

fn upload(read_size: usize, reads: Vec<ReadOutcome>) -> (Vec<Vec<u8>>, String) {
    let mut session = UploadSession::new(read_size);
    let mut stored = Vec::new();
    for outcome in reads {
        match session.on_read(outcome) {
            Some(chunk) => stored.push(chunk),
            None => break,
        }
    }
    (stored, session.finish())
}

#[test]
fn upload_hashes_what_it_stores() {
    let (stored, hash) = upload(
        4,
        vec![
            ReadOutcome::Read(b"hell".to_vec()),
            ReadOutcome::Read(b"o wo".to_vec()),
            ReadOutcome::Read(b"rld".to_vec()),
            ReadOutcome::Read(Vec::new()),
        ],
    );
    assert_eq!(stored, vec![b"hell".to_vec(), b"o wo".to_vec(), b"rld".to_vec()]);
    assert_eq!(hash, "9418259187224302382081472033418714390205195");
}

#[test]
fn upload_of_nothing_hashes_nothing() {
    let (stored, hash) = upload(BUCKET_CHUNK_SIZE, vec![ReadOutcome::Read(Vec::new())]);
    assert!(stored.is_empty());
    assert_eq!(hash, "2122914021714301784233128915223624866126");
}

#[test]
fn failed_read_stores_the_buffer_again() {
    let (stored, hash) = upload(
        5,
        vec![
            ReadOutcome::Read(b"abcde".to_vec()),
            ReadOutcome::Failed,
            ReadOutcome::Read(Vec::new()),
        ],
    );
    assert_eq!(stored, vec![b"abcde".to_vec(), b"abcde".to_vec()]);
    assert_eq!(hash, "128167196392531149147156228566525048250213");
}

#[test]
fn short_read_shrinks_the_buffer() {
    let mut session = UploadSession::new(8);
    assert_eq!(session.read_capacity(), 8);
    assert_eq!(session.on_read(ReadOutcome::Read(b"abc".to_vec())), Some(b"abc".to_vec()));
    assert_eq!(session.read_capacity(), 3);
    assert_eq!(session.on_read(ReadOutcome::Failed), Some(b"abc".to_vec()));
    assert_eq!(session.on_read(ReadOutcome::Read(Vec::new())), None);
    assert_eq!(session.read_capacity(), 3);
}

#[test]
fn failed_first_read_stores_zeros() {
    let mut session = UploadSession::new(3);
    assert_eq!(session.on_read(ReadOutcome::Failed), Some(vec![0, 0, 0]));
}

#[test]
fn collection_name() {
    assert_eq!(files_collection_name("photos"), "photos.files");
    assert_eq!(files_collection_name(""), ".files");
}

#[test]
fn content_types() {
    assert_eq!(get_content_type(Some("mp4")), MediaType::Mp4);
    assert_eq!(get_content_type(Some("MP4")), MediaType::Mp4);
    assert_eq!(get_content_type(Some("MoV")), MediaType::Mov);
    assert_eq!(get_content_type(Some("mpeg")), MediaType::Mpeg);
    assert_eq!(get_content_type(Some("MPG")), MediaType::Mpeg);
    assert_eq!(get_content_type(Some("jpg")), MediaType::Jpeg);
    assert_eq!(get_content_type(Some("JPEG")), MediaType::Jpeg);
    assert_eq!(get_content_type(Some("PNG")), MediaType::Png);
    assert_eq!(get_content_type(Some("txt")), MediaType::Bytes);
    assert_eq!(get_content_type(Some("")), MediaType::Bytes);
    assert_eq!(get_content_type(None), MediaType::Bytes);
}

#[test]
fn duplicate_search() {
    assert_eq!(search_by_hash(HashSearch::Found), Err(()));
    assert_eq!(search_by_hash(HashSearch::NotFound), Ok(()));
    assert_eq!(search_by_hash(HashSearch::QueryFailed), Ok(()));
    assert_eq!(upload_outcome(Ok(()), "abc".to_string()), Ok("abc".to_string()));
    assert_eq!(
        upload_outcome(Err(()), "abc".to_string()),
        Err("Such file already exists".to_string())
    );
}

#[test]
fn upload_limits() {
    assert_eq!(upload_limit(MAX_STREAM_LENGTH as u64), 10_000_000_000);
    assert_eq!(upload_limit(0), 0);
    assert_eq!(upload_limit(18_446_744_073), 18_446_744_073_000_000_000);
    assert_eq!(upload_limit(18_446_744_074), u64::MAX);
}

#[test]
fn object_ids() {
    assert_eq!(
        parse_object_id("507f1f77bcf86cd799439011"),
        Some(vec![0x50, 0x7f, 0x1f, 0x77, 0xbc, 0xf8, 0x6c, 0xd7, 0x99, 0x43, 0x90, 0x11])
    );
    assert_eq!(
        parse_object_id("507F1F77BCF86CD799439011"),
        Some(vec![0x50, 0x7f, 0x1f, 0x77, 0xbc, 0xf8, 0x6c, 0xd7, 0x99, 0x43, 0x90, 0x11])
    );
    assert_eq!(parse_object_id("507f1f77bcf86cd79943901"), None);
    assert_eq!(parse_object_id("507f1f77bcf86cd7994390111"), None);
    assert_eq!(parse_object_id("507f1f77bcf86cd79943901g"), None);
    assert_eq!(parse_object_id(""), None);
}

#[test]
fn skip_plan_reads() {
    let mut plan = SkipPlan::new(25 * 1024 * 1024);
    assert_eq!(plan.next_read(), Some(SKIP_BUFFER_SIZE));
    assert_eq!(plan.next_read(), Some(SKIP_BUFFER_SIZE));
    assert_eq!(plan.next_read(), Some(5 * 1024 * 1024));
    assert_eq!(plan.next_read(), None);
    let mut plan = SkipPlan::new(0);
    assert_eq!(plan.next_read(), None);
    let mut plan = SkipPlan::new(SKIP_BUFFER_SIZE);
    assert_eq!(plan.next_read(), Some(SKIP_BUFFER_SIZE));
    assert_eq!(plan.next_read(), None);
}

#[test]
fn download_cursor_reads() {
    let mut cursor = DownloadCursor::new(10, 4);
    assert_eq!(cursor.next_chunk(), Some(4));
    assert_eq!(cursor.next_chunk(), Some(4));
    assert_eq!(cursor.next_chunk(), Some(2));
    assert_eq!(cursor.next_chunk(), None);
    assert_eq!(cursor.next_chunk(), None);
    let mut cursor = DownloadCursor::new(0, 4);
    assert_eq!(cursor.next_chunk(), None);
    let mut cursor = DownloadCursor::new(8, 4);
    assert_eq!(cursor.next_chunk(), Some(4));
    assert_eq!(cursor.next_chunk(), Some(4));
    assert_eq!(cursor.next_chunk(), None);
    let mut cursor = DownloadCursor::new(u64::MAX, u64::MAX);
    assert_eq!(cursor.next_chunk(), Some(u64::MAX));
    assert_eq!(cursor.next_chunk(), None);
    let mut cursor = DownloadCursor::new(u64::MAX, 1);
    assert_eq!(cursor.next_chunk(), Some(1));
    let mut cursor = DownloadCursor::new(3, 0);
    assert_eq!(cursor.next_chunk(), Some(0));
    assert_eq!(cursor.next_chunk(), Some(0));
}

#[test]
fn route_replies() {
    assert_eq!(upload_reply(Ok("id".to_string())), (HttpStatus::Created, "id".to_string()));
    assert_eq!(upload_reply(Err("no".to_string())), (HttpStatus::Conflict, "no".to_string()));
    assert_eq!(retrieve_reply(Ok(5)), (HttpStatus::Success, Some(5)));
    assert_eq!(retrieve_reply::<u8>(Err(())), (HttpStatus::NotFound, None));
    assert_eq!(produce_task_reply(Ok("job".to_string())), (HttpStatus::Created, "job".to_string()));
    assert_eq!(produce_task_reply(Err(())), (HttpStatus::BadRequest, "error".to_string()));
    assert_eq!(check_task_reply(Ok(Some(1))), (HttpStatus::Success, "ok"));
    assert_eq!(check_task_reply::<u8>(Err(())), (HttpStatus::BadRequest, "404"));
    assert_eq!(HttpStatus::Success.code(), 200);
    assert_eq!(HttpStatus::Created.code(), 201);
    assert_eq!(HttpStatus::BadRequest.code(), 400);
    assert_eq!(HttpStatus::NotFound.code(), 404);
    assert_eq!(HttpStatus::Conflict.code(), 409);
}

#[test]
fn task_ids() {
    assert!(read_task_id("01ARZ3NDEKTSV4RRFFQ69G5FAV").is_some());
    assert!(read_task_id("01arz3ndektsv4rrffq69g5fav").is_some());
    assert_eq!(
        read_task_id("01ARZ3NDEKTSV4RRFFQ69G5FAV").unwrap().to_string(),
        "01ARZ3NDEKTSV4RRFFQ69G5FAV"
    );
    assert!(read_task_id("01ARZ3NDEKTSV4RRFFQ69G5FAI").is_none());
    assert!(read_task_id("01ARZ3NDEKTSV4RRFFQ69G5FA").is_none());
    assert!(read_task_id("").is_none());
}

#[test]
fn archive_job() {
    let job = ArchiveJob::new("compress bucket");
    assert_eq!(job.task, "compress bucket");
}

#[test]
fn object_ids_read_as_bson_reads_them() {
    for text in [
        "507f1f77bcf86cd799439011",
        "000000000000000000000000",
        "FFFFFFFFFFFFffffffffffff",
        "507f1f77bcf86cd79943901",
        "507f1f77bcf86cd79943901z",
        "507f1f77bcf86cd7994390111",
        "é07f1f77bcf86cd799439011",
        "",
    ] {
        let ours = parse_object_id(text);
        let theirs = ObjectId::parse_str(text).ok().map(|id| id.bytes().to_vec());
        assert_eq!(ours, theirs, "{}", text);
        if let Some(bytes) = ours {
            let hex = ObjectId::from_bytes(bytes.clone().try_into().unwrap()).to_hex();
            assert_eq!(parse_object_id(&hex), Some(bytes));
        }
    }
}

#[test]
fn task_id_values() {
    let id = read_task_id("01ARZ3NDEKTSV4RRFFQ69G5FAV").unwrap();
    assert_eq!(id.inner().0, 1777027686520646174104517696511196507u128);
    let id = read_task_id("01arz3ndektsv4rrffq69g5fav").unwrap();
    assert_eq!(id.inner().0, 1777027686520646174104517696511196507u128);
    let id = read_task_id("7ZZZZZZZZZZZZZZZZZZZZZZZZZ").unwrap();
    assert_eq!(id.inner().0, u128::MAX);
    let id = read_task_id("ZZZZZZZZZZZZZZZZZZZZZZZZZZ").unwrap();
    assert_eq!(id.inner().0, u128::MAX);
    let id = read_task_id("00000000000000000000000000").unwrap();
    assert_eq!(id.inner().0, 0);
}

#[test]
fn hash_text_shape() {
    let (_, hash) = upload(4, vec![ReadOutcome::Read(b"hell".to_vec()), ReadOutcome::Read(Vec::new())]);
    assert!(16 <= hash.len() && hash.len() <= 48);
    assert!(hash.chars().all(|c| c.is_ascii_digit()));
}

#[test]
fn stream_items() {
    assert_eq!(stream_item::<()>(vec![1, 2, 3, 4], Ok(0)), None);
    assert_eq!(stream_item::<()>(vec![1, 2, 3, 4], Ok(2)), Some(Ok(vec![1, 2])));
    assert_eq!(stream_item::<()>(vec![1, 2, 3, 4], Ok(4)), Some(Ok(vec![1, 2, 3, 4])));
    assert_eq!(stream_item(vec![1, 2], Err("broken")), Some(Err("broken")));
}

#[test]
fn exact_read_items() {
    assert_eq!(exact_read_item::<()>(vec![7, 8], Ok(())), Some(vec![7, 8]));
    assert_eq!(exact_read_item(vec![7, 8], Err("broken")), None);
}

#[test]
fn stored_file_names() {
    assert_eq!(stored_file_name(Some("cat.png".to_string())), "cat.png");
    assert_eq!(stored_file_name(None), "no_name");
}

#[test]
fn read_counts_are_ceilings() {
    for (length, chunk) in [(10u64, 4u64), (8, 4), (1, 4), (0, 4), (9, 1)] {
        let mut cursor = DownloadCursor::new(length, chunk);
        let mut count = 0u64;
        let mut sum = 0u64;
        while let Some(size) = cursor.next_chunk() {
            count += 1;
            sum += size;
        }
        assert_eq!(count, (length + chunk - 1) / chunk);
        assert_eq!(sum, length);
    }
}
