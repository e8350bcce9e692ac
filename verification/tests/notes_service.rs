use smolcloud::bindings::{byte_range, BucketError, BucketObject};
use smolcloud::client::note_path;
use smolcloud::ids::NoteId;
use smolcloud::metadata::Metadata;
use smolcloud::models::notes::{Note, NoteMetadata};
use smolcloud::services::{
    check_exists, create_request, note_from_lookup, notes_from_listing, put_request, write_outcome, ApiError,
    ServiceError,
};

fn stored(id: NoteId, note: Note) -> BucketObject {
    let request = put_request(id, note);
    BucketObject { key: request.key, body: Some(request.data), custom_metadata: Some(request.custom_metadata) }
}

fn bucket_error() -> BucketError {
    BucketError { message: "bucket failed".to_string() }
}

#[test]
fn put_request_layout() {
    let id = NoteId(0x67e5504410b1426f9247bb680e5fe0c8);
    let r = put_request(id, Note { title: "T".to_string(), content: Some("héllo".to_string()) });
    assert_eq!(r.key, "67e55044-10b1-426f-9247-bb680e5fe0c8");
    assert_eq!(r.data, "héllo".as_bytes().to_vec());
    assert_eq!(r.custom_metadata.get("title").map(|s| s.as_str()), Some("T"));
    let r = put_request(id, Note { title: "T".to_string(), content: None });
    assert!(r.data.is_empty());
}

#[test]
fn stored_note_reads_back() {
    let id = NoteId(99);
    let note = note_from_lookup(Ok(Some(stored(id, Note { title: "A".to_string(), content: Some("body ✓".to_string()) }))));
    let note = note.ok().unwrap();
    assert_eq!(note.title, "A");
    assert_eq!(note.content.as_deref(), Some("body ✓"));
}

#[test]
fn stored_note_without_content_reads_back_empty() {
    let note = note_from_lookup(Ok(Some(stored(NoteId(1), Note { title: "A".to_string(), content: None }))));
    assert_eq!(note.ok().unwrap().content.as_deref(), Some(""));
}

#[test]
fn lookup_failures() {
    assert!(matches!(note_from_lookup(Err(bucket_error())), Err(ServiceError::NotFound)));
    assert!(matches!(note_from_lookup(Ok(None)), Err(ServiceError::NotFound)));
    let no_metadata = BucketObject { key: "k".to_string(), body: None, custom_metadata: None };
    assert!(matches!(note_from_lookup(Ok(Some(no_metadata))), Err(ServiceError::Internal)));
    let mut m = Metadata::new();
    m.insert("id".to_string(), "x".to_string());
    let no_title = BucketObject { key: "k".to_string(), body: None, custom_metadata: Some(m) };
    assert!(matches!(note_from_lookup(Ok(Some(no_title))), Err(ServiceError::Internal)));
}

#[test]
fn lookup_with_invalid_utf8_body_has_no_content() {
    let mut m = Metadata::new();
    m.insert("title".to_string(), "t".to_string());
    let object = BucketObject { key: "k".to_string(), body: Some(vec![0xff, 0xfe]), custom_metadata: Some(m) };
    let note = note_from_lookup(Ok(Some(object))).ok().unwrap();
    assert_eq!(note.title, "t");
    assert!(note.content.is_none());
}

#[test]
fn listing_keeps_readable_metadata_in_order() {
    let a = stored(NoteId(1), Note { title: "first".to_string(), content: None });
    let no_metadata = BucketObject { key: "x".to_string(), body: None, custom_metadata: None };
    let mut bad = Metadata::new();
    bad.insert("id".to_string(), "bad".to_string());
    bad.insert("title".to_string(), "bad".to_string());
    let bad = BucketObject { key: "y".to_string(), body: None, custom_metadata: Some(bad) };
    let b = stored(NoteId(2), Note { title: "second".to_string(), content: None });
    let listed = notes_from_listing(Ok(vec![a, no_metadata, bad, b])).ok().unwrap();
    let listed: Vec<(u128, String)> = listed.into_iter().map(|n: NoteMetadata| (n.id.0, n.title)).collect();
    assert_eq!(listed, vec![(1, "first".to_string()), (2, "second".to_string())]);
}

#[test]
fn listing_failure_is_bucket_error() {
    match notes_from_listing(Err(bucket_error())) {
        Err(ServiceError::Bucket(e)) => assert_eq!(e.message, "bucket failed"),
        _ => panic!("expected a bucket error"),
    }
}

#[test]
fn update_checks_existence() {
    assert!(matches!(check_exists(Err(bucket_error())), Err(ServiceError::Bucket(_))));
    assert!(matches!(check_exists(Ok(None)), Err(ServiceError::NotFound)));
    let o = BucketObject { key: "k".to_string(), body: None, custom_metadata: None };
    assert!(check_exists(Ok(Some(o))).is_ok());
}

#[test]
fn write_outcomes() {
    assert!(write_outcome::<()>(Ok(())).is_ok());
    assert!(matches!(write_outcome::<()>(Err(bucket_error())), Err(ServiceError::Bucket(_))));
}

#[test]
fn create_uses_a_fresh_key() {
    let (id, request) = create_request(Note { title: "n".to_string(), content: Some("c".to_string()) });
    assert_eq!(request.key, id.to_string());
    assert_eq!(request.data, b"c".to_vec());
    assert_eq!(request.custom_metadata.get("id"), Some(&id.to_string()));
}

#[test]
fn api_error_status() {
    assert_eq!(ApiError::from(ServiceError::NotFound).status, 404);
    assert_eq!(ApiError::from(ServiceError::Internal).status, 500);
    assert_eq!(ApiError::from(ServiceError::Bucket(bucket_error())).status, 500);
}

#[test]
fn bucket_object_accessors() {
    let o = BucketObject { key: "k1".to_string(), body: Some(vec![1, 2]), custom_metadata: None };
    assert_eq!(o.key(), "k1");
    assert_eq!(o.body(), Some(&[1u8, 2][..]));
    let o = BucketObject { key: "k2".to_string(), body: None, custom_metadata: None };
    assert_eq!(o.body(), None);
}

#[test]
fn client_note_path() {
    assert_eq!(note_path(NoteId(0x67e5504410b1426f9247bb680e5fe0c8)), "notes/67e55044-10b1-426f-9247-bb680e5fe0c8");
}

#[test]
fn byte_ranges() {
    assert_eq!(byte_range(10, 25), (10, 15));
    assert_eq!(byte_range(7, 7), (7, 0));
    assert_eq!(byte_range(9, 3), (9, 0));
}

/// Lists an in-memory bucket whole: each key holds the id and title that
/// the service last wrote there.
fn listing_of_bucket(bucket: &std::collections::BTreeMap<String, (NoteId, String)>) -> Vec<NoteMetadata> {
    let objects: Vec<BucketObject> =
        bucket.values().map(|(id, title)| stored(*id, Note { title: title.clone(), content: None })).collect();
    notes_from_listing(Ok(objects)).ok().unwrap()
}

#[test]
fn listing_follows_the_last_write() {
    let mut bucket = std::collections::BTreeMap::new();
    let a = NoteId(0x0190_0000_0000_7000_8000_0000_0000_0001);
    let b = NoteId(0x0190_0000_0000_7000_8000_0000_0000_0002);
    for (id, title) in [(a, "first"), (b, "other"), (a, "second")] {
        bucket.insert(id.to_string(), (id, title.to_string()));
    }
    let listed = listing_of_bucket(&bucket);
    let of_a: Vec<&NoteMetadata> = listed.iter().filter(|n| n.id == a).collect();
    assert_eq!(of_a.len(), 1);
    assert_eq!(of_a[0].title, "second");
    bucket.remove(&a.to_string());
    bucket.remove(&a.to_string());
    let listed = listing_of_bucket(&bucket);
    assert!(listed.iter().all(|n| n.id != a));
    assert_eq!(listed.len(), 1);
    assert!(matches!(note_from_lookup(Ok(None)), Err(ServiceError::NotFound)));
}
