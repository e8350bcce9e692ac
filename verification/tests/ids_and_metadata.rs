use smolcloud::ids::NoteId;
use smolcloud::metadata::Metadata;
use smolcloud::models::notes::{MetadataError, NoteMetadata};

#[test]
fn note_id_text_is_lower_case_hyphenated() {
    let id = NoteId(0x67e5504410b1426f9247bb680e5fe0c8);
    assert_eq!(id.to_string(), "67e55044-10b1-426f-9247-bb680e5fe0c8");
    assert_eq!(NoteId(0).to_string(), "00000000-0000-0000-0000-000000000000");
    assert_eq!(NoteId(u128::MAX).to_string(), "ffffffff-ffff-ffff-ffff-ffffffffffff");
}

#[test]
fn note_id_text_round_trip() {
    for v in [0u128, 1, 0x0123456789abcdef0123456789abcdef, u128::MAX] {
        let id = NoteId(v);
        assert_eq!(NoteId::try_parse(&id.to_string()), Some(id));
    }
}

#[test]
fn note_id_parse_accepts_other_layouts() {
    let v = 0x67e5504410b1426f9247bb680e5fe0c8u128;
    assert_eq!(NoteId::try_parse("67E55044-10B1-426F-9247-BB680E5FE0C8"), Some(NoteId(v)));
    assert_eq!(NoteId::try_parse("67e5504410b1426f9247bb680e5fe0c8"), Some(NoteId(v)));
    assert_eq!(NoteId::try_parse("{67e55044-10b1-426f-9247-bb680e5fe0c8}"), Some(NoteId(v)));
    assert_eq!(NoteId::try_parse("urn:uuid:67e55044-10b1-426f-9247-bb680e5fe0c8"), Some(NoteId(v)));
}

#[test]
fn note_id_parse_rejects_non_uuids() {
    assert_eq!(NoteId::try_parse(""), None);
    assert_eq!(NoteId::try_parse("not a uuid"), None);
    assert_eq!(NoteId::try_parse("67e55044-10b1-426f-9247-bb680e5fe0c"), None);
    assert_eq!(NoteId::try_parse("g7e55044-10b1-426f-9247-bb680e5fe0c8"), None);
}

#[test]
fn fresh_ids_are_version_7() {
    let a = NoteId::now_v7();
    assert_eq!((a.0 >> 76) & 0xf, 7);
    assert_eq!((a.0 >> 62) & 0x3, 2);
}

#[test]
fn metadata_insert_and_get() {
    let mut m = Metadata::new();
    assert!(m.get("id").is_none());
    m.insert("id".to_string(), "a".to_string());
    m.insert("title".to_string(), "b".to_string());
    m.insert("id".to_string(), "c".to_string());
    assert_eq!(m.get("id").map(|s| s.as_str()), Some("c"));
    assert_eq!(m.get("title").map(|s| s.as_str()), Some("b"));
    assert!(m.get("other").is_none());
    let mut pairs = m.into_pairs();
    pairs.sort();
    assert_eq!(pairs, vec![("id".to_string(), "c".to_string()), ("title".to_string(), "b".to_string())]);
}

#[test]
fn note_metadata_writes_id_and_title() {
    let id = NoteId(0x67e5504410b1426f9247bb680e5fe0c8);
    let m = NoteMetadata::new(id, "Groceries".to_string()).into_metadata();
    assert_eq!(m.get("id").map(|s| s.as_str()), Some("67e55044-10b1-426f-9247-bb680e5fe0c8"));
    assert_eq!(m.get("title").map(|s| s.as_str()), Some("Groceries"));
}

#[test]
fn note_metadata_round_trip() {
    let id = NoteId(42);
    let m = NoteMetadata::new(id, "Title with \"quotes\"".to_string()).into_metadata();
    let back = NoteMetadata::try_from_metadata(&m).ok().unwrap();
    assert_eq!(back.id, id);
    assert_eq!(back.title, "Title with \"quotes\"");
}

#[test]
fn note_metadata_errors() {
    let mut m = Metadata::new();
    assert_eq!(NoteMetadata::try_from_metadata(&m).err(), Some(MetadataError::MissingId));
    m.insert("title".to_string(), "t".to_string());
    m.insert("id".to_string(), "nope".to_string());
    assert_eq!(NoteMetadata::try_from_metadata(&m).err(), Some(MetadataError::InvalidId));
    let mut m = Metadata::new();
    m.insert("id".to_string(), NoteId(7).to_string());
    assert_eq!(NoteMetadata::try_from_metadata(&m).err(), Some(MetadataError::MissingTitle));
}

#[test]
fn metadata_error_messages() {
    assert_eq!(MetadataError::MissingId.message(), "missing metadata id");
    assert_eq!(MetadataError::InvalidId.message(), "could not parse uuid");
    assert_eq!(MetadataError::MissingTitle.message(), "missing title metadata");
}

#[test]
fn metadata_pairs_round_trip() {
    let m = Metadata::from_pairs(vec![
        ("a".to_string(), "1".to_string()),
        ("b".to_string(), "2".to_string()),
        ("a".to_string(), "3".to_string()),
    ]);
    assert_eq!(m.get("a").map(|s| s.as_str()), Some("3"));
    let back = Metadata::from_pairs(m.into_pairs());
    assert_eq!(back.get("a").map(|s| s.as_str()), Some("3"));
    assert_eq!(back.get("b").map(|s| s.as_str()), Some("2"));
    let mut pairs = back.into_pairs();
    pairs.sort();
    assert_eq!(pairs.len(), 2);
}
