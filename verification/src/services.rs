//! The note service: what it stores for a note, and what it answers from
//! what the bucket gave back.

use vstd::prelude::*;
use vstd::utf8::{valid_utf8, decode_utf8, encode_utf8};
use crate::bindings::{BucketError, BucketObject};
use crate::ids::{NoteId, uuid_hyphenated, uuid_try_parse, uuid_variant, uuid_version};
use crate::metadata::Metadata;
use crate::models::notes::{Note, NoteMetadata, metadata_of, read_metadata, title_key};

verus! {

/// Why a note operation failed.
pub enum ServiceError {
    /// The bucket reported an error.
    Bucket(BucketError),
    /// The requested note does not exist.
    NotFound,
    /// The stored note is not in the expected shape.
    Internal,
}

/// The error answer of the notes API: an HTTP status code.
pub struct ApiError {
    pub status: u16,
}

/// The status answered for a service error.
pub open spec fn service_error_status(e: ServiceError) -> u16 {
    match e {
        ServiceError::NotFound => 404,
        ServiceError::Bucket(_) => 500,
        ServiceError::Internal => 500,
    }
}

impl From<ServiceError> for ApiError {
    /// A missing note is answered 404 Not Found; a bucket failure or a note
    /// stored in the wrong shape 500 Internal Server Error.
    fn from(e: ServiceError) -> (r: ApiError) {
        match e {
            ServiceError::NotFound => ApiError { status: 404 },
            ServiceError::Bucket(_) => ApiError { status: 500 },
            ServiceError::Internal => ApiError { status: 500 },
        }
    }
}

impl vstd::std_specs::convert::FromSpecImpl<ServiceError> for ApiError {
    open spec fn obeys_from_spec() -> bool {
        true
    }

    open spec fn from_spec(e: ServiceError) -> ApiError {
        ApiError { status: service_error_status(e) }
    }
}

/// A note as plain values: its title and its content.
pub open spec fn note_view(n: Note) -> (Seq<char>, Option<Seq<char>>) {
    (n.title@, match n.content {
        Some(c) => Some(c@),
        None => None,
    })
}

/// The view of an optional byte buffer.
pub open spec fn bytes_view(b: Option<Vec<u8>>) -> Option<Seq<u8>> {
    match b {
        Some(v) => Some(v@),
        None => None,
    }
}

/// The view of optional metadata.
pub open spec fn metadata_view(m: Option<Metadata>) -> Option<Map<Seq<char>, Seq<char>>> {
    match m {
        Some(v) => Some(v@),
        None => None,
    }
}

/// The text of a note body: the body decoded as UTF-8, or nothing when it is
/// absent or not UTF-8.
pub open spec fn note_content(body: Option<Seq<u8>>) -> Option<Seq<char>> {
    match body {
        Some(b) => if valid_utf8(b) {
            Some(decode_utf8(b))
        } else {
            None
        },
        None => None,
    }
}

/// The note that an object with this body and metadata holds: its title is
/// the `title` metadata entry, its content the decoded body; an object
/// without metadata or without a title entry is an internal error.
pub open spec fn read_note(body: Option<Seq<u8>>, metadata: Option<Map<Seq<char>, Seq<char>>>) -> Result<
    (Seq<char>, Option<Seq<char>>),
    ServiceError,
> {
    match metadata {
        None => Err(ServiceError::Internal),
        Some(m) => if m.contains_key(title_key()) {
            Ok((m[title_key()], note_content(body)))
        } else {
            Err(ServiceError::Internal)
        },
    }
}

/// The text stored as a note's body: its content, or the empty text.
pub open spec fn stored_content(content: Option<Seq<char>>) -> Seq<char> {
    match content {
        Some(c) => c,
        None => Seq::empty(),
    }
}

/// Calls `String::from_utf8`, keeping the string: `Some` exactly when the
/// bytes are valid UTF-8, and then the characters they encode (as the
/// standard library documents).
#[verifier::external_body]
pub(crate) fn string_from_utf8(bytes: Vec<u8>) -> (r: Option<String>)
    ensures
        r is Some <==> valid_utf8(bytes@),
        r matches Some(s) ==> s@ == decode_utf8(bytes@),
{
    String::from_utf8(bytes).ok()
}

/// What the note service writes to the bucket for a note.
pub struct PutRequest {
    pub key: String,
    pub data: Vec<u8>,
    pub custom_metadata: Metadata,
}

/// The bucket write for note `id`: the object is keyed by the identifier's
/// text, holds the content (empty when absent) as UTF-8, and carries the
/// note metadata (`id` and `title`).
pub fn put_request(id: NoteId, note: Note) -> (r: PutRequest)
    ensures
        r.key@ == uuid_hyphenated(id.0),
        r.data@ == encode_utf8(stored_content(note_view(note).1)),
        r.custom_metadata@ == metadata_of(id.0, note.title@),
        put_write(r) == note_put(id.0, note.title@, note_view(note).1),
        note.content matches Some(c) ==> r.data@ == encode_utf8(c@),
        note.content is None ==> r.data@ == Seq::<u8>::empty(),
{
    let key = id.to_string();
    let data = match &note.content {
        Some(c) => c.as_str().as_bytes_vec(),
        None => Vec::new(),
    };
    proof {
        if note.content is None {
            assert(data@ =~= encode_utf8(Seq::<char>::empty()));
        }
    }
    let metadata = NoteMetadata::new(id, note.title).into_metadata();
    PutRequest { key, data, custom_metadata: metadata }
}

/// A note stored as `put_request` writes it reads back, through `read_note`,
/// with its title and its content; an absent content reads back as empty.
pub proof fn lemma_stored_note_reads_back(id: u128, title: Seq<char>, content: Option<Seq<char>>)
    ensures
        read_note(Some(encode_utf8(stored_content(content))), Some(metadata_of(id, title)))
            == Ok::<(Seq<char>, Option<Seq<char>>), ServiceError>((title, Some(stored_content(content)))),
{
    vstd::utf8::encode_utf8_valid_utf8(stored_content(content));
    vstd::utf8::encode_utf8_decode_utf8(stored_content(content));
    assert(metadata_of(id, title).contains_key(title_key()));
}

/// A note stored with content `c` reads back with exactly `c`, whole: the
/// body holds the UTF-8 bytes of all of `c`, and reading it decodes them.
pub proof fn lemma_whole_content_reads_back(id: u128, title: Seq<char>, c: Seq<char>)
    ensures
        note_put(id, title, Some(c)) == BucketWrite::Put(uuid_hyphenated(id), encode_utf8(c), metadata_of(id, title)),
        note_put(id, title, None) == BucketWrite::Put(uuid_hyphenated(id), Seq::<u8>::empty(), metadata_of(id, title)),
        read_note(Some(encode_utf8(c)), Some(metadata_of(id, title)))
            == Ok::<(Seq<char>, Option<Seq<char>>), ServiceError>((title, Some(c))),
        read_note(Some(Seq::<u8>::empty()), Some(metadata_of(id, title)))
            == Ok::<(Seq<char>, Option<Seq<char>>), ServiceError>((title, Some(Seq::<char>::empty()))),
{
    lemma_stored_note_reads_back(id, title, Some(c));
    lemma_stored_note_reads_back(id, title, None);
    assert(encode_utf8(Seq::<char>::empty()) =~= Seq::<u8>::empty());
}

/// The answer to a note lookup, from what the bucket gave back for the
/// note's key: a failed or empty lookup is `NotFound`, otherwise the note
/// that the object holds (see `read_note`).
pub fn note_from_lookup(result: Result<Option<BucketObject>, BucketError>) -> (r: Result<Note, ServiceError>)
    ensures
        match result {
            Err(_) => r matches Err(ServiceError::NotFound),
            Ok(None) => r matches Err(ServiceError::NotFound),
            Ok(Some(o)) => match read_note(bytes_view(o.body), metadata_view(o.custom_metadata)) {
                Ok(v) => r matches Ok(n) && note_view(n) == v,
                Err(e) => r matches Err(f) && f == e,
            },
        },
{
    let object = match result {
        Err(_) => return Err(ServiceError::NotFound),
        Ok(None) => return Err(ServiceError::NotFound),
        Ok(Some(o)) => o,
    };
    let BucketObject { key: _, body, custom_metadata } = object;
    let metadata = match custom_metadata {
        Some(m) => m,
        None => return Err(ServiceError::Internal),
    };
    proof {
        reveal_strlit("title");
        assert("title"@ =~= title_key());
    }
    let title = match metadata.get("title") {
        Some(t) => t.clone(),
        None => return Err(ServiceError::Internal),
    };
    let content = match body {
        Some(b) => string_from_utf8(b),
        None => None,
    };
    Ok(Note { title, content })
}

/// The note metadata that a listing of stored metadata yields: objects
/// without metadata, or whose metadata does not read as note metadata, are
/// left out; the others keep their order.
pub open spec fn listing_of(ms: Seq<Option<Map<Seq<char>, Seq<char>>>>) -> Seq<(u128, Seq<char>)>
    decreases ms.len(),
{
    if ms.len() == 0 {
        Seq::empty()
    } else {
        let rest = listing_of(ms.drop_last());
        match ms.last() {
            Some(m) => match read_metadata(m) {
                Ok(v) => rest.push(v),
                Err(_) => rest,
            },
            None => rest,
        }
    }
}

/// The metadata views of a list of objects.
pub open spec fn objects_metadata(objects: Seq<BucketObject>) -> Seq<Option<Map<Seq<char>, Seq<char>>>> {
    objects.map_values(|o: BucketObject| metadata_view(o.custom_metadata))
}

/// Note metadata as plain values.
pub open spec fn metadata_entry(n: NoteMetadata) -> (u128, Seq<char>) {
    (n.id.0, n.title@)
}

/// `o` is an object as the note service writes it: keyed by a note id's
/// text, with that id and a title as metadata.
pub open spec fn service_object(o: BucketObject) -> bool {
    exists|id: u128, title: Seq<char>|
        o.key@ == uuid_hyphenated(id) && metadata_view(o.custom_metadata) == Some(#[trigger] metadata_of(id, title))
}

/// One of the objects is keyed by the entry's id and holds its metadata.
pub open spec fn stored_in(objects: Seq<BucketObject>, n: NoteMetadata) -> bool {
    exists|j: int| 0 <= j < objects.len() && (#[trigger] objects[j]).key@ == uuid_hyphenated(n.id.0)
        && metadata_view(objects[j].custom_metadata) == Some(metadata_of(n.id.0, n.title@))
}

/// No two of the objects have the same key.
pub open spec fn distinct_keys(objects: Seq<BucketObject>) -> bool {
    forall|i: int, j: int| 0 <= i < j < objects.len() ==> objects[i].key@ != objects[j].key@
}

/// What the listing answers for `objects`: the entries of the objects
/// whose metadata reads as note metadata, in order; every object with the
/// metadata of a note is listed; and when every object is as the service
/// writes it, each entry comes from an object keyed by its id, and, the
/// keys being distinct, no id is listed twice.
pub open spec fn listing_answer(objects: Seq<BucketObject>, v: Seq<NoteMetadata>) -> bool {
    &&& v.map_values(|n: NoteMetadata| metadata_entry(n)) == listing_of(objects_metadata(objects))
    &&& forall|i: int, id: u128, title: Seq<char>|
        0 <= i < objects.len() && metadata_view((#[trigger] objects[i]).custom_metadata) == Some(#[trigger] metadata_of(id, title))
        ==> v.map_values(|n: NoteMetadata| metadata_entry(n)).contains((id, title))
    &&& (forall|j: int| 0 <= j < objects.len() ==> service_object(#[trigger] objects[j])) ==> forall|i: int|
        0 <= i < v.len() ==> stored_in(objects, #[trigger] v[i])
    &&& ((forall|j: int| 0 <= j < objects.len() ==> service_object(#[trigger] objects[j])) && distinct_keys(objects))
        ==> forall|i1: int, i2: int| 0 <= i1 < v.len() && 0 <= i2 < v.len() && v[i1].id == v[i2].id ==> i1 == i2
}

/// The answer to a note listing, from what the bucket listing gave back.
/// Every object whose metadata is the one `put_request` writes is listed.
pub fn notes_from_listing(result: Result<Vec<BucketObject>, BucketError>) -> (r: Result<Vec<NoteMetadata>, ServiceError>)
    ensures
        match result {
            Err(e) => r matches Err(ServiceError::Bucket(f)) && f == e,
            Ok(objects) => r matches Ok(v) && listing_answer(objects@, v@),
        },
{
    let objects = match result {
        Err(e) => return Err(ServiceError::Bucket(e)),
        Ok(objects) => objects,
    };
    let mut listed: Vec<NoteMetadata> = Vec::new();
    let ghost mut src: Seq<int> = Seq::empty();
    let mut i: usize = 0;
    while i < objects.len()
        invariant
            i <= objects@.len(),
            src.len() == listed@.len(),
            forall|a: int, b: int| 0 <= a < b < src.len() ==> src[a] < src[b],
            forall|a: int| 0 <= a < src.len() ==> 0 <= #[trigger] src[a] < i,
            forall|a: int, id: u128, title: Seq<char>|
                0 <= a < src.len() && metadata_view(objects@[#[trigger] src[a]].custom_metadata) == Some(#[trigger] metadata_of(id, title))
                ==> listed@[a].id.0 == id && listed@[a].title@ == title,
            listed@.map_values(|n: NoteMetadata| metadata_entry(n)) == listing_of(objects_metadata(objects@).take(i as int)),
            forall|j: int, id: u128, title: Seq<char>|
                0 <= j < i && metadata_view((#[trigger] objects@[j]).custom_metadata) == Some(#[trigger] metadata_of(id, title))
                ==> listed@.map_values(|n: NoteMetadata| metadata_entry(n)).contains((id, title)),
        decreases objects@.len() - i,
    {
        let ghost before = listed@;
        proof {
            assert(objects_metadata(objects@).take(i as int + 1).drop_last() =~= objects_metadata(objects@).take(i as int));
        }
        match &objects[i].custom_metadata {
            Some(m) => {
                match NoteMetadata::try_from_metadata(m) {
                    Ok(n) => {
                        listed.push(n);
                        proof {
                            src = src.push(i as int);
                            assert(listed@.map_values(|n: NoteMetadata| metadata_entry(n)) =~=
                                before.map_values(|n: NoteMetadata| metadata_entry(n)).push(metadata_entry(n)));
                            assert forall|j: int, id: u128, title: Seq<char>|
                                0 <= j < i + 1 && metadata_view((#[trigger] objects@[j]).custom_metadata) == Some(#[trigger] metadata_of(id, title))
                                implies listed@.map_values(|n: NoteMetadata| metadata_entry(n)).contains((id, title)) by {
                                if j < i {
                                    let bm = before.map_values(|n: NoteMetadata| metadata_entry(n));
                                    let k = choose|k: int| 0 <= k < bm.len() && #[trigger] bm[k] == (id, title);
                                    assert(listed@.map_values(|n: NoteMetadata| metadata_entry(n))[k] == (id, title));
                                } else {
                                    assert(listed@.map_values(|n: NoteMetadata| metadata_entry(n))[before.len() as int] == (id, title));
                                }
                            }
                        }
                    },
                    Err(_) => {
                        proof {
                            assert forall|j: int, id: u128, title: Seq<char>|
                                0 <= j < i + 1 && metadata_view((#[trigger] objects@[j]).custom_metadata) == Some(#[trigger] metadata_of(id, title))
                                implies listed@.map_values(|n: NoteMetadata| metadata_entry(n)).contains((id, title)) by {
                            }
                        }
                    },
                }
            },
            None => {},
        }
        i = i + 1;
    }
    proof {
        assert(objects_metadata(objects@).take(objects@.len() as int) =~= objects_metadata(objects@));
        let os = objects@;
        let v = listed@;
        if forall|j: int| 0 <= j < os.len() ==> service_object(#[trigger] os[j]) {
            assert forall|a: int| 0 <= a < v.len() implies stored_in(os, #[trigger] v[a]) by {
                let j = src[a];
                assert(service_object(os[j]));
                let (id, title) = choose|id: u128, title: Seq<char>|
                    os[j].key@ == uuid_hyphenated(id) && metadata_view(os[j].custom_metadata) == Some(#[trigger] metadata_of(id, title));
                assert(v[a].id.0 == id && v[a].title@ == title);
            }
            if distinct_keys(os) {
                assert forall|i1: int, i2: int| 0 <= i1 < v.len() && 0 <= i2 < v.len() && v[i1].id == v[i2].id implies i1 == i2 by {
                    if i1 != i2 {
                        let j1 = src[i1];
                        let j2 = src[i2];
                        assert(service_object(os[j1]));
                        assert(service_object(os[j2]));
                        let (id1, t1) = choose|id: u128, title: Seq<char>|
                            os[j1].key@ == uuid_hyphenated(id) && metadata_view(os[j1].custom_metadata) == Some(#[trigger] metadata_of(id, title));
                        let (id2, t2) = choose|id: u128, title: Seq<char>|
                            os[j2].key@ == uuid_hyphenated(id) && metadata_view(os[j2].custom_metadata) == Some(#[trigger] metadata_of(id, title));
                        assert(v[i1].id.0 == id1);
                        assert(v[i2].id.0 == id2);
                        if i1 < i2 {
                            assert(os[j1].key@ != os[j2].key@);
                        } else {
                            assert(os[j2].key@ != os[j1].key@);
                        }
                    }
                }
            }
        }
    }
    Ok(listed)
}

/// The answer to a note update, from the bucket's `head` of the note's key:
/// a failed `head` is a bucket error, a missing object `NotFound`; otherwise
/// the update goes on to the write.
pub fn check_exists(head: Result<Option<BucketObject>, BucketError>) -> (r: Result<(), ServiceError>)
    ensures
        match head {
            Err(e) => r matches Err(ServiceError::Bucket(f)) && f == e,
            Ok(None) => r matches Err(ServiceError::NotFound),
            Ok(Some(_)) => r is Ok,
        },
{
    match head {
        Err(e) => Err(ServiceError::Bucket(e)),
        Ok(None) => Err(ServiceError::NotFound),
        Ok(Some(_)) => Ok(()),
    }
}

/// The answer to a bucket write or delete: its error as a bucket error.
pub fn write_outcome<T>(result: Result<T, BucketError>) -> (r: Result<(), ServiceError>)
    ensures
        match result {
            Err(e) => r matches Err(ServiceError::Bucket(f)) && f == e,
            Ok(_) => r is Ok,
        },
{
    match result {
        Err(e) => Err(ServiceError::Bucket(e)),
        Ok(_) => Ok(()),
    }
}

/// A new note: a fresh time-ordered identifier and the bucket write that
/// stores the note under it.
pub fn create_request(note: Note) -> (r: (NoteId, PutRequest))
    ensures
        uuid_version(r.0.0) == 7,
        uuid_variant(r.0.0) == 2,
        r.1.key@ == uuid_hyphenated(r.0.0),
        r.1.data@ == encode_utf8(stored_content(note_view(note).1)),
        r.1.custom_metadata@ == metadata_of(r.0.0, note.title@),
        put_write(r.1) == note_put(r.0.0, note.title@, note_view(note).1),
        note.content matches Some(c) ==> r.1.data@ == encode_utf8(c@),
        note.content is None ==> r.1.data@ == Seq::<u8>::empty(),
{
    let id = NoteId::now_v7();
    let request = put_request(id, note);
    (id, request)
}

} // verus!

verus! {

/// A write to the bucket: an object stored under a key with a body and
/// metadata, or a key deleted.
pub enum BucketWrite {
    Put(Seq<char>, Seq<u8>, Map<Seq<char>, Seq<char>>),
    Delete(Seq<char>),
}

/// The key a write is to.
pub open spec fn write_key(w: BucketWrite) -> Seq<char> {
    match w {
        BucketWrite::Put(k, _, _) => k,
        BucketWrite::Delete(k) => k,
    }
}

/// The bucket after one write: each key's body and metadata.
pub open spec fn bucket_apply(
    b: Map<Seq<char>, (Seq<u8>, Map<Seq<char>, Seq<char>>)>,
    w: BucketWrite,
) -> Map<Seq<char>, (Seq<u8>, Map<Seq<char>, Seq<char>>)> {
    match w {
        BucketWrite::Put(k, data, metadata) => b.insert(k, (data, metadata)),
        BucketWrite::Delete(k) => b.remove(k),
    }
}

/// The bucket after the writes `ws`, in order, starting from `b`.
pub open spec fn bucket_after(
    b: Map<Seq<char>, (Seq<u8>, Map<Seq<char>, Seq<char>>)>,
    ws: Seq<BucketWrite>,
) -> Map<Seq<char>, (Seq<u8>, Map<Seq<char>, Seq<char>>)>
    decreases ws.len(),
{
    if ws.len() == 0 {
        b
    } else {
        bucket_apply(bucket_after(b, ws.drop_last()), ws.last())
    }
}

/// The last of the writes `ws` to the key `k`, if any.
pub open spec fn last_write(ws: Seq<BucketWrite>, k: Seq<char>) -> Option<BucketWrite>
    decreases ws.len(),
{
    if ws.len() == 0 {
        None
    } else if write_key(ws.last()) == k {
        Some(ws.last())
    } else {
        last_write(ws.drop_last(), k)
    }
}

/// The write that stores a note: `put_request`'s key, body and metadata.
pub open spec fn note_put(id: u128, title: Seq<char>, content: Option<Seq<char>>) -> BucketWrite {
    BucketWrite::Put(uuid_hyphenated(id), encode_utf8(stored_content(content)), metadata_of(id, title))
}

/// The write that deletes a note: its key removed.
pub open spec fn note_delete(id: u128) -> BucketWrite {
    BucketWrite::Delete(uuid_hyphenated(id))
}

/// The write a put request makes.
pub open spec fn put_write(r: PutRequest) -> BucketWrite {
    BucketWrite::Put(r.key@, r.data@, r.custom_metadata@)
}

/// `w` is a write of the note service: a note stored or deleted.
pub open spec fn service_write(w: BucketWrite) -> bool {
    (exists|id: u128, title: Seq<char>, content: Option<Seq<char>>| w == #[trigger] note_put(id, title, content))
        || (exists|id: u128| w == #[trigger] note_delete(id))
}

/// Every object of the bucket is as the note service writes it: keyed by
/// a note id's text, with that id and a title as metadata.
pub open spec fn service_bucket(b: Map<Seq<char>, (Seq<u8>, Map<Seq<char>, Seq<char>>)>) -> bool {
    forall|k: Seq<char>| #[trigger] b.contains_key(k) ==> exists|id: u128, title: Seq<char>|
        k == uuid_hyphenated(id) && b[k].1 == #[trigger] metadata_of(id, title)
}

/// `objects` is a listing of all of the bucket `b`: each key once, with
/// its metadata.
pub open spec fn lists_bucket(
    b: Map<Seq<char>, (Seq<u8>, Map<Seq<char>, Seq<char>>)>,
    objects: Seq<BucketObject>,
) -> bool {
    &&& distinct_keys(objects)
    &&& forall|i: int| 0 <= i < objects.len() ==> b.contains_key((#[trigger] objects[i]).key@)
        && metadata_view(objects[i].custom_metadata) == Some(b[objects[i].key@].1)
    &&& forall|k: Seq<char>| #[trigger] b.contains_key(k) ==> exists|i: int| 0 <= i < objects.len() && (#[trigger] objects[i]).key@ == k
}

/// The last write to a key decides what the bucket holds there: what it
/// stored, nothing after a delete, and what was there before when no write
/// was to that key.
pub proof fn lemma_last_write_decides(
    b: Map<Seq<char>, (Seq<u8>, Map<Seq<char>, Seq<char>>)>,
    ws: Seq<BucketWrite>,
    k: Seq<char>,
)
    ensures
        match last_write(ws, k) {
            Some(BucketWrite::Put(_, data, metadata)) => bucket_after(b, ws).contains_key(k)
                && bucket_after(b, ws)[k] == (data, metadata),
            Some(BucketWrite::Delete(_)) => !bucket_after(b, ws).contains_key(k),
            None => bucket_after(b, ws).contains_key(k) == b.contains_key(k)
                && (b.contains_key(k) ==> bucket_after(b, ws)[k] == b[k]),
        },
        last_write(ws, k) matches Some(w) ==> write_key(w) == k,
    decreases ws.len(),
{
    if ws.len() > 0 {
        lemma_last_write_decides(b, ws.drop_last(), k);
    }
}

/// The note service's writes keep every object of the bucket as the
/// service writes it.
pub proof fn lemma_service_writes_keep_bucket(
    b: Map<Seq<char>, (Seq<u8>, Map<Seq<char>, Seq<char>>)>,
    ws: Seq<BucketWrite>,
)
    requires
        service_bucket(b),
        forall|i: int| 0 <= i < ws.len() ==> service_write(#[trigger] ws[i]),
    ensures
        service_bucket(bucket_after(b, ws)),
    decreases ws.len(),
{
    if ws.len() > 0 {
        let rest = ws.drop_last();
        assert forall|i: int| 0 <= i < rest.len() implies service_write(#[trigger] rest[i]) by {
            assert(rest[i] == ws[i]);
        }
        lemma_service_writes_keep_bucket(b, rest);
        let before = bucket_after(b, rest);
        let after = bucket_after(b, ws);
        assert(service_write(ws[ws.len() - 1]));
        assert forall|k: Seq<char>| #[trigger] after.contains_key(k) implies exists|id: u128, title: Seq<char>|
            k == uuid_hyphenated(id) && after[k].1 == #[trigger] metadata_of(id, title) by {
            if exists|id: u128, title: Seq<char>, content: Option<Seq<char>>| ws.last() == #[trigger] note_put(id, title, content) {
                let (id, title, content) = choose|id: u128, title: Seq<char>, content: Option<Seq<char>>|
                    ws.last() == #[trigger] note_put(id, title, content);
                if k == uuid_hyphenated(id) {
                    assert(after[k].1 == metadata_of(id, title));
                } else {
                    assert(before.contains_key(k));
                }
            } else {
                assert(before.contains_key(k));
            }
        }
    }
}

/// Deleting a note is idempotent: a second delete changes nothing; after
/// it the note's key is gone, so a lookup finds nothing (`NotFound`), and
/// every other key is as it was.
pub proof fn lemma_delete_idempotent(b: Map<Seq<char>, (Seq<u8>, Map<Seq<char>, Seq<char>>)>, id: u128)
    ensures
        bucket_after(b, seq![note_delete(id), note_delete(id)]) == bucket_after(b, seq![note_delete(id)]),
        !bucket_after(b, seq![note_delete(id)]).contains_key(uuid_hyphenated(id)),
        bucket_after(b, seq![note_delete(id)]) == b.remove(uuid_hyphenated(id)),
{
    let once = seq![note_delete(id)];
    let twice = seq![note_delete(id), note_delete(id)];
    assert(once.drop_last() =~= Seq::<BucketWrite>::empty());
    assert(twice.drop_last() =~= once);
    assert(bucket_after(b, once.drop_last()) == b);
    assert(once.last() == note_delete(id));
    assert(bucket_after(b, once) == b.remove(uuid_hyphenated(id)));
    assert(bucket_after(b, twice) =~= b.remove(uuid_hyphenated(id)).remove(uuid_hyphenated(id)));
    assert(b.remove(uuid_hyphenated(id)).remove(uuid_hyphenated(id)) =~= b.remove(uuid_hyphenated(id)));
}

/// What a lookup of a note finds after a series of writes: when the last
/// write to its key stored it, the stored object reads back as that note;
/// when the last write deleted it, nothing is there (`NotFound`).
pub proof fn lemma_note_after_writes(
    b: Map<Seq<char>, (Seq<u8>, Map<Seq<char>, Seq<char>>)>,
    ws: Seq<BucketWrite>,
    id: u128,
    title: Seq<char>,
    content: Option<Seq<char>>,
)
    ensures
        last_write(ws, uuid_hyphenated(id)) == Some(note_put(id, title, content)) ==> (bucket_after(b, ws).contains_key(
            uuid_hyphenated(id),
        ) && read_note(
            Some(bucket_after(b, ws)[uuid_hyphenated(id)].0),
            Some(bucket_after(b, ws)[uuid_hyphenated(id)].1),
        ) == Ok::<(Seq<char>, Option<Seq<char>>), ServiceError>((title, Some(stored_content(content))))),
        last_write(ws, uuid_hyphenated(id)) == Some(note_delete(id)) ==> !bucket_after(b, ws).contains_key(
            uuid_hyphenated(id),
        ),
{
    lemma_last_write_decides(b, ws, uuid_hyphenated(id));
    lemma_stored_note_reads_back(id, title, content);
}

/// What the listing answers after a series of the service's writes to a
/// bucket of the service's objects, when the bucket listing gives all of
/// it: a note whose last write stored it is listed exactly once, with the
/// title written last; a note whose last write deleted it is not listed.
pub proof fn lemma_listing_after_writes(
    b: Map<Seq<char>, (Seq<u8>, Map<Seq<char>, Seq<char>>)>,
    ws: Seq<BucketWrite>,
    objects: Seq<BucketObject>,
    v: Seq<NoteMetadata>,
    id: u128,
    title: Seq<char>,
    content: Option<Seq<char>>,
)
    requires
        service_bucket(b),
        forall|i: int| 0 <= i < ws.len() ==> service_write(#[trigger] ws[i]),
        lists_bucket(bucket_after(b, ws), objects),
        listing_answer(objects, v),
    ensures
        last_write(ws, uuid_hyphenated(id)) == Some(note_put(id, title, content)) ==> exists|i: int|
            0 <= i < v.len() && (#[trigger] v[i]).id.0 == id && v[i].title@ == title && forall|i2: int|
                0 <= i2 < v.len() && (#[trigger] v[i2]).id.0 == id ==> i2 == i,
        last_write(ws, uuid_hyphenated(id)) == Some(note_delete(id)) ==> forall|i: int|
            0 <= i < v.len() ==> (#[trigger] v[i]).id.0 != id,
{
    let after = bucket_after(b, ws);
    let k = uuid_hyphenated(id);
    lemma_last_write_decides(b, ws, k);
    lemma_service_writes_keep_bucket(b, ws);
    assert forall|j: int| 0 <= j < objects.len() implies service_object(#[trigger] objects[j]) by {
        let key = objects[j].key@;
        assert(after.contains_key(key));
        let (id0, t0) = choose|id0: u128, t0: Seq<char>| key == uuid_hyphenated(id0) && after[key].1 == #[trigger] metadata_of(id0, t0);
        assert(metadata_view(objects[j].custom_metadata) == Some(metadata_of(id0, t0)));
    }
    if last_write(ws, k) == Some(note_put(id, title, content)) {
        assert(after.contains_key(k));
        let j = choose|j: int| 0 <= j < objects.len() && (#[trigger] objects[j]).key@ == k;
        assert(metadata_view(objects[j].custom_metadata) == Some(metadata_of(id, title)));
        let m = v.map_values(|n: NoteMetadata| metadata_entry(n));
        assert(m.contains((id, title)));
        let i = choose|i: int| 0 <= i < m.len() && m[i] == (id, title);
        assert(v[i].id.0 == id && v[i].title@ == title);
        assert forall|i2: int| 0 <= i2 < v.len() && (#[trigger] v[i2]).id.0 == id implies i2 == i by {
            assert(v[i2].id == v[i].id);
        }
    }
    if last_write(ws, k) == Some(note_delete(id)) {
        assert forall|i: int| 0 <= i < v.len() implies (#[trigger] v[i]).id.0 != id by {
            if v[i].id.0 == id {
                assert(stored_in(objects, v[i]));
                let j = choose|j: int| 0 <= j < objects.len() && (#[trigger] objects[j]).key@ == uuid_hyphenated(v[i].id.0)
                    && metadata_view(objects[j].custom_metadata) == Some(metadata_of(v[i].id.0, v[i].title@));
                assert(after.contains_key(objects[j].key@));
            }
        }
    }
}

} // verus!
