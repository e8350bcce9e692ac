//! Notes and the metadata that a bucket object carries for each of them.

use vstd::prelude::*;
use crate::ids::{NoteId, uuid_hyphenated, uuid_try_parse};
use crate::metadata::Metadata;

verus! {

/// A note: a title and an optional text content.
pub struct Note {
    pub title: String,
    pub content: Option<String>,
}

/// What a note listing shows of a note.
pub struct NoteMetadata {
    pub id: NoteId,
    pub title: String,
}

/// Why stored metadata could not be read as note metadata.
#[derive(Clone, Copy, PartialEq, Eq, Structural, Debug)]
pub enum MetadataError {
    /// No `id` entry.
    MissingId,
    /// The `id` entry is not a UUID.
    InvalidId,
    /// No `title` entry.
    MissingTitle,
}

impl MetadataError {
    /// The error's message text.
    pub fn message(&self) -> (m: &'static str)
        ensures
            m@ == self.spec_message(),
    {
        match self {
            MetadataError::MissingId => {
                proof { reveal_strlit("missing metadata id"); }
                "missing metadata id"
            },
            MetadataError::InvalidId => {
                proof { reveal_strlit("could not parse uuid"); }
                "could not parse uuid"
            },
            MetadataError::MissingTitle => {
                proof { reveal_strlit("missing title metadata"); }
                "missing title metadata"
            },
        }
    }

    /// The error's message text.
    pub open spec fn spec_message(&self) -> Seq<char> {
        match self {
            MetadataError::MissingId => seq!['m', 'i', 's', 's', 'i', 'n', 'g', ' ', 'm', 'e', 't', 'a', 'd', 'a', 't', 'a', ' ', 'i', 'd'],
            MetadataError::InvalidId => seq!['c', 'o', 'u', 'l', 'd', ' ', 'n', 'o', 't', ' ', 'p', 'a', 'r', 's', 'e', ' ', 'u', 'u', 'i', 'd'],
            MetadataError::MissingTitle => seq!['m', 'i', 's', 's', 'i', 'n', 'g', ' ', 't', 'i', 't', 'l', 'e', ' ', 'm', 'e', 't', 'a', 'd', 'a', 't', 'a'],
        }
    }
}

/// The metadata name of the identifier entry.
pub open spec fn id_key() -> Seq<char> {
    seq!['i', 'd']
}

/// The metadata name of the title entry.
pub open spec fn title_key() -> Seq<char> {
    seq!['t', 'i', 't', 'l', 'e']
}

/// The metadata stored for a note with this identifier and title.
pub open spec fn metadata_of(id: u128, title: Seq<char>) -> Map<Seq<char>, Seq<char>> {
    Map::<Seq<char>, Seq<char>>::empty().insert(id_key(), uuid_hyphenated(id)).insert(title_key(), title)
}

/// How stored metadata reads as note metadata: the identifier and title, or
/// the first thing missing or malformed, in the order `id`, its parse, `title`.
pub open spec fn read_metadata(m: Map<Seq<char>, Seq<char>>) -> Result<(u128, Seq<char>), MetadataError> {
    if !m.contains_key(id_key()) {
        Err(MetadataError::MissingId)
    } else if uuid_try_parse(m[id_key()]) is None {
        Err(MetadataError::InvalidId)
    } else if !m.contains_key(title_key()) {
        Err(MetadataError::MissingTitle)
    } else {
        Ok((uuid_try_parse(m[id_key()])->0, m[title_key()]))
    }
}

impl NoteMetadata {
    pub fn new(id: NoteId, title: String) -> (r: NoteMetadata)
        ensures
            r.id == id,
            r.title == title,
    {
        NoteMetadata { id, title }
    }

    /// The bucket metadata for this note: `id` holds the identifier's text and
    /// `title` the title.
    pub fn into_metadata(self) -> (m: Metadata)
        ensures
            m@ == metadata_of(self.id.0, self.title@),
    {
        let mut m = Metadata::new();
        proof {
            reveal_strlit("id");
            reveal_strlit("title");
            assert("id"@ =~= id_key());
            assert("title"@ =~= title_key());
        }
        m.insert(String::from_str("id"), self.id.to_string());
        m.insert(String::from_str("title"), self.title);
        assert(m@ =~= metadata_of(self.id.0, self.title@));
        m
    }

    /// Reads note metadata back from bucket metadata. Metadata written by
    /// `into_metadata` always reads back as the note metadata it was written
    /// from.
    pub fn try_from_metadata(metadata: &Metadata) -> (r: Result<NoteMetadata, MetadataError>)
        ensures
            match r {
                Ok(n) => read_metadata(metadata@) == Ok::<(u128, Seq<char>), MetadataError>((n.id.0, n.title@)),
                Err(e) => read_metadata(metadata@) == Err::<(u128, Seq<char>), MetadataError>(e),
            },
            forall|id: u128, title: Seq<char>| metadata@ == metadata_of(id, title) ==>
                (r matches Ok(n) && n.id.0 == id && n.title@ == title),
    {
        proof {
            reveal_strlit("id");
            reveal_strlit("title");
            assert("id"@ =~= id_key());
            assert("title"@ =~= title_key());
        }
        let id_text = match metadata.get("id") {
            Some(t) => t,
            None => return Err(MetadataError::MissingId),
        };
        let id = match NoteId::try_parse(id_text.as_str()) {
            Some(id) => id,
            None => return Err(MetadataError::InvalidId),
        };
        let title = match metadata.get("title") {
            Some(t) => t.clone(),
            None => return Err(MetadataError::MissingTitle),
        };
        proof {
            assert forall|i: u128, t: Seq<char>| metadata@ == metadata_of(i, t) implies
                id.0 == i && title@ == t by {
                assert(metadata@[id_key()] == uuid_hyphenated(i));
            }
        }
        Ok(NoteMetadata::new(id, title))
    }
}

} // verus!
