//! The notes API as its client addresses it.

use vstd::prelude::*;
use crate::ids::{NoteId, uuid_hyphenated};

verus! {

/// The path of one note, relative to the API base: `notes/<id>`.
pub fn note_path(id: NoteId) -> (r: String)
    ensures
        r@ == "notes/"@ + uuid_hyphenated(id.0),
{
    let mut r = String::from_str("notes/");
    let t = id.to_string();
    r.append(t.as_str());
    r
}

} // verus!
