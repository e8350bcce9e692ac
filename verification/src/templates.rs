//! What the note pages show: the values handed to the page templates.

use vstd::prelude::*;
use crate::text::{decimal, push_decimal};

verus! {

/// One entry of the note list page: its position as text, and its content.
pub struct ListedNote {
    pub name: String,
    pub content: String,
}

/// The base page of the notes site: it shows no values.
pub struct BasePage;

/// The page for writing a new note: it shows no values.
pub struct NewPage;

/// The values of the note edit page.
pub struct EditPage {
    pub id: u32,
    pub content: String,
}

/// The entries of the note list page: each content, named by its position.
pub fn list(notes: Vec<String>) -> (r: Vec<ListedNote>)
    ensures
        r@.len() == notes@.len(),
        forall|i: int| 0 <= i < r@.len() ==> (#[trigger] r@[i]).name@ == decimal(i as nat) && r@[i].content
            == notes@[i],
{
    let mut r: Vec<ListedNote> = Vec::new();
    let mut i: usize = 0;
    while i < notes.len()
        invariant
            i <= notes@.len(),
            r@.len() == i,
            forall|j: int| 0 <= j < i ==> (#[trigger] r@[j]).name@ == decimal(j as nat) && r@[j].content
                == notes@[j],
        decreases notes@.len() - i,
    {
        let mut name = String::new();
        push_decimal(&mut name, i as u64);
        assert(name@ =~= decimal(i as nat));
        r.push(ListedNote { name, content: notes[i].clone() });
        i = i + 1;
    }
    r
}

/// The base page of the notes site.
pub fn root() -> (r: BasePage) {
    BasePage
}

/// The page for writing a new note.
pub fn new() -> (r: NewPage) {
    NewPage
}

/// The values of the edit page for note `id`.
pub fn edit(id: u32, content: &str) -> (r: EditPage)
    ensures
        r.id == id,
        r.content@ == content@,
{
    EditPage { id, content: String::from_str(content) }
}

} // verus!
