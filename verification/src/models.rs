//! The data exchanged between the notes API, its client and its storage.

pub mod login;
pub mod notes;
