//! Verified core of a small notes cloud: note identifiers and metadata,
//! token claims, request authentication decisions and the note service rules.

pub mod text;
pub mod ids;
pub mod json;
pub mod metadata;
pub mod models;
pub mod bindings;
pub mod services;
pub mod jwt;
pub mod auth;
pub mod templates;
pub mod client;
