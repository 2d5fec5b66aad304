//! Note-taking helper for a Zettelkasten: locating the templates directory,
//! naming notes, filling templates and planning the directory layout.
//!
//! Everything here is pure: the filesystem and the clock are consulted by the
//! caller, which hands the results in as plain values.

pub mod text;
pub mod templates;
pub mod clock;
pub mod notes;
pub mod fill_laws;
