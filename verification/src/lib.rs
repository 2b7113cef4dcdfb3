//! Frontmatter for Markdown documents: a block of metadata at the head of a
//! text, with the title of the document and the days of its creation and of
//! its last modification.
//!
//! - [`text`] divides a text into lines and joins lines to a text.
//! - [`date`] holds calendar days, their ISO 8601 form, and the day of an
//!   instant in UTC.
//! - [`frontmatter`] finds, takes away, derives and adds frontmatter.
//! - [`document`] decides what becomes of one document.
//! - [`walker`] decides what a walk through a directory does with an entry.
//! - [`theorems`] proves what holds of these for every text.

pub mod date;
pub mod document;
pub mod frontmatter;
pub mod text;
pub mod theorems;
pub mod walker;
