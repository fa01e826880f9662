//! Text buffer and cursor navigation for a terminal text editor.
//!
//! A document is a rope of Unicode scalar values, cut into lines by `\n`. A
//! cursor is an index into it, moved by character, line, word or to the ends
//! of a line or of the document, with or without going round the ends.
//!
//! Every contract is stated over the view of a document, a `Seq<char>`:
//!
//! - [`text`] is the line model, and [`encoding`] the byte offsets of
//!   characters;
//! - [`position`] says where an index lies, [`document`] holds the text,
//!   [`cursor`] moves through it and [`editor`] keeps the two together;
//! - [`steps`] is the arithmetic of stepping along a range;
//! - [`rope`], [`words`] and [`strings`] state what is taken on trust from
//!   the rope, from word segmentation and from the standard library;
//! - [`actions`], [`keys`], [`application`] and [`screen`] serve a terminal
//!   front end.

pub mod actions;
pub mod application;
pub mod cursor;
pub mod document;
pub mod editor;
pub mod encoding;
pub mod keys;
pub mod position;
pub mod rope;
pub mod screen;
pub mod steps;
pub mod strings;
pub mod text;
pub mod words;
