//! A catalogue of personal media references: images, videos, audio
//! recordings, notes, links and documents, each a folder with its files and
//! a JSON sidecar that describes it.
//!
//! - `state`: the reference records, their metadata and the edits on it;
//! - `sidecar`: the sidecar documents, one schema for each kind;
//! - `parser`: from the files of a folder to its reference;
//! - `catalog`: the references of a collection root and the edits on them;
//! - `commands`: what enters a new reference into a catalogue;
//! - `media`: media types, pixel dimensions, derivatives, dominant colours;
//! - `utils`: sizes, asset links, the load of a collection root;
//! - `json`: JSON documents and the calls into `serde_json`;
//! - `text`: string operations.

pub mod catalog;
pub mod commands;
pub mod json;
pub mod media;
pub mod parser;
pub mod sidecar;
pub mod state;
pub mod text;
pub mod utils;
