//! Decoder for the item-definition database of a game: a six-byte header
//! followed by fixed-layout records, all integers little-endian.
//!
//! `document::decode` turns the bytes of a file into an `ItemDataFile` or
//! into the first `Failure`. Below it, `record` reads one item by walking
//! the table in `plan`, and `reader` holds the reads that the table is made
//! of. `cipher` undoes the light obfuscation of item names, `text` checks
//! plain text fields, and `endian` reads integers with `byteorder`.

pub mod cipher;
pub mod document;
pub mod endian;
pub mod error;
pub mod item;
pub mod plan;
pub mod reader;
pub mod record;
pub mod text;
