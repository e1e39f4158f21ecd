//! A small local credential vault: it generates random secret strings and
//! keeps credential records in a single file-backed store whose text the
//! caller reads and writes. Loading, appending, deleting and the stored
//! text format itself are verified; the format's round-trip theorem and
//! the store's other laws are proved in `laws`.

pub mod format;
pub mod genr;
pub mod laws;
pub mod parse;
pub mod records;
pub mod ser;
pub mod store;
