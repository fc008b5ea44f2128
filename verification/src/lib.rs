//! Duplicate-asset detection by filename identifier.
//!
//! A filename that starts with the literal prefix `shutterstock_` followed by
//! one or more decimal digits carries an identifier: that digit run, compared
//! as text. A master directory tree defines the set of known identifiers; a
//! file in an input tree whose identifier is already known is a duplicate.
//! This crate holds the extraction rule, the two-pass detection algorithm and
//! the reporting policy; directory traversal and file I/O stay with the
//! caller, which hands in plain path and filename strings.

pub mod extract;
pub mod report;
pub mod scan;
