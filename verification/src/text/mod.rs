//! Sequences, numerals and words: what the rest of the library reads and writes as text.
pub mod numerals;
pub mod scan;
pub mod unicode;
pub mod words;
