//! Hexdump formatting of byte sequences.
//!
//! Each line of a dump shows an offset, the bytes of the line grouped and written as numerals
//! in a chosen base and endianness, and an ASCII panel. Runs of identical lines can be collapsed
//! into a single `*` line.
//!
//! - `builder` and `config`: the settings of a dump;
//! - `render`: numerals, zero padding and the ASCII panel of byte groups;
//! - `detect`: splitting bytes into lines and collapsing runs of duplicate lines;
//! - `iter` and `hexdump`: the line renderer, iterators over lines, and dumpers;
//! - `defaults`: a default configuration held and replaced explicitly;
//! - `template`: dumps whose line layout is a template such as
//!   `"#[OFFSET]: #[RAW] | #[ASCII]"`, re-exported at the crate root;
//! - `laws`: proved properties of dumps.

pub mod builder;
pub mod config;
pub mod defaults;
pub mod detect;
pub mod hexdump;
pub mod iter;
pub mod laws;
pub mod render;
pub mod template;

pub use template::{
    hexdump, hexdump_offset, Base, Endianess, FormatType, Rhexdump, RhexdumpError, RhexdumpFileIter,
    RhexdumpIter,
};
