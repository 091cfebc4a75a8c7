//! The scan of a directory tree: which entries become items, how deep the
//! walk goes, and what is decoded. The scan only decides; listing the
//! directories and reading the files is for the caller, who hands each
//! finding over as an event and does what the scan answers.

pub mod extension;
pub mod scanner;
pub mod tree;

pub use extension::{check_extension_for_sound_decoder, check_extension_for_tag_decoder};
pub use scanner::{
    Classification, DirEntry, EntryKind, Item, ScanAction, ScanEvent, Scanner, DEPTH_LIMIT,
};
