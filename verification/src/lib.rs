//! An index of a music library: a store of typed metadata fields per file,
//! the decoder that fills it, the limiter that bounds concurrent
//! decodes, and the directory scan that ties them together.

pub mod grid;
pub mod limiter;
pub mod scan;
pub mod tag;
