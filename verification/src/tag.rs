//! Metadata fields ("tags") of one audio file.

pub mod container;
pub mod content;
pub mod entry;
pub mod fields;
pub mod mapping;
pub mod numbers;
mod private;
pub mod tag_read;
pub mod tag_set;

pub use content::{Content, Fields, RawValue, TagId, TagKind, Timestamp};
pub use fields::{
    Album, AlbumArtist, Artist, ComposerSortOrder, ContentGroup, DiscNumber, EncodedCoverArt,
    OriginalAlbumTitle, OriginalArtist, OriginalLyricist, ReleaseDate, SetSubtitle, ShowName,
    ShowNameSortOrder, Title, TrackArtistSortOrder, TrackNumber, TrackSubtitle,
    TrackTitleSortOrder,
};
pub use container::{ParsingMode, ProbeSettings};
pub use entry::{EntryKey, FieldKey, RawEntry};
pub use numbers::{parse_date, parse_number};
pub use mapping::{absorb, store_entries};
pub use tag_read::{decode_settings, decode_tags, read_entries, DecodeError, MAX_JUNK_BYTES};
pub use tag_set::{Tag, TagSet, TagValue, UnknownItem};
