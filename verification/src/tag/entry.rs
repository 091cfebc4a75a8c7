use super::content::{Content, RawValue};
use vstd::prelude::*;

verus! {

/// The container keys that stand for a known field.
#[derive(Clone, Copy, Debug, PartialEq, Eq, Structural)]
pub enum FieldKey {
    TrackTitle,
    AlbumTitle,
    SetSubtitle,
    TrackSubtitle,
    OriginalAlbumTitle,
    ShowName,
    ContentGroup,
    TrackArtist,
    AlbumArtist,
    OriginalArtist,
    OriginalLyricist,
    AlbumArtistSortOrder,
    TrackTitleSortOrder,
    TrackArtistSortOrder,
    ShowNameSortOrder,
    ComposerSortOrder,
    TrackNumber,
    DiscNumber,
    ReleaseDate,
}

/// The groups in which the keys are told apart.
#[derive(Clone, Copy, Debug, PartialEq, Eq, Structural)]
pub enum KeyFamily {
    Titles,
    People,
    SortOrders,
    Counts,
}

impl FieldKey {
    pub open spec fn family(self) -> KeyFamily {
        match self {
            FieldKey::TrackTitle
            | FieldKey::AlbumTitle
            | FieldKey::SetSubtitle
            | FieldKey::TrackSubtitle
            | FieldKey::OriginalAlbumTitle
            | FieldKey::ShowName
            | FieldKey::ContentGroup => KeyFamily::Titles,
            FieldKey::TrackArtist
            | FieldKey::AlbumArtist
            | FieldKey::OriginalArtist
            | FieldKey::OriginalLyricist => KeyFamily::People,
            FieldKey::AlbumArtistSortOrder
            | FieldKey::TrackTitleSortOrder
            | FieldKey::TrackArtistSortOrder
            | FieldKey::ShowNameSortOrder
            | FieldKey::ComposerSortOrder => KeyFamily::SortOrders,
            FieldKey::TrackNumber
            | FieldKey::DiscNumber
            | FieldKey::ReleaseDate => KeyFamily::Counts,
        }
    }
}

/// `field` where it belongs to `family`, nothing where it does not.
pub open spec fn within(family: KeyFamily, field: Option<FieldKey>) -> Option<FieldKey> {
    match field {
        Some(key) if key.family() == family => Some(key),
        _ => None,
    }
}

/// What a raw entry is keyed by.
#[derive(Clone, Copy, Debug, PartialEq, Eq, Structural)]
pub enum EntryKey {
    /// A key that stands for a known field.
    Field(FieldKey),
    /// An embedded picture.
    Picture,
    /// Any other key.
    Other,
}

/// One (key, value) pair as it was read from a file's metadata container.
#[derive(Clone, Debug, PartialEq, Eq)]
pub struct RawEntry {
    pub key: EntryKey,
    /// The identifier that the container itself gives the entry.
    pub native: Option<String>,
    pub value: RawValue,
}

/// A raw entry as a mathematical value.
pub struct EntryView {
    pub key: EntryKey,
    pub native: Option<Seq<char>>,
    pub value: Content,
}

impl View for RawEntry {
    type V = EntryView;

    open spec fn view(&self) -> EntryView {
        EntryView {
            key: self.key,
            native: match self.native {
                Some(s) => Some(s@),
                None => None,
            },
            value: self.value@,
        }
    }
}

/// The views of a list of entries, in order.
pub open spec fn entry_views(entries: Seq<RawEntry>) -> Seq<EntryView> {
    entries.map_values(|e: RawEntry| e@)
}

} // verus!
