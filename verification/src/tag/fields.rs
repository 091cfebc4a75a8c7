use super::content::{strings, Content, TagKind, Timestamp};
use super::private::Sealed;
use super::tag_set::{Tag, TagValue};
use vstd::prelude::*;

verus! {

/// The title of the track.
#[derive(Debug, Clone, PartialEq, Eq)]
pub struct Title(pub String);

impl View for Title {
    type V = Content;

    open spec fn view(&self) -> Content {
        Content::Text(self.0@)
    }
}

impl Sealed for Title {

}

impl Tag for Title {
    open spec fn kind() -> TagKind {
        TagKind::Title
    }

    open spec fn label() -> Option<Seq<char>> {
        Some("Title"@)
    }

    fn kind_of() -> TagKind {
        TagKind::Title
    }

    fn into_value(self) -> TagValue {
        TagValue::Title(self)
    }

    fn from_value(v: TagValue) -> Result<Self, TagValue> {
        match v {
            TagValue::Title(tag) => Ok(tag),
            other => Err(other),
        }
    }

    fn from_value_ref(v: &TagValue) -> Option<&Self> {
        match v {
            TagValue::Title(tag) => Some(tag),
            _ => None,
        }
    }

    fn display_name(&self) -> Option<&str> {
        Some("Title")
    }
}

/// The artist of the track.
#[derive(Debug, Clone, PartialEq, Eq)]
pub struct Artist(pub String);

impl View for Artist {
    type V = Content;

    open spec fn view(&self) -> Content {
        Content::Text(self.0@)
    }
}

impl Sealed for Artist {

}

impl Tag for Artist {
    open spec fn kind() -> TagKind {
        TagKind::Artist
    }

    open spec fn label() -> Option<Seq<char>> {
        Some("Artist"@)
    }

    fn kind_of() -> TagKind {
        TagKind::Artist
    }

    fn into_value(self) -> TagValue {
        TagValue::Artist(self)
    }

    fn from_value(v: TagValue) -> Result<Self, TagValue> {
        match v {
            TagValue::Artist(tag) => Ok(tag),
            other => Err(other),
        }
    }

    fn from_value_ref(v: &TagValue) -> Option<&Self> {
        match v {
            TagValue::Artist(tag) => Some(tag),
            _ => None,
        }
    }

    fn display_name(&self) -> Option<&str> {
        Some("Artist")
    }
}

/// The title of the album.
#[derive(Debug, Clone, PartialEq, Eq)]
pub struct Album(pub String);

impl View for Album {
    type V = Content;

    open spec fn view(&self) -> Content {
        Content::Text(self.0@)
    }
}

impl Sealed for Album {

}

impl Tag for Album {
    open spec fn kind() -> TagKind {
        TagKind::Album
    }

    open spec fn label() -> Option<Seq<char>> {
        Some("Album"@)
    }

    fn kind_of() -> TagKind {
        TagKind::Album
    }

    fn into_value(self) -> TagValue {
        TagValue::Album(self)
    }

    fn from_value(v: TagValue) -> Result<Self, TagValue> {
        match v {
            TagValue::Album(tag) => Ok(tag),
            other => Err(other),
        }
    }

    fn from_value_ref(v: &TagValue) -> Option<&Self> {
        match v {
            TagValue::Album(tag) => Some(tag),
            _ => None,
        }
    }

    fn display_name(&self) -> Option<&str> {
        Some("Album")
    }
}

/// The cover picture, still encoded as the file carries it.
#[derive(Debug, Clone, PartialEq, Eq)]
pub struct EncodedCoverArt(pub Vec<u8>);

impl View for EncodedCoverArt {
    type V = Content;

    open spec fn view(&self) -> Content {
        Content::Binary(self.0@)
    }
}

impl Sealed for EncodedCoverArt {

}

impl Tag for EncodedCoverArt {
    open spec fn kind() -> TagKind {
        TagKind::EncodedCoverArt
    }

    open spec fn label() -> Option<Seq<char>> {
        Some("Cover Art"@)
    }

    fn kind_of() -> TagKind {
        TagKind::EncodedCoverArt
    }

    fn into_value(self) -> TagValue {
        TagValue::EncodedCoverArt(self)
    }

    fn from_value(v: TagValue) -> Result<Self, TagValue> {
        match v {
            TagValue::EncodedCoverArt(tag) => Ok(tag),
            other => Err(other),
        }
    }

    fn from_value_ref(v: &TagValue) -> Option<&Self> {
        match v {
            TagValue::EncodedCoverArt(tag) => Some(tag),
            _ => None,
        }
    }

    fn display_name(&self) -> Option<&str> {
        Some("Cover Art")
    }
}

/// The subtitle of the set the album belongs to.
#[derive(Debug, Clone, PartialEq, Eq)]
pub struct SetSubtitle(pub String);

impl View for SetSubtitle {
    type V = Content;

    open spec fn view(&self) -> Content {
        Content::Text(self.0@)
    }
}

impl Sealed for SetSubtitle {

}

impl Tag for SetSubtitle {
    open spec fn kind() -> TagKind {
        TagKind::SetSubtitle
    }

    open spec fn label() -> Option<Seq<char>> {
        Some("Album Subtitle"@)
    }

    fn kind_of() -> TagKind {
        TagKind::SetSubtitle
    }

    fn into_value(self) -> TagValue {
        TagValue::SetSubtitle(self)
    }

    fn from_value(v: TagValue) -> Result<Self, TagValue> {
        match v {
            TagValue::SetSubtitle(tag) => Ok(tag),
            other => Err(other),
        }
    }

    fn from_value_ref(v: &TagValue) -> Option<&Self> {
        match v {
            TagValue::SetSubtitle(tag) => Some(tag),
            _ => None,
        }
    }

    fn display_name(&self) -> Option<&str> {
        Some("Album Subtitle")
    }
}

/// The subtitle of the track.
#[derive(Debug, Clone, PartialEq, Eq)]
pub struct TrackSubtitle(pub String);

impl View for TrackSubtitle {
    type V = Content;

    open spec fn view(&self) -> Content {
        Content::Text(self.0@)
    }
}

impl Sealed for TrackSubtitle {

}

impl Tag for TrackSubtitle {
    open spec fn kind() -> TagKind {
        TagKind::TrackSubtitle
    }

    open spec fn label() -> Option<Seq<char>> {
        Some("Track Subtitle"@)
    }

    fn kind_of() -> TagKind {
        TagKind::TrackSubtitle
    }

    fn into_value(self) -> TagValue {
        TagValue::TrackSubtitle(self)
    }

    fn from_value(v: TagValue) -> Result<Self, TagValue> {
        match v {
            TagValue::TrackSubtitle(tag) => Ok(tag),
            other => Err(other),
        }
    }

    fn from_value_ref(v: &TagValue) -> Option<&Self> {
        match v {
            TagValue::TrackSubtitle(tag) => Some(tag),
            _ => None,
        }
    }

    fn display_name(&self) -> Option<&str> {
        Some("Track Subtitle")
    }
}

/// The title of the album the recording first appeared on.
#[derive(Debug, Clone, PartialEq, Eq)]
pub struct OriginalAlbumTitle(pub String);

impl View for OriginalAlbumTitle {
    type V = Content;

    open spec fn view(&self) -> Content {
        Content::Text(self.0@)
    }
}

impl Sealed for OriginalAlbumTitle {

}

impl Tag for OriginalAlbumTitle {
    open spec fn kind() -> TagKind {
        TagKind::OriginalAlbumTitle
    }

    open spec fn label() -> Option<Seq<char>> {
        Some("Original Album Title"@)
    }

    fn kind_of() -> TagKind {
        TagKind::OriginalAlbumTitle
    }

    fn into_value(self) -> TagValue {
        TagValue::OriginalAlbumTitle(self)
    }

    fn from_value(v: TagValue) -> Result<Self, TagValue> {
        match v {
            TagValue::OriginalAlbumTitle(tag) => Ok(tag),
            other => Err(other),
        }
    }

    fn from_value_ref(v: &TagValue) -> Option<&Self> {
        match v {
            TagValue::OriginalAlbumTitle(tag) => Some(tag),
            _ => None,
        }
    }

    fn display_name(&self) -> Option<&str> {
        Some("Original Album Title")
    }
}

/// The artists of the original recording, in the order the file names them.
#[derive(Debug, Clone, PartialEq, Eq)]
pub struct OriginalArtist(pub Vec<String>);

impl View for OriginalArtist {
    type V = Content;

    open spec fn view(&self) -> Content {
        Content::List(strings(self.0@))
    }
}

impl Sealed for OriginalArtist {

}

impl Tag for OriginalArtist {
    open spec fn kind() -> TagKind {
        TagKind::OriginalArtist
    }

    open spec fn label() -> Option<Seq<char>> {
        Some("Original Artist"@)
    }

    fn kind_of() -> TagKind {
        TagKind::OriginalArtist
    }

    fn into_value(self) -> TagValue {
        TagValue::OriginalArtist(self)
    }

    fn from_value(v: TagValue) -> Result<Self, TagValue> {
        match v {
            TagValue::OriginalArtist(tag) => Ok(tag),
            other => Err(other),
        }
    }

    fn from_value_ref(v: &TagValue) -> Option<&Self> {
        match v {
            TagValue::OriginalArtist(tag) => Some(tag),
            _ => None,
        }
    }

    fn display_name(&self) -> Option<&str> {
        Some("Original Artist")
    }
}

/// The writers of the original lyrics, in the order the file names them.
#[derive(Debug, Clone, PartialEq, Eq)]
pub struct OriginalLyricist(pub Vec<String>);

impl View for OriginalLyricist {
    type V = Content;

    open spec fn view(&self) -> Content {
        Content::List(strings(self.0@))
    }
}

impl Sealed for OriginalLyricist {

}

impl Tag for OriginalLyricist {
    open spec fn kind() -> TagKind {
        TagKind::OriginalLyricist
    }

    open spec fn label() -> Option<Seq<char>> {
        Some("Original Lyricist"@)
    }

    fn kind_of() -> TagKind {
        TagKind::OriginalLyricist
    }

    fn into_value(self) -> TagValue {
        TagValue::OriginalLyricist(self)
    }

    fn from_value(v: TagValue) -> Result<Self, TagValue> {
        match v {
            TagValue::OriginalLyricist(tag) => Ok(tag),
            other => Err(other),
        }
    }

    fn from_value_ref(v: &TagValue) -> Option<&Self> {
        match v {
            TagValue::OriginalLyricist(tag) => Some(tag),
            _ => None,
        }
    }

    fn display_name(&self) -> Option<&str> {
        Some("Original Lyricist")
    }
}

/// The artists of the album, with the string to sort them by.
#[derive(Debug, Clone, PartialEq, Eq)]
pub struct AlbumArtist {
    pub inner: Vec<String>,
    pub sort_order: String,
}

impl View for AlbumArtist {
    type V = Content;

    open spec fn view(&self) -> Content {
        Content::Pair(strings(self.inner@), self.sort_order@)
    }
}

impl Sealed for AlbumArtist {

}

impl Tag for AlbumArtist {
    open spec fn kind() -> TagKind {
        TagKind::AlbumArtist
    }

    open spec fn label() -> Option<Seq<char>> {
        Some("Album Artist"@)
    }

    fn kind_of() -> TagKind {
        TagKind::AlbumArtist
    }

    fn into_value(self) -> TagValue {
        TagValue::AlbumArtist(self)
    }

    fn from_value(v: TagValue) -> Result<Self, TagValue> {
        match v {
            TagValue::AlbumArtist(tag) => Ok(tag),
            other => Err(other),
        }
    }

    fn from_value_ref(v: &TagValue) -> Option<&Self> {
        match v {
            TagValue::AlbumArtist(tag) => Some(tag),
            _ => None,
        }
    }

    fn display_name(&self) -> Option<&str> {
        Some("Album Artist")
    }
}

/// The name of the show the track belongs to.
#[derive(Debug, Clone, PartialEq, Eq)]
pub struct ShowName(pub String);

impl View for ShowName {
    type V = Content;

    open spec fn view(&self) -> Content {
        Content::Text(self.0@)
    }
}

impl Sealed for ShowName {

}

impl Tag for ShowName {
    open spec fn kind() -> TagKind {
        TagKind::ShowName
    }

    open spec fn label() -> Option<Seq<char>> {
        Some("Show Name"@)
    }

    fn kind_of() -> TagKind {
        TagKind::ShowName
    }

    fn into_value(self) -> TagValue {
        TagValue::ShowName(self)
    }

    fn from_value(v: TagValue) -> Result<Self, TagValue> {
        match v {
            TagValue::ShowName(tag) => Ok(tag),
            other => Err(other),
        }
    }

    fn from_value_ref(v: &TagValue) -> Option<&Self> {
        match v {
            TagValue::ShowName(tag) => Some(tag),
            _ => None,
        }
    }

    fn display_name(&self) -> Option<&str> {
        Some("Show Name")
    }
}

/// The group of works the track belongs to.
#[derive(Debug, Clone, PartialEq, Eq)]
pub struct ContentGroup(pub String);

impl View for ContentGroup {
    type V = Content;

    open spec fn view(&self) -> Content {
        Content::Text(self.0@)
    }
}

impl Sealed for ContentGroup {

}

impl Tag for ContentGroup {
    open spec fn kind() -> TagKind {
        TagKind::ContentGroup
    }

    open spec fn label() -> Option<Seq<char>> {
        Some("Content Group"@)
    }

    fn kind_of() -> TagKind {
        TagKind::ContentGroup
    }

    fn into_value(self) -> TagValue {
        TagValue::ContentGroup(self)
    }

    fn from_value(v: TagValue) -> Result<Self, TagValue> {
        match v {
            TagValue::ContentGroup(tag) => Ok(tag),
            other => Err(other),
        }
    }

    fn from_value_ref(v: &TagValue) -> Option<&Self> {
        match v {
            TagValue::ContentGroup(tag) => Some(tag),
            _ => None,
        }
    }

    fn display_name(&self) -> Option<&str> {
        Some("Content Group")
    }
}

/// The string to sort the track's title by.
#[derive(Debug, Clone, PartialEq, Eq)]
pub struct TrackTitleSortOrder(pub String);

impl View for TrackTitleSortOrder {
    type V = Content;

    open spec fn view(&self) -> Content {
        Content::Text(self.0@)
    }
}

impl Sealed for TrackTitleSortOrder {

}

impl Tag for TrackTitleSortOrder {
    open spec fn kind() -> TagKind {
        TagKind::TrackTitleSortOrder
    }

    open spec fn label() -> Option<Seq<char>> {
        Some("Track Title Sort Order"@)
    }

    fn kind_of() -> TagKind {
        TagKind::TrackTitleSortOrder
    }

    fn into_value(self) -> TagValue {
        TagValue::TrackTitleSortOrder(self)
    }

    fn from_value(v: TagValue) -> Result<Self, TagValue> {
        match v {
            TagValue::TrackTitleSortOrder(tag) => Ok(tag),
            other => Err(other),
        }
    }

    fn from_value_ref(v: &TagValue) -> Option<&Self> {
        match v {
            TagValue::TrackTitleSortOrder(tag) => Some(tag),
            _ => None,
        }
    }

    fn display_name(&self) -> Option<&str> {
        Some("Track Title Sort Order")
    }
}

/// The string to sort the track's artist by.
#[derive(Debug, Clone, PartialEq, Eq)]
pub struct TrackArtistSortOrder(pub String);

impl View for TrackArtistSortOrder {
    type V = Content;

    open spec fn view(&self) -> Content {
        Content::Text(self.0@)
    }
}

impl Sealed for TrackArtistSortOrder {

}

impl Tag for TrackArtistSortOrder {
    open spec fn kind() -> TagKind {
        TagKind::TrackArtistSortOrder
    }

    open spec fn label() -> Option<Seq<char>> {
        Some("Track Artist Sort Order"@)
    }

    fn kind_of() -> TagKind {
        TagKind::TrackArtistSortOrder
    }

    fn into_value(self) -> TagValue {
        TagValue::TrackArtistSortOrder(self)
    }

    fn from_value(v: TagValue) -> Result<Self, TagValue> {
        match v {
            TagValue::TrackArtistSortOrder(tag) => Ok(tag),
            other => Err(other),
        }
    }

    fn from_value_ref(v: &TagValue) -> Option<&Self> {
        match v {
            TagValue::TrackArtistSortOrder(tag) => Some(tag),
            _ => None,
        }
    }

    fn display_name(&self) -> Option<&str> {
        Some("Track Artist Sort Order")
    }
}

/// The string to sort the show's name by.
#[derive(Debug, Clone, PartialEq, Eq)]
pub struct ShowNameSortOrder(pub String);

impl View for ShowNameSortOrder {
    type V = Content;

    open spec fn view(&self) -> Content {
        Content::Text(self.0@)
    }
}

impl Sealed for ShowNameSortOrder {

}

impl Tag for ShowNameSortOrder {
    open spec fn kind() -> TagKind {
        TagKind::ShowNameSortOrder
    }

    open spec fn label() -> Option<Seq<char>> {
        Some("Show Name Sort Order"@)
    }

    fn kind_of() -> TagKind {
        TagKind::ShowNameSortOrder
    }

    fn into_value(self) -> TagValue {
        TagValue::ShowNameSortOrder(self)
    }

    fn from_value(v: TagValue) -> Result<Self, TagValue> {
        match v {
            TagValue::ShowNameSortOrder(tag) => Ok(tag),
            other => Err(other),
        }
    }

    fn from_value_ref(v: &TagValue) -> Option<&Self> {
        match v {
            TagValue::ShowNameSortOrder(tag) => Some(tag),
            _ => None,
        }
    }

    fn display_name(&self) -> Option<&str> {
        Some("Show Name Sort Order")
    }
}

/// The string to sort the composer by.
#[derive(Debug, Clone, PartialEq, Eq)]
pub struct ComposerSortOrder(pub String);

impl View for ComposerSortOrder {
    type V = Content;

    open spec fn view(&self) -> Content {
        Content::Text(self.0@)
    }
}

impl Sealed for ComposerSortOrder {

}

impl Tag for ComposerSortOrder {
    open spec fn kind() -> TagKind {
        TagKind::ComposerSortOrder
    }

    open spec fn label() -> Option<Seq<char>> {
        Some("Composer Sort Order"@)
    }

    fn kind_of() -> TagKind {
        TagKind::ComposerSortOrder
    }

    fn into_value(self) -> TagValue {
        TagValue::ComposerSortOrder(self)
    }

    fn from_value(v: TagValue) -> Result<Self, TagValue> {
        match v {
            TagValue::ComposerSortOrder(tag) => Ok(tag),
            other => Err(other),
        }
    }

    fn from_value_ref(v: &TagValue) -> Option<&Self> {
        match v {
            TagValue::ComposerSortOrder(tag) => Some(tag),
            _ => None,
        }
    }

    fn display_name(&self) -> Option<&str> {
        Some("Composer Sort Order")
    }
}

/// The position of the track on its disc.
#[derive(Debug, Clone, PartialEq, Eq)]
pub struct TrackNumber(pub u32);

impl View for TrackNumber {
    type V = Content;

    open spec fn view(&self) -> Content {
        Content::Number(self.0)
    }
}

impl Sealed for TrackNumber {

}

impl Tag for TrackNumber {
    open spec fn kind() -> TagKind {
        TagKind::TrackNumber
    }

    open spec fn label() -> Option<Seq<char>> {
        Some("Track Number"@)
    }

    fn kind_of() -> TagKind {
        TagKind::TrackNumber
    }

    fn into_value(self) -> TagValue {
        TagValue::TrackNumber(self)
    }

    fn from_value(v: TagValue) -> Result<Self, TagValue> {
        match v {
            TagValue::TrackNumber(tag) => Ok(tag),
            other => Err(other),
        }
    }

    fn from_value_ref(v: &TagValue) -> Option<&Self> {
        match v {
            TagValue::TrackNumber(tag) => Some(tag),
            _ => None,
        }
    }

    fn display_name(&self) -> Option<&str> {
        Some("Track Number")
    }
}

/// The position of the disc in its set.
#[derive(Debug, Clone, PartialEq, Eq)]
pub struct DiscNumber(pub u32);

impl View for DiscNumber {
    type V = Content;

    open spec fn view(&self) -> Content {
        Content::Number(self.0)
    }
}

impl Sealed for DiscNumber {

}

impl Tag for DiscNumber {
    open spec fn kind() -> TagKind {
        TagKind::DiscNumber
    }

    open spec fn label() -> Option<Seq<char>> {
        Some("Disc Number"@)
    }

    fn kind_of() -> TagKind {
        TagKind::DiscNumber
    }

    fn into_value(self) -> TagValue {
        TagValue::DiscNumber(self)
    }

    fn from_value(v: TagValue) -> Result<Self, TagValue> {
        match v {
            TagValue::DiscNumber(tag) => Ok(tag),
            other => Err(other),
        }
    }

    fn from_value_ref(v: &TagValue) -> Option<&Self> {
        match v {
            TagValue::DiscNumber(tag) => Some(tag),
            _ => None,
        }
    }

    fn display_name(&self) -> Option<&str> {
        Some("Disc Number")
    }
}

/// The day, month or year of the release.
#[derive(Debug, Clone, PartialEq, Eq)]
pub struct ReleaseDate(pub Timestamp);

impl View for ReleaseDate {
    type V = Content;

    open spec fn view(&self) -> Content {
        Content::Date(self.0)
    }
}

impl Sealed for ReleaseDate {

}

impl Tag for ReleaseDate {
    open spec fn kind() -> TagKind {
        TagKind::ReleaseDate
    }

    open spec fn label() -> Option<Seq<char>> {
        Some("Release Date"@)
    }

    fn kind_of() -> TagKind {
        TagKind::ReleaseDate
    }

    fn into_value(self) -> TagValue {
        TagValue::ReleaseDate(self)
    }

    fn from_value(v: TagValue) -> Result<Self, TagValue> {
        match v {
            TagValue::ReleaseDate(tag) => Ok(tag),
            other => Err(other),
        }
    }

    fn from_value_ref(v: &TagValue) -> Option<&Self> {
        match v {
            TagValue::ReleaseDate(tag) => Some(tag),
            _ => None,
        }
    }

    fn display_name(&self) -> Option<&str> {
        Some("Release Date")
    }
}

} // verus!
