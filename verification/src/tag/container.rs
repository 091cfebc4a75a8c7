//! The boundary to `lofty`, which reads the metadata containers. Nothing in
//! this file is proved: each contract states what `lofty`'s source shows of
//! the call it wraps.

use super::content::{Content, RawValue};
use super::entry::{within, FieldKey, KeyFamily};
use vstd::prelude::*;

verus! {

/// `lofty::file::TaggedFile`: a file as `lofty` read it, with its tags.
#[verifier::external_type_specification]
#[verifier::external_body]
pub struct ExTaggedFile(lofty::file::TaggedFile);

/// `lofty::error::LoftyError`: why `lofty` could not read a file.
#[verifier::external_type_specification]
#[verifier::external_body]
pub struct ExLoftyError(lofty::error::LoftyError);

/// How strictly a container is read.
#[derive(Clone, Copy, Debug, PartialEq, Eq, Structural)]
pub enum ParsingMode {
    Strict,
    BestAttempt,
    Relaxed,
}

/// What is handed to `lofty` with the bytes of a file.
#[derive(Clone, Copy, Debug, PartialEq, Eq, Structural)]
pub struct ProbeSettings {
    pub mode: ParsingMode,
    pub max_junk_bytes: usize,
    pub read_cover_art: bool,
    pub read_tags: bool,
    pub read_properties: bool,
}

/// One item of a tag as plain values: the known field that its key stands
/// for, the identifier that its own container gives the key, and its value.
pub struct HeldItem {
    pub field: Option<FieldKey>,
    pub native: Option<Seq<char>>,
    pub value: Content,
}

/// The items that a file holds: for each of its tags in order, the tag's
/// items in order.
pub uninterp spec fn file_items(file: lofty::file::TaggedFile) -> Seq<Seq<HeldItem>>;

/// The pictures that a file holds: for each of its tags in order, the
/// encoded bytes of the tag's pictures in order.
pub uninterp spec fn file_pictures(file: lofty::file::TaggedFile) -> Seq<Seq<Seq<u8>>>;

/// `lofty::probe::Probe::read` on the bytes of a file, after
/// `Probe::guess_file_type`, with `lofty::config::ParseOptions` set as
/// `settings` say. Nothing is claimed of the outcome: it hangs on the
/// thread's `lofty` options and on the resolvers registered with it.
#[verifier::external_body]
pub(crate) fn read_file(bytes: &[u8], settings: &ProbeSettings) -> Result<
    lofty::file::TaggedFile,
    lofty::error::LoftyError,
> {
    let mode = match settings.mode {
        ParsingMode::Strict => lofty::config::ParsingMode::Strict,
        ParsingMode::BestAttempt => lofty::config::ParsingMode::BestAttempt,
        ParsingMode::Relaxed => lofty::config::ParsingMode::Relaxed,
    };
    let options = lofty::config::ParseOptions::new()
        .parsing_mode(mode)
        .max_junk_bytes(settings.max_junk_bytes)
        .read_cover_art(settings.read_cover_art)
        .read_tags(settings.read_tags)
        .read_properties(settings.read_properties);
    let probe = lofty::probe::Probe::new(std::io::Cursor::new(bytes)).options(options);
    Ok(probe.guess_file_type()?.read()?)
}

/// Whether `lofty::error::LoftyError::kind` is `ErrorKind::UnknownFormat`:
/// the error that `Probe::read` gives where no file type was found.
#[verifier::external_body]
pub(crate) fn is_unknown_format(error: &lofty::error::LoftyError) -> bool {
    matches!(error.kind(), lofty::error::ErrorKind::UnknownFormat)
}

/// The length of `lofty::file::TaggedFileExt::tags`: the slice holds the
/// file's tags, so its length is the number of them.
#[verifier::external_body]
pub(crate) fn tag_count(file: &lofty::file::TaggedFile) -> (n: usize)
    ensures
        n == file_items(*file).len(),
        n == file_pictures(*file).len(),
{
    lofty::file::TaggedFileExt::tags(file).len()
}

/// The number of items that `lofty::tag::Tag::items` walks for one tag:
/// the iterator hands out the tag's items, each once.
#[verifier::external_body]
pub(crate) fn item_count(file: &lofty::file::TaggedFile, tag: usize) -> (n: usize)
    requires
        tag < file_items(*file).len(),
    ensures
        n == file_items(*file)[tag as int].len(),
{
    lofty::file::TaggedFileExt::tags(file)[tag].items().count()
}

/// The key of one item, `lofty::tag::TagItem::key`, where it is one of the
/// title keys: each arm names the `ItemKey` and the key that stands for it.
#[verifier::external_body]
pub(crate) fn title_key_at(file: &lofty::file::TaggedFile, tag: usize, item: usize) -> (key: Option<
    FieldKey,
>)
    requires
        tag < file_items(*file).len(),
        item < file_items(*file)[tag as int].len(),
    ensures
        key == within(KeyFamily::Titles, file_items(*file)[tag as int][item as int].field),
{
    match lofty::file::TaggedFileExt::tags(file)[tag].items().nth(item)?.key() {
        lofty::tag::ItemKey::TrackTitle => Some(FieldKey::TrackTitle),
        lofty::tag::ItemKey::AlbumTitle => Some(FieldKey::AlbumTitle),
        lofty::tag::ItemKey::SetSubtitle => Some(FieldKey::SetSubtitle),
        lofty::tag::ItemKey::TrackSubtitle => Some(FieldKey::TrackSubtitle),
        lofty::tag::ItemKey::OriginalAlbumTitle => Some(FieldKey::OriginalAlbumTitle),
        lofty::tag::ItemKey::ShowName => Some(FieldKey::ShowName),
        lofty::tag::ItemKey::ContentGroup => Some(FieldKey::ContentGroup),
        _ => None,
    }
}

/// The key of one item, `lofty::tag::TagItem::key`, where it is one of the
/// keys that name people.
#[verifier::external_body]
pub(crate) fn people_key_at(file: &lofty::file::TaggedFile, tag: usize, item: usize) -> (key:
    Option<FieldKey>)
    requires
        tag < file_items(*file).len(),
        item < file_items(*file)[tag as int].len(),
    ensures
        key == within(KeyFamily::People, file_items(*file)[tag as int][item as int].field),
{
    match lofty::file::TaggedFileExt::tags(file)[tag].items().nth(item)?.key() {
        lofty::tag::ItemKey::TrackArtist => Some(FieldKey::TrackArtist),
        lofty::tag::ItemKey::AlbumArtist => Some(FieldKey::AlbumArtist),
        lofty::tag::ItemKey::OriginalArtist => Some(FieldKey::OriginalArtist),
        lofty::tag::ItemKey::OriginalLyricist => Some(FieldKey::OriginalLyricist),
        _ => None,
    }
}

/// The key of one item, `lofty::tag::TagItem::key`, where it is one of the
/// sort-order keys.
#[verifier::external_body]
pub(crate) fn sort_key_at(file: &lofty::file::TaggedFile, tag: usize, item: usize) -> (key: Option<
    FieldKey,
>)
    requires
        tag < file_items(*file).len(),
        item < file_items(*file)[tag as int].len(),
    ensures
        key == within(KeyFamily::SortOrders, file_items(*file)[tag as int][item as int].field),
{
    match lofty::file::TaggedFileExt::tags(file)[tag].items().nth(item)?.key() {
        lofty::tag::ItemKey::AlbumArtistSortOrder => Some(FieldKey::AlbumArtistSortOrder),
        lofty::tag::ItemKey::TrackTitleSortOrder => Some(FieldKey::TrackTitleSortOrder),
        lofty::tag::ItemKey::TrackArtistSortOrder => Some(FieldKey::TrackArtistSortOrder),
        lofty::tag::ItemKey::ShowNameSortOrder => Some(FieldKey::ShowNameSortOrder),
        lofty::tag::ItemKey::ComposerSortOrder => Some(FieldKey::ComposerSortOrder),
        _ => None,
    }
}

/// The key of one item, `lofty::tag::TagItem::key`, where it is one of the
/// keys of numbers and dates.
#[verifier::external_body]
pub(crate) fn count_key_at(file: &lofty::file::TaggedFile, tag: usize, item: usize) -> (key: Option<
    FieldKey,
>)
    requires
        tag < file_items(*file).len(),
        item < file_items(*file)[tag as int].len(),
    ensures
        key == within(KeyFamily::Counts, file_items(*file)[tag as int][item as int].field),
{
    match lofty::file::TaggedFileExt::tags(file)[tag].items().nth(item)?.key() {
        lofty::tag::ItemKey::TrackNumber => Some(FieldKey::TrackNumber),
        lofty::tag::ItemKey::DiscNumber => Some(FieldKey::DiscNumber),
        lofty::tag::ItemKey::ReleaseDate => Some(FieldKey::ReleaseDate),
        _ => None,
    }
}

/// `lofty::tag::ItemKey::map_key` of one item's key, for the type of the
/// tag that holds the item and with unknown keys allowed: the identifier
/// that the container gives the key, or the unknown key as it is spelled.
#[verifier::external_body]
pub(crate) fn native_key_at(file: &lofty::file::TaggedFile, tag: usize, item: usize) -> (key:
    Option<String>)
    requires
        tag < file_items(*file).len(),
        item < file_items(*file)[tag as int].len(),
    ensures
        match key {
            Some(s) => file_items(*file)[tag as int][item as int].native == Some(s@),
            None => file_items(*file)[tag as int][item as int].native is None,
        },
{
    let held = &lofty::file::TaggedFileExt::tags(file)[tag];
    let key = held.items().nth(item)?.key();
    key.map_key(held.tag_type(), true).map(String::from)
}

/// `lofty::tag::TagItem::value` of one item, copied out: text, locator or
/// binary, as the item holds it.
#[verifier::external_body]
pub(crate) fn value_at(file: &lofty::file::TaggedFile, tag: usize, item: usize) -> (value:
    RawValue)
    requires
        tag < file_items(*file).len(),
        item < file_items(*file)[tag as int].len(),
    ensures
        value@ == file_items(*file)[tag as int][item as int].value,
{
    match lofty::file::TaggedFileExt::tags(file)[tag].items().nth(item).unwrap().value() {
        lofty::tag::ItemValue::Text(text) => RawValue::Text(text.clone()),
        lofty::tag::ItemValue::Locator(locator) => RawValue::Locator(locator.clone()),
        lofty::tag::ItemValue::Binary(binary) => RawValue::Binary(binary.clone()),
    }
}

/// The length of `lofty::tag::Tag::pictures` for one tag.
#[verifier::external_body]
pub(crate) fn picture_count(file: &lofty::file::TaggedFile, tag: usize) -> (n: usize)
    requires
        tag < file_pictures(*file).len(),
    ensures
        n == file_pictures(*file)[tag as int].len(),
{
    lofty::file::TaggedFileExt::tags(file)[tag].pictures().len()
}

/// `lofty::picture::Picture::data` of one picture of a tag, copied out.
#[verifier::external_body]
pub(crate) fn picture_at(file: &lofty::file::TaggedFile, tag: usize, picture: usize) -> (data: Vec<
    u8,
>)
    requires
        tag < file_pictures(*file).len(),
        picture < file_pictures(*file)[tag as int].len(),
    ensures
        data@ == file_pictures(*file)[tag as int][picture as int],
{
    lofty::file::TaggedFileExt::tags(file)[tag].pictures()[picture].data().to_vec()
}

} // verus!
