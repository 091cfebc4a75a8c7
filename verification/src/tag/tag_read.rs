use super::container::{
    count_key_at, file_items, file_pictures, is_unknown_format, item_count, native_key_at,
    people_key_at, picture_at, picture_count, read_file, sort_key_at, tag_count, title_key_at,
    value_at, HeldItem, ParsingMode, ProbeSettings,
};
use super::content::{Content, RawValue, TagId};
use super::entry::{entry_views, EntryKey, EntryView, FieldKey, RawEntry};
use super::mapping::{absorbed_all, store_entries};
use super::tag_set::TagSet;
use vstd::prelude::*;

verus! {

/// Why a file gave no tags.
#[derive(Clone, Copy, Debug, PartialEq, Eq, Structural)]
pub enum DecodeError {
    /// The file could not be opened or read.
    Unopenable,
    /// The bytes are of no container that is known.
    UnknownType,
    /// The container is damaged beyond what a lenient reading forgives.
    Unparseable,
    /// The decode ran, and its result found nobody waiting for it.
    HandbackLost,
}

impl DecodeError {
    /// A sentence for the fault.
    pub fn message(&self) -> (text: &'static str)
        ensures
            text@ == match *self {
                DecodeError::Unopenable => "file cannot be opened"@,
                DecodeError::UnknownType => "unable to guess file type"@,
                DecodeError::Unparseable => "unable to read file tags"@,
                DecodeError::HandbackLost => "the decode did not hand its tags back"@,
            },
    {
        match self {
            DecodeError::Unopenable => "file cannot be opened",
            DecodeError::UnknownType => "unable to guess file type",
            DecodeError::Unparseable => "unable to read file tags",
            DecodeError::HandbackLost => "the decode did not hand its tags back",
        }
    }
}

/// The most junk, in bytes, that may stand before a container.
pub const MAX_JUNK_BYTES: usize = 4096;

/// How every file is read: leniently, past a bounded run of leading junk,
/// with its tags and its cover art, without its audio properties.
pub fn decode_settings() -> (settings: ProbeSettings)
    ensures
        settings == (ProbeSettings {
            mode: ParsingMode::Relaxed,
            max_junk_bytes: MAX_JUNK_BYTES,
            read_cover_art: true,
            read_tags: true,
            read_properties: false,
        }),
{
    ProbeSettings {
        mode: ParsingMode::Relaxed,
        max_junk_bytes: MAX_JUNK_BYTES,
        read_cover_art: true,
        read_tags: true,
        read_properties: false,
    }
}

/// The entry that an item of a tag gives.
pub open spec fn item_entry(item: HeldItem) -> EntryView {
    EntryView {
        key: match item.field {
            Some(key) => EntryKey::Field(key),
            None => EntryKey::Other,
        },
        native: item.native,
        value: item.value,
    }
}

/// The entry that a picture of a tag gives.
pub open spec fn picture_entry(data: Seq<u8>) -> EntryView {
    EntryView { key: EntryKey::Picture, native: None, value: Content::Binary(data) }
}

/// The entries of one tag: its items, then its pictures.
pub open spec fn tag_entries(items: Seq<HeldItem>, pictures: Seq<Seq<u8>>) -> Seq<EntryView> {
    items.map_values(|item: HeldItem| item_entry(item)) + pictures.map_values(
        |data: Seq<u8>| picture_entry(data),
    )
}

/// The entries of a file: those of its tags, one tag after the other.
pub open spec fn file_entries(items: Seq<Seq<HeldItem>>, pictures: Seq<Seq<Seq<u8>>>) -> Seq<
    EntryView,
>
    decreases items.len(),
{
    if items.len() == 0 || pictures.len() != items.len() {
        Seq::empty()
    } else {
        file_entries(items.drop_last(), pictures.drop_last()) + tag_entries(
            items.last(),
            pictures.last(),
        )
    }
}

proof fn lemma_views_push(entries: Seq<RawEntry>, entry: RawEntry)
    ensures
        entry_views(entries.push(entry)) == entry_views(entries).push(entry@),
{
    assert(entry_views(entries.push(entry)) =~= entry_views(entries).push(entry@));
}

fn field_at(file: &lofty::file::TaggedFile, tag: usize, item: usize) -> (field: Option<FieldKey>)
    requires
        tag < file_items(*file).len(),
        item < file_items(*file)[tag as int].len(),
    ensures
        field == file_items(*file)[tag as int][item as int].field,
{
    if let Some(key) = title_key_at(file, tag, item) {
        return Some(key);
    }
    if let Some(key) = people_key_at(file, tag, item) {
        return Some(key);
    }
    if let Some(key) = sort_key_at(file, tag, item) {
        return Some(key);
    }
    count_key_at(file, tag, item)
}

fn entry_at(file: &lofty::file::TaggedFile, tag: usize, item: usize) -> (entry: RawEntry)
    requires
        tag < file_items(*file).len(),
        item < file_items(*file)[tag as int].len(),
    ensures
        entry@ == item_entry(file_items(*file)[tag as int][item as int]),
{
    let key = match field_at(file, tag, item) {
        Some(field) => EntryKey::Field(field),
        None => EntryKey::Other,
    };
    RawEntry { key, native: native_key_at(file, tag, item), value: value_at(file, tag, item) }
}

/// Copies the entries out of a file that was read.
fn gather(file: &lofty::file::TaggedFile) -> (entries: Vec<RawEntry>)
    ensures
        entry_views(entries@) == entries_of(*file),
{
    let ghost items = file_items(*file);
    let ghost pictures = file_pictures(*file);
    let tags = tag_count(file);
    let mut entries: Vec<RawEntry> = Vec::new();
    let mut tag: usize = 0;
    assert(entry_views(entries@) =~= file_entries(items.take(0), pictures.take(0)));
    while tag < tags
        invariant
            items == file_items(*file),
            pictures == file_pictures(*file),
            tags == items.len(),
            tags == pictures.len(),
            tag <= tags,
            entry_views(entries@) == file_entries(items.take(tag as int), pictures.take(tag as int)),
        decreases tags - tag,
    {
        let ghost before = entry_views(entries@);
        let ghost mapped = items[tag as int].map_values(|item: HeldItem| item_entry(item));
        let ghost painted = pictures[tag as int].map_values(|data: Seq<u8>| picture_entry(data));
        let count = item_count(file, tag);
        let mut item: usize = 0;
        assert(entry_views(entries@) =~= before + mapped.take(0));
        while item < count
            invariant
                items == file_items(*file),
                tag < items.len(),
                count == items[tag as int].len(),
                item <= count,
                mapped == items[tag as int].map_values(|item: HeldItem| item_entry(item)),
                entry_views(entries@) == before + mapped.take(item as int),
            decreases count - item,
        {
            let entry = entry_at(file, tag, item);
            proof {
                lemma_views_push(entries@, entry);
                assert(mapped[item as int] == entry@);
                assert(mapped.take(item + 1) =~= mapped.take(item as int).push(entry@));
            }
            entries.push(entry);
            assert(entry_views(entries@) =~= before + mapped.take(item + 1));
            item = item + 1;
        }
        assert(mapped.take(count as int) =~= mapped);
        let shown = picture_count(file, tag);
        let mut picture: usize = 0;
        assert(entry_views(entries@) =~= before + mapped + painted.take(0));
        while picture < shown
            invariant
                pictures == file_pictures(*file),
                tag < pictures.len(),
                shown == pictures[tag as int].len(),
                picture <= shown,
                painted == pictures[tag as int].map_values(|data: Seq<u8>| picture_entry(data)),
                entry_views(entries@) == before + mapped + painted.take(picture as int),
            decreases shown - picture,
        {
            let data = picture_at(file, tag, picture);
            let entry = RawEntry {
                key: EntryKey::Picture,
                native: None,
                value: RawValue::Binary(data),
            };
            proof {
                lemma_views_push(entries@, entry);
                assert(painted[picture as int] == entry@);
                assert(painted.take(picture + 1) =~= painted.take(picture as int).push(entry@));
            }
            entries.push(entry);
            assert(entry_views(entries@) =~= before + mapped + painted.take(picture + 1));
            picture = picture + 1;
        }
        proof {
            assert(painted.take(shown as int) =~= painted);
            assert(items.take(tag + 1).drop_last() =~= items.take(tag as int));
            assert(pictures.take(tag + 1).drop_last() =~= pictures.take(tag as int));
            assert(before + mapped + painted =~= before + (mapped + painted));
        }
        tag = tag + 1;
    }
    assert(items.take(tags as int) =~= items);
    assert(pictures.take(tags as int) =~= pictures);
    entries
}

/// The entries of a file that was read.
pub open spec fn entries_of(file: lofty::file::TaggedFile) -> Seq<EntryView> {
    file_entries(file_items(file), file_pictures(file))
}

/// Reads the metadata containers in the bytes of a file and hands out
/// their entries: for each tag, its items and then its pictures. Which
/// file the bytes are read as is for the container reader to say; a file
/// that it cannot place, or cannot read, gives one of the two errors.
pub fn read_entries(bytes: &[u8]) -> (r: Result<Vec<RawEntry>, DecodeError>)
    ensures
        match r {
            Ok(entries) => exists|file: lofty::file::TaggedFile|
                entry_views(entries@) == entries_of(file),
            Err(e) => e == DecodeError::UnknownType || e == DecodeError::Unparseable,
        },
{
    let settings = decode_settings();
    match read_file(bytes, &settings) {
        Ok(file) => {
            let entries = gather(&file);
            assert(entry_views(entries@) == entries_of(file));
            Ok(entries)
        },
        Err(error) => if is_unknown_format(&error) {
            Err(DecodeError::UnknownType)
        } else {
            Err(DecodeError::Unparseable)
        },
    }
}

/// Decodes the tags in the bytes of a file: the store of what
/// [`read_entries`] hands out, taken in by [`store_entries`]. A file that
/// cannot be read gives no store at all.
pub fn decode_tags(bytes: &[u8]) -> (r: Result<TagSet, DecodeError>)
    ensures
        match r {
            Ok(store) => exists|file: lofty::file::TaggedFile|
                store@ == absorbed_all(Map::empty(), entries_of(file)),
            Err(e) => e == DecodeError::UnknownType || e == DecodeError::Unparseable,
        },
{
    match read_entries(bytes) {
        Ok(entries) => {
            let ghost file = choose|file: lofty::file::TaggedFile|
                entry_views(entries@) == entries_of(file);
            let store = store_entries(entries);
            assert(store@ == absorbed_all(Map::empty(), entries_of(file)));
            Ok(store)
        },
        Err(e) => Err(e),
    }
}

/// A file that was read and holds no tag at all gives an empty store: the
/// decode of it does not fail.
pub proof fn lemma_untagged_file_empty_store(file: lofty::file::TaggedFile)
    requires
        file_items(file).len() == 0,
    ensures
        entries_of(file) == Seq::<EntryView>::empty(),
        absorbed_all(Map::empty(), entries_of(file)) == Map::<TagId, Content>::empty(),
{
}

} // verus!
