use super::content::{inserted, strings, Content, Fields, RawValue, TagId, TagKind};
use super::entry::{entry_views, EntryKey, EntryView, FieldKey, RawEntry};
use super::fields::{
    Album, AlbumArtist, Artist, ComposerSortOrder, ContentGroup, DiscNumber, EncodedCoverArt,
    OriginalAlbumTitle, OriginalArtist, OriginalLyricist, ReleaseDate, SetSubtitle, ShowName,
    ShowNameSortOrder, Title, TrackArtistSortOrder, TrackNumber, TrackSubtitle,
    TrackTitleSortOrder,
};
use super::numbers::{date_of, number_of, parse_date, parse_number};
use super::tag_set::{Tag, TagSet};
use vstd::prelude::*;

verus! {

/// The field that a container key fills.
pub open spec fn kind_of_key(key: FieldKey) -> TagKind {
    match key {
        FieldKey::TrackTitle => TagKind::Title,
        FieldKey::AlbumTitle => TagKind::Album,
        FieldKey::SetSubtitle => TagKind::SetSubtitle,
        FieldKey::TrackSubtitle => TagKind::TrackSubtitle,
        FieldKey::OriginalAlbumTitle => TagKind::OriginalAlbumTitle,
        FieldKey::ShowName => TagKind::ShowName,
        FieldKey::ContentGroup => TagKind::ContentGroup,
        FieldKey::TrackArtist => TagKind::Artist,
        FieldKey::AlbumArtist => TagKind::AlbumArtist,
        FieldKey::OriginalArtist => TagKind::OriginalArtist,
        FieldKey::OriginalLyricist => TagKind::OriginalLyricist,
        FieldKey::AlbumArtistSortOrder => TagKind::AlbumArtist,
        FieldKey::TrackTitleSortOrder => TagKind::TrackTitleSortOrder,
        FieldKey::TrackArtistSortOrder => TagKind::TrackArtistSortOrder,
        FieldKey::ShowNameSortOrder => TagKind::ShowNameSortOrder,
        FieldKey::ComposerSortOrder => TagKind::ComposerSortOrder,
        FieldKey::TrackNumber => TagKind::TrackNumber,
        FieldKey::DiscNumber => TagKind::DiscNumber,
        FieldKey::ReleaseDate => TagKind::ReleaseDate,
    }
}

/// How the text under a container key enters its field.
pub enum Entering {
    /// The field is the text; the first entry wins.
    Scalar,
    /// The field is a list; every entry adds its text at the end.
    Listed,
    /// The field is a list with a sort order; the entry adds to the list.
    Named,
    /// The field is a list with a sort order; the entry gives the sort
    /// order, and the first one to give any wins.
    Sorting,
    /// The field is a number that the text spells in decimal digits.
    Counted,
    /// The field is a date that the text spells.
    Dated,
}

pub open spec fn entering(key: FieldKey) -> Entering {
    match key {
        FieldKey::OriginalArtist | FieldKey::OriginalLyricist => Entering::Listed,
        FieldKey::AlbumArtist => Entering::Named,
        FieldKey::AlbumArtistSortOrder => Entering::Sorting,
        FieldKey::TrackNumber | FieldKey::DiscNumber => Entering::Counted,
        FieldKey::ReleaseDate => Entering::Dated,
        _ => Entering::Scalar,
    }
}

/// The store after an entry was kept under the identifier that its own
/// container gives it: unchanged where it has none, or where the
/// identifier is taken.
pub open spec fn kept_custom(fields: Fields, native: Option<Seq<char>>, value: Content) -> Fields {
    match native {
        Some(key) => inserted(fields, TagId::Custom(key), value),
        None => fields,
    }
}

/// The list of a field with `text` added at its end.
pub open spec fn listed(held: Option<Content>, text: Seq<char>) -> Content {
    match held {
        Some(Content::List(list)) => Content::List(list.push(text)),
        _ => Content::List(seq![text]),
    }
}

/// The names of a field with `text` added at their end.
pub open spec fn named(held: Option<Content>, text: Seq<char>) -> Content {
    match held {
        Some(Content::Pair(names, order)) => Content::Pair(names.push(text), order),
        _ => Content::Pair(seq![text], Seq::empty()),
    }
}

/// The field with `text` as its sort order, unless it has one.
pub open spec fn sorted(held: Option<Content>, text: Seq<char>) -> Content {
    match held {
        Some(Content::Pair(names, order)) => if order.len() == 0 {
            Content::Pair(names, text)
        } else {
            Content::Pair(names, order)
        },
        _ => Content::Pair(Seq::empty(), text),
    }
}

/// What `fields` holds under `id`, if anything.
pub open spec fn held(fields: Fields, id: TagId) -> Option<Content> {
    if fields.contains_key(id) {
        Some(fields[id])
    } else {
        None
    }
}

/// The store after the text of an entry under a known key was taken in.
pub open spec fn absorbed_text(
    fields: Fields,
    key: FieldKey,
    text: Seq<char>,
    native: Option<Seq<char>>,
) -> Fields {
    let id = TagId::Known(kind_of_key(key));
    match entering(key) {
        Entering::Scalar => inserted(fields, id, Content::Text(text)),
        Entering::Listed => fields.insert(id, listed(held(fields, id), text)),
        Entering::Named => fields.insert(id, named(held(fields, id), text)),
        Entering::Sorting => fields.insert(id, sorted(held(fields, id), text)),
        Entering::Counted => match number_of(text) {
            Some(n) => inserted(fields, id, Content::Number(n)),
            None => kept_custom(fields, native, Content::Text(text)),
        },
        Entering::Dated => match date_of(text) {
            Some(date) => inserted(fields, id, Content::Date(date)),
            None => kept_custom(fields, native, Content::Text(text)),
        },
    }
}

/// The store after one entry was taken in. Text under a known key enters
/// the key's field; the first picture becomes the cover art; everything
/// else is kept as a custom field under the container's own identifier.
pub open spec fn absorbed(fields: Fields, entry: EntryView) -> Fields {
    match (entry.key, entry.value) {
        (EntryKey::Field(key), Content::Text(text)) => absorbed_text(
            fields,
            key,
            text,
            entry.native,
        ),
        (EntryKey::Picture, Content::Binary(data)) => inserted(
            fields,
            TagId::Known(TagKind::EncodedCoverArt),
            Content::Binary(data),
        ),
        _ => kept_custom(fields, entry.native, entry.value),
    }
}

/// The store after each of `entries` was taken in, in order.
pub open spec fn absorbed_all(fields: Fields, entries: Seq<EntryView>) -> Fields
    decreases entries.len(),
{
    if entries.len() == 0 {
        fields
    } else {
        absorbed(absorbed_all(fields, entries.drop_last()), entries.last())
    }
}

proof fn lemma_strings_push(list: Seq<String>, text: String)
    ensures
        strings(list.push(text)) == strings(list).push(text@),
{
    assert(strings(list.push(text)) =~= strings(list).push(text@));
}

proof fn lemma_listed(fields: Fields, kind: TagKind, list: Seq<String>, text: String)
    requires
        fields.contains_key(TagId::Known(kind)) ==> fields[TagId::Known(kind)] == Content::List(
            strings(list),
        ),
        !fields.contains_key(TagId::Known(kind)) ==> list.len() == 0,
    ensures
        Content::List(strings(list.push(text))) == listed(held(fields, TagId::Known(kind)), text@),
{
    lemma_strings_push(list, text);
    if !fields.contains_key(TagId::Known(kind)) {
        assert(strings(list).push(text@) =~= seq![text@]);
    }
}

fn keep_custom(store: &mut TagSet, native: Option<String>, value: RawValue)
    ensures
        final(store)@ == kept_custom(
            old(store)@,
            match native {
                Some(s) => Some(s@),
                None => None,
            },
            value@,
        ),
{
    match native {
        Some(key) => {
            let _ = store.push_custom_tag(key.as_str(), value);
        },
        None => {},
    }
}

fn put<K: Tag>(store: &mut TagSet, tag: K)
    ensures
        final(store)@ == inserted(old(store)@, TagId::Known(K::kind()), tag@),
{
    let _ = store.push_typed_tag(tag);
}

fn replace<K: Tag>(store: &mut TagSet, tag: K)
    requires
        !old(store)@.contains_key(TagId::Known(K::kind())),
    ensures
        final(store)@ == old(store)@.insert(TagId::Known(K::kind()), tag@),
{
    let _ = store.push_typed_tag(tag);
}

fn absorb_text(store: &mut TagSet, key: FieldKey, text: String, native: Option<String>)
    ensures
        final(store)@ == absorbed_text(
            old(store)@,
            key,
            text@,
            match native {
                Some(s) => Some(s@),
                None => None,
            },
        ),
{
    match key {
        FieldKey::TrackTitle => put(store, Title(text)),
        FieldKey::AlbumTitle => put(store, Album(text)),
        FieldKey::SetSubtitle => put(store, SetSubtitle(text)),
        FieldKey::TrackSubtitle => put(store, TrackSubtitle(text)),
        FieldKey::OriginalAlbumTitle => put(store, OriginalAlbumTitle(text)),
        FieldKey::ShowName => put(store, ShowName(text)),
        FieldKey::ContentGroup => put(store, ContentGroup(text)),
        FieldKey::TrackArtist => put(store, Artist(text)),
        FieldKey::TrackTitleSortOrder => put(store, TrackTitleSortOrder(text)),
        FieldKey::TrackArtistSortOrder => put(store, TrackArtistSortOrder(text)),
        FieldKey::ShowNameSortOrder => put(store, ShowNameSortOrder(text)),
        FieldKey::ComposerSortOrder => put(store, ComposerSortOrder(text)),
        FieldKey::OriginalArtist => {
            let ghost before = store@;
            let mut list = match store.drop_typed_tag::<OriginalArtist>() {
                Some(tag) => tag.0,
                None => Vec::new(),
            };
            proof {
                lemma_listed(before, TagKind::OriginalArtist, list@, text);
            }
            list.push(text);
            replace(store, OriginalArtist(list));
            assert(store@ =~= absorbed_text(before, key, text@, None));
        },
        FieldKey::OriginalLyricist => {
            let ghost before = store@;
            let mut list = match store.drop_typed_tag::<OriginalLyricist>() {
                Some(tag) => tag.0,
                None => Vec::new(),
            };
            proof {
                lemma_listed(before, TagKind::OriginalLyricist, list@, text);
            }
            list.push(text);
            replace(store, OriginalLyricist(list));
            assert(store@ =~= absorbed_text(before, key, text@, None));
        },
        FieldKey::AlbumArtist => {
            let ghost before = store@;
            let mut tag = match store.drop_typed_tag::<AlbumArtist>() {
                Some(tag) => tag,
                None => AlbumArtist { inner: Vec::new(), sort_order: String::new() },
            };
            proof {
                lemma_strings_push(tag.inner@, text);
                assert(strings(Seq::<String>::empty()).push(text@) =~= seq![text@]);
            }
            tag.inner.push(text);
            assert(tag@ == named(held(before, TagId::Known(TagKind::AlbumArtist)), text@));
            replace(store, tag);
            assert(store@ =~= absorbed_text(before, key, text@, None));
        },
        FieldKey::AlbumArtistSortOrder => {
            let ghost before = store@;
            let mut tag = match store.drop_typed_tag::<AlbumArtist>() {
                Some(tag) => tag,
                None => AlbumArtist { inner: Vec::new(), sort_order: String::new() },
            };
            proof {
                assert(strings(Seq::<String>::empty()) =~= Seq::<Seq<char>>::empty());
            }
            if tag.sort_order.as_str().unicode_len() == 0 {
                tag.sort_order = text;
            }
            assert(tag@ == sorted(held(before, TagId::Known(TagKind::AlbumArtist)), text@));
            replace(store, tag);
            assert(store@ =~= absorbed_text(before, key, text@, None));
        },
        FieldKey::TrackNumber => match parse_number(text.as_str()) {
            Some(n) => put(store, TrackNumber(n)),
            None => keep_custom(store, native, RawValue::Text(text)),
        },
        FieldKey::DiscNumber => match parse_number(text.as_str()) {
            Some(n) => put(store, DiscNumber(n)),
            None => keep_custom(store, native, RawValue::Text(text)),
        },
        FieldKey::ReleaseDate => match parse_date(text.as_str()) {
            Some(date) => put(store, ReleaseDate(date)),
            None => keep_custom(store, native, RawValue::Text(text)),
        },
    }
}

/// Takes one raw entry into the store.
pub fn absorb(store: &mut TagSet, entry: RawEntry)
    ensures
        final(store)@ == absorbed(old(store)@, entry@),
{
    let RawEntry { key, native, value } = entry;
    match key {
        EntryKey::Field(field) => match value {
            RawValue::Text(text) => absorb_text(store, field, text, native),
            other => keep_custom(store, native, other),
        },
        EntryKey::Picture => match value {
            RawValue::Binary(data) => put(store, EncodedCoverArt(data)),
            other => keep_custom(store, native, other),
        },
        EntryKey::Other => keep_custom(store, native, value),
    }
}

/// The store of the fields that `entries` give, taken in from the first
/// to the last.
pub fn store_entries(entries: Vec<RawEntry>) -> (store: TagSet)
    ensures
        store@ == absorbed_all(Map::empty(), entry_views(entries@)),
{
    let mut store = TagSet::new();
    let ghost all = entries@;
    let ghost n = all.len() as int;
    let mut entries = entries;
    let mut rest: Vec<RawEntry> = Vec::new();
    // Entries leave a vector from its end: turn the list round first.
    while entries.len() > 0
        invariant
            n == all.len(),
            entries@.len() + rest@.len() == n,
            forall|j: int| 0 <= j < entries@.len() ==> entries@[j] == all[j],
            forall|j: int| 0 <= j < rest@.len() ==> rest@[j] == all[n - 1 - j],
        decreases entries.len(),
    {
        let entry = entries.pop().unwrap();
        rest.push(entry);
    }
    while rest.len() > 0
        invariant
            n == all.len(),
            rest@.len() <= n,
            forall|j: int| 0 <= j < rest@.len() ==> rest@[j] == all[n - 1 - j],
            store@ == absorbed_all(Map::empty(), entry_views(all).take(n - rest@.len())),
        decreases rest.len(),
    {
        let ghost k = n - rest@.len();
        let entry = rest.pop().unwrap();
        proof {
            assert(entry == all[k]);
            assert(entry_views(all).take(k + 1).drop_last() =~= entry_views(all).take(k));
            assert(entry_views(all).take(k + 1).last() == entry@);
        }
        absorb(&mut store, entry);
    }
    assert(entry_views(all).take(n) =~= entry_views(all));
    store
}

/// The custom identity that a container's own identifier gives.
pub open spec fn custom_id(native: Option<Seq<char>>) -> Option<TagId> {
    match native {
        Some(key) => Some(TagId::Custom(key)),
        None => None,
    }
}

/// The identity under which an entry is taken in, nothing where the entry
/// is passed over: it has neither a known field nor an identifier.
pub open spec fn landing(entry: EntryView) -> Option<TagId> {
    match (entry.key, entry.value) {
        (EntryKey::Field(key), Content::Text(text)) => match entering(key) {
            Entering::Counted => if number_of(text) is Some {
                Some(TagId::Known(kind_of_key(key)))
            } else {
                custom_id(entry.native)
            },
            Entering::Dated => if date_of(text) is Some {
                Some(TagId::Known(kind_of_key(key)))
            } else {
                custom_id(entry.native)
            },
            _ => Some(TagId::Known(kind_of_key(key))),
        },
        (EntryKey::Picture, Content::Binary(_)) => Some(TagId::Known(TagKind::EncodedCoverArt)),
        _ => custom_id(entry.native),
    }
}

/// Whether some entry lands on `id`.
pub open spec fn lands_on(entries: Seq<EntryView>, id: TagId) -> bool {
    exists|i: int| 0 <= i < entries.len() && #[trigger] landing(entries[i]) == Some(id)
}

/// Every entry lands, and no two land on one identity.
pub open spec fn land_apart(entries: Seq<EntryView>) -> bool {
    &&& forall|i: int| 0 <= i < entries.len() ==> (#[trigger] landing(entries[i])) is Some
    &&& forall|i: int, j: int|
        0 <= i < j < entries.len() ==> #[trigger] landing(entries[i]) != #[trigger] landing(
            entries[j],
        )
}

/// How many of the entries land on a known field.
pub open spec fn known_landings(entries: Seq<EntryView>) -> nat
    decreases entries.len(),
{
    if entries.len() == 0 {
        0
    } else {
        known_landings(entries.drop_last()) + (match landing(entries.last()) {
            Some(TagId::Known(_)) => 1nat,
            _ => 0nat,
        })
    }
}

/// How many of the entries land on a custom key.
pub open spec fn custom_landings(entries: Seq<EntryView>) -> nat
    decreases entries.len(),
{
    if entries.len() == 0 {
        0
    } else {
        custom_landings(entries.drop_last()) + (match landing(entries.last()) {
            Some(TagId::Custom(_)) => 1nat,
            _ => 0nat,
        })
    }
}

/// The known fields of a store.
pub open spec fn known_ids(fields: Fields) -> Set<TagId> {
    Set::new(|id: TagId| fields.contains_key(id) && id is Known)
}

/// The custom fields of a store.
pub open spec fn custom_ids(fields: Fields) -> Set<TagId> {
    Set::new(|id: TagId| fields.contains_key(id) && id is Custom)
}

/// A file without entries gives an empty store.
pub proof fn lemma_no_entries_empty_store()
    ensures
        absorbed_all(Map::empty(), Seq::empty()) == Map::<TagId, Content>::empty(),
{
}

/// An entry touches the identity it lands on and no other: that one is
/// there afterwards, and every other field is as it was.
pub proof fn lemma_absorbed_touches_landing(fields: Fields, entry: EntryView, id: TagId)
    ensures
        landing(entry) == Some(id) ==> absorbed(fields, entry).contains_key(id),
        landing(entry) != Some(id) ==> held(absorbed(fields, entry), id) == held(fields, id),
        landing(entry) == Some(id) && !fields.contains_key(id) ==> absorbed(fields, entry)[id]
            == absorbed(Map::empty(), entry)[id],
{
}

/// The identities of a decoded store are those on which its entries land.
pub proof fn lemma_store_identities(entries: Seq<EntryView>, id: TagId)
    ensures
        absorbed_all(Map::empty(), entries).contains_key(id) <==> lands_on(entries, id),
    decreases entries.len(),
{
    if entries.len() > 0 {
        let before = entries.drop_last();
        lemma_store_identities(before, id);
        lemma_absorbed_touches_landing(absorbed_all(Map::empty(), before), entries.last(), id);
        if lands_on(before, id) {
            let i = choose|i: int| 0 <= i < before.len() && #[trigger] landing(before[i]) == Some(id);
            assert(landing(entries[i]) == Some(id));
        }
        if lands_on(entries, id) {
            let i = choose|i: int|
                0 <= i < entries.len() && #[trigger] landing(entries[i]) == Some(id);
            if i < before.len() {
                assert(landing(before[i]) == Some(id));
            }
        }
        if landing(entries.last()) == Some(id) {
            assert(landing(entries[entries.len() - 1]) == Some(id));
        }
    }
}

/// Where the entries of a file land apart, the store holds each of them as
/// if it had come alone: a file with N known fields and M custom ones
/// gives exactly N known fields and M custom fields.
pub proof fn lemma_distinct_fields_all_stored(entries: Seq<EntryView>)
    requires
        land_apart(entries),
    ensures
        known_ids(absorbed_all(Map::empty(), entries)).finite(),
        custom_ids(absorbed_all(Map::empty(), entries)).finite(),
        known_ids(absorbed_all(Map::empty(), entries)).len() == known_landings(entries),
        custom_ids(absorbed_all(Map::empty(), entries)).len() == custom_landings(entries),
        forall|i: int|
            0 <= i < entries.len() ==> absorbed_all(Map::empty(), entries)[landing(
                #[trigger] entries[i],
            ).unwrap()] == absorbed(Map::empty(), entries[i])[landing(entries[i]).unwrap()],
    decreases entries.len(),
{
    let store = absorbed_all(Map::empty(), entries);
    if entries.len() == 0 {
        assert(known_ids(store) =~= Set::empty());
        assert(custom_ids(store) =~= Set::empty());
    } else {
        let before = entries.drop_last();
        let last = entries.last();
        let prior = absorbed_all(Map::empty(), before);
        assert(land_apart(before)) by {
            assert forall|i: int| 0 <= i < before.len() implies (#[trigger] landing(
                before[i],
            )) is Some by {
                assert(before[i] == entries[i]);
            }
            assert forall|i: int, j: int| 0 <= i < j < before.len() implies #[trigger] landing(
                before[i],
            ) != #[trigger] landing(before[j]) by {
                assert(before[i] == entries[i]);
                assert(before[j] == entries[j]);
            }
        }
        lemma_distinct_fields_all_stored(before);
        assert(landing(entries[entries.len() - 1]) is Some);
        let id = landing(last).unwrap();
        lemma_store_identities(before, id);
        assert(!prior.contains_key(id)) by {
            if lands_on(before, id) {
                let i = choose|i: int|
                    0 <= i < before.len() && #[trigger] landing(before[i]) == Some(id);
                assert(before[i] == entries[i]);
                assert(landing(entries[i]) != landing(entries[entries.len() - 1]));
            }
        }
        assert forall|other: TagId| store.contains_key(other) <==> (other == id
            || prior.contains_key(other)) by {
            lemma_absorbed_touches_landing(prior, last, other);
        }
        match id {
            TagId::Known(_) => {
                assert(known_ids(store) =~= known_ids(prior).insert(id));
                assert(custom_ids(store) =~= custom_ids(prior));
            },
            TagId::Custom(_) => {
                assert(known_ids(store) =~= known_ids(prior));
                assert(custom_ids(store) =~= custom_ids(prior).insert(id));
            },
        }
        assert forall|i: int| 0 <= i < entries.len() implies store[landing(
            #[trigger] entries[i],
        ).unwrap()] == absorbed(Map::empty(), entries[i])[landing(entries[i]).unwrap()] by {
            let at = landing(entries[i]).unwrap();
            lemma_absorbed_touches_landing(prior, last, at);
            if i < before.len() {
                assert(before[i] == entries[i]);
                assert(landing(entries[i]) != landing(entries[entries.len() - 1]));
                lemma_store_identities(before, at);
                assert(lands_on(before, at));
            }
        }
    }
}

} // verus!
