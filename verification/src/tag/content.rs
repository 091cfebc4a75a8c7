use vstd::prelude::*;

verus! {

/// The known field kinds: one per statically typed field.
#[derive(Clone, Copy, Debug, PartialEq, Eq, Hash, Structural)]
pub enum TagKind {
    Title,
    Artist,
    Album,
    EncodedCoverArt,
    SetSubtitle,
    TrackSubtitle,
    OriginalAlbumTitle,
    OriginalArtist,
    OriginalLyricist,
    AlbumArtist,
    ShowName,
    ContentGroup,
    TrackTitleSortOrder,
    TrackArtistSortOrder,
    ShowNameSortOrder,
    ComposerSortOrder,
    TrackNumber,
    DiscNumber,
    ReleaseDate,
    Unknown,
}

/// The identity of a field in a store: a known kind, or a free-form key.
/// The two never coincide, whatever the key spells.
pub enum TagId {
    Known(TagKind),
    Custom(Seq<char>),
}

/// A calendar date of which the month and the day may be missing.
#[derive(Clone, Copy, Debug, PartialEq, Eq, Structural)]
pub struct Timestamp {
    pub year: u16,
    pub month: Option<u8>,
    pub day: Option<u8>,
}

/// What a field holds, as a mathematical value.
pub enum Content {
    Text(Seq<char>),
    Locator(Seq<char>),
    Binary(Seq<u8>),
    List(Seq<Seq<char>>),
    Pair(Seq<Seq<char>>, Seq<char>),
    Number(u32),
    Date(Timestamp),
}

/// The characters of each string of a list.
pub open spec fn strings(list: Seq<String>) -> Seq<Seq<char>> {
    list.map_values(|s: String| s@)
}

/// The value of a metadata entry as the container holds it.
#[derive(Clone, Debug, PartialEq, Eq)]
pub enum RawValue {
    Text(String),
    Locator(String),
    Binary(Vec<u8>),
}

impl View for RawValue {
    type V = Content;

    open spec fn view(&self) -> Content {
        match self {
            RawValue::Text(s) => Content::Text(s@),
            RawValue::Locator(s) => Content::Locator(s@),
            RawValue::Binary(b) => Content::Binary(b@),
        }
    }
}

/// The fields of a store: each identity with what it holds.
pub type Fields = Map<TagId, Content>;

/// The store after an insert under `id`: a field that is there stays, and
/// the store with it.
pub open spec fn inserted(fields: Fields, id: TagId, content: Content) -> Fields {
    if fields.contains_key(id) {
        fields
    } else {
        fields.insert(id, content)
    }
}

/// The store after each of `inserts` was tried in turn.
pub open spec fn inserted_all(fields: Fields, inserts: Seq<(TagId, Content)>) -> Fields
    decreases inserts.len(),
{
    if inserts.len() == 0 {
        fields
    } else {
        inserted(inserted_all(fields, inserts.drop_last()), inserts.last().0, inserts.last().1)
    }
}

/// The place of the first insert under `id`, or the length of `inserts`
/// where there is none.
pub open spec fn first_insert(inserts: Seq<(TagId, Content)>, id: TagId) -> int
    decreases inserts.len(),
{
    if inserts.len() == 0 {
        0
    } else {
        let before = first_insert(inserts.drop_last(), id);
        if before < inserts.len() - 1 {
            before
        } else if inserts.last().0 == id {
            inserts.len() - 1
        } else {
            inserts.len() as int
        }
    }
}

/// An insert under an identity that the store holds is rejected and
/// changes nothing, whatever was inserted before it.
pub proof fn lemma_second_insert_rejected(
    fields: Fields,
    id: TagId,
    first: Content,
    second: Content,
)
    ensures
        inserted(fields, id, first).contains_key(id),
        inserted(inserted(fields, id, first), id, second) == inserted(fields, id, first),
{
}

/// After any run of inserts into an empty store, an identity holds the
/// content of the first insert made under it, and nothing where there
/// was none.
pub proof fn lemma_first_insert_wins(inserts: Seq<(TagId, Content)>, id: TagId)
    ensures
        0 <= first_insert(inserts, id) <= inserts.len(),
        first_insert(inserts, id) < inserts.len() ==> inserts[first_insert(inserts, id)].0 == id,
        forall|i: int| 0 <= i < first_insert(inserts, id) ==> inserts[i].0 != id,
        inserted_all(Map::empty(), inserts).contains_key(id) <==> first_insert(inserts, id)
            < inserts.len(),
        first_insert(inserts, id) < inserts.len() ==> inserted_all(Map::empty(), inserts)[id]
            == inserts[first_insert(inserts, id)].1,
    decreases inserts.len(),
{
    if inserts.len() > 0 {
        let before = inserts.drop_last();
        lemma_first_insert_wins(before, id);
        assert forall|i: int| 0 <= i < first_insert(inserts, id) implies inserts[i].0 != id by {
            if i < before.len() {
                assert(before[i] == inserts[i]);
            }
        }
    }
}

/// A field that was taken out is no longer there.
pub proof fn lemma_taken_is_absent(fields: Fields, id: TagId)
    ensures
        !fields.remove(id).contains_key(id),
{
}

/// A custom key and a known kind are different identities: neither insert
/// disturbs the other.
pub proof fn lemma_custom_apart_from_known(
    fields: Fields,
    kind: TagKind,
    key: Seq<char>,
    a: Content,
    b: Content,
)
    ensures
        TagId::Known(kind) != TagId::Custom(key),
        inserted(inserted(fields, TagId::Known(kind), a), TagId::Custom(key), b) == inserted(
            inserted(fields, TagId::Custom(key), b),
            TagId::Known(kind),
            a,
        ),
{
    let left = inserted(inserted(fields, TagId::Known(kind), a), TagId::Custom(key), b);
    let right = inserted(inserted(fields, TagId::Custom(key), b), TagId::Known(kind), a);
    assert(left =~= right);
}

} // verus!
