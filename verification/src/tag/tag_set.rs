use super::content::{inserted, Content, RawValue, TagId, TagKind};
use super::fields::{
    Album, AlbumArtist, Artist, ComposerSortOrder, ContentGroup, DiscNumber, EncodedCoverArt,
    OriginalAlbumTitle, OriginalArtist, OriginalLyricist, ReleaseDate, SetSubtitle, ShowName,
    ShowNameSortOrder, Title, TrackArtistSortOrder, TrackNumber, TrackSubtitle,
    TrackTitleSortOrder,
};
use super::private::Sealed;
use vstd::prelude::*;

verus! {

/// A field of known kind: a type that a [`TagSet`] stores under its own
/// identity and hands back as that same type.
pub trait Tag: Sealed + Sized + View<V = Content> {
    /// The identity under which values of this type are stored.
    spec fn kind() -> TagKind;

    /// The name shown for the field, if it has one.
    spec fn label() -> Option<Seq<char>>;

    fn kind_of() -> (k: TagKind)
        ensures
            k == Self::kind(),
    ;

    /// Wraps the value for storage.
    fn into_value(self) -> (v: TagValue)
        ensures
            v.kind() == Self::kind(),
            v@ == self@,
    ;

    /// Unwraps a stored value of this kind; a value of another kind comes
    /// back unchanged.
    fn from_value(v: TagValue) -> (r: Result<Self, TagValue>)
        ensures
            v.kind() == Self::kind() ==> r is Ok && r->Ok_0@ == v@,
            v.kind() != Self::kind() ==> r == Err::<Self, TagValue>(v),
    ;

    /// Looks into a stored value of this kind.
    fn from_value_ref(v: &TagValue) -> (r: Option<&Self>)
        ensures
            v.kind() == Self::kind() ==> r is Some && r->Some_0@ == v@,
            v.kind() != Self::kind() ==> r is None,
    ;

    fn display_name(&self) -> (name: Option<&str>)
        ensures
            match name {
                Some(n) => Self::label() == Some(n@),
                None => Self::label() is None,
            },
    ;
}

/// The value of a field that has no known kind, kept as the container
/// holds it.
#[derive(Debug, Clone, PartialEq, Eq)]
pub struct UnknownItem(RawValue);

impl UnknownItem {
    pub fn new(value: RawValue) -> (item: Self)
        ensures
            item.raw() == value,
    {
        UnknownItem(value)
    }

    pub closed spec fn raw(self) -> RawValue {
        self.0
    }

    pub fn value(&self) -> (value: &RawValue)
        ensures
            *value == self.raw(),
    {
        &self.0
    }

    pub fn into_inner(self) -> (value: RawValue)
        ensures
            value == self.raw(),
    {
        self.0
    }
}

/// A stored field: one variant per known kind.
#[derive(Debug, Clone, PartialEq, Eq)]
pub enum TagValue {
    Title(Title),
    Artist(Artist),
    Album(Album),
    EncodedCoverArt(EncodedCoverArt),
    SetSubtitle(SetSubtitle),
    TrackSubtitle(TrackSubtitle),
    OriginalAlbumTitle(OriginalAlbumTitle),
    OriginalArtist(OriginalArtist),
    OriginalLyricist(OriginalLyricist),
    AlbumArtist(AlbumArtist),
    ShowName(ShowName),
    ContentGroup(ContentGroup),
    TrackTitleSortOrder(TrackTitleSortOrder),
    TrackArtistSortOrder(TrackArtistSortOrder),
    ShowNameSortOrder(ShowNameSortOrder),
    ComposerSortOrder(ComposerSortOrder),
    TrackNumber(TrackNumber),
    DiscNumber(DiscNumber),
    ReleaseDate(ReleaseDate),
    Unknown(UnknownItem),
}

impl TagValue {
    pub open spec fn kind(self) -> TagKind {
        match self {
            TagValue::Title(_) => TagKind::Title,
            TagValue::Artist(_) => TagKind::Artist,
            TagValue::Album(_) => TagKind::Album,
            TagValue::EncodedCoverArt(_) => TagKind::EncodedCoverArt,
            TagValue::SetSubtitle(_) => TagKind::SetSubtitle,
            TagValue::TrackSubtitle(_) => TagKind::TrackSubtitle,
            TagValue::OriginalAlbumTitle(_) => TagKind::OriginalAlbumTitle,
            TagValue::OriginalArtist(_) => TagKind::OriginalArtist,
            TagValue::OriginalLyricist(_) => TagKind::OriginalLyricist,
            TagValue::AlbumArtist(_) => TagKind::AlbumArtist,
            TagValue::ShowName(_) => TagKind::ShowName,
            TagValue::ContentGroup(_) => TagKind::ContentGroup,
            TagValue::TrackTitleSortOrder(_) => TagKind::TrackTitleSortOrder,
            TagValue::TrackArtistSortOrder(_) => TagKind::TrackArtistSortOrder,
            TagValue::ShowNameSortOrder(_) => TagKind::ShowNameSortOrder,
            TagValue::ComposerSortOrder(_) => TagKind::ComposerSortOrder,
            TagValue::TrackNumber(_) => TagKind::TrackNumber,
            TagValue::DiscNumber(_) => TagKind::DiscNumber,
            TagValue::ReleaseDate(_) => TagKind::ReleaseDate,
            TagValue::Unknown(_) => TagKind::Unknown,
        }
    }
}

impl View for TagValue {
    type V = Content;

    open spec fn view(&self) -> Content {
        match self {
            TagValue::Title(tag) => tag@,
            TagValue::Artist(tag) => tag@,
            TagValue::Album(tag) => tag@,
            TagValue::EncodedCoverArt(tag) => tag@,
            TagValue::SetSubtitle(tag) => tag@,
            TagValue::TrackSubtitle(tag) => tag@,
            TagValue::OriginalAlbumTitle(tag) => tag@,
            TagValue::OriginalArtist(tag) => tag@,
            TagValue::OriginalLyricist(tag) => tag@,
            TagValue::AlbumArtist(tag) => tag@,
            TagValue::ShowName(tag) => tag@,
            TagValue::ContentGroup(tag) => tag@,
            TagValue::TrackTitleSortOrder(tag) => tag@,
            TagValue::TrackArtistSortOrder(tag) => tag@,
            TagValue::ShowNameSortOrder(tag) => tag@,
            TagValue::ComposerSortOrder(tag) => tag@,
            TagValue::TrackNumber(tag) => tag@,
            TagValue::DiscNumber(tag) => tag@,
            TagValue::ReleaseDate(tag) => tag@,
            TagValue::Unknown(tag) => tag@,
        }
    }
}

impl View for UnknownItem {
    type V = Content;

    open spec fn view(&self) -> Content {
        self.raw()@
    }
}

impl Sealed for UnknownItem {

}

impl Tag for UnknownItem {
    open spec fn kind() -> TagKind {
        TagKind::Unknown
    }

    open spec fn label() -> Option<Seq<char>> {
        None
    }

    fn kind_of() -> TagKind {
        TagKind::Unknown
    }

    fn into_value(self) -> TagValue {
        TagValue::Unknown(self)
    }

    fn from_value(v: TagValue) -> Result<Self, TagValue> {
        match v {
            TagValue::Unknown(t) => Ok(t),
            other => Err(other),
        }
    }

    fn from_value_ref(v: &TagValue) -> Option<&Self> {
        match v {
            TagValue::Unknown(t) => Some(t),
            _ => None,
        }
    }

    fn display_name(&self) -> Option<&str> {
        None
    }
}

/// The key of a stored field: the kind of a typed field, or the string of
/// a custom one.
#[derive(Debug, Clone, PartialEq, Eq)]
enum TIDOrCustom {
    TypeId(TagKind),
    Custom(String),
}

impl View for TIDOrCustom {
    type V = TagId;

    closed spec fn view(&self) -> TagId {
        match self {
            TIDOrCustom::TypeId(k) => TagId::Known(*k),
            TIDOrCustom::Custom(s) => TagId::Custom(s@),
        }
    }
}

impl From<TagKind> for TIDOrCustom {
    fn from(value: TagKind) -> (id: Self) {
        Self::TypeId(value)
    }
}

impl vstd::std_specs::convert::FromSpecImpl<TagKind> for TIDOrCustom {
    open spec fn obeys_from_spec() -> bool {
        true
    }

    closed spec fn from_spec(value: TagKind) -> Self {
        Self::TypeId(value)
    }
}

impl From<String> for TIDOrCustom {
    fn from(value: String) -> (id: Self) {
        Self::Custom(value)
    }
}

impl vstd::std_specs::convert::FromSpecImpl<String> for TIDOrCustom {
    open spec fn obeys_from_spec() -> bool {
        true
    }

    closed spec fn from_spec(value: String) -> Self {
        Self::Custom(value)
    }
}

impl TIDOrCustom {
    fn same(&self, other: &TIDOrCustom) -> (b: bool)
        ensures
            b == (self@ == other@),
    {
        match (self, other) {
            (TIDOrCustom::TypeId(a), TIDOrCustom::TypeId(b)) => *a == *b,
            (TIDOrCustom::Custom(a), TIDOrCustom::Custom(b)) => *a == *b,
            _ => false,
        }
    }
}

#[derive(Debug, Clone, PartialEq, Eq)]
struct Slot {
    id: TIDOrCustom,
    value: TagValue,
}

/// A typed field sits under its own kind; a custom key holds an unknown item.
spec fn slot_fits(s: Slot) -> bool {
    match s.id {
        TIDOrCustom::TypeId(k) => s.value.kind() == k,
        TIDOrCustom::Custom(_) => s.value.kind() == TagKind::Unknown,
    }
}

spec fn held_at(slots: Seq<Slot>, id: TagId, i: int) -> bool {
    0 <= i < slots.len() && slots[i].id@ == id
}

spec fn holds(slots: Seq<Slot>, id: TagId) -> bool {
    exists|i: int| held_at(slots, id, i)
}

spec fn slot_of(slots: Seq<Slot>, id: TagId) -> int {
    choose|i: int| held_at(slots, id, i)
}

spec fn distinct(slots: Seq<Slot>) -> bool {
    forall|i: int, j: int| 0 <= i < j < slots.len() ==> slots[i].id@ != slots[j].id@
}

spec fn all_fit(slots: Seq<Slot>) -> bool {
    forall|i: int| 0 <= i < slots.len() ==> slot_fits(#[trigger] slots[i])
}

spec fn contents(slots: Seq<Slot>) -> Map<TagId, Content> {
    Map::new(|id: TagId| holds(slots, id), |id: TagId| slots[slot_of(slots, id)].value@)
}

proof fn lemma_found(slots: Seq<Slot>, id: TagId, i: int)
    requires
        distinct(slots),
        held_at(slots, id, i),
    ensures
        contents(slots).contains_key(id),
        contents(slots)[id] == slots[i].value@,
        slot_of(slots, id) == i,
{
    let j = slot_of(slots, id);
    assert(held_at(slots, id, j));
    if i < j {
        assert(slots[i].id@ != slots[j].id@);
    } else if j < i {
        assert(slots[j].id@ != slots[i].id@);
    }
}

proof fn lemma_push(slots: Seq<Slot>, s: Slot)
    requires
        distinct(slots),
        !holds(slots, s.id@),
    ensures
        distinct(slots.push(s)),
        contents(slots.push(s)) == contents(slots).insert(s.id@, s.value@),
{
    let after = slots.push(s);
    assert forall|i: int, j: int| 0 <= i < j < after.len() implies after[i].id@ != after[j].id@ by {
        if j == slots.len() {
            assert(!held_at(slots, s.id@, i));
        }
    }
    assert forall|id: TagId| holds(after, id) <==> (id == s.id@ || holds(slots, id)) by {
        if holds(after, id) {
            let i = slot_of(after, id);
            assert(held_at(after, id, i));
            if i < slots.len() {
                assert(held_at(slots, id, i));
            }
        }
        if id == s.id@ {
            assert(held_at(after, id, slots.len() as int));
        }
        if holds(slots, id) {
            let i = slot_of(slots, id);
            assert(held_at(slots, id, i));
            assert(held_at(after, id, i));
        }
    }
    assert forall|id: TagId| holds(after, id) implies #[trigger] contents(after)[id] == contents(
        slots,
    ).insert(s.id@, s.value@)[id] by {
        if id == s.id@ {
            lemma_found(after, id, slots.len() as int);
        } else {
            let i = slot_of(slots, id);
            assert(held_at(slots, id, i));
            assert(held_at(after, id, i));
            lemma_found(after, id, i);
        }
    }
    assert(contents(after) =~= contents(slots).insert(s.id@, s.value@));
}

proof fn lemma_remove(slots: Seq<Slot>, i: int)
    requires
        distinct(slots),
        0 <= i < slots.len(),
    ensures
        distinct(slots.remove(i)),
        contents(slots.remove(i)) == contents(slots).remove(slots[i].id@),
{
    let after = slots.remove(i);
    let gone = slots[i].id@;
    assert forall|a: int, b: int| 0 <= a < b < after.len() implies after[a].id@ != after[b].id@ by {
        let a0 = if a < i { a } else { a + 1 };
        let b0 = if b < i { b } else { b + 1 };
        assert(after[a] == slots[a0]);
        assert(after[b] == slots[b0]);
    }
    assert forall|id: TagId| holds(after, id) <==> (id != gone && holds(slots, id)) by {
        if holds(after, id) {
            let a = slot_of(after, id);
            assert(held_at(after, id, a));
            let a0 = if a < i { a } else { a + 1 };
            assert(after[a] == slots[a0]);
            assert(held_at(slots, id, a0));
            if a0 < i {
                assert(slots[a0].id@ != slots[i].id@);
            } else {
                assert(slots[i].id@ != slots[a0].id@);
            }
        }
        if id != gone && holds(slots, id) {
            let a0 = slot_of(slots, id);
            assert(held_at(slots, id, a0));
            let a = if a0 < i { a0 } else { a0 - 1 };
            assert(after[a] == slots[a0]);
            assert(held_at(after, id, a));
        }
    }
    assert forall|id: TagId| holds(after, id) implies #[trigger] contents(after)[id] == contents(
        slots,
    ).remove(gone)[id] by {
        let a = slot_of(after, id);
        assert(held_at(after, id, a));
        let a0 = if a < i { a } else { a + 1 };
        assert(after[a] == slots[a0]);
        lemma_found(slots, id, a0);
    }
    assert(contents(after) =~= contents(slots).remove(gone));
}

proof fn lemma_counted(slots: Seq<Slot>)
    requires
        distinct(slots),
    ensures
        contents(slots).dom().finite(),
        contents(slots).dom().len() == slots.len(),
    decreases slots.len(),
{
    if slots.len() == 0 {
        assert(contents(slots).dom() =~= Set::empty()) by {
            assert forall|id: TagId| !holds(slots, id) by {
                if holds(slots, id) {
                    assert(held_at(slots, id, slot_of(slots, id)));
                }
            }
        }
    } else {
        let before = slots.drop_last();
        let last = slots.last();
        assert(distinct(before)) by {
            assert forall|i: int, j: int| 0 <= i < j < before.len() implies before[i].id@
                != before[j].id@ by {
                assert(before[i] == slots[i] && before[j] == slots[j]);
            }
        }
        assert(!holds(before, last.id@)) by {
            if holds(before, last.id@) {
                let i = slot_of(before, last.id@);
                assert(held_at(before, last.id@, i));
                assert(slots[i].id@ != slots[slots.len() - 1].id@);
            }
        }
        lemma_counted(before);
        lemma_push(before, last);
        assert(before.push(last) =~= slots);
        assert(contents(slots).dom() =~= contents(before).dom().insert(last.id@));
    }
}

/// The fields of one file: at most one value under each identity.
#[derive(Debug)]
pub struct TagSet {
    slots: Vec<Slot>,
}

impl View for TagSet {
    type V = Map<TagId, Content>;

    closed spec fn view(&self) -> Map<TagId, Content> {
        contents(self.slots@)
    }
}

fn find(slots: &Vec<Slot>, id: &TIDOrCustom) -> (r: Option<usize>)
    ensures
        match r {
            Some(i) => held_at(slots@, id@, i as int),
            None => !holds(slots@, id@),
        },
{
    let mut i: usize = 0;
    while i < slots.len()
        invariant
            i <= slots.len(),
            forall|j: int| 0 <= j < i ==> !held_at(slots@, id@, j),
        decreases slots.len() - i,
    {
        if slots[i].id.same(id) {
            return Some(i);
        }
        i = i + 1;
    }
    None
}

impl TagSet {
    #[verifier::type_invariant]
    spec fn well_formed(self) -> bool {
        distinct(self.slots@) && all_fit(self.slots@)
    }

    /// A store with no field.
    pub fn new() -> (set: Self)
        ensures
            set@ == Map::<TagId, Content>::empty(),
    {
        let set = TagSet { slots: Vec::new() };
        assert(set@ =~= Map::<TagId, Content>::empty()) by {
            assert forall|id: TagId| !holds(set.slots@, id) by {
                if holds(set.slots@, id) {
                    assert(held_at(set.slots@, id, slot_of(set.slots@, id)));
                }
            }
        }
        set
    }

    /// How many fields the store holds.
    pub fn len(&self) -> (n: usize)
        ensures
            self@.dom().finite(),
            n == self@.dom().len(),
    {
        proof {
            use_type_invariant(self);
            lemma_counted(self.slots@);
        }
        self.slots.len()
    }

    /// Whether the store holds no field.
    pub fn is_empty(&self) -> (empty: bool)
        ensures
            empty == (self@ == Map::<TagId, Content>::empty()),
    {
        proof {
            use_type_invariant(self);
            lemma_counted(self.slots@);
            if self.slots@.len() == 0 {
                assert(self@ =~= Map::<TagId, Content>::empty());
            }
        }
        self.slots.len() == 0
    }

    /// Stores `tag` under its kind, unless a field of that kind is there
    /// already: then the store stays as it is and `tag` comes back.
    pub fn push_typed_tag<K: Tag>(&mut self, tag: K) -> (r: Result<(), K>)
        ensures
            final(self)@ == inserted(old(self)@, TagId::Known(K::kind()), tag@),
            r == if old(self)@.contains_key(TagId::Known(K::kind())) {
                Err::<(), K>(tag)
            } else {
                Ok::<(), K>(())
            },
    {
        proof {
            use_type_invariant(&*self);
        }
        let id = TIDOrCustom::from(K::kind_of());
        match find(&self.slots, &id) {
            Some(i) => {
                proof {
                    lemma_found(self.slots@, id@, i as int);
                }
                Err(tag)
            },
            None => {
                let mut slots = Vec::new();
                std::mem::swap(&mut slots, &mut self.slots);
                let slot = Slot { id, value: tag.into_value() };
                proof {
                    lemma_push(slots@, slot);
                }
                slots.push(slot);
                self.slots = slots;
                Ok(())
            },
        }
    }

    /// The field of kind `K`, if the store holds one.
    pub fn get_typed_tag<K: Tag>(&self) -> (r: Option<&K>)
        ensures
            r is Some <==> self@.contains_key(TagId::Known(K::kind())),
            r matches Some(tag) ==> tag@ == self@[TagId::Known(K::kind())],
    {
        proof {
            use_type_invariant(self);
        }
        let id = TIDOrCustom::from(K::kind_of());
        match find(&self.slots, &id) {
            Some(i) => {
                proof {
                    lemma_found(self.slots@, id@, i as int);
                    assert(slot_fits(self.slots@[i as int]));
                }
                K::from_value_ref(&self.slots[i].value)
            },
            None => None,
        }
    }

    /// Takes the field of kind `K` out of the store, if it holds one.
    pub fn drop_typed_tag<K: Tag>(&mut self) -> (r: Option<K>)
        ensures
            final(self)@ == old(self)@.remove(TagId::Known(K::kind())),
            r is Some <==> old(self)@.contains_key(TagId::Known(K::kind())),
            r matches Some(tag) ==> tag@ == old(self)@[TagId::Known(K::kind())],
    {
        let id = TIDOrCustom::from(K::kind_of());
        match self.take(&id) {
            Some(value) => match K::from_value(value) {
                Ok(tag) => Some(tag),
                Err(_) => None,
            },
            None => None,
        }
    }

    /// Stores `value` under the custom key `key`, unless the key is taken:
    /// then the store stays as it is and the value comes back, wrapped as
    /// the item it would have been stored as.
    pub fn push_custom_tag(&mut self, key: &str, value: RawValue) -> (r: Result<(), UnknownItem>)
        ensures
            final(self)@ == inserted(old(self)@, TagId::Custom(key@), value@),
            old(self)@.contains_key(TagId::Custom(key@)) ==> r is Err && r->Err_0.raw() == value,
            !old(self)@.contains_key(TagId::Custom(key@)) ==> r is Ok,
    {
        proof {
            use_type_invariant(&*self);
        }
        let id = TIDOrCustom::from(key.to_owned());
        let item = UnknownItem(value);
        match find(&self.slots, &id) {
            Some(i) => {
                proof {
                    lemma_found(self.slots@, id@, i as int);
                }
                Err(item)
            },
            None => {
                let mut slots = Vec::new();
                std::mem::swap(&mut slots, &mut self.slots);
                let slot = Slot { id, value: TagValue::Unknown(item) };
                proof {
                    lemma_push(slots@, slot);
                }
                slots.push(slot);
                self.slots = slots;
                Ok(())
            },
        }
    }

    /// The item under the custom key `key`, if the store holds one.
    pub fn get_custom_tag(&self, key: &str) -> (r: Option<&UnknownItem>)
        ensures
            r is Some <==> self@.contains_key(TagId::Custom(key@)),
            r matches Some(item) ==> item@ == self@[TagId::Custom(key@)],
    {
        proof {
            use_type_invariant(self);
        }
        let id = TIDOrCustom::from(key.to_owned());
        match find(&self.slots, &id) {
            Some(i) => {
                proof {
                    lemma_found(self.slots@, id@, i as int);
                    assert(slot_fits(self.slots@[i as int]));
                }
                UnknownItem::from_value_ref(&self.slots[i].value)
            },
            None => None,
        }
    }

    /// Takes the item under the custom key `key` out of the store, if it
    /// holds one.
    pub fn drop_custom_tag(&mut self, key: &str) -> (r: Option<UnknownItem>)
        ensures
            final(self)@ == old(self)@.remove(TagId::Custom(key@)),
            r is Some <==> old(self)@.contains_key(TagId::Custom(key@)),
            r matches Some(item) ==> item@ == old(self)@[TagId::Custom(key@)],
    {
        let id = TIDOrCustom::from(key.to_owned());
        match self.take(&id) {
            Some(value) => match UnknownItem::from_value(value) {
                Ok(item) => Some(item),
                Err(_) => None,
            },
            None => None,
        }
    }

    /// Takes the slot under `id` out of the store.
    fn take(&mut self, id: &TIDOrCustom) -> (r: Option<TagValue>)
        ensures
            final(self)@ == old(self)@.remove(id@),
            r is Some <==> old(self)@.contains_key(id@),
            r matches Some(value) ==> value@ == old(self)@[id@] && value.kind() == (match id@ {
                TagId::Known(k) => k,
                TagId::Custom(_) => TagKind::Unknown,
            }),
    {
        proof {
            use_type_invariant(&*self);
        }
        match find(&self.slots, id) {
            Some(i) => {
                let mut slots = Vec::new();
                std::mem::swap(&mut slots, &mut self.slots);
                proof {
                    lemma_found(slots@, id@, i as int);
                    lemma_remove(slots@, i as int);
                    assert(slot_fits(slots@[i as int]));
                }
                let slot = slots.remove(i);
                proof {
                    assert forall|j: int| 0 <= j < slots@.len() implies slot_fits(
                        #[trigger] slots@[j],
                    ) by {
                        let j0 = if j < i { j } else { j + 1 };
                        assert(slots@[j] == old(self).slots@[j0]);
                    }
                }
                self.slots = slots;
                Some(slot.value)
            },
            None => None,
        }
    }
}

} // verus!
