//! The items of the last scan, and the rows in which they are shown.

use crate::scan::scanner::{
    item_views, started, ClassView, Classification, Item, ItemView, ScanAction,
    Scanner, DEPTH_LIMIT,
};
use crate::tag::content::{Content, TagId, TagKind};
use crate::tag::fields::{Album, Artist, Title};
use crate::tag::tag_set::TagSet;
use vstd::prelude::*;

verus! {

/// Where the music is looked for.
pub const DEFAULT_MUSIC: &'static str = "~/Music";

/// One cell of the grid: what is shown of an item.
#[derive(Clone, Debug, PartialEq, Eq)]
pub struct AlbumItem {
    pub album: String,
    pub artist: String,
    /// The place of the item in the list.
    pub id: i32,
    pub title: String,
}

pub struct CellView {
    pub album: Seq<char>,
    pub artist: Seq<char>,
    pub id: int,
    pub title: Seq<char>,
}

impl View for AlbumItem {
    type V = CellView;

    open spec fn view(&self) -> CellView {
        CellView {
            album: self.album@,
            artist: self.artist@,
            id: self.id as int,
            title: self.title@,
        }
    }
}

/// The text of a field of an item, and `placeholder` where the item has no
/// tags, or no such field.
pub open spec fn shown(class: ClassView, kind: TagKind, placeholder: Seq<char>) -> Seq<char> {
    match class {
        ClassView::TaggedAudio(fields) => if fields.contains_key(TagId::Known(kind)) {
            match fields[TagId::Known(kind)] {
                Content::Text(text) => text,
                _ => placeholder,
            }
        } else {
            placeholder
        },
        _ => placeholder,
    }
}

/// The cell of the item at place `id`.
pub open spec fn cell_of(item: ItemView, id: int) -> CellView {
    CellView {
        album: shown(item.class, TagKind::Album, "ALBUM"@),
        artist: shown(item.class, TagKind::Artist, "ARTIST"@),
        id,
        title: shown(item.class, TagKind::Title, "TITLE"@),
    }
}

/// How many cells a row has: `items_per`, and one where that is nothing.
pub open spec fn row_width(items_per: usize) -> int {
    if items_per == 0 {
        1
    } else {
        items_per as int
    }
}

fn tags_of(item: &Item) -> (tags: Option<&TagSet>)
    ensures
        match tags {
            Some(set) => item@.class == ClassView::TaggedAudio(set@),
            None => !(item@.class is TaggedAudio),
        },
{
    match &item.classification {
        Classification::TaggedAudio(set) => Some(set),
        _ => None,
    }
}

fn cell(item: &Item, id: i32) -> (cell: AlbumItem)
    ensures
        cell@ == cell_of(item@, id as int),
{
    let tags = tags_of(item);
    let album = match tags {
        Some(set) => match set.get_typed_tag::<Album>() {
            Some(tag) => tag.0.clone(),
            None => "ALBUM".to_owned(),
        },
        None => "ALBUM".to_owned(),
    };
    let artist = match tags {
        Some(set) => match set.get_typed_tag::<Artist>() {
            Some(tag) => tag.0.clone(),
            None => "ARTIST".to_owned(),
        },
        None => "ARTIST".to_owned(),
    };
    let title = match tags {
        Some(set) => match set.get_typed_tag::<Title>() {
            Some(tag) => tag.0.clone(),
            None => "TITLE".to_owned(),
        },
        None => "TITLE".to_owned(),
    };
    AlbumItem { album, artist, id, title }
}

/// The items of the last scan, in the order of its walk.
#[derive(Debug)]
pub struct Tracks(pub Vec<Item>);

impl View for Tracks {
    type V = Seq<ItemView>;

    open spec fn view(&self) -> Seq<ItemView> {
        item_views(self.0@)
    }
}

/// The grid of a list in rows of `items_per`: as many rows as the list
/// fills, each cell with its place in the list.
pub open spec fn grid_of(items: Seq<ItemView>, items_per: usize) -> Seq<Seq<CellView>> {
    let width = row_width(items_per);
    Seq::new(
        (items.len() / width as nat) as nat,
        |r: int| Seq::new(width as nat, |c: int| cell_of(items[r * width + c], r * width + c)),
    )
}

/// The cells of a grid, row by row.
pub open spec fn cell_views(rows: Seq<Vec<AlbumItem>>) -> Seq<Seq<CellView>> {
    rows.map_values(|row: Vec<AlbumItem>| row@.map_values(|cell: AlbumItem| cell@))
}

impl Tracks {
    /// No items.
    pub fn new() -> (tracks: Self)
        ensures
            tracks@ == Seq::<ItemView>::empty(),
    {
        let tracks = Tracks(Vec::new());
        assert(tracks@ =~= Seq::<ItemView>::empty());
        tracks
    }

    /// Clears the list and begins a scan of the music directory: the list
    /// is empty until the scan is installed.
    pub fn begin_scan(&mut self) -> (r: (Scanner, ScanAction))
        ensures
            final(self)@ == Seq::<ItemView>::empty(),
            (r.0@, r.1@) == started(DEFAULT_MUSIC@, DEPTH_LIMIT),
    {
        self.0 = Vec::new();
        assert(self@ =~= Seq::<ItemView>::empty());
        Scanner::begin(DEFAULT_MUSIC.to_owned())
    }

    /// Puts the items of a scan at the end of the list.
    pub fn install(&mut self, scan: Scanner)
        ensures
            final(self)@ == old(self)@ + scan@.items,
    {
        let mut found = scan.into_items();
        let ghost before = self.0@;
        let ghost added = found@;
        self.0.append(&mut found);
        assert(item_views(before + added) =~= item_views(before) + item_views(added));
    }

    /// The cells of the grid in rows of `items_per`, in the order of the
    /// list, each cell with its place in the list; a row of one where
    /// `items_per` is nothing. A last row that is not full is left out.
    pub fn clone_to_multi_vec(&self, items_per: usize) -> (rows: Vec<Vec<AlbumItem>>)
        requires
            self@.len() <= i32::MAX,
        ensures
            cell_views(rows@) == grid_of(self@, items_per),
    {
        let ghost width = row_width(items_per);
        let mut ret: Vec<Vec<AlbumItem>> = Vec::new();
        let mut chunk: Vec<AlbumItem> = Vec::new();
        let mut e: usize = 0;
        assert(0 * width == 0) by (nonlinear_arith);
        while e < self.0.len()
            invariant
                width == row_width(items_per),
                e <= self.0@.len() <= i32::MAX,
                chunk@.len() < width,
                ret@.len() * width + chunk@.len() == e,
                forall|r: int| 0 <= r < ret@.len() ==> (#[trigger] ret@[r])@.len() == width,
                forall|r: int, c: int|
                    0 <= r < ret@.len() && 0 <= c < width ==> (#[trigger] ret@[r]@[c])@ == cell_of(
                        self@[r * width + c],
                        r * width + c,
                    ),
                forall|c: int|
                    0 <= c < chunk@.len() ==> (#[trigger] chunk@[c])@ == cell_of(
                        self@[ret@.len() * width + c],
                        ret@.len() * width + c,
                    ),
            decreases self.0@.len() - e,
        {
            let x = cell(&self.0[e], e as i32);
            chunk.push(x);
            if chunk.len() >= items_per {
                let mut row = Vec::new();
                std::mem::swap(&mut row, &mut chunk);
                let ghost full = ret@.len() as int;
                ret.push(row);
                assert((full + 1) * width == full * width + width) by (nonlinear_arith);
            }
            e = e + 1;
        }
        proof {
            let n = self@.len() as int;
            let q = ret@.len() as int;
            let left = chunk@.len() as int;
            assert(q == n / width) by (nonlinear_arith)
                requires
                    q * width + left == n,
                    0 <= left < width,
                    0 <= q,
            ;
            let grid = grid_of(self@, items_per);
            assert(cell_views(ret@).len() == grid.len());
            assert forall|r: int| 0 <= r < grid.len() implies cell_views(ret@)[r] == grid[r] by {
                assert(ret@[r]@.len() == width);
                assert forall|c: int| 0 <= c < width implies cell_views(ret@)[r][c]
                    == grid[r][c] by {
                    assert(ret@[r]@[c]@ == cell_of(self@[r * width + c], r * width + c));
                }
                assert(cell_views(ret@)[r] =~= grid[r]);
            }
            assert(cell_views(ret@) =~= grid);
        }
        ret
    }

    /// The rows of the grid for a width of `max_per_row` cells, where the
    /// rows that are `shown` have another width. Nothing where no row is
    /// shown at all, or where the first row shown has that width already.
    pub fn width_changed(&self, shown: &Vec<Vec<AlbumItem>>, max_per_row: usize) -> (rows: Option<
        Vec<Vec<AlbumItem>>,
    >)
        requires
            self@.len() <= i32::MAX,
        ensures
            match rows {
                Some(rows) => shown@.len() > 0 && shown@[0]@.len() != max_per_row && cell_views(
                    rows@,
                ) == grid_of(self@, max_per_row),
                None => shown@.len() == 0 || shown@[0]@.len() == max_per_row,
            },
    {
        if shown.len() == 0 {
            // fail on empty vec
            return None;
        }
        // there is a single case where this will always result in a refresh:
        // where the total songs is less than the max-per-row.
        if shown[0].len() == max_per_row {
            return None;
        }
        Some(self.clone_to_multi_vec(max_per_row))
    }
}

} // verus!
