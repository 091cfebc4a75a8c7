use super::extension::{
    check_extension_for_sound_decoder, check_extension_for_tag_decoder, sound_extension,
    tagged_extension,
};
use crate::tag::content::Fields;
use crate::tag::tag_read::DecodeError;
use crate::tag::tag_set::TagSet;
use vstd::prelude::*;

verus! {

/// How many directories deep a scan goes, the root counted.
pub const DEPTH_LIMIT: u8 = 10;

/// What an entry of a directory is.
#[derive(Clone, Copy, Debug, PartialEq, Eq, Structural)]
pub enum EntryKind {
    File,
    Directory,
    /// Neither a regular file nor a directory.
    Other,
}

/// An entry of a directory, as its listing shows it.
#[derive(Clone, Debug, PartialEq, Eq)]
pub struct DirEntry {
    pub path: String,
    pub kind: EntryKind,
    /// The extension of the path, without the dot.
    pub extension: Option<String>,
}

/// What a file was found to be.
#[derive(Debug)]
pub enum Classification {
    PlainFile,
    /// Audio by its extension, with no tags decoded.
    UndecodedAudio,
    /// A file whose tags were decoded.
    TaggedAudio(TagSet),
}

/// A file that a scan found.
#[derive(Debug)]
pub struct Item {
    pub path: String,
    pub classification: Classification,
}

/// What the caller found when it did what the scan asked for.
#[derive(Debug)]
pub enum ScanEvent {
    /// The next entry of the innermost open directory.
    Entry(DirEntry),
    /// The innermost open directory has no more entries; it is closed now.
    EndOfDirectory,
    /// The outcome of the decode that was asked for.
    Decoded(Result<TagSet, DecodeError>),
}

/// What the scan asks the caller to do next.
#[derive(Clone, Debug, PartialEq, Eq)]
pub enum ScanAction {
    /// Open this directory as the innermost one, and hand over its first
    /// entry, or its end.
    Open(String),
    /// Hand over the next entry of the innermost open directory, or its
    /// end.
    Next,
    /// Decode the tags of this file and hand over the outcome.
    Decode(String),
    /// Nothing: the scan is over.
    Finished,
}

pub enum ClassView {
    PlainFile,
    UndecodedAudio,
    TaggedAudio(Fields),
}

pub struct ItemView {
    pub path: Seq<char>,
    pub class: ClassView,
}

pub enum EventView {
    Entry { path: Seq<char>, kind: EntryKind, extension: Option<Seq<char>> },
    EndOfDirectory,
    /// The fields that a decode gave, nothing where it failed.
    Decoded(Option<Fields>),
}

pub enum ActionView {
    Open(Seq<char>),
    Next,
    Decode(Seq<char>),
    Finished,
}

/// What a scan waits for.
pub enum Waiting {
    /// An entry of the innermost open directory, or its end.
    Entry,
    /// The outcome of the decode of this file, which is audio or not.
    Decode { path: Seq<char>, audio: bool },
    /// Nothing: the scan is over.
    Nothing,
}

/// A scan as a mathematical value.
pub struct ScanView {
    /// The budget of each open directory, the root's first: how many
    /// directories deep the walk may still go from there, itself counted.
    pub budgets: Seq<u8>,
    pub waiting: Waiting,
    /// The items found so far, in the order of the walk.
    pub items: Seq<ItemView>,
    /// The directories that were not entered, because the budget was used
    /// up: the scan is incomplete below each of them.
    pub truncated: Seq<Seq<char>>,
}

impl View for Classification {
    type V = ClassView;

    open spec fn view(&self) -> ClassView {
        match self {
            Classification::PlainFile => ClassView::PlainFile,
            Classification::UndecodedAudio => ClassView::UndecodedAudio,
            Classification::TaggedAudio(tags) => ClassView::TaggedAudio(tags@),
        }
    }
}

impl View for Item {
    type V = ItemView;

    open spec fn view(&self) -> ItemView {
        ItemView { path: self.path@, class: self.classification@ }
    }
}

impl View for ScanEvent {
    type V = EventView;

    open spec fn view(&self) -> EventView {
        match self {
            ScanEvent::Entry(entry) => EventView::Entry {
                path: entry.path@,
                kind: entry.kind,
                extension: match entry.extension {
                    Some(ext) => Some(ext@),
                    None => None,
                },
            },
            ScanEvent::EndOfDirectory => EventView::EndOfDirectory,
            ScanEvent::Decoded(Ok(tags)) => EventView::Decoded(Some(tags@)),
            ScanEvent::Decoded(Err(_)) => EventView::Decoded(None),
        }
    }
}

impl View for ScanAction {
    type V = ActionView;

    open spec fn view(&self) -> ActionView {
        match self {
            ScanAction::Open(path) => ActionView::Open(path@),
            ScanAction::Next => ActionView::Next,
            ScanAction::Decode(path) => ActionView::Decode(path@),
            ScanAction::Finished => ActionView::Finished,
        }
    }
}

/// The views of a list of items, in order.
pub open spec fn item_views(items: Seq<Item>) -> Seq<ItemView> {
    items.map_values(|item: Item| item@)
}

/// The characters of each path of a list.
pub open spec fn path_views(paths: Seq<String>) -> Seq<Seq<char>> {
    paths.map_values(|path: String| path@)
}

/// Whether a file with this extension has its tags decoded.
pub open spec fn tags_likely(extension: Option<Seq<char>>) -> bool {
    match extension {
        Some(ext) => tagged_extension(ext),
        None => false,
    }
}

/// Whether a file with this extension counts as audio.
pub open spec fn audio_likely(extension: Option<Seq<char>>) -> bool {
    match extension {
        Some(ext) => sound_extension(ext),
        None => false,
    }
}

/// What a file is without tags: audio by its extension, or a plain file.
pub open spec fn untagged(audio: bool) -> ClassView {
    if audio {
        ClassView::UndecodedAudio
    } else {
        ClassView::PlainFile
    }
}

/// What a file is once its decode has ended: tagged audio with the fields
/// that the decode gave, and what it is without tags where the decode
/// failed.
pub open spec fn decoded_class(audio: bool, decoded: Option<Fields>) -> ClassView {
    match decoded {
        Some(fields) => ClassView::TaggedAudio(fields),
        None => untagged(audio),
    }
}

/// The scan at its start, with what it asks for first. With no budget at
/// all the root itself is not entered.
pub open spec fn started(root: Seq<char>, limit: u8) -> (ScanView, ActionView) {
    if limit == 0 {
        (
            ScanView {
                budgets: Seq::empty(),
                waiting: Waiting::Nothing,
                items: Seq::empty(),
                truncated: seq![root],
            },
            ActionView::Finished,
        )
    } else {
        (
            ScanView {
                budgets: seq![limit],
                waiting: Waiting::Entry,
                items: Seq::empty(),
                truncated: Seq::empty(),
            },
            ActionView::Open(root),
        )
    }
}

/// The scan after an event, with what it asks for next.
pub open spec fn stepped(scan: ScanView, event: EventView) -> (ScanView, ActionView) {
    match scan.waiting {
        Waiting::Nothing => (scan, ActionView::Finished),
        Waiting::Decode { path, audio } => match event {
            EventView::Decoded(decoded) => (
                recorded(scan, path, decoded_class(audio, decoded)),
                ActionView::Next,
            ),
            // Anything else is out of turn: the scan asks again.
            _ => (scan, ActionView::Decode(path)),
        },
        Waiting::Entry => match event {
            EventView::Entry { path, kind, extension } => match kind {
                EntryKind::File => met_file(scan, path, extension),
                EntryKind::Directory => met_directory(scan, path),
                EntryKind::Other => (scan, ActionView::Next),
            },
            EventView::EndOfDirectory => left_directory(scan),
            // A decode that nobody asked for is passed over.
            EventView::Decoded(_) => (scan, ActionView::Next),
        },
    }
}

/// The scan with one more item, waiting for the next entry.
pub open spec fn recorded(scan: ScanView, path: Seq<char>, class: ClassView) -> ScanView {
    ScanView { waiting: Waiting::Entry, items: scan.items.push(ItemView { path, class }), ..scan }
}

/// A file was met: its tags are asked for where its extension promises
/// any; else it is recorded as what its extension makes it.
pub open spec fn met_file(scan: ScanView, path: Seq<char>, extension: Option<Seq<char>>) -> (
    ScanView,
    ActionView,
) {
    if tags_likely(extension) {
        (
            ScanView { waiting: Waiting::Decode { path, audio: audio_likely(extension) }, ..scan },
            ActionView::Decode(path),
        )
    } else {
        (recorded(scan, path, untagged(audio_likely(extension))), ActionView::Next)
    }
}

/// A directory was met: it is entered with one less than the budget of
/// the directory that holds it, and left out where that leaves nothing.
pub open spec fn met_directory(scan: ScanView, path: Seq<char>) -> (ScanView, ActionView) {
    if scan.budgets.len() > 0 && scan.budgets.last() > 1 {
        (
            ScanView { budgets: scan.budgets.push((scan.budgets.last() - 1) as u8), ..scan },
            ActionView::Open(path),
        )
    } else {
        (ScanView { truncated: scan.truncated.push(path), ..scan }, ActionView::Next)
    }
}

/// The innermost directory has ended: the walk goes on in the directory
/// that holds it, and is over where that was the root.
pub open spec fn left_directory(scan: ScanView) -> (ScanView, ActionView) {
    if scan.budgets.len() <= 1 {
        (
            ScanView { budgets: Seq::empty(), waiting: Waiting::Nothing, ..scan },
            ActionView::Finished,
        )
    } else {
        (ScanView { budgets: scan.budgets.drop_last(), ..scan }, ActionView::Next)
    }
}

/// What holds of a scan at all times: while it runs, a directory is open;
/// each open directory has a budget left, one less than the directory
/// above it.
pub open spec fn in_order(scan: ScanView) -> bool {
    &&& scan.waiting !is Nothing ==> scan.budgets.len() > 0
    &&& forall|i: int| 0 <= i < scan.budgets.len() ==> (#[trigger] scan.budgets[i]) >= 1
    &&& forall|i: int|
        0 < i < scan.budgets.len() ==> (#[trigger] scan.budgets[i]) + 1 == scan.budgets[i - 1]
}

enum Awaiting {
    Entry,
    Decode { path: String, audio: bool },
    Nothing,
}

impl View for Awaiting {
    type V = Waiting;

    closed spec fn view(&self) -> Waiting {
        match self {
            Awaiting::Entry => Waiting::Entry,
            Awaiting::Decode { path, audio } => Waiting::Decode { path: path@, audio: *audio },
            Awaiting::Nothing => Waiting::Nothing,
        }
    }
}

/// A scan in progress.
pub struct Scanner {
    budgets: Vec<u8>,
    awaiting: Awaiting,
    items: Vec<Item>,
    truncated: Vec<String>,
}

impl View for Scanner {
    type V = ScanView;

    closed spec fn view(&self) -> ScanView {
        ScanView {
            budgets: self.budgets@,
            waiting: self.awaiting@,
            items: item_views(self.items@),
            truncated: path_views(self.truncated@),
        }
    }
}

proof fn lemma_items_push(items: Seq<Item>, item: Item)
    ensures
        item_views(items.push(item)) == item_views(items).push(item@),
{
    assert(item_views(items.push(item)) =~= item_views(items).push(item@));
}

proof fn lemma_paths_push(paths: Seq<String>, path: String)
    ensures
        path_views(paths.push(path)) == path_views(paths).push(path@),
{
    assert(path_views(paths.push(path)) =~= path_views(paths).push(path@));
}

impl Scanner {
    #[verifier::type_invariant]
    spec fn well_formed(self) -> bool {
        in_order(self@)
    }

    /// A scan of the tree under `root`, to the usual depth, with what it
    /// asks for first.
    pub fn begin(root: String) -> (r: (Scanner, ScanAction))
        ensures
            (r.0@, r.1@) == started(root@, DEPTH_LIMIT),
    {
        Scanner::with_limit(root, DEPTH_LIMIT)
    }

    /// A scan of the tree under `root` that goes `limit` directories deep,
    /// the root counted, with what it asks for first.
    pub fn with_limit(root: String, limit: u8) -> (r: (Scanner, ScanAction))
        ensures
            (r.0@, r.1@) == started(root@, limit),
    {
        if limit == 0 {
            let mut truncated = Vec::new();
            truncated.push(root);
            let scan = Scanner {
                budgets: Vec::new(),
                awaiting: Awaiting::Nothing,
                items: Vec::new(),
                truncated,
            };
            assert(scan@.truncated =~= seq![root@]);
            assert(scan@.items =~= Seq::empty());
            (scan, ScanAction::Finished)
        } else {
            let mut budgets = Vec::new();
            budgets.push(limit);
            let scan = Scanner {
                budgets,
                awaiting: Awaiting::Entry,
                items: Vec::new(),
                truncated: Vec::new(),
            };
            assert(scan@.truncated =~= Seq::empty());
            assert(scan@.items =~= Seq::empty());
            assert(scan@.budgets =~= seq![limit]);
            (scan, ScanAction::Open(root))
        }
    }

    /// Takes in what the caller found and answers what to do next.
    pub fn step(self, event: ScanEvent) -> (r: (Scanner, ScanAction))
        ensures
            (r.0@, r.1@) == stepped(self@, event@),
    {
        proof {
            use_type_invariant(&self);
        }
        let Scanner { budgets, awaiting, items, truncated } = self;
        match awaiting {
            Awaiting::Nothing => (
                Scanner { budgets, awaiting: Awaiting::Nothing, items, truncated },
                ScanAction::Finished,
            ),
            Awaiting::Decode { path, audio } => match event {
                ScanEvent::Decoded(outcome) => {
                    let classification = match outcome {
                        Ok(tags) => Classification::TaggedAudio(tags),
                        Err(_) => if audio {
                            Classification::UndecodedAudio
                        } else {
                            Classification::PlainFile
                        },
                    };
                    let item = Item { path, classification };
                    let mut items = items;
                    proof {
                        lemma_items_push(items@, item);
                    }
                    items.push(item);
                    (
                        Scanner { budgets, awaiting: Awaiting::Entry, items, truncated },
                        ScanAction::Next,
                    )
                },
                _ => {
                    let again = path.clone();
                    (
                        Scanner {
                            budgets,
                            awaiting: Awaiting::Decode { path, audio },
                            items,
                            truncated,
                        },
                        ScanAction::Decode(again),
                    )
                },
            },
            Awaiting::Entry => match event {
                ScanEvent::Entry(entry) => {
                    let DirEntry { path, kind, extension } = entry;
                    match kind {
                        EntryKind::File => {
                            let (tags, audio) = match &extension {
                                Some(ext) => (
                                    check_extension_for_tag_decoder(ext.as_str()),
                                    check_extension_for_sound_decoder(ext.as_str()),
                                ),
                                None => (false, false),
                            };
                            if tags {
                                let asked = path.clone();
                                (
                                    Scanner {
                                        budgets,
                                        awaiting: Awaiting::Decode { path, audio },
                                        items,
                                        truncated,
                                    },
                                    ScanAction::Decode(asked),
                                )
                            } else {
                                let classification = if audio {
                                    Classification::UndecodedAudio
                                } else {
                                    Classification::PlainFile
                                };
                                let item = Item { path, classification };
                                let mut items = items;
                                proof {
                                    lemma_items_push(items@, item);
                                }
                                items.push(item);
                                (
                                    Scanner { budgets, awaiting: Awaiting::Entry, items, truncated },
                                    ScanAction::Next,
                                )
                            }
                        },
                        EntryKind::Directory => {
                            let left = budgets[budgets.len() - 1];
                            if left > 1 {
                                let mut budgets = budgets;
                                budgets.push(left - 1);
                                (
                                    Scanner { budgets, awaiting: Awaiting::Entry, items, truncated },
                                    ScanAction::Open(path),
                                )
                            } else {
                                let mut truncated = truncated;
                                proof {
                                    lemma_paths_push(truncated@, path);
                                }
                                truncated.push(path);
                                (
                                    Scanner { budgets, awaiting: Awaiting::Entry, items, truncated },
                                    ScanAction::Next,
                                )
                            }
                        },
                        EntryKind::Other => (
                            Scanner { budgets, awaiting: Awaiting::Entry, items, truncated },
                            ScanAction::Next,
                        ),
                    }
                },
                ScanEvent::EndOfDirectory => {
                    if budgets.len() <= 1 {
                        (
                            Scanner {
                                budgets: Vec::new(),
                                awaiting: Awaiting::Nothing,
                                items,
                                truncated,
                            },
                            ScanAction::Finished,
                        )
                    } else {
                        let mut budgets = budgets;
                        let _ = budgets.pop();
                        assert(budgets@ =~= self.budgets@.drop_last());
                        (
                            Scanner { budgets, awaiting: Awaiting::Entry, items, truncated },
                            ScanAction::Next,
                        )
                    }
                },
                ScanEvent::Decoded(_) => (
                    Scanner { budgets, awaiting: Awaiting::Entry, items, truncated },
                    ScanAction::Next,
                ),
            },
        }
    }

    /// Whether the scan is over.
    pub fn is_finished(&self) -> (over: bool)
        ensures
            over == (self@.waiting is Nothing),
    {
        match self.awaiting {
            Awaiting::Nothing => true,
            _ => false,
        }
    }

    /// Whether the walk has entered every directory it met so far: none
    /// was left out for want of budget.
    pub fn is_complete(&self) -> (whole: bool)
        ensures
            whole == (self@.truncated.len() == 0),
    {
        self.truncated.len() == 0
    }

    /// The directories that were not entered, in the order they were met.
    pub fn truncated(&self) -> (paths: &Vec<String>)
        ensures
            path_views(paths@) == self@.truncated,
    {
        &self.truncated
    }

    /// The items found so far, in the order of the walk.
    pub fn items(&self) -> (items: &Vec<Item>)
        ensures
            item_views(items@) == self@.items,
    {
        &self.items
    }

    /// Ends the scan and hands out its items.
    pub fn into_items(self) -> (items: Vec<Item>)
        ensures
            item_views(items@) == self@.items,
    {
        self.items
    }
}

} // verus!
