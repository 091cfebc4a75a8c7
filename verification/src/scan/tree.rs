//! What a scan finds in a directory tree. The tree stands for what is on
//! disk while the scan runs: the entries of each directory in the order of
//! its listing, and for each file what a decode of it gives.

use super::scanner::{
    audio_likely, decoded_class, in_order, started, stepped, tags_likely, untagged, ActionView,
    EntryKind, EventView, ItemView, ScanView, Waiting,
};
use crate::tag::content::Fields;
use vstd::prelude::*;

verus! {

/// An entry of a directory, with what lies below it.
pub enum Node {
    File {
        path: Seq<char>,
        extension: Option<Seq<char>>,
        /// The fields that a decode of the file gives, nothing where it fails.
        decoded: Option<Fields>,
    },
    Directory { path: Seq<char>, children: Seq<Node> },
    Other { path: Seq<char> },
}

/// The item that a file becomes.
pub open spec fn file_item(
    path: Seq<char>,
    extension: Option<Seq<char>>,
    decoded: Option<Fields>,
) -> ItemView {
    ItemView {
        path,
        class: if tags_likely(extension) {
            decoded_class(audio_likely(extension), decoded)
        } else {
            untagged(audio_likely(extension))
        },
    }
}

/// The files of a tree, each as the item it becomes, in the order of a
/// walk that goes as deep as the tree does.
pub open spec fn node_files(node: Node) -> Seq<ItemView>
    decreases node,
{
    match node {
        Node::File { path, extension, decoded } => seq![file_item(path, extension, decoded)],
        Node::Directory { path, children } => list_files(children),
        Node::Other { path } => Seq::empty(),
    }
}

/// The files of the trees below the entries of a directory.
pub open spec fn list_files(children: Seq<Node>) -> Seq<ItemView>
    decreases children,
{
    if children.len() == 0 {
        Seq::empty()
    } else {
        list_files(children.drop_last()) + node_files(children.last())
    }
}

/// Whether a directory with these entries, and all below it, is at most
/// `depth` directories deep, itself counted.
pub open spec fn fits(children: Seq<Node>, depth: nat) -> bool
    decreases depth,
{
    depth >= 1 && forall|i: int|
        0 <= i < children.len() ==> match #[trigger] children[i] {
            Node::Directory { path, children: inner } => depth > 1 && fits(
                inner,
                (depth - 1) as nat,
            ),
            _ => true,
        }
}

/// A walk: what it finds, what it leaves out, and what the scan is told on
/// the way.
pub struct Walk {
    pub items: Seq<ItemView>,
    pub truncated: Seq<Seq<char>>,
    pub events: Seq<EventView>,
}

pub open spec fn nothing() -> Walk {
    Walk { items: Seq::empty(), truncated: Seq::empty(), events: Seq::empty() }
}

pub open spec fn then(first: Walk, second: Walk) -> Walk {
    Walk {
        items: first.items + second.items,
        truncated: first.truncated + second.truncated,
        events: first.events + second.events,
    }
}

/// The walk over one entry of a directory that was opened with `budget`.
pub open spec fn walk_node(node: Node, budget: nat) -> Walk
    decreases budget, 0nat,
{
    match node {
        Node::File { path, extension, decoded } => Walk {
            items: seq![file_item(path, extension, decoded)],
            truncated: Seq::empty(),
            events: if tags_likely(extension) {
                seq![
                    EventView::Entry { path, kind: EntryKind::File, extension },
                    EventView::Decoded(decoded),
                ]
            } else {
                seq![EventView::Entry { path, kind: EntryKind::File, extension }]
            },
        },
        Node::Directory { path, children } => if budget > 1 {
            let inner = walk_list(children, (budget - 1) as nat);
            Walk {
                items: inner.items,
                truncated: inner.truncated,
                events: seq![EventView::Entry { path, kind: EntryKind::Directory, extension: None }]
                    + inner.events + seq![EventView::EndOfDirectory],
            }
        } else {
            Walk {
                items: Seq::empty(),
                truncated: seq![path],
                events: seq![EventView::Entry { path, kind: EntryKind::Directory, extension: None }],
            }
        },
        Node::Other { path } => Walk {
            items: Seq::empty(),
            truncated: Seq::empty(),
            events: seq![EventView::Entry { path, kind: EntryKind::Other, extension: None }],
        },
    }
}

/// The walk over the entries of a directory that was opened with `budget`,
/// up to its end.
pub open spec fn walk_list(children: Seq<Node>, budget: nat) -> Walk
    decreases budget, children.len() + 1,
{
    if children.len() == 0 {
        nothing()
    } else {
        then(walk_list(children.drop_last(), budget), walk_node(children.last(), budget))
    }
}

/// The scan after a run of events.
pub open spec fn run(scan: ScanView, events: Seq<EventView>) -> ScanView
    decreases events.len(),
{
    if events.len() == 0 {
        scan
    } else {
        stepped(run(scan, events.drop_last()), events.last()).0
    }
}

/// The scan with what a walk found added to it.
pub open spec fn with_walk(scan: ScanView, walk: Walk) -> ScanView {
    ScanView {
        items: scan.items + walk.items,
        truncated: scan.truncated + walk.truncated,
        ..scan
    }
}

/// A scan that waits for an entry of a directory opened with `budget`.
pub open spec fn listing(scan: ScanView, budget: nat) -> bool {
    &&& in_order(scan)
    &&& scan.waiting is Entry
    &&& scan.budgets.len() > 0
    &&& scan.budgets.last() == budget
}

proof fn lemma_run_one(scan: ScanView, event: EventView)
    ensures
        run(scan, seq![event]) == stepped(scan, event).0,
{
    let events = seq![event];
    assert(events.drop_last() =~= Seq::empty());
    assert(events.last() == event);
    assert(run(scan, events.drop_last()) == scan);
}

proof fn lemma_run_then(scan: ScanView, first: Seq<EventView>, second: Seq<EventView>)
    ensures
        run(scan, first + second) == run(run(scan, first), second),
    decreases second.len(),
{
    if second.len() == 0 {
        assert(first + second =~= first);
    } else {
        lemma_run_then(scan, first, second.drop_last());
        assert((first + second).drop_last() =~= first + second.drop_last());
        assert((first + second).last() == second.last());
    }
}

proof fn lemma_with_nothing(scan: ScanView)
    ensures
        with_walk(scan, nothing()) == scan,
{
    assert(scan.items + nothing().items =~= scan.items);
    assert(scan.truncated + nothing().truncated =~= scan.truncated);
}

proof fn lemma_with_then(scan: ScanView, first: Walk, second: Walk)
    ensures
        with_walk(with_walk(scan, first), second) == with_walk(scan, then(first, second)),
{
    assert((scan.items + first.items) + second.items =~= scan.items + (first.items + second.items));
    assert((scan.truncated + first.truncated) + second.truncated =~= scan.truncated + (
    first.truncated + second.truncated));
}

/// Told what a walk over one entry finds, the scan has taken in what the
/// walk found and left out, and waits for the next entry of the same
/// directory.
pub proof fn lemma_scan_follows_node(scan: ScanView, node: Node, budget: nat)
    requires
        listing(scan, budget),
    ensures
        run(scan, walk_node(node, budget).events) == with_walk(scan, walk_node(node, budget)),
    decreases budget, 0nat,
{
    let walk = walk_node(node, budget);
    match node {
        Node::File { path, extension, decoded } => {
            let entry = EventView::Entry { path, kind: EntryKind::File, extension };
            if tags_likely(extension) {
                let asked = stepped(scan, entry).0;
                lemma_run_one(scan, entry);
                lemma_run_one(asked, EventView::Decoded(decoded));
                lemma_run_then(scan, seq![entry], seq![EventView::Decoded(decoded)]);
                assert(walk.events =~= seq![entry] + seq![EventView::Decoded(decoded)]);
            } else {
                lemma_run_one(scan, entry);
            }
            assert(scan.items.push(file_item(path, extension, decoded)) =~= scan.items
                + walk.items);
            assert(scan.truncated =~= scan.truncated + walk.truncated);
        },
        Node::Directory { path, children } => {
            let entry = EventView::Entry { path, kind: EntryKind::Directory, extension: None };
            lemma_run_one(scan, entry);
            if budget > 1 {
                let inner = walk_list(children, (budget - 1) as nat);
                let entered = stepped(scan, entry).0;
                assert(listing(entered, (budget - 1) as nat)) by {
                    assert forall|i: int| 0 < i < entered.budgets.len() implies (
                    #[trigger] entered.budgets[i]) + 1 == entered.budgets[i - 1] by {
                        if i < scan.budgets.len() {
                            assert(entered.budgets[i] == scan.budgets[i]);
                        }
                    }
                }
                lemma_scan_follows_list(entered, children, (budget - 1) as nat);
                let walked = with_walk(entered, inner);
                lemma_run_one(walked, EventView::EndOfDirectory);
                lemma_run_then(scan, seq![entry], inner.events);
                lemma_run_then(scan, seq![entry] + inner.events, seq![EventView::EndOfDirectory]);
                assert(walked.budgets.drop_last() =~= scan.budgets);
            } else {
                assert(scan.truncated.push(path) =~= scan.truncated + walk.truncated);
                assert(scan.items =~= scan.items + walk.items);
            }
        },
        Node::Other { path } => {
            let entry = EventView::Entry { path, kind: EntryKind::Other, extension: None };
            lemma_run_one(scan, entry);
            lemma_with_nothing(scan);
            assert(scan.items =~= scan.items + walk.items);
            assert(scan.truncated =~= scan.truncated + walk.truncated);
        },
    }
}

/// Told what a walk over the entries of a directory finds, the scan has
/// taken in what the walk found and left out, and waits for the end of the
/// directory.
pub proof fn lemma_scan_follows_list(scan: ScanView, children: Seq<Node>, budget: nat)
    requires
        listing(scan, budget),
    ensures
        run(scan, walk_list(children, budget).events) == with_walk(
            scan,
            walk_list(children, budget),
        ),
    decreases budget, children.len() + 1,
{
    if children.len() == 0 {
        lemma_with_nothing(scan);
    } else {
        let before = walk_list(children.drop_last(), budget);
        let last = walk_node(children.last(), budget);
        lemma_scan_follows_list(scan, children.drop_last(), budget);
        lemma_scan_follows_node(with_walk(scan, before), children.last(), budget);
        lemma_run_then(scan, before.events, last.events);
        lemma_with_then(scan, before, last);
    }
}

/// The events of a whole scan of a tree: the walk over the entries of the
/// root, and the root's end.
pub open spec fn scan_events(children: Seq<Node>, limit: u8) -> Seq<EventView> {
    walk_list(children, limit as nat).events.push(EventView::EndOfDirectory)
}

/// A scan of a tree ends with the items and the left-out directories of
/// the walk over the tree, whatever the tree.
pub proof fn lemma_scan_gives_walk(root: Seq<char>, children: Seq<Node>, limit: u8)
    requires
        limit >= 1,
    ensures
        run(started(root, limit).0, scan_events(children, limit)) == (ScanView {
            budgets: Seq::empty(),
            waiting: Waiting::Nothing,
            items: walk_list(children, limit as nat).items,
            truncated: walk_list(children, limit as nat).truncated,
        }),
        started(root, limit).1 == ActionView::Open(root),
{
    let begun = started(root, limit).0;
    let walk = walk_list(children, limit as nat);
    assert(listing(begun, limit as nat));
    lemma_scan_follows_list(begun, children, limit as nat);
    let walked = with_walk(begun, walk);
    assert(scan_events(children, limit).drop_last() =~= walk.events);
    assert(walked.items =~= walk.items);
    assert(walked.truncated =~= walk.truncated);
}

/// A walk with budget for the whole depth of a tree leaves nothing out and
/// finds every file of the tree.
pub proof fn lemma_fitting_tree_is_walked_whole(children: Seq<Node>, budget: nat)
    requires
        fits(children, budget),
    ensures
        walk_list(children, budget).truncated.len() == 0,
        walk_list(children, budget).items == list_files(children),
    decreases budget, children.len(),
{
    if children.len() > 0 {
        let before = children.drop_last();
        assert(fits(before, budget)) by {
            assert forall|i: int| 0 <= i < before.len() implies match #[trigger] before[i] {
                Node::Directory { path, children: inner } => budget > 1 && fits(
                    inner,
                    (budget - 1) as nat,
                ),
                _ => true,
            } by {
                assert(before[i] == children[i]);
            }
        }
        lemma_fitting_tree_is_walked_whole(before, budget);
        let last = children[children.len() - 1];
        assert(children.last() == last);
        let walked = walk_node(last, budget);
        match last {
            Node::Directory { path, children: inner } => {
                assert(budget > 1 && fits(inner, (budget - 1) as nat));
                lemma_fitting_tree_is_walked_whole(inner, (budget - 1) as nat);
                assert(walked.items == list_files(inner));
                assert(walked.truncated.len() == 0);
            },
            Node::File { path, extension, decoded } => {
                assert(walked.truncated.len() == 0);
            },
            Node::Other { path } => {
                assert(walked.truncated.len() == 0);
            },
        }
        assert(walked.items == node_files(last));
        assert(walk_list(children, budget) == then(walk_list(before, budget), walked));
        assert(walk_list(children, budget).truncated =~= Seq::empty());
    }
}

/// A walk over a tree that is deeper than its budget leaves a directory
/// out, and says which.
pub proof fn lemma_deeper_tree_is_truncated(children: Seq<Node>, budget: nat)
    requires
        budget >= 1,
        !fits(children, budget),
    ensures
        walk_list(children, budget).truncated.len() > 0,
    decreases budget, children.len(),
{
    if children.len() == 0 {
        assert(fits(children, budget));
    } else {
        let before = children.drop_last();
        let last = children[children.len() - 1];
        assert(children.last() == last);
        assert(walk_list(children, budget) == then(
            walk_list(before, budget),
            walk_node(last, budget),
        ));
        let deep = match last {
            Node::Directory { path, children: inner } => !(budget > 1 && fits(
                inner,
                (budget - 1) as nat,
            )),
            _ => false,
        };
        if deep {
            match last {
                Node::Directory { path, children: inner } => {
                    if budget > 1 {
                        lemma_deeper_tree_is_truncated(inner, (budget - 1) as nat);
                    }
                },
                _ => {},
            }
        } else {
            assert(!fits(before, budget)) by {
                if fits(before, budget) {
                    assert forall|i: int| 0 <= i < children.len() implies match #[trigger] children[i] {
                        Node::Directory { path, children: inner } => budget > 1 && fits(
                            inner,
                            (budget - 1) as nat,
                        ),
                        _ => true,
                    } by {
                        if i < before.len() {
                            assert(before[i] == children[i]);
                        }
                    }
                }
            }
            lemma_deeper_tree_is_truncated(before, budget);
        }
    }
}

} // verus!
