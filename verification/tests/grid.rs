use mioplays::grid::{AlbumItem, Tracks, DEFAULT_MUSIC};
use mioplays::scan::{Classification, Item, ScanAction};
use mioplays::tag::{Album, Artist, TagSet, Title};

fn plain(path: &str) -> Item {
    Item { path: path.to_string(), classification: Classification::PlainFile }
}

fn placeholder(id: i32) -> AlbumItem {
    AlbumItem {
        album: "ALBUM".to_string(),
        artist: "ARTIST".to_string(),
        id,
        title: "TITLE".to_string(),
    }
}

#[test]
fn rows_are_full_and_a_short_last_row_is_left_out() {
    let tracks = Tracks((0..7).map(|i| plain(&format!("{i}"))).collect());
    let rows = tracks.clone_to_multi_vec(3);
    assert_eq!(
        rows,
        vec![
            vec![placeholder(0), placeholder(1), placeholder(2)],
            vec![placeholder(3), placeholder(4), placeholder(5)],
        ]
    );
    assert_eq!(tracks.clone_to_multi_vec(7).len(), 1);
    assert_eq!(tracks.clone_to_multi_vec(8).len(), 0);
}

#[test]
fn rows_of_nothing_are_rows_of_one() {
    let tracks = Tracks(vec![plain("a"), plain("b")]);
    assert_eq!(tracks.clone_to_multi_vec(0), vec![vec![placeholder(0)], vec![placeholder(1)]]);
    assert_eq!(tracks.clone_to_multi_vec(1), vec![vec![placeholder(0)], vec![placeholder(1)]]);
    assert_eq!(Tracks::new().clone_to_multi_vec(0), Vec::<Vec<AlbumItem>>::new());
}

#[test]
fn cell_shows_the_tags_of_its_item() {
    let mut tags = TagSet::new();
    assert_eq!(tags.push_typed_tag(Title("Foo".to_string())), Ok(()));
    assert_eq!(tags.push_typed_tag(Album("Bar".to_string())), Ok(()));
    let mut partly = TagSet::new();
    assert_eq!(partly.push_typed_tag(Artist("Baz".to_string())), Ok(()));
    let tracks = Tracks(vec![
        Item { path: "a.mp3".to_string(), classification: Classification::TaggedAudio(tags) },
        Item { path: "b.mp3".to_string(), classification: Classification::TaggedAudio(partly) },
        Item { path: "c.wav".to_string(), classification: Classification::UndecodedAudio },
    ]);
    let rows = tracks.clone_to_multi_vec(3);
    assert_eq!(
        rows,
        vec![vec![
            AlbumItem {
                album: "Bar".to_string(),
                artist: "ARTIST".to_string(),
                id: 0,
                title: "Foo".to_string(),
            },
            AlbumItem {
                album: "ALBUM".to_string(),
                artist: "Baz".to_string(),
                id: 1,
                title: "TITLE".to_string(),
            },
            placeholder(2),
        ]]
    );
}

#[test]
fn scan_replaces_the_list_wholesale() {
    let mut tracks = Tracks(vec![plain("old")]);
    let (scan, action) = tracks.begin_scan();
    assert_eq!(action, ScanAction::Open(DEFAULT_MUSIC.to_string()));
    assert_eq!(DEFAULT_MUSIC, "~/Music");
    assert!(tracks.0.is_empty());
    let (scan, action) = scan.step(mioplays::scan::ScanEvent::Entry(mioplays::scan::DirEntry {
        path: "~/Music/x.txt".to_string(),
        kind: mioplays::scan::EntryKind::File,
        extension: Some("txt".to_string()),
    }));
    assert_eq!(action, ScanAction::Next);
    let (scan, action) = scan.step(mioplays::scan::ScanEvent::EndOfDirectory);
    assert_eq!(action, ScanAction::Finished);
    tracks.install(scan);
    assert_eq!(tracks.0.len(), 1);
    assert_eq!(tracks.0[0].path, "~/Music/x.txt");
}

#[test]
fn grid_is_laid_out_anew_only_for_another_width() {
    let tracks = Tracks((0..4).map(|i| plain(&format!("{i}"))).collect());
    let shown = tracks.clone_to_multi_vec(2);
    assert_eq!(tracks.width_changed(&shown, 2), None);
    assert_eq!(tracks.width_changed(&vec![], 3), None);
    assert_eq!(
        tracks.width_changed(&shown, 4),
        Some(vec![vec![placeholder(0), placeholder(1), placeholder(2), placeholder(3)]])
    );
    assert_eq!(tracks.width_changed(&shown, 5), Some(vec![]));
    assert_eq!(tracks.width_changed(&vec![vec![]], 1).map(|rows| rows.len()), Some(4));
}
