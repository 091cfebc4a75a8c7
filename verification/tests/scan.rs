use mioplays::scan::{
    check_extension_for_sound_decoder, check_extension_for_tag_decoder, Classification, DirEntry,
    EntryKind, Item, ScanAction, ScanEvent, Scanner, DEPTH_LIMIT,
};
use mioplays::tag::{DecodeError, RawValue, TagSet, Title, UnknownItem};

fn file(path: &str) -> ScanEvent {
    let extension = path.rsplit_once('.').map(|(_, ext)| ext.to_string());
    ScanEvent::Entry(DirEntry { path: path.to_string(), kind: EntryKind::File, extension })
}

fn dir(path: &str) -> ScanEvent {
    ScanEvent::Entry(DirEntry { path: path.to_string(), kind: EntryKind::Directory, extension: None })
}

fn kinds(items: &[Item]) -> Vec<(String, u8)> {
    items
        .iter()
        .map(|item| {
            let kind = match item.classification {
                Classification::PlainFile => 0,
                Classification::UndecodedAudio => 1,
                Classification::TaggedAudio(_) => 2,
            };
            (item.path.clone(), kind)
        })
        .collect()
}

/// Walks `depth` directories down from the root, each holding one plain
/// file and the next directory, and returns the scan at its end.
fn walk_chain(limit: u8, depth: usize) -> Scanner {
    let (mut scan, action) = Scanner::with_limit("d1".to_string(), limit);
    assert_eq!(action, ScanAction::Open("d1".to_string()));
    let mut open = 1;
    for level in 1..=depth {
        let (next, action) = scan.step(file(&format!("f{level}.txt")));
        assert_eq!(action, ScanAction::Next);
        scan = next;
        if level == depth {
            break;
        }
        let child = format!("d{}", level + 1);
        let (next, action) = scan.step(dir(&child));
        scan = next;
        if action == ScanAction::Next {
            break;
        }
        assert_eq!(action, ScanAction::Open(child));
        open += 1;
    }
    for left in (0..open).rev() {
        assert!(!scan.is_finished());
        let (next, action) = scan.step(ScanEvent::EndOfDirectory);
        assert_eq!(action, if left == 0 { ScanAction::Finished } else { ScanAction::Next });
        scan = next;
    }
    assert!(scan.is_finished());
    scan
}

#[test]
fn extensions_tell_tags_and_sound_apart() {
    for ext in ["mp3", "MP3", "Flac", "ogg", "opus", "m4a", "wav", "aiff", "aac"] {
        assert!(check_extension_for_tag_decoder(ext), "{ext}");
        assert!(check_extension_for_sound_decoder(ext), "{ext}");
    }
    for ext in ["mp4", "ape", "wv", "mpc"] {
        assert!(check_extension_for_tag_decoder(ext), "{ext}");
        assert!(!check_extension_for_sound_decoder(ext), "{ext}");
    }
    for ext in ["wma", "mid", "MID"] {
        assert!(!check_extension_for_tag_decoder(ext), "{ext}");
        assert!(check_extension_for_sound_decoder(ext), "{ext}");
    }
    for ext in ["txt", "", "mp", "mp33", "flac ", "ｍｐ３"] {
        assert!(!check_extension_for_tag_decoder(ext), "{ext}");
        assert!(!check_extension_for_sound_decoder(ext), "{ext}");
    }
}

#[test]
fn tree_as_deep_as_the_limit_is_scanned_whole() {
    assert_eq!(DEPTH_LIMIT, 10);
    for limit in [1u8, 2, 3, DEPTH_LIMIT] {
        let scan = walk_chain(limit, limit as usize);
        assert!(scan.is_complete());
        assert!(scan.truncated().is_empty());
        let expected: Vec<(String, u8)> =
            (1..=limit).map(|level| (format!("f{level}.txt"), 0)).collect();
        assert_eq!(kinds(scan.items()), expected);
    }
}

#[test]
fn tree_one_level_deeper_is_truncated_and_says_so() {
    for limit in [1u8, 2, 3, DEPTH_LIMIT] {
        let scan = walk_chain(limit, limit as usize + 1);
        assert!(!scan.is_complete());
        assert_eq!(scan.truncated(), &vec![format!("d{}", limit + 1)]);
        let expected: Vec<(String, u8)> =
            (1..=limit).map(|level| (format!("f{level}.txt"), 0)).collect();
        assert_eq!(kinds(scan.items()), expected);
    }
}

#[test]
fn scan_without_budget_enters_nothing() {
    let (scan, action) = Scanner::with_limit("root".to_string(), 0);
    assert_eq!(action, ScanAction::Finished);
    assert!(scan.is_finished());
    assert!(!scan.is_complete());
    assert_eq!(scan.truncated(), &vec!["root".to_string()]);
    let (scan, action) = scan.step(file("late.mp3"));
    assert_eq!(action, ScanAction::Finished);
    assert!(scan.into_items().is_empty());
}

#[test]
fn music_directory_is_scanned_into_its_items() {
    let mut tags = TagSet::new();
    assert_eq!(tags.push_typed_tag(Title("Foo".to_string())), Ok(()));
    assert_eq!(tags.push_custom_tag("XYZ", RawValue::Text("vendor".to_string())), Ok(()));

    let mut entries = 0;
    let (scan, action) = Scanner::begin("root".to_string());
    assert_eq!(action, ScanAction::Open("root".to_string()));

    let (scan, action) = scan.step(file("root/a.mp3"));
    entries += 1;
    assert_eq!(action, ScanAction::Decode("root/a.mp3".to_string()));
    assert!(scan.items().is_empty());
    let (scan, action) = scan.step(ScanEvent::Decoded(Ok(tags)));
    assert_eq!(action, ScanAction::Next);

    let (scan, action) = scan.step(file("root/b.txt"));
    entries += 1;
    assert_eq!(action, ScanAction::Next);

    let (scan, action) = scan.step(dir("root/c"));
    entries += 1;
    assert_eq!(action, ScanAction::Open("root/c".to_string()));

    let (scan, action) = scan.step(file("root/c/d.flac"));
    entries += 1;
    assert_eq!(action, ScanAction::Decode("root/c/d.flac".to_string()));
    let (scan, action) = scan.step(ScanEvent::Decoded(Err(DecodeError::UnknownType)));
    assert_eq!(action, ScanAction::Next);

    let (scan, action) = scan.step(ScanEvent::EndOfDirectory);
    assert_eq!(action, ScanAction::Next);
    assert!(!scan.is_finished());
    let (scan, action) = scan.step(ScanEvent::EndOfDirectory);
    assert_eq!(action, ScanAction::Finished);
    assert!(scan.is_finished());
    assert!(scan.is_complete());

    assert_eq!(entries, 4);
    let items = scan.into_items();
    assert_eq!(
        kinds(&items),
        vec![
            ("root/a.mp3".to_string(), 2),
            ("root/b.txt".to_string(), 0),
            ("root/c/d.flac".to_string(), 1),
        ]
    );
    match &items[0].classification {
        Classification::TaggedAudio(tags) => {
            assert_eq!(tags.get_typed_tag::<Title>(), Some(&Title("Foo".to_string())));
            assert_eq!(
                tags.get_custom_tag("XYZ"),
                Some(&UnknownItem::new(RawValue::Text("vendor".to_string())))
            );
        },
        other => panic!("a.mp3 is {other:?}"),
    }
}

#[test]
fn failed_decode_falls_back_on_the_extension() {
    let (scan, _) = Scanner::begin("r".to_string());
    let (scan, action) = scan.step(file("r/clip.mp4"));
    assert_eq!(action, ScanAction::Decode("r/clip.mp4".to_string()));
    let (scan, _) = scan.step(ScanEvent::Decoded(Err(DecodeError::Unparseable)));
    let (scan, action) = scan.step(file("r/song.wma"));
    assert_eq!(action, ScanAction::Next);
    let (scan, action) = scan.step(file("r/noext"));
    assert_eq!(action, ScanAction::Next);
    let (scan, action) = scan.step(file("r/clip2.mp4"));
    assert_eq!(action, ScanAction::Decode("r/clip2.mp4".to_string()));
    let (scan, _) = scan.step(ScanEvent::Decoded(Ok(TagSet::new())));
    assert_eq!(
        kinds(scan.items()),
        vec![
            ("r/clip.mp4".to_string(), 0),
            ("r/song.wma".to_string(), 1),
            ("r/noext".to_string(), 0),
            ("r/clip2.mp4".to_string(), 2),
        ]
    );
}

#[test]
fn events_out_of_turn_change_nothing() {
    let (scan, _) = Scanner::begin("r".to_string());
    let (scan, action) = scan.step(ScanEvent::Decoded(Ok(TagSet::new())));
    assert_eq!(action, ScanAction::Next);
    let (scan, action) = scan.step(ScanEvent::Entry(DirEntry {
        path: "r/socket".to_string(),
        kind: EntryKind::Other,
        extension: None,
    }));
    assert_eq!(action, ScanAction::Next);
    let (scan, action) = scan.step(file("r/a.flac"));
    assert_eq!(action, ScanAction::Decode("r/a.flac".to_string()));
    let (scan, action) = scan.step(file("r/b.flac"));
    assert_eq!(action, ScanAction::Decode("r/a.flac".to_string()));
    let (scan, action) = scan.step(ScanEvent::EndOfDirectory);
    assert_eq!(action, ScanAction::Decode("r/a.flac".to_string()));
    assert!(scan.items().is_empty());
    let (scan, action) = scan.step(ScanEvent::Decoded(Err(DecodeError::HandbackLost)));
    assert_eq!(action, ScanAction::Next);
    assert_eq!(kinds(scan.items()), vec![("r/a.flac".to_string(), 1)]);
}
