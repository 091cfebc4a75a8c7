use mioplays::tag::{
    decode_settings, decode_tags, read_entries, store_entries, Album, AlbumArtist, Artist,
    DecodeError, DiscNumber, EncodedCoverArt, EntryKey, FieldKey, OriginalArtist, ParsingMode,
    RawEntry, RawValue, ReleaseDate, TagSet, Timestamp, Title, TrackNumber, UnknownItem,
    MAX_JUNK_BYTES,
};

fn known(key: FieldKey, native: &str, value: &str) -> RawEntry {
    RawEntry {
        key: EntryKey::Field(key),
        native: Some(native.to_string()),
        value: RawValue::Text(value.to_string()),
    }
}

fn other(native: &str, value: &str) -> RawEntry {
    RawEntry {
        key: EntryKey::Other,
        native: Some(native.to_string()),
        value: RawValue::Text(value.to_string()),
    }
}

fn custom(store: &TagSet, key: &str) -> Option<RawValue> {
    store.get_custom_tag(key).map(|item| item.value().clone())
}

fn text(value: &str) -> Option<RawValue> {
    Some(RawValue::Text(value.to_string()))
}

fn block(kind: u8, last: bool, content: &[u8]) -> Vec<u8> {
    let mut bytes = vec![if last { kind | 0x80 } else { kind }];
    bytes.extend_from_slice(&(content.len() as u32).to_be_bytes()[1..]);
    bytes.extend_from_slice(content);
    bytes
}

fn comments(vendor: &str, list: &[&str]) -> Vec<u8> {
    let mut bytes = (vendor.len() as u32).to_le_bytes().to_vec();
    bytes.extend_from_slice(vendor.as_bytes());
    bytes.extend_from_slice(&(list.len() as u32).to_le_bytes());
    for comment in list {
        bytes.extend_from_slice(&(comment.len() as u32).to_le_bytes());
        bytes.extend_from_slice(comment.as_bytes());
    }
    bytes
}

fn picture(data: &[u8]) -> Vec<u8> {
    let mut bytes = 3u32.to_be_bytes().to_vec();
    bytes.extend_from_slice(&9u32.to_be_bytes());
    bytes.extend_from_slice(b"image/png");
    bytes.extend_from_slice(&0u32.to_be_bytes());
    for _ in 0..4 {
        bytes.extend_from_slice(&0u32.to_be_bytes());
    }
    bytes.extend_from_slice(&(data.len() as u32).to_be_bytes());
    bytes.extend_from_slice(data);
    bytes
}

/// A FLAC stream without audio: its marker and its metadata blocks.
fn flac(blocks: &[(u8, Vec<u8>)]) -> Vec<u8> {
    let mut bytes = b"fLaC".to_vec();
    bytes.extend(block(0, blocks.is_empty(), &[0u8; 34]));
    for (i, (kind, content)) in blocks.iter().enumerate() {
        bytes.extend(block(*kind, i + 1 == blocks.len(), content));
    }
    bytes
}

fn synchsafe(n: usize) -> [u8; 4] {
    [((n >> 21) & 0x7f) as u8, ((n >> 14) & 0x7f) as u8, ((n >> 7) & 0x7f) as u8, (n & 0x7f) as u8]
}

fn frame(id: &str, text: &str) -> Vec<u8> {
    let mut bytes = id.as_bytes().to_vec();
    bytes.extend(synchsafe(text.len() + 1));
    bytes.extend([0u8, 0, 3]);
    bytes.extend(text.as_bytes());
    bytes
}

/// An MPEG stream that starts with an ID3v2.4 tag of these frames.
fn mp3(frames: &[Vec<u8>]) -> Vec<u8> {
    let body = frames.concat();
    let mut bytes = b"ID3\x04\x00\x00".to_vec();
    bytes.extend(synchsafe(body.len()));
    bytes.extend(body);
    bytes.extend([0xFFu8, 0xFB, 0x50, 0xC4, 0x00, 0x03, 0xC0, 0x00, 0x01, 0xA4]);
    bytes.extend([0u8; 400]);
    bytes
}

/// A WAVE file of no samples, with nothing but its format.
fn wav() -> Vec<u8> {
    let mut bytes = b"RIFF".to_vec();
    bytes.extend(36u32.to_le_bytes());
    bytes.extend(b"WAVEfmt ");
    bytes.extend(16u32.to_le_bytes());
    bytes.extend([1u8, 0, 2, 0, 0x44, 0xAC, 0, 0, 0x10, 0xB1, 2, 0, 4, 0, 16, 0]);
    bytes.extend(b"data");
    bytes.extend(0u32.to_le_bytes());
    bytes
}

#[test]
fn files_are_read_leniently_with_cover_art_and_without_properties() {
    let settings = decode_settings();
    assert_eq!(settings.mode, ParsingMode::Relaxed);
    assert_eq!(settings.max_junk_bytes, 4096);
    assert_eq!(MAX_JUNK_BYTES, 4096);
    assert!(settings.read_cover_art);
    assert!(settings.read_tags);
    assert!(!settings.read_properties);
}

#[test]
fn no_entries_give_an_empty_store() {
    let store = store_entries(vec![]);
    assert!(store.is_empty());
    assert_eq!(store.len(), 0);
    assert_eq!(store.get_typed_tag::<Title>(), None);
    assert_eq!(store.get_typed_tag::<UnknownItem>(), None);
    assert_eq!(store.get_custom_tag(""), None);
}

#[test]
fn first_entry_of_a_scalar_field_wins() {
    let store = store_entries(vec![
        known(FieldKey::TrackTitle, "TITLE", "First"),
        known(FieldKey::AlbumTitle, "ALBUM", "Album"),
        known(FieldKey::TrackTitle, "TITLE", "Second"),
        known(FieldKey::TrackArtist, "ARTIST", "One"),
        known(FieldKey::TrackArtist, "ARTIST", "Two"),
    ]);
    assert_eq!(store.get_typed_tag::<Title>(), Some(&Title("First".to_string())));
    assert_eq!(store.get_typed_tag::<Album>(), Some(&Album("Album".to_string())));
    assert_eq!(store.get_typed_tag::<Artist>(), Some(&Artist("One".to_string())));
    assert_eq!(custom(&store, "TITLE"), None);
}

#[test]
fn entries_of_a_list_field_are_gathered_in_order() {
    let store = store_entries(vec![
        known(FieldKey::OriginalArtist, "TOPE", "a"),
        known(FieldKey::TrackTitle, "TIT2", "t"),
        known(FieldKey::OriginalArtist, "TOPE", "b"),
        known(FieldKey::OriginalArtist, "TOPE", "a"),
    ]);
    assert_eq!(
        store.get_typed_tag::<OriginalArtist>(),
        Some(&OriginalArtist(vec!["a".to_string(), "b".to_string(), "a".to_string()]))
    );
}

#[test]
fn sort_order_joins_its_field_from_either_side() {
    let artists_first = store_entries(vec![
        known(FieldKey::AlbumArtist, "ALBUMARTIST", "The Beatles"),
        known(FieldKey::AlbumArtistSortOrder, "ALBUMARTISTSORT", "Beatles, The"),
        known(FieldKey::AlbumArtistSortOrder, "ALBUMARTISTSORT", "Late"),
    ]);
    let sort_first = store_entries(vec![
        known(FieldKey::AlbumArtistSortOrder, "ALBUMARTISTSORT", "Beatles, The"),
        known(FieldKey::AlbumArtist, "ALBUMARTIST", "The Beatles"),
    ]);
    let expected = AlbumArtist {
        inner: vec!["The Beatles".to_string()],
        sort_order: "Beatles, The".to_string(),
    };
    assert_eq!(artists_first.get_typed_tag::<AlbumArtist>(), Some(&expected));
    assert_eq!(sort_first.get_typed_tag::<AlbumArtist>(), Some(&expected));
    let alone = store_entries(vec![known(FieldKey::AlbumArtistSortOrder, "TSO2", "X")]);
    assert_eq!(
        alone.get_typed_tag::<AlbumArtist>(),
        Some(&AlbumArtist { inner: vec![], sort_order: "X".to_string() })
    );
}

#[test]
fn numbers_and_dates_are_read_or_kept_as_custom_fields() {
    let store = store_entries(vec![
        known(FieldKey::TrackNumber, "TRACKNUMBER", "07"),
        known(FieldKey::DiscNumber, "DISCNUMBER", "one"),
        known(FieldKey::ReleaseDate, "RELEASEDATE", "1969-09-26"),
    ]);
    assert_eq!(store.get_typed_tag::<TrackNumber>(), Some(&TrackNumber(7)));
    assert_eq!(store.get_typed_tag::<DiscNumber>(), None);
    assert_eq!(custom(&store, "DISCNUMBER"), text("one"));
    assert_eq!(
        store.get_typed_tag::<ReleaseDate>(),
        Some(&ReleaseDate(Timestamp { year: 1969, month: Some(9), day: Some(26) }))
    );
    let late = store_entries(vec![
        known(FieldKey::ReleaseDate, "TDRL", "soon"),
        known(FieldKey::ReleaseDate, "TDRL", "2001"),
        known(FieldKey::TrackNumber, "TRCK", "5"),
        known(FieldKey::TrackNumber, "TRCK", "6"),
    ]);
    assert_eq!(custom(&late, "TDRL"), text("soon"));
    assert_eq!(
        late.get_typed_tag::<ReleaseDate>(),
        Some(&ReleaseDate(Timestamp { year: 2001, month: None, day: None }))
    );
    assert_eq!(late.get_typed_tag::<TrackNumber>(), Some(&TrackNumber(5)));
}

#[test]
fn unknown_entries_are_kept_under_their_own_identifier() {
    let store = store_entries(vec![
        other("XYZ", "vendor"),
        other("XYZ", "again"),
        RawEntry { key: EntryKey::Other, native: None, value: RawValue::Text("lost".to_string()) },
        RawEntry {
            key: EntryKey::Other,
            native: Some("PRIV".to_string()),
            value: RawValue::Binary(vec![0, 1, 255]),
        },
        RawEntry {
            key: EntryKey::Field(FieldKey::TrackTitle),
            native: Some("TIT2".to_string()),
            value: RawValue::Binary(vec![7]),
        },
        RawEntry {
            key: EntryKey::Other,
            native: Some("WOAF".to_string()),
            value: RawValue::Locator("http://x".to_string()),
        },
    ]);
    assert_eq!(custom(&store, "XYZ"), text("vendor"));
    assert_eq!(custom(&store, "PRIV"), Some(RawValue::Binary(vec![0, 1, 255])));
    assert_eq!(custom(&store, "TIT2"), Some(RawValue::Binary(vec![7])));
    assert_eq!(custom(&store, "WOAF"), Some(RawValue::Locator("http://x".to_string())));
    assert_eq!(store.get_typed_tag::<Title>(), None);
}

#[test]
fn first_picture_is_the_cover_art() {
    let store = store_entries(vec![
        RawEntry { key: EntryKey::Picture, native: None, value: RawValue::Binary(vec![1, 2]) },
        RawEntry { key: EntryKey::Picture, native: None, value: RawValue::Binary(vec![3]) },
    ]);
    assert_eq!(store.get_typed_tag::<EncodedCoverArt>(), Some(&EncodedCoverArt(vec![1, 2])));
}

#[test]
fn distinct_fields_are_all_stored_and_kept_apart() {
    let mut store = store_entries(vec![
        known(FieldKey::TrackTitle, "TITLE", "t"),
        other("Title", "custom title"),
        known(FieldKey::AlbumTitle, "ALBUM", "l"),
        other("ALBUM", "custom album"),
        known(FieldKey::TrackNumber, "TRACKNUMBER", "3"),
    ]);
    assert_eq!(store.len(), 3 + 2);
    assert_eq!(store.drop_typed_tag::<Title>(), Some(Title("t".to_string())));
    assert_eq!(store.drop_typed_tag::<Album>(), Some(Album("l".to_string())));
    assert_eq!(store.drop_typed_tag::<TrackNumber>(), Some(TrackNumber(3)));
    assert_eq!(
        store.drop_custom_tag("Title"),
        Some(UnknownItem::new(RawValue::Text("custom title".to_string())))
    );
    assert_eq!(
        store.drop_custom_tag("ALBUM"),
        Some(UnknownItem::new(RawValue::Text("custom album".to_string())))
    );
    assert!(store.is_empty());
    assert_eq!(store.drop_typed_tag::<Artist>(), None);
    assert_eq!(store.drop_custom_tag("TITLE"), None);
    assert_eq!(store.drop_custom_tag("TRACKNUMBER"), None);
}

#[test]
fn file_without_a_container_decodes_to_an_empty_store() {
    let bytes = flac(&[]);
    assert_eq!(read_entries(&bytes), Ok(vec![]));
    let store = decode_tags(&bytes).expect("a stream without tags is still a stream");
    assert!(store.is_empty());
    assert_eq!(store.get_typed_tag::<Title>(), None);
    assert_eq!(store.get_typed_tag::<EncodedCoverArt>(), None);
    assert_eq!(store.get_custom_tag("ENCODER"), None);
}

#[test]
fn tags_of_a_file_are_decoded() {
    let bytes = flac(&[
        (4, comments("libFLAC", &["TITLE=Foo", "XYZ=vendor", "artist=A", "TRACKNUMBER=3"])),
        (6, picture(&[9, 8, 7])),
    ]);
    assert_eq!(
        read_entries(&bytes),
        Ok(vec![
            known(FieldKey::TrackTitle, "TITLE", "Foo"),
            other("XYZ", "vendor"),
            known(FieldKey::TrackArtist, "ARTIST", "A"),
            known(FieldKey::TrackNumber, "TRACKNUMBER", "3"),
            other("ENCODER", "libFLAC"),
            RawEntry { key: EntryKey::Picture, native: None, value: RawValue::Binary(vec![9, 8, 7]) },
        ])
    );
    let store = decode_tags(&bytes).expect("the stream is well formed");
    assert_eq!(store.get_typed_tag::<Title>(), Some(&Title("Foo".to_string())));
    assert_eq!(store.get_typed_tag::<Artist>(), Some(&Artist("A".to_string())));
    assert_eq!(store.get_typed_tag::<TrackNumber>(), Some(&TrackNumber(3)));
    assert_eq!(store.get_typed_tag::<EncodedCoverArt>(), Some(&EncodedCoverArt(vec![9, 8, 7])));
    assert_eq!(custom(&store, "XYZ"), text("vendor"));
    assert_eq!(custom(&store, "ENCODER"), text("libFLAC"));
    assert_eq!(store.get_typed_tag::<Album>(), None);
}

#[test]
fn tagged_mp3_gives_its_title_and_its_vendor_field() {
    let bytes = mp3(&[frame("TIT2", "Foo"), frame("TXXX", "XYZ\0vendor")]);
    assert_eq!(
        read_entries(&bytes),
        Ok(vec![known(FieldKey::TrackTitle, "TIT2", "Foo"), other("XYZ", "vendor")])
    );
    let mut store = decode_tags(&bytes).expect("the tag is well formed");
    assert_eq!(store.len(), 2);
    assert_eq!(store.drop_typed_tag::<Title>(), Some(Title("Foo".to_string())));
    assert_eq!(
        store.drop_custom_tag("XYZ"),
        Some(UnknownItem::new(RawValue::Text("vendor".to_string())))
    );
    assert_eq!(store.drop_custom_tag("TIT2"), None);
    assert_eq!(store.drop_custom_tag("TXXX"), None);
    assert_eq!(store.get_typed_tag::<Artist>(), None);
}

#[test]
fn every_kind_of_key_is_told_apart() {
    let bytes = mp3(&[
        frame("TOAL", "Old"),
        frame("TOPE", "a\0b"),
        frame("TOLY", "l"),
        frame("TSOC", "c"),
        frame("TSO2", "s2"),
        frame("TPE2", "aa\0bb"),
        frame("TRCK", "3/12"),
        frame("TPOS", "1"),
        frame("TDRL", "2001-02-03"),
        frame("TPE1", "x\0y"),
        frame("TALB", "L"),
        frame("TSST", "S"),
        frame("TIT1", "G"),
        frame("TIT3", "T3"),
        frame("TSOT", "st"),
        frame("TSOP", "sp"),
        frame("TCON", "Rock"),
    ]);
    assert_eq!(
        read_entries(&bytes),
        Ok(vec![
            known(FieldKey::OriginalAlbumTitle, "TOAL", "Old"),
            known(FieldKey::OriginalArtist, "TOPE", "a"),
            known(FieldKey::OriginalArtist, "TOPE", "b"),
            known(FieldKey::OriginalLyricist, "TOLY", "l"),
            known(FieldKey::ComposerSortOrder, "TSOC", "c"),
            known(FieldKey::AlbumArtistSortOrder, "TSO2", "s2"),
            known(FieldKey::AlbumArtist, "TPE2", "aa"),
            known(FieldKey::AlbumArtist, "TPE2", "bb"),
            known(FieldKey::TrackNumber, "TRCK", "3"),
            other("TRCK", "12"),
            known(FieldKey::DiscNumber, "TPOS", "1"),
            known(FieldKey::ReleaseDate, "TDRL", "2001-02-03"),
            known(FieldKey::TrackArtist, "TPE1", "x"),
            known(FieldKey::TrackArtist, "TPE1", "y"),
            known(FieldKey::AlbumTitle, "TALB", "L"),
            known(FieldKey::SetSubtitle, "TSST", "S"),
            known(FieldKey::ContentGroup, "TIT1", "G"),
            known(FieldKey::TrackSubtitle, "TIT3", "T3"),
            known(FieldKey::TrackTitleSortOrder, "TSOT", "st"),
            known(FieldKey::TrackArtistSortOrder, "TSOP", "sp"),
            other("TCON", "Rock"),
        ])
    );
    let store = decode_tags(&bytes).expect("the tag is well formed");
    assert_eq!(
        store.get_typed_tag::<OriginalArtist>(),
        Some(&OriginalArtist(vec!["a".to_string(), "b".to_string()]))
    );
    assert_eq!(
        store.get_typed_tag::<AlbumArtist>(),
        Some(&AlbumArtist {
            inner: vec!["aa".to_string(), "bb".to_string()],
            sort_order: "s2".to_string()
        })
    );
    assert_eq!(store.get_typed_tag::<Artist>(), Some(&Artist("x".to_string())));
    assert_eq!(store.get_typed_tag::<TrackNumber>(), Some(&TrackNumber(3)));
    assert_eq!(store.get_typed_tag::<DiscNumber>(), Some(&DiscNumber(1)));
    assert_eq!(
        store.get_typed_tag::<ReleaseDate>(),
        Some(&ReleaseDate(Timestamp { year: 2001, month: Some(2), day: Some(3) }))
    );
    assert_eq!(custom(&store, "TRCK"), text("12"));
    assert_eq!(custom(&store, "TCON"), text("Rock"));
}

#[test]
fn audio_without_any_tag_decodes_to_an_empty_store() {
    assert_eq!(read_entries(&wav()), Ok(vec![]));
    let mut store = decode_tags(&wav()).expect("the file is sound, if silent");
    assert!(store.is_empty());
    assert_eq!(store.drop_typed_tag::<Title>(), None);
    assert_eq!(store.drop_typed_tag::<EncodedCoverArt>(), None);
    assert_eq!(store.drop_typed_tag::<UnknownItem>(), None);
}

#[test]
fn bytes_of_no_known_type_fail_the_decode() {
    assert_eq!(decode_tags(b"plain text, no music").err(), Some(DecodeError::UnknownType));
    assert_eq!(decode_tags(&[]).err(), Some(DecodeError::UnknownType));
    assert_eq!(read_entries(b"plain text, no music"), Err(DecodeError::UnknownType));
}

#[test]
fn broken_container_fails_the_decode() {
    let mut bytes = b"fLaC".to_vec();
    bytes.extend(block(4, true, &[]));
    assert_eq!(decode_tags(&bytes).err(), Some(DecodeError::Unparseable));
    assert_eq!(decode_tags(b"fLaC").err(), Some(DecodeError::Unparseable));
}

#[test]
fn faults_spell_themselves() {
    assert_eq!(DecodeError::Unopenable.message(), "file cannot be opened");
    assert_eq!(DecodeError::UnknownType.message(), "unable to guess file type");
    assert_eq!(DecodeError::Unparseable.message(), "unable to read file tags");
    assert_eq!(DecodeError::HandbackLost.message(), "the decode did not hand its tags back");
}
