use libosmium::tag_list::{debug, OwnedTagList, TagEncodeError, TagList};

#[test]
fn push_pair_round_trip_in_insertion_order() {
    let mut tags = OwnedTagList::new();
    tags.push_pair("amenity", "bar").unwrap();
    tags.push_pair("name", "pub").unwrap();
    let pairs = tags.pairs();
    assert_eq!(pairs.len(), 2);
    assert_eq!(pairs[0], ("amenity".to_string(), "bar".to_string()));
    assert_eq!(pairs[1], ("name".to_string(), "pub".to_string()));
}

#[test]
fn push_pair_encodes_nul_terminated_pairs() {
    let mut tags = OwnedTagList::new();
    tags.push_pair("k", "v").unwrap();
    assert_eq!(tags.as_bytes(), b"k\0v\0");
}

#[test]
fn decode_twice_yields_identical_sequences() {
    let mut tags = OwnedTagList::new();
    tags.push_pair("a", "1").unwrap();
    tags.push_pair("b", "2").unwrap();
    let first = tags.pairs();
    let second = tags.pairs();
    assert_eq!(first, second);
    // The lazy walk agrees with itself as well.
    let mut it1 = tags.iter();
    let mut it2 = tags.iter();
    loop {
        let a = it1.next();
        let b = it2.next();
        assert_eq!(a, b);
        if a.is_none() {
            break;
        }
    }
}

#[test]
fn invalid_utf8_pair_is_dropped_and_decoding_continues() {
    let mut bytes: Vec<u8> = Vec::new();
    bytes.extend_from_slice(b"k\0\xFF\xFE\0");
    bytes.extend_from_slice(b"a\0b\0");
    let tags = TagList { bytes };
    let pairs = tags.pairs();
    assert_eq!(pairs, vec![("a".to_string(), "b".to_string())]);
    let mut it = tags.iter();
    assert_eq!(it.next(), Some(("a".to_string(), "b".to_string())));
    assert_eq!(it.next(), None);
    assert_eq!(it.skipped(), 1);
}

#[test]
fn embedded_nul_is_rejected_without_truncation() {
    let mut tags = OwnedTagList::new();
    assert_eq!(
        tags.push_pair("bad\0key", "v"),
        Err(TagEncodeError::EmbeddedNul)
    );
    assert_eq!(
        tags.push_pair("k", "bad\0value"),
        Err(TagEncodeError::EmbeddedNul)
    );
    assert_eq!(tags.as_bytes().len(), 0);
    tags.push_pair("k", "v").unwrap();
    assert_eq!(tags.as_bytes(), b"k\0v\0");
}

#[test]
fn get_returns_first_match() {
    let tags = TagList {
        bytes: b"highway\0primary\0highway\0secondary\0name\0A1\0".to_vec(),
    };
    assert_eq!(tags.get("highway"), Some("primary".to_string()));
    assert_eq!(tags.get("name"), Some("A1".to_string()));
    assert_eq!(tags.get("surface"), None);
}

#[test]
fn tag_list_is_empty_iff_range_is_empty() {
    let empty = TagList { bytes: Vec::new() };
    assert!(empty.is_empty());
    let nonempty = TagList {
        bytes: b"k\0v\0".to_vec(),
    };
    assert!(!nonempty.is_empty());
}

#[test]
fn trailing_fragment_without_both_terminators_encodes_no_pair() {
    let tags = TagList {
        bytes: b"k\0v\0dangling".to_vec(),
    };
    assert_eq!(tags.pairs(), vec![("k".to_string(), "v".to_string())]);
}

#[test]
fn debug_renders_a_map_shaped_string() {
    let mut tags = OwnedTagList::new();
    tags.push_pair("amenity", "bar").unwrap();
    tags.push_pair("name", "pub").unwrap();
    assert_eq!(
        tags.debug_string(),
        "{\"amenity\": \"bar\", \"name\": \"pub\"}"
    );
    let pairs = tags.pairs();
    assert_eq!(debug(&pairs), "{\"amenity\": \"bar\", \"name\": \"pub\"}");
    let none: Vec<(String, String)> = Vec::new();
    assert_eq!(debug(&none), "{}");
}

#[test]
fn owned_list_copies_complete_pair_ranges_only() {
    let complete = TagList {
        bytes: b"k\0v\0".to_vec(),
    };
    let owned = OwnedTagList::from_tag_list(&complete).unwrap();
    assert_eq!(owned.as_bytes(), complete.as_bytes());

    let ragged = TagList {
        bytes: b"k\0v\0x".to_vec(),
    };
    assert!(OwnedTagList::from_tag_list(&ragged).is_none());
}
