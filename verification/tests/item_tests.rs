use libosmium::{Item, ItemRef, ItemType};

fn raw_record(code: u16, body: &[u8]) -> Vec<u8> {
    let size = (body.len() + 8) as u32;
    let mut bytes = Vec::new();
    bytes.extend_from_slice(&size.to_le_bytes());
    bytes.extend_from_slice(&code.to_le_bytes());
    bytes.extend_from_slice(&0u16.to_le_bytes());
    bytes.extend_from_slice(body);
    bytes
}

fn node_ref_bytes(id: i64, raw_x: i32, raw_y: i32) -> Vec<u8> {
    let mut bytes = Vec::new();
    bytes.extend_from_slice(&id.to_le_bytes());
    bytes.extend_from_slice(&raw_x.to_le_bytes());
    bytes.extend_from_slice(&raw_y.to_le_bytes());
    bytes
}

#[test]
fn from_bytes_accepts_only_well_formed_records() {
    assert!(Item::from_bytes(vec![1, 2, 3]).is_none());
    let mut wrong_size = raw_record(0x11, b"abc");
    wrong_size[0] = 99;
    assert!(Item::from_bytes(wrong_size).is_none());
    let ok = Item::from_bytes(raw_record(0x11, b"abc")).unwrap();
    assert_eq!(ok.byte_size(), 11);
    assert_eq!(ok.item_type(), ItemType::TagList);
}

#[test]
fn item_new_writes_the_header() {
    let item = Item::new(ItemType::Node, &node_ref_bytes(7, 1, 2)).unwrap();
    assert_eq!(item.byte_size(), 24);
    assert_eq!(item.item_type(), ItemType::Node);
    assert_eq!(item.as_bytes(), raw_record(0x01, &node_ref_bytes(7, 1, 2)).as_slice());
}

#[test]
fn unrecognized_kind_tags_decode_without_error_and_cast_to_none() {
    let item = Item::from_bytes(raw_record(0x99, b"whatever")).unwrap();
    assert_eq!(item.item_type(), ItemType::Unrecognized);
    assert!(item.cast().is_none());
}

#[test]
fn undefined_kind_casts_to_none() {
    let item = Item::from_bytes(raw_record(0x00, b"")).unwrap();
    assert_eq!(item.item_type(), ItemType::Undefined);
    assert!(item.cast().is_none());
}

#[test]
fn node_record_casts_to_a_node_view() {
    let item = Item::new(ItemType::Node, &node_ref_bytes(-5, 12345, -6789)).unwrap();
    match item.cast() {
        Some(ItemRef::Node(node)) => {
            assert_eq!(node.object.id, -5);
            assert_eq!(node.location.raw_x, 12345);
            assert_eq!(node.location.raw_y, -6789);
            assert_eq!(node.location(), node.location);
        }
        other => panic!("expected a node view, got {}", other.is_some() as u8),
    }
}

#[test]
fn node_record_with_short_body_casts_to_none() {
    let item = Item::new(ItemType::Node, b"tiny").unwrap();
    assert!(item.cast().is_none());
}

#[test]
fn way_record_casts_with_its_node_list() {
    let mut body = 42i64.to_le_bytes().to_vec();
    body.extend_from_slice(&node_ref_bytes(1, 10, 20));
    body.extend_from_slice(&node_ref_bytes(2, 30, 40));
    let item = Item::new(ItemType::Way, &body).unwrap();
    match item.cast() {
        Some(ItemRef::Way(way)) => {
            assert_eq!(way.object.id, 42);
            assert_eq!(way.nodes().len(), 2);
            assert_eq!(way.nodes().get(0).id, 1);
            assert_eq!(way.nodes().get(1).location.raw_x, 30);
        }
        _ => panic!("expected a way view"),
    }
}

#[test]
fn way_record_with_ragged_node_list_casts_to_none() {
    let mut body = 42i64.to_le_bytes().to_vec();
    body.extend_from_slice(b"not a multiple of sixteen");
    let item = Item::new(ItemType::Way, &body).unwrap();
    assert!(item.cast().is_none());
}

#[test]
fn tag_list_record_casts_to_its_bytes() {
    let item = Item::new(ItemType::TagList, b"k\0v\0").unwrap();
    match item.cast() {
        Some(ItemRef::TagList(tags)) => {
            assert_eq!(tags.as_bytes(), b"k\0v\0");
            assert_eq!(tags.get("k"), Some("v".to_string()));
        }
        _ => panic!("expected a tag list view"),
    }
}

#[test]
fn both_member_list_kinds_cast_to_the_same_view() {
    let plain = Item::new(ItemType::RelationMemberList, b"payload!").unwrap();
    let resolved = Item::new(ItemType::RelationMemberListWithFullMembers, b"payload!").unwrap();
    match (plain.cast(), resolved.cast()) {
        (Some(ItemRef::RelationMemberList(a)), Some(ItemRef::RelationMemberList(b))) => {
            assert_eq!(a.body, b.body);
        }
        _ => panic!("expected member list views"),
    }
}

#[test]
fn way_node_list_record_casts_to_node_refs() {
    let mut body = node_ref_bytes(9, 1, 2);
    body.extend_from_slice(&node_ref_bytes(10, 3, 4));
    let item = Item::new(ItemType::WayNodeList, &body).unwrap();
    match item.cast() {
        Some(ItemRef::WayNodeList(list)) => {
            assert_eq!(list.len(), 2);
            assert_eq!(list.get(1).id, 10);
        }
        _ => panic!("expected a way node list view"),
    }
}
