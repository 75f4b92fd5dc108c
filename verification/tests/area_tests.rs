use libosmium::{Area, Item, ItemRef, ItemType};

fn area_node_ref(id: i64, raw_x: i32, raw_y: i32) -> Vec<u8> {
    let mut bytes = Vec::new();
    bytes.extend_from_slice(&id.to_le_bytes());
    bytes.extend_from_slice(&raw_x.to_le_bytes());
    bytes.extend_from_slice(&raw_y.to_le_bytes());
    bytes
}

fn ring_record(kind: ItemType, refs: &[Vec<u8>]) -> Vec<u8> {
    let mut body = Vec::new();
    for r in refs {
        body.extend_from_slice(r);
    }
    Item::new(kind, &body).unwrap().as_bytes().to_vec()
}

fn area_from(id: i64, rings: &[Vec<u8>]) -> Area {
    let mut body = id.to_le_bytes().to_vec();
    for ring in rings {
        body.extend_from_slice(ring);
    }
    let item = Item::new(ItemType::Area, &body).unwrap();
    match item.cast() {
        Some(ItemRef::Area(area)) => area,
        _ => panic!("expected an area view"),
    }
}

#[test]
fn way_derived_area_id_round_trips() {
    // original id 42 with the way flag: area id 84
    let area = area_from(84, &[]);
    assert!(area.is_from_way());
    assert_eq!(area.original_id(), 42);
}

#[test]
fn relation_derived_area_id_round_trips() {
    // original id 42 with the relation flag: area id 85
    let area = area_from(85, &[]);
    assert!(!area.is_from_way());
    assert_eq!(area.original_id(), 42);
}

#[test]
fn single_outer_ring_yields_one_outer_and_no_inner() {
    let outer = ring_record(
        ItemType::OuterRing,
        &[area_node_ref(1, 0, 0), area_node_ref(2, 5, 5), area_node_ref(1, 0, 0)],
    );
    let area = area_from(84, &[outer]);
    assert_eq!(area.num_rings(), (1, 0));
    assert!(!area.is_multipolygon());

    let mut outers = area.outer_rings();
    let ring = outers.next().expect("one outer ring");
    assert_eq!(ring.len(), 3);
    assert_eq!(ring.get(1).id, 2);
    assert!(outers.next().is_none());

    let mut inners = area.inner_rings(0);
    assert!(inners.next().is_none());
}

#[test]
fn inner_rings_follow_their_outer_ring() {
    let outer1 = ring_record(ItemType::OuterRing, &[area_node_ref(1, 0, 0)]);
    let inner1 = ring_record(ItemType::InnerRing, &[area_node_ref(2, 1, 1)]);
    let inner2 = ring_record(ItemType::InnerRing, &[area_node_ref(3, 2, 2)]);
    let outer2 = ring_record(ItemType::OuterRing, &[area_node_ref(4, 3, 3)]);
    let inner3 = ring_record(ItemType::InnerRing, &[area_node_ref(5, 4, 4)]);
    let area = area_from(84, &[outer1, inner1, inner2, outer2, inner3]);

    assert_eq!(area.num_rings(), (2, 3));
    assert!(area.is_multipolygon());

    let mut outers = area.outer_rings();
    assert_eq!(outers.next().unwrap().get(0).id, 1);
    assert_eq!(outers.next().unwrap().get(0).id, 4);
    assert!(outers.next().is_none());

    let mut first_inners = area.inner_rings(0);
    assert_eq!(first_inners.next().unwrap().get(0).id, 2);
    assert_eq!(first_inners.next().unwrap().get(0).id, 3);
    assert!(first_inners.next().is_none());

    let mut second_inners = area.inner_rings(1);
    assert_eq!(second_inners.next().unwrap().get(0).id, 5);
    assert!(second_inners.next().is_none());

    // An index with no outer ring yields an empty iteration.
    let mut missing = area.inner_rings(2);
    assert!(missing.next().is_none());
}

#[test]
fn area_with_ill_packed_ring_region_casts_to_none() {
    let mut body = 84i64.to_le_bytes().to_vec();
    body.extend_from_slice(b"garbage");
    let item = Item::new(ItemType::Area, &body).unwrap();
    assert!(item.cast().is_none());
}

#[test]
fn negative_area_ids_keep_flag_and_original() {
    // -7 encodes original -4 with the relation flag under floor division.
    let area = area_from(-7, &[]);
    assert!(!area.is_from_way());
    assert_eq!(area.original_id(), -4);
    let even = area_from(-8, &[]);
    assert!(even.is_from_way());
    assert_eq!(even.original_id(), -4);
}
