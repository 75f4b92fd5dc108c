use libosmium::{Item, ItemBuffer, ItemType};

fn record(kind: ItemType, body: &[u8]) -> Item {
    Item::new(kind, body).unwrap()
}

#[test]
fn three_records_come_back_in_push_order_and_pack_to_48_bytes() {
    // Unpadded record sizes 10, 8 and 20 bytes: padded slots of 16, 8 and 24.
    let r1 = record(ItemType::TagList, b"a\0");
    let r2 = record(ItemType::Changeset, b"");
    let r3 = record(ItemType::TagList, b"key\0value\0xy");
    assert_eq!(r1.byte_size(), 10);
    assert_eq!(r2.byte_size(), 8);
    assert_eq!(r3.byte_size(), 20);

    let mut buffer = ItemBuffer::new();
    buffer.push(&r1);
    buffer.push(&r2);
    buffer.push(&r3);
    assert_eq!(buffer.byte_len(), 48);

    let mut it = buffer.iter();
    let out1 = it.next().unwrap();
    let out2 = it.next().unwrap();
    let out3 = it.next().unwrap();
    assert!(it.next().is_none());
    assert_eq!(out1.as_bytes(), r1.as_bytes());
    assert_eq!(out2.as_bytes(), r2.as_bytes());
    assert_eq!(out3.as_bytes(), r3.as_bytes());
}

#[test]
fn iteration_is_restartable() {
    let mut buffer = ItemBuffer::new();
    buffer.push(&record(ItemType::Changeset, b"abc"));
    let mut first = buffer.iter();
    assert!(first.next().is_some());
    assert!(first.next().is_none());
    let mut again = buffer.iter();
    assert!(again.next().is_some());
    assert!(again.next().is_none());
}

#[test]
fn new_buffer_is_empty_and_clear_drops_content() {
    let mut buffer = ItemBuffer::new();
    assert!(buffer.is_empty());
    buffer.push(&record(ItemType::TagList, b"k\0v\0"));
    assert!(!buffer.is_empty());
    buffer.clear();
    assert!(buffer.is_empty());
    assert_eq!(buffer.byte_len(), 0);
    assert!(buffer.iter().next().is_none());
}

#[test]
fn fits_reports_pre_sized_space() {
    let item = record(ItemType::Changeset, b"12345678");
    let empty = ItemBuffer::new();
    assert!(!empty.fits(&item));
    let sized = ItemBuffer::with_capacity(64);
    assert!(sized.fits(&item));
}

#[test]
fn item_types_lists_the_contained_kinds_in_order() {
    let mut buffer = ItemBuffer::new();
    buffer.push(&record(ItemType::TagList, b"k\0v\0"));
    buffer.push(&record(ItemType::Changeset, b""));
    assert_eq!(buffer.item_types(), vec![ItemType::TagList, ItemType::Changeset]);
}

#[test]
fn aligned_size_rounds_up_to_multiples_of_eight() {
    // Unpadded size 12 aligns to 16; an already aligned 16 stays 16.
    let r12 = record(ItemType::TagList, b"picc");
    assert_eq!(r12.byte_size(), 12);
    assert_eq!(r12.aligned_size(), 16);
    let r16 = record(ItemType::TagList, b"12345678");
    assert_eq!(r16.byte_size(), 16);
    assert_eq!(r16.aligned_size(), 16);
}
