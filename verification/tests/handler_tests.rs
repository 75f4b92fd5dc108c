use libosmium::handler::{apply_buffer, dispatch, Handler};
use libosmium::{Item, ItemBuffer, ItemType, Node, OSMObject, Way};
use libosmium::tag_list::TagList;

#[derive(Default)]
struct Counter {
    nodes: usize,
    ways: usize,
    tag_lists: usize,
    objects: usize,
    flushes: usize,
    node_ids: Vec<i64>,
}

impl Handler for Counter {
    fn node(&mut self, node: &Node) {
        self.nodes += 1;
        self.node_ids.push(node.object.id);
    }

    fn way(&mut self, _way: &Way) {
        self.ways += 1;
    }

    fn tag_list(&mut self, _tag_list: &TagList) {
        self.tag_lists += 1;
    }

    fn osm_object(&mut self, _object: &OSMObject) {
        self.objects += 1;
    }

    fn flush(&mut self) {
        self.flushes += 1;
    }
}

fn node_record(id: i64, raw_x: i32, raw_y: i32) -> Item {
    let mut body = id.to_le_bytes().to_vec();
    body.extend_from_slice(&raw_x.to_le_bytes());
    body.extend_from_slice(&raw_y.to_le_bytes());
    Item::new(ItemType::Node, &body).unwrap()
}

#[test]
fn dispatch_invokes_the_matching_slot() {
    let mut counter = Counter::default();
    assert!(dispatch(&mut counter, &node_record(3, 0, 0)));
    assert_eq!(counter.nodes, 1);
    assert_eq!(counter.objects, 1);
    assert_eq!(counter.ways, 0);
}

#[test]
fn dispatch_of_an_unrecognized_record_is_a_recovered_no_op() {
    let mut bytes = 9u32.to_le_bytes().to_vec();
    bytes.extend_from_slice(&0x77u16.to_le_bytes());
    bytes.extend_from_slice(&0u16.to_le_bytes());
    bytes.push(0xAB);
    let item = Item::from_bytes(bytes).unwrap();
    let mut counter = Counter::default();
    assert!(!dispatch(&mut counter, &item));
    assert_eq!(counter.nodes + counter.ways + counter.tag_lists + counter.objects, 0);
}

#[test]
fn apply_buffer_streams_records_in_order_and_flushes_once() {
    let mut buffer = ItemBuffer::new();
    buffer.push(&node_record(1, 0, 0));
    buffer.push(&Item::new(ItemType::TagList, b"k\0v\0").unwrap());
    buffer.push(&node_record(2, 0, 0));

    let mut counter = Counter::default();
    let (dispatched, skipped) = apply_buffer(&mut counter, &buffer);
    assert_eq!((dispatched, skipped), (3, 0));
    assert_eq!(counter.nodes, 2);
    assert_eq!(counter.tag_lists, 1);
    assert_eq!(counter.flushes, 1);
    assert_eq!(counter.node_ids, vec![1, 2]);
}

#[test]
fn apply_buffer_counts_uncastable_records_as_skipped() {
    let mut undefined = 8u32.to_le_bytes().to_vec();
    undefined.extend_from_slice(&0u16.to_le_bytes());
    undefined.extend_from_slice(&0u16.to_le_bytes());
    let mut buffer = ItemBuffer::new();
    buffer.push(&Item::from_bytes(undefined).unwrap());
    buffer.push(&node_record(5, 0, 0));

    let mut counter = Counter::default();
    let (dispatched, skipped) = apply_buffer(&mut counter, &buffer);
    assert_eq!((dispatched, skipped), (1, 1));
    assert_eq!(counter.flushes, 1);
}

struct OnlyFlush {
    flushes: usize,
}

impl Handler for OnlyFlush {
    fn flush(&mut self) {
        self.flushes += 1;
    }
}

#[test]
fn unset_slots_are_no_ops() {
    let mut buffer = ItemBuffer::new();
    buffer.push(&node_record(1, 0, 0));
    let mut handler = OnlyFlush { flushes: 0 };
    let (dispatched, _) = apply_buffer(&mut handler, &buffer);
    assert_eq!(dispatched, 1);
    assert_eq!(handler.flushes, 1);
}
