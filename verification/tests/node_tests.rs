use libosmium::wire::{i32_to_u32, i64_to_u64, read_u32, u32_to_i32, u64_to_i64};
use libosmium::{Location, Node, NodeRef, OSMObject, UNDEFINED_COORDINATE};

#[test]
fn get_location_returns_only_valid_locations() {
    let valid = NodeRef {
        id: 1,
        location: Location { raw_x: 10, raw_y: 20 },
    };
    assert_eq!(valid.get_location(), Some(Location { raw_x: 10, raw_y: 20 }));

    let invalid = NodeRef {
        id: 2,
        location: Location {
            raw_x: UNDEFINED_COORDINATE,
            raw_y: UNDEFINED_COORDINATE,
        },
    };
    assert_eq!(invalid.get_location(), None);
}

#[test]
fn set_location_replaces_only_the_location() {
    let mut node = Node {
        object: OSMObject { id: 7 },
        location: Location { raw_x: 0, raw_y: 0 },
    };
    node.set_location(&Location { raw_x: 3, raw_y: 4 });
    assert_eq!(node.location(), Location { raw_x: 3, raw_y: 4 });
    assert_eq!(node.object.id(), 7);
}

#[test]
fn positive_id_is_the_absolute_value() {
    assert_eq!(OSMObject { id: 42 }.positive_id(), 42);
    assert_eq!(OSMObject { id: -42 }.positive_id(), 42);
    assert_eq!(OSMObject { id: i64::MIN }.positive_id(), 1u64 << 63);
}

#[test]
fn twos_complement_conversions_round_trip() {
    for v in [0i64, 1, -1, 42, -42, i64::MAX, i64::MIN] {
        assert_eq!(u64_to_i64(i64_to_u64(v)), v);
        assert_eq!(i64_to_u64(v), v as u64);
    }
    for v in [0i32, 1, -1, i32::MAX, i32::MIN] {
        assert_eq!(u32_to_i32(i32_to_u32(v)), v);
        assert_eq!(i32_to_u32(v), v as u32);
    }
}

#[test]
fn little_endian_reads_match_the_byte_order() {
    let bytes = [0x78u8, 0x56, 0x34, 0x12, 0xFF];
    assert_eq!(read_u32(&bytes, 0), 0x12345678);
    assert_eq!(read_u32(&bytes, 1), 0xFF123456);
}
