use libosmium::{Location, PRECISION, UNDEFINED_COORDINATE};

#[test]
fn valid_coordinate_is_defined() {
    let loc = Location {
        raw_x: 99936955,
        raw_y: 535511234,
    };
    assert!(loc.is_valid());
    assert!(loc.is_defined());
    assert!(!loc.is_undefined());
}

#[test]
fn sentinel_pair_is_undefined_and_not_valid() {
    let loc = Location {
        raw_x: UNDEFINED_COORDINATE,
        raw_y: UNDEFINED_COORDINATE,
    };
    assert!(loc.is_undefined());
    assert!(!loc.is_defined());
    assert!(!loc.is_valid());
}

#[test]
fn one_defined_axis_is_defined_but_sentinel_x_is_invalid() {
    let loc = Location {
        raw_x: UNDEFINED_COORDINATE,
        raw_y: 0,
    };
    assert!(loc.is_defined());
    assert!(!loc.is_undefined());
    // The sentinel lies outside the valid longitude range.
    assert!(!loc.is_valid());
}

#[test]
fn validity_bounds_are_inclusive() {
    let max = Location {
        raw_x: 180 * PRECISION,
        raw_y: 90 * PRECISION,
    };
    assert!(max.is_valid());
    let over = Location {
        raw_x: 180 * PRECISION + 1,
        raw_y: 0,
    };
    assert!(!over.is_valid());
    let min = Location {
        raw_x: -180 * PRECISION,
        raw_y: -90 * PRECISION,
    };
    assert!(min.is_valid());
}

#[test]
fn display_positive_coordinate() {
    let loc = Location {
        raw_x: 99936955,
        raw_y: 535511234,
    };
    assert_eq!(loc.display_string(), "53.5511234\u{b0} N 9.9936955\u{b0} E");
}

#[test]
fn display_negative_and_zero_coordinate() {
    let loc = Location {
        raw_x: -1,
        raw_y: 0,
    };
    assert_eq!(loc.display_string(), "0.0\u{b0} S 0.1\u{b0} W");
}
