//! The line decoder and encoder.

use pensel::decode::{encode_line, parse_line, ACCEL_TAG, GRAVITY_TAG};
use pensel::types::{AccelerationVector, FixedPointVector, GravityVector, ParsedLine};

const EXAMPLE_ACCEL_LINE: &str = "A:1,2,3\n";
const EXAMPLE_GRAVITY_LINE: &str = "G:1,2,3\n";
const EXAMPLE_GRAVITY_LINE_NEG: &str = "G:-1,2,-3\n";

#[test]
fn parse_accel() {
    let res = parse_line(EXAMPLE_ACCEL_LINE.as_bytes());
    let accel_pkt = match res {
        ParsedLine::Accel(a) => a,
        _ => panic!("Line {} parsed incorrectly to {:#?}", EXAMPLE_ACCEL_LINE, res),
    };

    assert_eq!(accel_pkt.x, 1);
    assert_eq!(accel_pkt.y, 2);
    assert_eq!(accel_pkt.z, 3);
}

#[test]
fn parse_grav() {
    let res = parse_line(EXAMPLE_GRAVITY_LINE.as_bytes());
    let grav_pkt = match res {
        ParsedLine::Grav(g) => g,
        _ => panic!(
            "Line '{}' parsed incorrectly to {:#?}",
            EXAMPLE_GRAVITY_LINE, res
        ),
    };

    assert_eq!(grav_pkt.x, 1);
    assert_eq!(grav_pkt.y, 2);
    assert_eq!(grav_pkt.z, 3);
}

#[test]
fn parse_grav_neg() {
    let res = parse_line(EXAMPLE_GRAVITY_LINE_NEG.as_bytes());
    let grav_pkt = match res {
        ParsedLine::Grav(g) => g,
        _ => panic!(
            "Line '{}' parsed incorrectly to {:#?}",
            EXAMPLE_GRAVITY_LINE_NEG, res
        ),
    };

    assert_eq!(grav_pkt.x, -1);
    assert_eq!(grav_pkt.y, 2);
    assert_eq!(grav_pkt.z, -3);
}

#[test]
fn parse_garbage() {
    let garbage_line = "derpy derp\n";
    let res = parse_line(garbage_line.as_bytes());
    match res {
        ParsedLine::Unrecognized => (),
        _ => panic!("Line '{}' parsed incorrectly to {:#?}", garbage_line, res),
    }
}

#[test]
fn parse_field_counts() {
    assert_eq!(parse_line(b"A:1,2\n"), ParsedLine::Unrecognized);
    assert_eq!(parse_line(b"A:1,2,3,4\n"), ParsedLine::Unrecognized);
    assert_eq!(parse_line(b"A:\n"), ParsedLine::Unrecognized);
    assert_eq!(parse_line(b""), ParsedLine::Unrecognized);
    assert_eq!(parse_line(b"B:1,2,3\n"), ParsedLine::Unrecognized);
}

#[test]
fn parse_out_of_range() {
    assert_eq!(parse_line(b"A:32768,0,0\n"), ParsedLine::Unrecognized);
    assert_eq!(parse_line(b"A:0,-32769,0\n"), ParsedLine::Unrecognized);
    let res = parse_line(b"A:32767,-32768,0\n");
    assert_eq!(res, ParsedLine::Accel(FixedPointVector::new(32767, -32768, 0)));
}

#[test]
fn parse_skips_leading_junk_in_fields() {
    let res = parse_line(b"G:x=1, 2,\t3\r\n");
    assert_eq!(res, ParsedLine::Grav(FixedPointVector::new(1, 2, 3)));
}

#[test]
fn encode_exact_text() {
    let v = FixedPointVector::new(1, 2, 3);
    assert_eq!(encode_line(ACCEL_TAG, &v), b"A:1,2,3".to_vec());
    let n = FixedPointVector::new(-1, 20, -300);
    assert_eq!(encode_line(GRAVITY_TAG, &n), b"G:-1,20,-300".to_vec());
}

#[test]
fn decode_encode_roundtrip() {
    let cases: Vec<(i16, i16, i16)> = vec![
        (0, 0, 0),
        (1, 2, 3),
        (-1, 2, -3),
        (32767, -32768, 10000),
        (-12345, 12345, -1),
    ];
    for (x, y, z) in cases {
        let v = AccelerationVector::new(x, y, z);
        assert_eq!(parse_line(&encode_line(ACCEL_TAG, &v)), ParsedLine::Accel(v));
        let g = GravityVector::new(x, y, z);
        assert_eq!(parse_line(&encode_line(GRAVITY_TAG, &g)), ParsedLine::Grav(g));
    }
}

#[test]
fn partial_eq_parsed_line() {
    let mut test_line = ParsedLine::Unrecognized;

    assert_eq!(test_line, ParsedLine::Unrecognized);
    test_line = ParsedLine::Accel(AccelerationVector::new(1, 2, 3));
    assert_ne!(test_line, ParsedLine::Unrecognized);
}
