use diesel_geography::types::{DecodeError, GeogPoint, IsNull};

fn point(lon: f64, lat: f64, srid: Option<i32>) -> GeogPoint {
    GeogPoint { lon: lon.to_bits(), lat: lat.to_bits(), srid }
}

fn encode(p: &GeogPoint) -> Vec<u8> {
    let mut out = Vec::new();
    assert_eq!(p.to_sql(&mut out), IsNull::No);
    out
}

#[test]
fn san_francisco_round_trips_exactly() {
    let p = point(-122.4194, 37.7749, Some(4326));
    let bytes = encode(&p);
    let q = GeogPoint::from_sql(Some(&bytes)).unwrap();
    assert_eq!(f64::from_bits(q.lon), -122.4194);
    assert_eq!(f64::from_bits(q.lat), 37.7749);
    assert_eq!(q.srid, Some(4326));
    assert_eq!(q, p);
}

#[test]
fn san_francisco_has_the_expected_bytes() {
    let bytes = encode(&point(-122.4194, 37.7749, Some(4326)));
    let expected: Vec<u8> = vec![
        0x01, // little-endian
        0x01, 0x00, 0x00, 0x20, // point, with identifier
        0xe6, 0x10, 0x00, 0x00, // 4326
        0x50, 0xfc, 0x18, 0x73, 0xd7, 0x9a, 0x5e, 0xc0, // -122.4194
        0xd0, 0xd5, 0x56, 0xec, 0x2f, 0xe3, 0x42, 0x40, // 37.7749
    ];
    assert_eq!(bytes, expected);
}

#[test]
fn origin_without_identifier_has_no_identifier_field() {
    let p = point(0.0, 0.0, None);
    let bytes = encode(&p);
    let mut expected: Vec<u8> = vec![0x01, 0x01, 0x00, 0x00, 0x00];
    expected.extend_from_slice(&[0u8; 16]);
    assert_eq!(bytes, expected);
    assert_eq!(bytes.len(), 21);
    assert_eq!(bytes[4] & 0x20, 0);
    let q = GeogPoint::from_sql(Some(&bytes)).unwrap();
    assert_eq!(q.srid, None);
    assert_eq!(q, p);
}

#[test]
fn every_identifier_round_trips() {
    let coordinates = [
        (0.0, 0.0),
        (-0.0, 0.0),
        (180.0, -90.0),
        (-122.4194, 37.7749),
        (f64::MAX, f64::MIN),
        (f64::MIN_POSITIVE, 5e-324),
        (1e300, -1e-300),
    ];
    for srid in [None, Some(0), Some(4326), Some(-1), Some(i32::MIN), Some(i32::MAX)] {
        for (lon, lat) in coordinates {
            let p = point(lon, lat, srid);
            let bytes = encode(&p);
            assert_eq!(GeogPoint::from_sql(Some(&bytes)), Ok(p));
        }
    }
}

#[test]
fn bit_patterns_that_are_no_finite_number_round_trip_too() {
    for bits in [
        f64::NAN.to_bits(),
        f64::INFINITY.to_bits(),
        f64::NEG_INFINITY.to_bits(),
        0x7ff0_0000_0000_0001,
        u64::MAX,
    ] {
        let p = GeogPoint { lon: bits, lat: !bits, srid: Some(4326) };
        assert_eq!(GeogPoint::from_sql(Some(&encode(&p))), Ok(p));
    }
}

#[test]
fn identifier_zero_is_not_a_missing_identifier() {
    let with_zero = encode(&point(1.0, 2.0, Some(0)));
    let without = encode(&point(1.0, 2.0, None));
    assert_eq!(with_zero.len(), 25);
    assert_eq!(without.len(), 21);
    assert_eq!(with_zero[4], 0x20);
    assert_eq!(without[4], 0x00);
    assert_eq!(&with_zero[5..9], &[0, 0, 0, 0]);
    assert_eq!(GeogPoint::from_sql(Some(&with_zero)).unwrap().srid, Some(0));
    assert_eq!(GeogPoint::from_sql(Some(&without)).unwrap().srid, None);
}

#[test]
fn negative_identifier_is_written_in_twos_complement() {
    let bytes = encode(&point(1.0, 2.0, Some(-1)));
    assert_eq!(&bytes[5..9], &[0xff, 0xff, 0xff, 0xff]);
    assert_eq!(GeogPoint::from_sql(Some(&bytes)).unwrap().srid, Some(-1));
}

#[test]
fn longitude_is_written_before_latitude() {
    let bytes = encode(&point(1.0, 2.0, None));
    assert_eq!(&bytes[5..13], &1.0f64.to_le_bytes());
    assert_eq!(&bytes[13..21], &2.0f64.to_le_bytes());
    let bytes = encode(&point(1.0, 2.0, Some(4326)));
    assert_eq!(&bytes[9..17], &1.0f64.to_le_bytes());
    assert_eq!(&bytes[17..25], &2.0f64.to_le_bytes());
}

#[test]
fn longitude_is_read_before_latitude() {
    let mut bytes: Vec<u8> = vec![0x01, 0x01, 0x00, 0x00, 0x00];
    bytes.extend_from_slice(&10.5f64.to_le_bytes());
    bytes.extend_from_slice(&(-20.25f64).to_le_bytes());
    let p = GeogPoint::from_sql(Some(&bytes)).unwrap();
    assert_eq!(f64::from_bits(p.lon), 10.5);
    assert_eq!(f64::from_bits(p.lat), -20.25);
}

#[test]
fn big_endian_input_is_read_in_its_own_byte_order() {
    let mut bytes: Vec<u8> = vec![0x00, 0x20, 0x00, 0x00, 0x01];
    bytes.extend_from_slice(&4326i32.to_be_bytes());
    bytes.extend_from_slice(&(-122.4194f64).to_be_bytes());
    bytes.extend_from_slice(&37.7749f64.to_be_bytes());
    assert_eq!(GeogPoint::from_sql(Some(&bytes)), Ok(point(-122.4194, 37.7749, Some(4326))));

    let mut bytes: Vec<u8> = vec![0x00, 0x00, 0x00, 0x00, 0x01];
    bytes.extend_from_slice(&1.0f64.to_be_bytes());
    bytes.extend_from_slice(&2.0f64.to_be_bytes());
    assert_eq!(GeogPoint::from_sql(Some(&bytes)), Ok(point(1.0, 2.0, None)));
}

#[test]
fn absent_value_is_missing_value() {
    assert_eq!(GeogPoint::from_sql(None), Err(DecodeError::MissingValue));
}

#[test]
fn four_bytes_are_malformed() {
    let bytes = encode(&point(-122.4194, 37.7749, Some(4326)));
    assert_eq!(GeogPoint::from_sql(Some(&bytes[..4])), Err(DecodeError::MalformedEncoding));
}

#[test]
fn empty_value_is_malformed_not_missing() {
    assert_eq!(GeogPoint::from_sql(Some(&[])), Err(DecodeError::MalformedEncoding));
}

#[test]
fn every_truncation_is_malformed() {
    for srid in [None, Some(4326)] {
        let bytes = encode(&point(-122.4194, 37.7749, srid));
        for len in 0..bytes.len() {
            assert_eq!(
                GeogPoint::from_sql(Some(&bytes[..len])),
                Err(DecodeError::MalformedEncoding),
                "prefix of {} bytes",
                len
            );
        }
        assert!(GeogPoint::from_sql(Some(&bytes)).is_ok());
    }
}

#[test]
fn other_geometries_are_malformed() {
    for geometry in [0u8, 2, 3, 4, 5, 6, 7] {
        let mut bytes: Vec<u8> = vec![0x01, geometry, 0x00, 0x00, 0x00];
        bytes.extend_from_slice(&[0u8; 64]);
        assert_eq!(GeogPoint::from_sql(Some(&bytes)), Err(DecodeError::MalformedEncoding));
    }
    let mut bytes: Vec<u8> = vec![0x01, 0x01, 0x01, 0x00, 0x00];
    bytes.extend_from_slice(&[0u8; 64]);
    assert_eq!(GeogPoint::from_sql(Some(&bytes)), Err(DecodeError::MalformedEncoding));
    let mut bytes: Vec<u8> = vec![0x01, 0x01, 0x00, 0x00, 0x10];
    bytes.extend_from_slice(&[0u8; 64]);
    assert_eq!(GeogPoint::from_sql(Some(&bytes)), Err(DecodeError::MalformedEncoding));
}

#[test]
fn unknown_byte_order_marker_is_malformed() {
    let good = encode(&point(1.0, 2.0, None));
    for marker in [2u8, 3, 0x7f, 0xff] {
        let mut bytes = good.clone();
        bytes[0] = marker;
        assert_eq!(GeogPoint::from_sql(Some(&bytes)), Err(DecodeError::MalformedEncoding));
    }
}

#[test]
fn bytes_after_the_point_are_ignored() {
    let p = point(1.0, 2.0, Some(4326));
    let mut bytes = encode(&p);
    bytes.extend_from_slice(&[0xaa, 0xbb, 0xcc]);
    assert_eq!(GeogPoint::from_sql(Some(&bytes)), Ok(p));
}

#[test]
fn elevation_and_measure_are_passed_over() {
    // elevation
    let mut bytes: Vec<u8> = vec![0x01, 0x01, 0x00, 0x00, 0x80];
    bytes.extend_from_slice(&1.0f64.to_le_bytes());
    bytes.extend_from_slice(&2.0f64.to_le_bytes());
    assert_eq!(GeogPoint::from_sql(Some(&bytes)), Err(DecodeError::MalformedEncoding));
    bytes.extend_from_slice(&3.0f64.to_le_bytes());
    assert_eq!(GeogPoint::from_sql(Some(&bytes)), Ok(point(1.0, 2.0, None)));

    // measure, with identifier
    let mut bytes: Vec<u8> = vec![0x01, 0x01, 0x00, 0x00, 0x60];
    bytes.extend_from_slice(&4326i32.to_le_bytes());
    bytes.extend_from_slice(&1.0f64.to_le_bytes());
    bytes.extend_from_slice(&2.0f64.to_le_bytes());
    assert_eq!(GeogPoint::from_sql(Some(&bytes)), Err(DecodeError::MalformedEncoding));
    bytes.extend_from_slice(&3.0f64.to_le_bytes());
    assert_eq!(GeogPoint::from_sql(Some(&bytes)), Ok(point(1.0, 2.0, Some(4326))));

    // both
    let mut bytes: Vec<u8> = vec![0x01, 0x01, 0x00, 0x00, 0xc0];
    bytes.extend_from_slice(&1.0f64.to_le_bytes());
    bytes.extend_from_slice(&2.0f64.to_le_bytes());
    bytes.extend_from_slice(&3.0f64.to_le_bytes());
    assert_eq!(GeogPoint::from_sql(Some(&bytes)), Err(DecodeError::MalformedEncoding));
    bytes.extend_from_slice(&4.0f64.to_le_bytes());
    assert_eq!(GeogPoint::from_sql(Some(&bytes)), Ok(point(1.0, 2.0, None)));
}

#[test]
fn to_sql_appends_and_keeps_what_was_there() {
    let mut out: Vec<u8> = vec![0xde, 0xad];
    let p = point(1.0, 2.0, None);
    assert_eq!(p.to_sql(&mut out), IsNull::No);
    assert_eq!(out.len(), 23);
    assert_eq!(&out[..2], &[0xde, 0xad]);
    assert_eq!(&out[2..], &encode(&p)[..]);
    assert_ne!(IsNull::No, IsNull::Yes);
}
