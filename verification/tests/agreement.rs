use diesel_geography::types::{DecodeError, GeogPoint};
use postgis::ewkb::{AsEwkbPoint, EwkbRead, EwkbWrite, Point, PointZ};
use std::io::Cursor;

fn samples() -> Vec<(f64, f64, Option<i32>)> {
    let mut all = Vec::new();
    for srid in [None, Some(0), Some(4326), Some(-1)] {
        for (x, y) in [(0.0, 0.0), (-122.4194, 37.7749), (180.0, -90.0), (1e-300, -1e300)] {
            all.push((x, y, srid));
        }
    }
    all
}

#[test]
fn writes_what_postgis_writes() {
    for (x, y, srid) in samples() {
        let mut theirs: Vec<u8> = Vec::new();
        Point::new(x, y, srid).as_ewkb().write_ewkb(&mut theirs).unwrap();
        let mut ours: Vec<u8> = Vec::new();
        GeogPoint { lon: x.to_bits(), lat: y.to_bits(), srid }.to_sql(&mut ours);
        assert_eq!(ours, theirs);
    }
}

#[test]
fn reads_what_postgis_writes() {
    for (x, y, srid) in samples() {
        let mut theirs: Vec<u8> = Vec::new();
        Point::new(x, y, srid).as_ewkb().write_ewkb(&mut theirs).unwrap();
        let p = GeogPoint::from_sql(Some(&theirs)).unwrap();
        assert_eq!(f64::from_bits(p.lon), x);
        assert_eq!(f64::from_bits(p.lat), y);
        assert_eq!(p.srid, srid);
    }
}

#[test]
fn postgis_reads_what_is_written() {
    for (x, y, srid) in samples() {
        let mut ours: Vec<u8> = Vec::new();
        GeogPoint { lon: x.to_bits(), lat: y.to_bits(), srid }.to_sql(&mut ours);
        let p = Point::read_ewkb(&mut Cursor::new(&ours)).unwrap();
        assert_eq!(p, Point::new(x, y, srid));
    }
}

#[test]
fn reads_a_point_with_elevation_as_postgis_does() {
    let mut theirs: Vec<u8> = Vec::new();
    PointZ::new(1.0, 2.0, 3.0, Some(4326)).as_ewkb().write_ewkb(&mut theirs).unwrap();
    let p = Point::read_ewkb(&mut Cursor::new(&theirs)).unwrap();
    let q = GeogPoint::from_sql(Some(&theirs)).unwrap();
    assert_eq!(f64::from_bits(q.lon), p.x);
    assert_eq!(f64::from_bits(q.lat), p.y);
    assert_eq!(q.srid, p.srid);
}

#[test]
fn rejects_the_truncations_that_postgis_rejects() {
    let mut theirs: Vec<u8> = Vec::new();
    Point::new(-122.4194, 37.7749, Some(4326)).as_ewkb().write_ewkb(&mut theirs).unwrap();
    for len in 0..theirs.len() {
        assert!(Point::read_ewkb(&mut Cursor::new(&theirs[..len])).is_err());
        assert_eq!(
            GeogPoint::from_sql(Some(&theirs[..len])),
            Err(DecodeError::MalformedEncoding)
        );
    }
}
