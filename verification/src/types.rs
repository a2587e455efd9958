//! The geographic point and its place in a `geography` column.

use crate::endian::{le_bytes, lemma_radix_pow_values, lemma_value_bound, value_of};
use crate::ewkb::{
    decoding, has_srid, header_type_code, is_point_encoding, lemma_encoding_layout,
    lemma_encoding_len, lemma_read_write, lemma_truncation_rejected, lemma_type_code_flags,
    ordinates_at, read_point, write_point, Point, BIG_ENDIAN,
};
use vstd::prelude::*;
use vstd::std_specs::convert::FromSpec;

verus! {

/// A point on the globe: longitude, latitude and, where it is known, the
/// identifier of the spatial reference system that the two are measured in.
///
/// `lon` and `lat` are the bit patterns of two IEEE 754 binary64 numbers, as
/// `f64::to_bits` gives them. The point is kept as it was given: no range is
/// checked, nothing is normalised or reprojected.
#[derive(Debug, Clone, Copy, PartialEq, Eq, Structural)]
pub struct GeogPoint {
    pub lon: u64,
    pub lat: u64,
    pub srid: Option<i32>,
}

/// Why a column value gave no point.
#[derive(Debug, Clone, Copy, PartialEq, Eq, Structural)]
pub enum DecodeError {
    /// There was no value at all.
    MissingValue,
    /// The bytes do not begin with a whole EWKB point.
    MalformedEncoding,
}

/// Whether a value was written to a column as SQL `NULL`.
#[derive(Debug, Clone, Copy, PartialEq, Eq, Structural)]
pub enum IsNull {
    Yes,
    No,
}

impl From<Point> for GeogPoint {
    /// Takes `x` as the longitude and `y` as the latitude.
    fn from(p: Point) -> (g: GeogPoint) {
        let Point { x, y, srid } = p;
        GeogPoint { lon: x, lat: y, srid }
    }
}

impl vstd::std_specs::convert::FromSpecImpl<Point> for GeogPoint {
    open spec fn obeys_from_spec() -> bool {
        true
    }

    open spec fn from_spec(p: Point) -> GeogPoint {
        GeogPoint { lon: p.x, lat: p.y, srid: p.srid }
    }
}

impl From<GeogPoint> for Point {
    /// Takes the longitude as `x` and the latitude as `y`.
    fn from(p: GeogPoint) -> (q: Point) {
        let GeogPoint { lon, lat, srid } = p;
        Point { x: lon, y: lat, srid }
    }
}

impl vstd::std_specs::convert::FromSpecImpl<GeogPoint> for Point {
    open spec fn obeys_from_spec() -> bool {
        true
    }

    open spec fn from_spec(p: GeogPoint) -> Point {
        Point { x: p.lon, y: p.lat, srid: p.srid }
    }
}

/// The value of a column as a sequence of bytes, where there is a value.
pub open spec fn column_view(bytes: Option<&[u8]>) -> Option<Seq<u8>> {
    match bytes {
        Some(bytes) => Some(bytes@),
        None => None,
    }
}

impl GeogPoint {
    /// The bytes that stand for the point in a column.
    pub open spec fn encoding(self) -> Seq<u8> {
        Point::from_spec(self).encoding()
    }

    /// What a column value holds: an error for a missing value and for bytes
    /// that do not begin with a whole point, else that point.
    pub open spec fn decoding(bytes: Option<Seq<u8>>) -> Result<GeogPoint, DecodeError> {
        match bytes {
            None => Err(DecodeError::MissingValue),
            Some(bytes) => match decoding(bytes) {
                None => Err(DecodeError::MalformedEncoding),
                Some(p) => Ok(GeogPoint::from_spec(p)),
            },
        }
    }

    /// Reads a point from the value of a column.
    pub fn from_sql(bytes: Option<&[u8]>) -> (r: Result<GeogPoint, DecodeError>)
        ensures
            r == Self::decoding(column_view(bytes)),
            r == Err::<GeogPoint, DecodeError>(DecodeError::MissingValue) <==> bytes is None,
            r == Err::<GeogPoint, DecodeError>(DecodeError::MalformedEncoding) <==> (bytes matches Some(
                b,
            ) && !is_point_encoding(b@)),
            r is Ok <==> (bytes matches Some(b) && is_point_encoding(b@)),
    {
        match bytes {
            None => Err(DecodeError::MissingValue),
            Some(bytes) => match read_point(bytes) {
                None => Err(DecodeError::MalformedEncoding),
                Some(p) => Ok(GeogPoint::from(p)),
            },
        }
    }

    /// Appends the point to the buffer of an outgoing column value. A point is
    /// never `NULL`.
    pub fn to_sql(&self, out: &mut Vec<u8>) -> (r: IsNull)
        ensures
            final(out)@ == old(out)@ + self.encoding(),
            r == IsNull::No,
    {
        let p = Point::from(*self);
        write_point(&p, out);
        IsNull::No
    }
}

/// The bytes written for a point read back as that very point, field for
/// field, whatever bit patterns its coordinates hold and whether or not it
/// names a reference system.
pub proof fn lemma_round_trip(p: GeogPoint)
    ensures
        GeogPoint::decoding(Some(p.encoding())) == Ok::<GeogPoint, DecodeError>(p),
{
    lemma_read_write(Point::from_spec(p));
}

/// Between the two point types `x` is the longitude and `y` the latitude, in
/// both directions and unchanged; the identifier is carried through; and each
/// conversion undoes the other.
pub proof fn lemma_conversions_relabel(g: GeogPoint, p: Point)
    ensures
        Point::from_spec(g).x == g.lon,
        Point::from_spec(g).y == g.lat,
        Point::from_spec(g).srid == g.srid,
        GeogPoint::from_spec(p).lon == p.x,
        GeogPoint::from_spec(p).lat == p.y,
        GeogPoint::from_spec(p).srid == p.srid,
        GeogPoint::from_spec(Point::from_spec(g)) == g,
        Point::from_spec(GeogPoint::from_spec(p)) == p,
{
}

/// The last sixteen bytes written for a point are the longitude, then the
/// latitude, each as its own eight bytes: the two are neither swapped nor
/// scaled.
pub proof fn lemma_longitude_written_before_latitude(p: GeogPoint)
    ensures
        p.encoding().len() >= 21,
        p.encoding().subrange(p.encoding().len() - 16, p.encoding().len() - 8) == le_bytes(
            p.lon as nat,
            8,
        ),
        p.encoding().subrange(p.encoding().len() - 8, p.encoding().len() as int) == le_bytes(
            p.lat as nat,
            8,
        ),
{
    let q = Point::from_spec(p);
    lemma_encoding_len(q);
    lemma_encoding_layout(q);
    lemma_type_code_flags(q);
}

/// When a point is read, its longitude is the first ordinate of the bytes and
/// its latitude the second, in the byte order that the marker gives, and it
/// has an identifier exactly when the type code announces one.
pub proof fn lemma_longitude_read_before_latitude(bytes: Seq<u8>)
    requires
        is_point_encoding(bytes),
    ensures
        GeogPoint::decoding(Some(bytes)) is Ok,
        GeogPoint::decoding(Some(bytes))->Ok_0.lon == value_of(
            bytes.subrange(
                ordinates_at(header_type_code(bytes)),
                ordinates_at(header_type_code(bytes)) + 8,
            ),
            bytes[0] == BIG_ENDIAN,
        ),
        GeogPoint::decoding(Some(bytes))->Ok_0.lat == value_of(
            bytes.subrange(
                ordinates_at(header_type_code(bytes)) + 8,
                ordinates_at(header_type_code(bytes)) + 16,
            ),
            bytes[0] == BIG_ENDIAN,
        ),
        GeogPoint::decoding(Some(bytes))->Ok_0.srid is Some <==> has_srid(header_type_code(bytes)),
{
    let at = ordinates_at(header_type_code(bytes));
    let big_endian = bytes[0] == BIG_ENDIAN;
    lemma_radix_pow_values();
    lemma_value_bound(bytes.subrange(at, at + 8), big_endian);
    lemma_value_bound(bytes.subrange(at + 8, at + 16), big_endian);
}

/// The bytes written for a point carry the identifier flag exactly when the
/// point has an identifier, and they read back with the same identifier; a
/// point without one reads back without one, not with zero.
pub proof fn lemma_srid_fidelity(p: GeogPoint)
    ensures
        has_srid(header_type_code(p.encoding())) <==> p.srid is Some,
        p.encoding().len() == (if p.srid is Some {
            25int
        } else {
            21int
        }),
        GeogPoint::decoding(Some(p.encoding())) is Ok,
        GeogPoint::decoding(Some(p.encoding()))->Ok_0.srid == p.srid,
{
    let q = Point::from_spec(p);
    lemma_encoding_len(q);
    lemma_encoding_layout(q);
    lemma_type_code_flags(q);
    lemma_round_trip(p);
}

/// The bytes written for a point, cut short anywhere, are rejected as
/// malformed.
pub proof fn lemma_truncated_is_malformed(p: GeogPoint, len: int)
    requires
        0 <= len < p.encoding().len(),
    ensures
        GeogPoint::decoding(Some(p.encoding().subrange(0, len))) == Err::<GeogPoint, DecodeError>(
            DecodeError::MalformedEncoding,
        ),
{
    lemma_truncation_rejected(Point::from_spec(p), len);
}

/// No value shorter than 21 bytes holds a point.
pub proof fn lemma_short_is_malformed(bytes: Seq<u8>)
    requires
        bytes.len() < 21,
    ensures
        GeogPoint::decoding(Some(bytes)) == Err::<GeogPoint, DecodeError>(
            DecodeError::MalformedEncoding,
        ),
{
}

/// Where there is no value, the answer is `MissingValue`.
pub proof fn lemma_missing_is_missing_value()
    ensures
        GeogPoint::decoding(None) == Err::<GeogPoint, DecodeError>(DecodeError::MissingValue),
{
}

} // verus!
