//! The point geometry of Extended Well-Known Binary (EWKB).
//!
//! A point is laid out as a byte-order marker, a 32-bit type code, an optional
//! 32-bit spatial reference identifier and the ordinates, each a 64-bit
//! IEEE 754 number. Ordinates are kept as their bit patterns: the codec moves
//! them, it never computes with them.

use crate::endian::{
    from_twos_complement, i32_from_bits, i32_to_bits, le_bytes, lemma_le_bytes_len,
    lemma_le_round_trip, lemma_radix_pow_values, lemma_twos_complement_round_trip,
    lemma_value_bound, push_u32_le, push_u64_le, read_u32, read_u64, twos_complement, value_of,
};
use vstd::prelude::*;

verus! {

/// Byte-order marker of an encoding whose numbers are most significant byte first.
pub const BIG_ENDIAN: u8 = 0;

/// Byte-order marker of an encoding whose numbers are least significant byte first.
pub const LITTLE_ENDIAN: u8 = 1;

/// Bit of the type code that announces a spatial reference identifier.
pub const SRID_FLAG: u32 = 0x2000_0000;

/// Bit of the type code that announces a third ordinate, the elevation.
pub const Z_FLAG: u32 = 0x8000_0000;

/// Bit of the type code that announces a measure after the ordinates.
pub const M_FLAG: u32 = 0x4000_0000;

/// The bits of the type code that name the geometry.
pub const GEOMETRY_MASK: u32 = 0x1fff_ffff;

/// The geometry named "point".
pub const POINT: u32 = 0x0000_0001;

/// Type code of a point that carries a spatial reference identifier.
pub const POINT_WITH_SRID: u32 = 0x2000_0001;

/// A point of the plane in a spatial reference system.
///
/// `x` and `y` are the bit patterns of two IEEE 754 binary64 numbers.
#[derive(Debug, Clone, Copy, PartialEq, Eq, Structural)]
pub struct Point {
    pub x: u64,
    pub y: u64,
    pub srid: Option<i32>,
}

impl Point {
    /// The type code under which the point is written.
    pub open spec fn type_code(self) -> u32 {
        if self.srid is Some {
            POINT_WITH_SRID
        } else {
            POINT
        }
    }

    /// The bytes that the spatial reference identifier takes: four, or none.
    pub open spec fn srid_bytes(self) -> Seq<u8> {
        match self.srid {
            Some(srid) => le_bytes(twos_complement(srid), 4),
            None => Seq::empty(),
        }
    }

    /// The wire form of the point: little-endian, with the identifier exactly
    /// when the point has one, then `x`, then `y`.
    pub open spec fn encoding(self) -> Seq<u8> {
        seq![LITTLE_ENDIAN] + le_bytes(self.type_code() as nat, 4) + self.srid_bytes() + le_bytes(
            self.x as nat,
            8,
        ) + le_bytes(self.y as nat, 8)
    }
}

/// Whether the type code announces a spatial reference identifier.
pub open spec fn has_srid(type_code: u32) -> bool {
    type_code & SRID_FLAG != 0
}

/// Whether the type code announces an elevation.
pub open spec fn has_z(type_code: u32) -> bool {
    type_code & Z_FLAG != 0
}

/// Whether the type code announces a measure.
pub open spec fn has_m(type_code: u32) -> bool {
    type_code & M_FLAG != 0
}

/// Whether the type code names a point.
pub open spec fn is_point(type_code: u32) -> bool {
    type_code & GEOMETRY_MASK == POINT
}

/// Index of the first ordinate in an encoding with this type code.
pub open spec fn ordinates_at(type_code: u32) -> int {
    if has_srid(type_code) {
        9
    } else {
        5
    }
}

/// Number of bytes that a point with this type code takes.
pub open spec fn point_len(type_code: u32) -> int {
    ordinates_at(type_code) + 16 + (if has_z(type_code) {
        8int
    } else {
        0int
    }) + (if has_m(type_code) {
        8int
    } else {
        0int
    })
}

/// The type code that the header of `bytes` holds, in the byte order that
/// its marker gives.
pub open spec fn header_type_code(bytes: Seq<u8>) -> u32
    recommends
        bytes.len() >= 5,
{
    value_of(bytes.subrange(1, 5), bytes[0] == BIG_ENDIAN) as u32
}

/// Whether `bytes` begins with a whole point: a known byte-order marker, a
/// type code that names a point, and every field that the type code announces.
pub open spec fn is_point_encoding(bytes: Seq<u8>) -> bool {
    &&& bytes.len() >= 5
    &&& (bytes[0] == BIG_ENDIAN || bytes[0] == LITTLE_ENDIAN)
    &&& is_point(header_type_code(bytes))
    &&& bytes.len() >= point_len(header_type_code(bytes))
}

/// The point that `bytes` begins with, if it begins with one. An elevation
/// and a measure are passed over, and so is whatever follows the point.
pub open spec fn decoding(bytes: Seq<u8>) -> Option<Point> {
    if is_point_encoding(bytes) {
        let big_endian = bytes[0] == BIG_ENDIAN;
        let type_code = header_type_code(bytes);
        let at = ordinates_at(type_code);
        Some(
            Point {
                x: value_of(bytes.subrange(at, at + 8), big_endian) as u64,
                y: value_of(bytes.subrange(at + 8, at + 16), big_endian) as u64,
                srid: if has_srid(type_code) {
                    Some(from_twos_complement(value_of(bytes.subrange(5, 9), big_endian)) as i32)
                } else {
                    None
                },
            },
        )
    } else {
        None
    }
}

/// Appends the wire form of `point` to `out`.
pub fn write_point(point: &Point, out: &mut Vec<u8>)
    ensures
        final(out)@ == old(out)@ + point.encoding(),
{
    out.push(LITTLE_ENDIAN);
    match point.srid {
        Some(srid) => {
            push_u32_le(out, POINT_WITH_SRID);
            push_u32_le(out, i32_to_bits(srid));
        },
        None => {
            push_u32_le(out, POINT);
        },
    }
    push_u64_le(out, point.x);
    push_u64_le(out, point.y);
}

/// Reads the point that `bytes` begins with; `None` when it begins with none.
pub fn read_point(bytes: &[u8]) -> (point: Option<Point>)
    ensures
        point == decoding(bytes@),
{
    if bytes.len() < 5 {
        return None;
    }
    let marker: u8 = bytes[0];
    if marker != BIG_ENDIAN && marker != LITTLE_ENDIAN {
        return None;
    }
    let big_endian = marker == BIG_ENDIAN;
    let type_code: u32 = read_u32(bytes, 1, big_endian);
    if type_code & GEOMETRY_MASK != POINT {
        return None;
    }
    let with_srid = type_code & SRID_FLAG != 0;
    let at: usize = if with_srid {
        9
    } else {
        5
    };
    let mut len: usize = at + 16;
    if type_code & Z_FLAG != 0 {
        len = len + 8;
    }
    if type_code & M_FLAG != 0 {
        len = len + 8;
    }
    if bytes.len() < len {
        return None;
    }
    let srid: Option<i32> = if with_srid {
        Some(i32_from_bits(read_u32(bytes, 5, big_endian)))
    } else {
        None
    };
    let x: u64 = read_u64(bytes, at, big_endian);
    let y: u64 = read_u64(bytes, at + 8, big_endian);
    Some(Point { x, y, srid })
}

/// A point is written in 21 bytes, or in 25 with its identifier.
pub proof fn lemma_encoding_len(point: Point)
    ensures
        point.encoding().len() == point_len(point.type_code()),
        point.encoding().len() == (if point.srid is Some {
            25int
        } else {
            21int
        }),
{
    lemma_type_code_flags(point);
    lemma_field_lens(point);
}

/// The type code of a point names a point, carries the identifier flag
/// exactly when the point has an identifier, and announces nothing else.
pub proof fn lemma_type_code_flags(point: Point)
    ensures
        is_point(point.type_code()),
        has_srid(point.type_code()) <==> point.srid is Some,
        !has_z(point.type_code()),
        !has_m(point.type_code()),
{
    assert(0x2000_0001u32 & 0x1fff_ffff == 1 && 0x2000_0001u32 & 0x2000_0000 != 0 && 0x2000_0001u32
        & 0x8000_0000 == 0 && 0x2000_0001u32 & 0x4000_0000 == 0) by (bit_vector);
    assert(1u32 & 0x1fff_ffff == 1 && 1u32 & 0x2000_0000 == 0 && 1u32 & 0x8000_0000 == 0 && 1u32
        & 0x4000_0000 == 0) by (bit_vector);
}

/// The fields of a wire form, each where the layout puts it: the marker, the
/// type code, the identifier if there is one, then `x` before `y`.
pub proof fn lemma_encoding_layout(point: Point)
    ensures
        point.encoding()[0] == LITTLE_ENDIAN,
        point.encoding().subrange(1, 5) == le_bytes(point.type_code() as nat, 4),
        header_type_code(point.encoding()) == point.type_code(),
        point.srid is Some ==> point.encoding().subrange(5, 9) == point.srid_bytes(),
        point.encoding().subrange(
            ordinates_at(point.type_code()),
            ordinates_at(point.type_code()) + 8,
        ) == le_bytes(point.x as nat, 8),
        point.encoding().subrange(
            ordinates_at(point.type_code()) + 8,
            ordinates_at(point.type_code()) + 16,
        ) == le_bytes(point.y as nat, 8),
{
    lemma_type_code_flags(point);
    lemma_field_lens(point);
    lemma_radix_pow_values();
    lemma_le_round_trip(point.type_code() as nat, 4);
    assert(point.encoding().subrange(1, 5) =~= le_bytes(point.type_code() as nat, 4));
}

/// The length of each field of a wire form.
proof fn lemma_field_lens(point: Point)
    ensures
        le_bytes(point.type_code() as nat, 4).len() == 4,
        point.srid_bytes().len() == (if point.srid is Some {
            4int
        } else {
            0int
        }),
        le_bytes(point.x as nat, 8).len() == 8,
        le_bytes(point.y as nat, 8).len() == 8,
{
    lemma_le_bytes_len(point.type_code() as nat, 4);
    lemma_le_bytes_len(point.x as nat, 8);
    lemma_le_bytes_len(point.y as nat, 8);
    if let Some(srid) = point.srid {
        lemma_le_bytes_len(twos_complement(srid), 4);
    }
}

/// Reading what was written gives the point back, whatever its ordinates and
/// its identifier are, and a missing identifier stays missing.
pub proof fn lemma_read_write(point: Point)
    ensures
        is_point_encoding(point.encoding()),
        decoding(point.encoding()) == Some(point),
{
    lemma_encoding_len(point);
    lemma_encoding_layout(point);
    lemma_type_code_flags(point);
    lemma_radix_pow_values();
    lemma_le_round_trip(point.x as nat, 8);
    lemma_le_round_trip(point.y as nat, 8);
    if let Some(srid) = point.srid {
        lemma_twos_complement_round_trip(srid);
        lemma_le_round_trip(twos_complement(srid), 4);
    }
}

/// Bytes that follow a point do not change what is read.
pub proof fn lemma_trailing_bytes_ignored(bytes: Seq<u8>, rest: Seq<u8>)
    requires
        is_point_encoding(bytes),
    ensures
        decoding(bytes + rest) == decoding(bytes),
{
    let all = bytes + rest;
    assert(all.subrange(1, 5) =~= bytes.subrange(1, 5));
    let at = ordinates_at(header_type_code(bytes));
    assert(all.subrange(5, 9) =~= bytes.subrange(5, 9));
    assert(all.subrange(at, at + 8) =~= bytes.subrange(at, at + 8));
    assert(all.subrange(at + 8, at + 16) =~= bytes.subrange(at + 8, at + 16));
}

/// A wire form cut short anywhere holds no point.
pub proof fn lemma_truncation_rejected(point: Point, len: int)
    requires
        0 <= len < point.encoding().len(),
    ensures
        decoding(point.encoding().subrange(0, len)) is None,
{
    let whole = point.encoding();
    let cut = whole.subrange(0, len);
    lemma_encoding_len(point);
    lemma_encoding_layout(point);
    if len >= 5 {
        assert(cut.subrange(1, 5) =~= whole.subrange(1, 5));
        assert(header_type_code(cut) == point.type_code());
    }
}

} // verus!
