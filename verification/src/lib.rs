//! Geographic points and their Extended Well-Known Binary (EWKB) wire form.
//!
//! The crate holds a value type for a point on the globe, [`types::GeogPoint`],
//! and a verified codec between such points and the binary form in which a
//! spatial database exchanges `geography` point columns.

pub mod endian;
pub mod ewkb;
pub mod types;
