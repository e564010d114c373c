//! A verified columnar codec for vector geometries.
//!
//! A heterogeneous stream of geometry values (points, lines,
//! polygons, their multi forms, and nested collections of them) is
//! encoded into a compact table in which each geometry kind owns one
//! lazily created, nullable, row-synchronized column
//! ([`encode::Builders`], built on [`variant::VariantBuilder`]), and
//! the finished table ([`table::ColumnarGeometryTable`]) is decoded
//! row by row back into geometry values. Computed per-row outputs are
//! gathered symmetrically into a single typed column
//! ([`result::Builder`]); [`ops`] channels the geometry algorithm
//! library over every row that way.
//!
//! Coordinates are carried as the bit patterns of 64-bit floats, so
//! the codec itself is reasoned about over plain integers; every
//! numeric judgement on them (winding, smoothing, distance,
//! intersection) is delegated to the geometry algorithm library
//! behind the narrow trusted interface in [`geoalg`].
//!
//! [`laws`] states and proves the codec's headline properties: round
//! trip, the collapse of same-kind collections, heterogeneous
//! fan-out, null rows, and the sparse schema.
use vstd::prelude::*;

pub mod geom;
pub mod variant;
pub mod encode;
pub mod table;
pub mod geoalg;
pub mod decode;
pub mod result;
pub mod ops;
pub mod laws;

verus! {

/// The error and warning taxonomy of the codec.
///
/// `SchemaConflict`, `InvalidState` and `IncompatibleResultType` are
/// fatal: the operation that meets one returns it and leaves its
/// receiver unchanged. `UnsupportedGeometryKind` and
/// `MalformedCoordinate` are row-local: the encoder degrades the
/// affected entry to null and records the condition as a warning.
#[derive(Clone, Copy, Debug, PartialEq, Eq, Structural)]
pub enum GeoError {
    SchemaConflict,
    InvalidState,
    UnsupportedGeometryKind,
    MalformedCoordinate,
    IncompatibleResultType,
}

/// A row-local condition the encoder recovered from, reported on the
/// side rather than thrown.
#[derive(Clone, Copy, Debug, PartialEq, Eq, Structural)]
pub struct EncodeWarning {
    pub kind: GeoError,
    pub row: usize,
}

/// Bit pattern of an IEEE-754 double whose exponent field is all ones
/// encodes an infinity or a NaN; every other pattern is finite.
pub open spec fn finite_bits(b: u64) -> bool {
    (b >> 52) & 0x7ff != 0x7ff
}

/// Whether `b`, read as the bit pattern of a 64-bit float, denotes a
/// finite number.
pub fn is_finite_bits(b: u64) -> (r: bool)
    ensures
        r == finite_bits(b),
{
    (b >> 52) & 0x7ff != 0x7ff
}

} // verus!
