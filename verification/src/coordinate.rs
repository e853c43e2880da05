//! A geographic coordinate and the bounds that make it valid.

use crate::binary64::{
    denotes_within, is_finite, is_infinite, le, lemma_finite_below_infinite, scaled_integer,
    scaled_value,
};
use vstd::arithmetic::power2::{lemma2_to64_rest, lemma_pow2_adds, lemma_pow2_unfold, pow2};
use vstd::prelude::*;

verus! {

/// The pattern of 90, the latitude of the north pole.
pub const MAX_LATITUDE: u64 = 0x4056_8000_0000_0000;

/// The pattern of -90, the latitude of the south pole.
pub const MIN_LATITUDE: u64 = 0xc056_8000_0000_0000;

/// The pattern of 180, the longitude of the antimeridian.
pub const MAX_LONGITUDE: u64 = 0x4066_8000_0000_0000;

/// The pattern of -180.
pub const MIN_LONGITUDE: u64 = 0xc066_8000_0000_0000;

/// A point on the sphere: latitude and longitude in decimal degrees, each held
/// as the pattern of a binary64 number. Any two patterns make a `Coordinate`;
/// `in_bounds` tells whether they name a point.
#[derive(Clone, Copy, Debug, PartialEq, Eq, Structural)]
pub struct Coordinate {
    pub latitude: u64,
    pub longitude: u64,
}

impl Coordinate {
    /// The latitude is a number from -90 to 90 and the longitude a number from
    /// -180 to 180, both ends included.
    pub open spec fn in_bounds(self) -> bool {
        &&& denotes_within(self.latitude, -90, 90)
        &&& denotes_within(self.longitude, -180, 180)
    }
}

/// The four bounds denote -90, 90, -180 and 180.
pub proof fn lemma_bounds()
    ensures
        is_finite(MAX_LATITUDE) && scaled_value(MAX_LATITUDE) == scaled_integer(90),
        is_finite(MIN_LATITUDE) && scaled_value(MIN_LATITUDE) == scaled_integer(-90),
        is_finite(MAX_LONGITUDE) && scaled_value(MAX_LONGITUDE) == scaled_integer(180),
        is_finite(MIN_LONGITUDE) && scaled_value(MIN_LONGITUDE) == scaled_integer(-180),
{
    // 90 = 45 * 2^47 * 2^1028 units and 180 = 45 * 2^47 * 2^1029 units,
    // where 45 * 2^47 is the significand 0x16_8000_0000_0000.
    lemma2_to64_rest();
    lemma_pow2_adds(47, 1028);
    lemma_pow2_adds(47, 1029);
    lemma_pow2_unfold(1075);
    lemma_pow2_unfold(1076);
    let unit = pow2(1074) as int;
    assert(0x16_8000_0000_0000 * pow2(1028) == 90 * unit) by (nonlinear_arith)
        requires
            pow2(1075) == 0x8000_0000_0000 * pow2(1028),
            pow2(1075) == 2 * unit,
    ;
    assert(0x16_8000_0000_0000 * pow2(1029) == 180 * unit) by (nonlinear_arith)
        requires
            pow2(1076) == 0x8000_0000_0000 * pow2(1029),
            pow2(1076) == 2 * pow2(1075),
            pow2(1075) == 2 * unit,
    ;
}

/// Whether both angles lie within the geographic bounds.
pub fn validate_coordinates(coordinate: &Coordinate) -> (valid: bool)
    ensures
        valid == coordinate.in_bounds(),
{
    proof {
        lemma_bounds();
        if is_infinite(coordinate.latitude) {
            lemma_finite_below_infinite(MAX_LATITUDE, coordinate.latitude);
        }
        if is_infinite(coordinate.longitude) {
            lemma_finite_below_infinite(MAX_LONGITUDE, coordinate.longitude);
        }
    }
    le(coordinate.latitude, MAX_LATITUDE) && le(MIN_LATITUDE, coordinate.latitude) && le(
        coordinate.longitude,
        MAX_LONGITUDE,
    ) && le(MIN_LONGITUDE, coordinate.longitude)
}

} // verus!
