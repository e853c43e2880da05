use haversine::coordinate::{
    validate_coordinates, Coordinate, MAX_LATITUDE, MAX_LONGITUDE, MIN_LATITUDE, MIN_LONGITUDE,
};

fn point(latitude: f64, longitude: f64) -> Coordinate {
    Coordinate { latitude: latitude.to_bits(), longitude: longitude.to_bits() }
}

/// The comparison that the bounds stand for, on the numbers themselves.
fn within_bounds(latitude: f64, longitude: f64) -> bool {
    latitude <= 90.0 && latitude >= -90.0 && longitude <= 180.0 && longitude >= -180.0
}

#[test]
fn test_validate_coordinates() {
    assert_eq!(validate_coordinates(&point(0.0, 0.0)), true);
    assert_eq!(validate_coordinates(&point(90.0, 180.0)), true);
    assert_eq!(validate_coordinates(&point(-90.0, -180.0)), true);
    assert_eq!(validate_coordinates(&point(91.0, 0.0)), false);
    assert_eq!(validate_coordinates(&point(-91.0, 0.0)), false);
    assert_eq!(validate_coordinates(&point(0.0, 181.0)), false);
    assert_eq!(validate_coordinates(&point(0.0, -181.0)), false);
    assert_eq!(validate_coordinates(&point(-50.0, -50.0)), true);
}

#[test]
fn bounds_are_the_patterns_of_their_numbers() {
    assert_eq!(MAX_LATITUDE, 90.0_f64.to_bits());
    assert_eq!(MIN_LATITUDE, (-90.0_f64).to_bits());
    assert_eq!(MAX_LONGITUDE, 180.0_f64.to_bits());
    assert_eq!(MIN_LONGITUDE, (-180.0_f64).to_bits());
}

#[test]
fn boundary_values_are_valid() {
    assert!(validate_coordinates(&point(90.0, 0.0)));
    assert!(validate_coordinates(&point(-90.0, 0.0)));
    assert!(validate_coordinates(&point(0.0, 180.0)));
    assert!(validate_coordinates(&point(0.0, -180.0)));
    assert!(validate_coordinates(&point(90.0, -180.0)));
    assert!(validate_coordinates(&point(-90.0, 180.0)));
}

#[test]
fn values_just_outside_are_invalid() {
    assert!(!validate_coordinates(&point(90.0001, 0.0)));
    assert!(!validate_coordinates(&point(-90.0001, 0.0)));
    assert!(!validate_coordinates(&point(0.0, 180.0001)));
    assert!(!validate_coordinates(&point(0.0, -180.0001)));
}

#[test]
fn neighbouring_patterns_of_the_bounds() {
    // One step of the last place below a bound is within, one step above is not.
    let below = |bits: u64| bits - 1;
    let above = |bits: u64| bits + 1;
    for (latitude, valid) in [
        (below(MAX_LATITUDE), true),
        (above(MAX_LATITUDE), false),
        (below(MIN_LATITUDE), true),
        (above(MIN_LATITUDE), false),
    ] {
        let point = Coordinate { latitude, longitude: 0 };
        assert_eq!(validate_coordinates(&point), valid, "latitude {latitude:#x}");
    }
    for (longitude, valid) in [
        (below(MAX_LONGITUDE), true),
        (above(MAX_LONGITUDE), false),
        (below(MIN_LONGITUDE), true),
        (above(MIN_LONGITUDE), false),
    ] {
        let point = Coordinate { latitude: 0, longitude };
        assert_eq!(validate_coordinates(&point), valid, "longitude {longitude:#x}");
    }
}

#[test]
fn latitude_bound_does_not_apply_to_longitude() {
    assert!(validate_coordinates(&point(0.0, 91.0)));
    assert!(validate_coordinates(&point(0.0, -135.5)));
    assert!(!validate_coordinates(&point(135.5, 0.0)));
}

#[test]
fn both_zeros_are_valid() {
    assert!(validate_coordinates(&point(0.0, -0.0)));
    assert!(validate_coordinates(&point(-0.0, 0.0)));
    assert!(validate_coordinates(&point(-0.0, -0.0)));
}

#[test]
fn subnormal_values_are_valid() {
    let smallest = f64::from_bits(1);
    assert!(validate_coordinates(&point(smallest, -smallest)));
    assert!(validate_coordinates(&point(f64::MIN_POSITIVE, f64::MIN_POSITIVE)));
}

#[test]
fn nan_and_infinities_are_invalid() {
    for special in [f64::NAN, -f64::NAN, f64::INFINITY, f64::NEG_INFINITY, f64::MAX, f64::MIN] {
        assert!(!validate_coordinates(&point(special, 0.0)), "latitude {special}");
        assert!(!validate_coordinates(&point(0.0, special)), "longitude {special}");
    }
    // A NaN with a payload, quiet and signalling, of either sign.
    for bits in [0x7ff0_0000_0000_0001_u64, 0x7fff_ffff_ffff_ffff, 0xfff0_0000_0000_0001, 0xffff_ffff_ffff_ffff] {
        assert!(f64::from_bits(bits).is_nan());
        assert!(!validate_coordinates(&Coordinate { latitude: bits, longitude: 0 }));
        assert!(!validate_coordinates(&Coordinate { latitude: 0, longitude: bits }));
    }
}

#[test]
fn validator_agrees_with_the_comparison_of_the_numbers() {
    // Every exponent, with a few significands each, of either sign.
    let fractions = [0_u64, 1, 0x6_8000_0000_0000, 0x6_8000_0000_0001, 0x8_0000_0000_0000, 0xf_ffff_ffff_ffff];
    let mut patterns = Vec::new();
    for exponent in 0..=0x7ff_u64 {
        for fraction in fractions {
            let magnitude = (exponent << 52) | fraction;
            patterns.push(magnitude);
            patterns.push(magnitude | (1 << 63));
        }
    }
    let partners = [0.0_f64, 90.0, -90.0, 180.0, -180.0, 180.5, f64::NAN];
    for &bits in &patterns {
        let number = f64::from_bits(bits);
        for partner in partners {
            let as_latitude = Coordinate { latitude: bits, longitude: partner.to_bits() };
            assert_eq!(validate_coordinates(&as_latitude), within_bounds(number, partner), "({number}, {partner})");
            let as_longitude = Coordinate { latitude: partner.to_bits(), longitude: bits };
            assert_eq!(validate_coordinates(&as_longitude), within_bounds(partner, number), "({partner}, {number})");
        }
    }
}
