//! Tests of the atmosphere model: zone classification, forward state,
//! inverse altitude recovery and the consistency check.
//!
//! Units: altitude in millimeters, temperature in milli-degrees Celsius,
//! pressure in micro-kilopascals (micro-hectopascals where noted).

use atmosphere::{
    calculate_altitude, determine_zone, pressure_at_altitude, state_at_altitude,
    temperature_at_altitude, AltitudeCalculator, AtmosphereZone,
};

#[test]
fn lib_test_determine_zone() {
    assert_eq!(determine_zone(5_000_000), AtmosphereZone::Troposphere);
    assert_eq!(determine_zone(15_000_000), AtmosphereZone::LowerStratosphere);
    assert_eq!(determine_zone(30_000_000), AtmosphereZone::UpperStratosphere);
}

#[test]
fn main_test_determine_zone() {
    assert_eq!(
        AltitudeCalculator::determine_zone(5_000_000),
        AtmosphereZone::Troposphere
    );
    assert_eq!(
        AltitudeCalculator::determine_zone(15_000_000),
        AtmosphereZone::LowerStratosphere
    );
    assert_eq!(
        AltitudeCalculator::determine_zone(30_000_000),
        AtmosphereZone::UpperStratosphere
    );
}

#[test]
fn test_zone_boundaries() {
    assert_eq!(determine_zone(11_000_000), AtmosphereZone::Troposphere);
    assert_eq!(determine_zone(11_000_001), AtmosphereZone::LowerStratosphere);
    assert_eq!(determine_zone(25_000_000), AtmosphereZone::LowerStratosphere);
    assert_eq!(determine_zone(25_000_001), AtmosphereZone::UpperStratosphere);
    assert_eq!(determine_zone(-1), AtmosphereZone::Troposphere);
}

#[test]
fn test_temperature_at_altitude() {
    assert_eq!(temperature_at_altitude(0), 15_040);
    assert_eq!(temperature_at_altitude(5_000_000), -17_410);
    assert_eq!(temperature_at_altitude(15_000_000), -56_460);
    assert_eq!(temperature_at_altitude(30_000_000), -41_510);
}

#[test]
fn test_state_at_sea_level() {
    let (temperature_mc, pressure_ukpa): (i64, i64) = state_at_altitude(0);
    assert_eq!(temperature_mc, 15_040);
    assert!((pressure_ukpa - 101_290_000).abs() < 500_000);
}

#[test]
fn test_state_at_5000m() {
    let (temperature_mc, pressure_ukpa): (i64, i64) = state_at_altitude(5_000_000);
    assert_eq!(temperature_mc, -17_410);
    // 54.112 kPa expected from the troposphere power law at 5000 m.
    assert!((pressure_ukpa - 54_112_000).abs() < 20_000);
}

#[test]
fn test_pressure_exact_values() {
    // One exact fixed-point output per pressure formula.
    assert_eq!(pressure_at_altitude(0), 101_399_595);
    assert_eq!(pressure_at_altitude(5_000_000), 54_111_852);
    assert_eq!(pressure_at_altitude(15_000_000), 12_087_308);
    assert_eq!(pressure_at_altitude(30_000_000), 1_161_206);
}

#[test]
fn test_calculate_altitude_lower_stratosphere() {
    let zone = AtmosphereZone::LowerStratosphere;
    let temperature_mc: i64 = -56_500;
    let pressure_ukpa: i64 = 20_000_000;

    let altitude = calculate_altitude(zone, temperature_mc, pressure_ukpa);

    assert!(altitude.is_some());
    assert!((altitude.unwrap() - 12_000_000).abs() < 500_000);
}

#[test]
fn test_invalid_pressure() {
    let zone = AtmosphereZone::Troposphere;
    let temperature_mc: i64 = 10_000;
    let pressure_ukpa: i64 = 200_000_000;

    let altitude = calculate_altitude(zone, temperature_mc, pressure_ukpa);

    assert!(altitude.is_none());
}

#[test]
fn test_invalid_zone_pressure() {
    let zone = AtmosphereZone::LowerStratosphere;
    let temperature_mc: i64 = -56_500;
    let pressure_ukpa: i64 = 100_000_000;

    let altitude = calculate_altitude(zone, temperature_mc, pressure_ukpa);

    assert!(altitude.is_none());
}

#[test]
fn test_round_trip_troposphere() {
    let altitude_mm: i64 = 5_000_000;
    let (temperature_mc, pressure_ukpa): (i64, i64) = state_at_altitude(altitude_mm);
    let back = calculate_altitude(AtmosphereZone::Troposphere, temperature_mc, pressure_ukpa);
    assert!(back.is_some());
    assert!((back.unwrap() - altitude_mm).abs() < 1_000);
}

#[test]
fn test_round_trip_lower_stratosphere() {
    let altitude_mm: i64 = 15_000_000;
    let (temperature_mc, pressure_ukpa): (i64, i64) = state_at_altitude(altitude_mm);
    let back = calculate_altitude(AtmosphereZone::LowerStratosphere, temperature_mc, pressure_ukpa);
    assert!(back.is_some());
    assert!((back.unwrap() - altitude_mm).abs() < 1_000);
}

#[test]
fn test_round_trip_upper_stratosphere() {
    let altitude_mm: i64 = 30_000_000;
    let (temperature_mc, pressure_ukpa): (i64, i64) = state_at_altitude(altitude_mm);
    let back = calculate_altitude(AtmosphereZone::UpperStratosphere, temperature_mc, pressure_ukpa);
    assert!(back.is_some());
    assert!((back.unwrap() - altitude_mm).abs() < 1_000);
}

#[test]
fn test_pressure_strictly_decreases() {
    let altitudes_mm: [i64; 12] = [
        0, 2_000_000, 5_000_000, 8_000_000, 11_000_000, 11_500_000, 15_000_000, 20_000_000,
        25_000_000, 25_500_000, 30_000_000, 40_000_000,
    ];
    let mut previous: i64 = i64::MAX;
    for altitude_mm in altitudes_mm {
        let pressure_ukpa: i64 = pressure_at_altitude(altitude_mm);
        assert!(pressure_ukpa < previous);
        previous = pressure_ukpa;
    }
}

#[test]
fn test_troposphere_pressure_bounds() {
    // At or below the tropopause pressure: rejected.
    assert!(calculate_altitude(AtmosphereZone::Troposphere, 10_000, 22_650_000).is_none());
    // At the sea-level pressure: rejected (the interval is open).
    let sea_level_ukpa: i64 = pressure_at_altitude(0);
    assert!(calculate_altitude(AtmosphereZone::Troposphere, 10_000, sea_level_ukpa).is_none());
    // Strictly inside the interval: accepted, altitude from the lapse line.
    let altitude = calculate_altitude(AtmosphereZone::Troposphere, 10_000, sea_level_ukpa - 1);
    assert_eq!(altitude, Some(776_579));
}

#[test]
fn test_lower_stratosphere_pressure_bounds() {
    // At or below the stratopause pressure: rejected.
    assert!(
        calculate_altitude(AtmosphereZone::LowerStratosphere, -56_460, 2_488_000).is_none()
    );
    // Just above the tropopause pressure: rejected.
    assert!(
        calculate_altitude(AtmosphereZone::LowerStratosphere, -56_460, 22_650_001).is_none()
    );
    // The tropopause pressure itself maps back to the tropopause.
    let altitude = calculate_altitude(AtmosphereZone::LowerStratosphere, -56_460, 22_650_000);
    assert_eq!(altitude, Some(11_000_000));
}

#[test]
fn test_upper_stratosphere_pressure_bounds() {
    // Above the stratopause pressure: rejected.
    assert!(
        calculate_altitude(AtmosphereZone::UpperStratosphere, -55_000, 2_488_001).is_none()
    );
    // No measurable pressure at all: rejected.
    assert!(calculate_altitude(AtmosphereZone::UpperStratosphere, -55_000, 0).is_none());
    // The stratopause pressure itself maps back near the stratopause.
    let altitude = calculate_altitude(AtmosphereZone::UpperStratosphere, -55_000, 2_488_000);
    assert!(altitude.is_some());
    assert!((altitude.unwrap() - 25_000_000).abs() < 100_000);
}

#[test]
fn test_consistency_check_ok() {
    let expected_ukpa: i64 = pressure_at_altitude(15_000_000);
    let result = AltitudeCalculator::calculate_altitude(-56_460, expected_ukpa * 10, 15_000_000);
    assert_eq!(result, Ok(15_000_000));
}

#[test]
fn test_consistency_check_mismatch() {
    // 12.11 kPa supplied where the model expects about 12.087 kPa.
    let result = AltitudeCalculator::calculate_altitude(-56_460, 121_100_000, 15_000_000);
    assert!(result.is_err());
    let mismatch = result.unwrap_err();
    assert_eq!(mismatch.actual_ukpa, 12_110_000);
    assert!((mismatch.expected_ukpa - 12_087_000).abs() < 20_000);
}
