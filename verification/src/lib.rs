//! A three-layer model of Earth's lower atmosphere.
//!
//! The model follows the classic piecewise reference formulation: a zone
//! classifier assigns an altitude to the troposphere, the lower stratosphere
//! or the upper stratosphere, and each zone carries its own closed-form
//! temperature and pressure equations, together with the algebraic inverse
//! that recovers altitude from a measured state.
//!
//! All quantities are fixed-point integers:
//! altitude in millimeters, temperature in milli-degrees Celsius and
//! pressure in micro-kilopascals.

use vstd::prelude::*;
use vstd::arithmetic::div_mod::{
    lemma_div_is_ordered, lemma_div_pos_is_pos, lemma_fundamental_div_mod,
    lemma_mod_division_less_than_divisor,
};

pub mod fixed;

use crate::fixed::{
    exp_frac_spec, fx_exp, fx_exp_spec, fx_ln, fx_ln_spec, ln_core_spec, lemma_div_above,
    lemma_div_below, lemma_fx_exp_mono, lemma_fx_ln_mono_above, lemma_zero_div, mul_div,
};

verus! {

/// The three fixed altitude bands of the model.
///
/// A boundary altitude belongs to the lower of the two adjacent zones:
/// 11 000 m is still troposphere, 25 000 m is still lower stratosphere.
#[derive(Clone, Copy, Debug, PartialEq, Eq, Structural)]
pub enum AtmosphereZone {
    Troposphere,
    LowerStratosphere,
    UpperStratosphere,
}

/// Altitude of the tropopause, in millimeters: the upper edge of the troposphere.
pub const TROPOPAUSE_MM: i64 = 11_000_000;

/// Altitude of the stratopause boundary, in millimeters: the upper edge of the
/// lower stratosphere.
pub const STRATOPAUSE_MM: i64 = 25_000_000;

/// Pressure at the tropopause, in micro-kilopascals: the reference pressure
/// of the lower-stratosphere equation and the floor of the troposphere's
/// valid pressure interval.
pub const TROPOPAUSE_PRESSURE_UKPA: i64 = 22_650_000;

/// Pressure at the stratopause boundary, in micro-kilopascals: the reference
/// pressure of the upper-stratosphere equation and the floor of the lower
/// stratosphere's valid pressure interval.
pub const STRATOPAUSE_PRESSURE_UKPA: i64 = 2_488_000;

/// The zone that an altitude falls in.
pub open spec fn spec_zone(altitude_mm: int) -> AtmosphereZone {
    if altitude_mm <= TROPOPAUSE_MM {
        AtmosphereZone::Troposphere
    } else if altitude_mm <= STRATOPAUSE_MM {
        AtmosphereZone::LowerStratosphere
    } else {
        AtmosphereZone::UpperStratosphere
    }
}

/// Classify an altitude (millimeters) into its atmosphere zone.
///
/// Total over every representable altitude; a boundary value goes to the
/// lower of the two adjacent zones.
pub fn determine_zone(altitude_mm: i64) -> (zone: AtmosphereZone)
    ensures
        zone == spec_zone(altitude_mm as int),
        altitude_mm <= 11_000_000 <==> zone == AtmosphereZone::Troposphere,
        11_000_000 < altitude_mm <= 25_000_000 <==> zone == AtmosphereZone::LowerStratosphere,
        altitude_mm > 25_000_000 <==> zone == AtmosphereZone::UpperStratosphere,
{
    if altitude_mm <= TROPOPAUSE_MM {
        AtmosphereZone::Troposphere
    } else if altitude_mm <= STRATOPAUSE_MM {
        AtmosphereZone::LowerStratosphere
    } else {
        AtmosphereZone::UpperStratosphere
    }
}

/// Temperature of the model at an altitude, in milli-degrees Celsius.
///
/// Linear lapse of 6.49 milli-degrees per meter from 15.04 degrees at sea
/// level; isothermal at -56.46 degrees through the lower stratosphere; then
/// rising 2.99 milli-degrees per meter from -131.21 degrees extrapolated to
/// zero altitude.
pub open spec fn spec_temperature_mc(altitude_mm: int) -> int {
    if altitude_mm <= TROPOPAUSE_MM {
        15_040 - 649 * altitude_mm / 100_000
    } else if altitude_mm <= STRATOPAUSE_MM {
        -56_460
    } else {
        -131_210 + 299 * altitude_mm / 100_000
    }
}

/// Pressure of the model at an altitude, in micro-kilopascals.
///
/// Troposphere: the power law `101.29 * ((t + 273.1) / 288.08)^5.256`.
/// Lower stratosphere: the exponential law
/// `22.65 * e^(-0.000157 * (h - 11000))` from the tropopause reference.
/// Upper stratosphere: the power law `2.488 * ((t + 273.1) / 216.6)^-11.388`
/// from the stratopause reference. Powers are evaluated through the
/// fixed-point exponential and logarithm.
pub open spec fn spec_pressure_ukpa(altitude_mm: int) -> int {
    if altitude_mm <= TROPOPAUSE_MM {
        let tk: int = spec_temperature_mc(altitude_mm) + 273_100;
        let ratio: int = tk * 12_500 / 3_601;
        let l: int = fx_ln_spec(ratio);
        let e: int = if l >= 0 {
            5_256 * l / 1_000
        } else {
            -(5_256 * (-l) / 1_000)
        };
        10_129 * fx_exp_spec(e) / 100
    } else if altitude_mm <= STRATOPAUSE_MM {
        let e: int = -(157 * (altitude_mm - TROPOPAUSE_MM) / 1_000);
        2_265 * fx_exp_spec(e) / 100
    } else {
        let tk: int = spec_temperature_mc(altitude_mm) + 273_100;
        let ratio: int = tk * 5_000 / 1_083;
        let e: int = -(11_388 * fx_ln_spec(ratio) / 1_000);
        311 * fx_exp_spec(e) / 125
    }
}

/// Expected temperature at an altitude, in milli-degrees Celsius.
pub fn temperature_at_altitude(altitude_mm: i64) -> (temperature_mc: i64)
    requires
        0 <= altitude_mm <= 1_000_000_000,
    ensures
        temperature_mc == spec_temperature_mc(altitude_mm as int),
{
    if altitude_mm <= TROPOPAUSE_MM {
        proof {
            lemma_div_pos_is_pos(649 * altitude_mm, 100_000);
            lemma_div_is_ordered(649 * altitude_mm, 7_139_000_000, 100_000);
        }
        15_040 - (649 * altitude_mm) / 100_000
    } else if altitude_mm <= STRATOPAUSE_MM {
        -56_460
    } else {
        proof {
            lemma_div_pos_is_pos(299 * altitude_mm, 100_000);
            lemma_div_is_ordered(299 * altitude_mm, 299_000_000_000, 100_000);
        }
        -131_210 + (299 * altitude_mm) / 100_000
    }
}

/// Expected pressure at an altitude, in micro-kilopascals.
pub fn pressure_at_altitude(altitude_mm: i64) -> (pressure_ukpa: i64)
    requires
        0 <= altitude_mm <= 1_000_000_000,
    ensures
        pressure_ukpa == spec_pressure_ukpa(altitude_mm as int),
        0 <= pressure_ukpa <= 3_000_000_000,
{
    if altitude_mm <= TROPOPAUSE_MM {
        proof {
            lemma_div_pos_is_pos(649 * altitude_mm, 100_000);
            lemma_div_is_ordered(649 * altitude_mm, 7_139_000_000, 100_000);
        }
        let t: i64 = 15_040 - (649 * altitude_mm) / 100_000;
        let tk: i64 = t + 273_100;
        let ratio: i64 = (tk * 12_500) / 3_601;
        proof {
            lemma_div_above(tk * 12_500, 3_601, 700_000);
            lemma_div_below(tk * 12_500, 3_601, 1_000_208);
        }
        let l: i64 = fx_ln(ratio);
        let e: i64 = if l >= 0 {
            proof {
                lemma_div_pos_is_pos(5_256 * l, 1_000);
                lemma_div_is_ordered(5_256 * l, 526_031_112, 1_000);
            }
            (5_256 * l) / 1_000
        } else {
            proof {
                lemma_div_pos_is_pos(5_256 * (-l), 1_000);
                lemma_div_is_ordered(5_256 * (-l), 3_643_180_632, 1_000);
            }
            -((5_256 * (-l)) / 1_000)
        };
        let x: i64 = fx_exp(e);
        proof {
            lemma_div_pos_is_pos(10_129 * x, 100);
            lemma_div_is_ordered(10_129 * x, 283_612_000_000, 100);
        }
        (10_129 * x) / 100
    } else if altitude_mm <= STRATOPAUSE_MM {
        let d: i64 = altitude_mm - TROPOPAUSE_MM;
        proof {
            lemma_div_pos_is_pos(157 * d, 1_000);
            lemma_div_is_ordered(157 * d, 2_198_000_000, 1_000);
        }
        let e: i64 = -((157 * d) / 1_000);
        let x: i64 = fx_exp(e);
        proof {
            lemma_div_pos_is_pos(2_265 * x, 100);
            lemma_div_is_ordered(2_265 * x, 63_420_000_000, 100);
        }
        (2_265 * x) / 100
    } else {
        proof {
            lemma_div_above(299 * altitude_mm, 100_000, 74_750);
            lemma_div_is_ordered(299 * altitude_mm, 299_000_000_000, 100_000);
        }
        let t: i64 = -131_210 + (299 * altitude_mm) / 100_000;
        let tk: i64 = t + 273_100;
        let ratio: i64 = (tk * 5_000) / 1_083;
        proof {
            lemma_div_above(tk * 5_000, 1_083, 1_000_000);
            lemma_div_below(tk * 5_000, 1_083, 14_999_999);
        }
        let l: i64 = fx_ln(ratio);
        proof {
            lemma_div_pos_is_pos(11_388 * l, 1_000);
            lemma_div_is_ordered(11_388 * l, 31_886_400_000, 1_000);
        }
        let e: i64 = -((11_388 * l) / 1_000);
        let x: i64 = fx_exp(e);
        proof {
            lemma_div_pos_is_pos(311 * x, 125);
            lemma_div_is_ordered(311 * x, 8_708_000_000, 125);
        }
        (311 * x) / 125
    }
}

/// Forward model: the expected temperature (milli-degrees Celsius) and
/// pressure (micro-kilopascals) at an altitude (millimeters).
pub fn state_at_altitude(altitude_mm: i64) -> (state: (i64, i64))
    requires
        0 <= altitude_mm <= 1_000_000_000,
    ensures
        state.0 == spec_temperature_mc(altitude_mm as int),
        state.1 == spec_pressure_ukpa(altitude_mm as int),
{
    (temperature_at_altitude(altitude_mm), pressure_at_altitude(altitude_mm))
}

/// Altitude recovered from a troposphere temperature by inverting the linear
/// lapse, in millimeters.
pub open spec fn spec_troposphere_altitude_mm(temperature_mc: int) -> int {
    if temperature_mc <= 15_040 {
        (15_040 - temperature_mc) * 100_000 / 649
    } else {
        -((temperature_mc - 15_040) * 100_000 / 649)
    }
}

/// Altitude recovered from a lower-stratosphere pressure by inverting the
/// exponential decay law, in millimeters.
pub open spec fn spec_lower_stratosphere_altitude_mm(pressure_ukpa: int) -> int {
    let ratio: int = pressure_ukpa * 1_000_000 / 22_650_000;
    11_000_000 + (-fx_ln_spec(ratio)) * 1_000 / 157
}

/// Altitude recovered from an upper-stratosphere pressure by raising the
/// pressure ratio to the reciprocal of the power-law exponent, in
/// millimeters.
pub open spec fn spec_upper_stratosphere_altitude_mm(pressure_ukpa: int) -> int {
    let l_ref: int = fx_ln_spec(2_488_000);
    let l_p: int = fx_ln_spec(pressure_ukpa);
    let nl: int = if l_ref >= l_p {
        l_ref - l_p
    } else {
        0
    };
    let a: int = nl * 1_000 / 11_388;
    let a_cap: int = if a > 1_400_000 {
        1_400_000
    } else {
        a
    };
    let x: int = fx_exp_spec(a_cap);
    let tk: int = 2_166 * x / 10_000;
    (tk - 141_890) * 100_000 / 299
}

/// Inverse model: recover altitude (millimeters) from a measured temperature
/// (milli-degrees Celsius) and pressure (micro-kilopascals) under a zone's
/// equation.
///
/// Returns `None` exactly when the pressure is not physically achievable in
/// the zone: at or below the tropopause pressure, or at or above the
/// sea-level pressure, for the troposphere; at or below the stratopause
/// pressure, or above the tropopause pressure, for the lower stratosphere;
/// above the stratopause pressure, or below one micro-kilopascal, for the
/// upper stratosphere.
pub fn calculate_altitude(zone: AtmosphereZone, temperature_mc: i64, pressure_ukpa: i64) -> (r:
    Option<i64>)
    requires
        -1_000_000_000 <= temperature_mc <= 1_000_000_000,
    ensures
        zone == AtmosphereZone::Troposphere ==> {
            &&& r is Some <==> TROPOPAUSE_PRESSURE_UKPA < pressure_ukpa < spec_pressure_ukpa(0)
            &&& (r matches Some(altitude_mm) ==> altitude_mm == spec_troposphere_altitude_mm(
                temperature_mc as int,
            ))
        },
        zone == AtmosphereZone::LowerStratosphere ==> {
            &&& r is Some <==> STRATOPAUSE_PRESSURE_UKPA < pressure_ukpa
                <= TROPOPAUSE_PRESSURE_UKPA
            &&& (r matches Some(altitude_mm) ==> altitude_mm
                == spec_lower_stratosphere_altitude_mm(pressure_ukpa as int))
        },
        zone == AtmosphereZone::UpperStratosphere ==> {
            &&& r is Some <==> 1 <= pressure_ukpa <= STRATOPAUSE_PRESSURE_UKPA
            &&& (r matches Some(altitude_mm) ==> altitude_mm
                == spec_upper_stratosphere_altitude_mm(pressure_ukpa as int))
        },
{
    match zone {
        AtmosphereZone::Troposphere => {
            let sea_level_ukpa: i64 = pressure_at_altitude(0);
            if TROPOPAUSE_PRESSURE_UKPA < pressure_ukpa && pressure_ukpa < sea_level_ukpa {
                if temperature_mc <= 15_040 {
                    proof {
                        lemma_div_pos_is_pos((15_040 - temperature_mc) * 100_000, 649);
                        lemma_div_is_ordered(
                            (15_040 - temperature_mc) * 100_000,
                            100_001_504_000_000,
                            649,
                        );
                    }
                    Some(((15_040 - temperature_mc) * 100_000) / 649)
                } else {
                    proof {
                        lemma_div_pos_is_pos((temperature_mc - 15_040) * 100_000, 649);
                        lemma_div_is_ordered(
                            (temperature_mc - 15_040) * 100_000,
                            100_001_504_000_000,
                            649,
                        );
                    }
                    Some(-(((temperature_mc - 15_040) * 100_000) / 649))
                }
            } else {
                None
            }
        },
        AtmosphereZone::LowerStratosphere => {
            if STRATOPAUSE_PRESSURE_UKPA < pressure_ukpa && pressure_ukpa
                <= TROPOPAUSE_PRESSURE_UKPA {
                let ratio: i64 = mul_div(pressure_ukpa, 1_000_000, 22_650_000);
                proof {
                    lemma_div_above(pressure_ukpa * 1_000_000, 22_650_000, 109_845);
                }
                let l: i64 = fx_ln(ratio);
                let nl: i64 = -l;
                proof {
                    lemma_div_pos_is_pos(nl * 1_000, 157);
                    lemma_div_is_ordered(nl * 1_000, 22_200_000_000, 157);
                }
                Some(11_000_000 + (nl * 1_000) / 157)
            } else {
                None
            }
        },
        AtmosphereZone::UpperStratosphere => {
            if 1 <= pressure_ukpa && pressure_ukpa <= STRATOPAUSE_PRESSURE_UKPA {
                let l_ref: i64 = fx_ln(2_488_000);
                let l_p: i64 = fx_ln(pressure_ukpa);
                let nl: i64 = if l_ref >= l_p {
                    l_ref - l_p
                } else {
                    0
                };
                proof {
                    lemma_div_pos_is_pos(nl * 1_000, 11_388);
                    lemma_div_is_ordered(nl * 1_000, 25_000_000_000, 11_388);
                }
                let a: i64 = (nl * 1_000) / 11_388;
                let a_cap: i64 = if a > 1_400_000 {
                    1_400_000
                } else {
                    a
                };
                let x: i64 = fx_exp(a_cap);
                proof {
                    lemma_div_above(2_166 * x, 10_000, 216_600);
                    lemma_div_is_ordered(2_166 * x, 60_648_000_000, 10_000);
                }
                let tk: i64 = (2_166 * x) / 10_000;
                proof {
                    lemma_div_pos_is_pos((tk - 141_890) * 100_000, 299);
                    lemma_div_is_ordered((tk - 141_890) * 100_000, 592_291_000_000, 299);
                }
                Some(((tk - 141_890) * 100_000) / 299)
            } else {
                None
            }
        },
    }
}

/// Round-trip law for the troposphere: taking the forward model's
/// temperature at an altitude and handing it back to the inverse recovers
/// that altitude to within 155 millimeters (the fixed-point grain of the
/// lapse rate), and never overshoots it.
pub proof fn lemma_troposphere_round_trip(altitude_mm: int)
    requires
        0 <= altitude_mm <= 11_000_000,
    ensures
        ({
            let back: int = spec_troposphere_altitude_mm(spec_temperature_mc(altitude_mm));
            altitude_mm - 155 <= back <= altitude_mm
        }),
{
    let q: int = 649 * altitude_mm / 100_000;
    lemma_div_pos_is_pos(649 * altitude_mm, 100_000);
    lemma_fundamental_div_mod(649 * altitude_mm, 100_000);
    lemma_mod_division_less_than_divisor(649 * altitude_mm, 100_000);
    let back: int = q * 100_000 / 649;
    assert(0 <= q * 100_000);
    lemma_fundamental_div_mod(q * 100_000, 649);
    lemma_mod_division_less_than_divisor(q * 100_000, 649);
    assert(spec_troposphere_altitude_mm(spec_temperature_mc(altitude_mm)) == back);
    assert(altitude_mm - 155 <= back <= altitude_mm) by (nonlinear_arith)
        requires
            649 * altitude_mm == 100_000 * q + (649 * altitude_mm) % 100_000,
            0 <= (649 * altitude_mm) % 100_000 < 100_000,
            q * 100_000 == 649 * back + (q * 100_000) % 649,
            0 <= (q * 100_000) % 649 < 649,
            0 <= altitude_mm,
    ;
}

/// Monotonicity law for the lower stratosphere: within the zone, pressure
/// never increases as altitude increases. (At the millimeter grain of the
/// fixed-point scale the decrease is not everywhere strict: neighboring
/// altitudes can share a pressure.)
pub proof fn lemma_lower_stratosphere_pressure_monotone(altitude1_mm: int, altitude2_mm: int)
    requires
        11_000_000 < altitude1_mm <= altitude2_mm <= 25_000_000,
    ensures
        spec_pressure_ukpa(altitude2_mm) <= spec_pressure_ukpa(altitude1_mm),
{
    let d1: int = altitude1_mm - 11_000_000;
    let d2: int = altitude2_mm - 11_000_000;
    lemma_div_pos_is_pos(157 * d1, 1_000);
    lemma_div_is_ordered(157 * d1, 157 * d2, 1_000);
    lemma_div_is_ordered(157 * d2, 2_198_000_000, 1_000);
    let e1: int = -(157 * d1 / 1_000);
    let e2: int = -(157 * d2 / 1_000);
    lemma_fx_exp_mono(e2, e1);
    lemma_fx_exp_mono(-40_000_000, e2);
    lemma_div_is_ordered(2_265 * fx_exp_spec(e2), 2_265 * fx_exp_spec(e1), 100);
}

/// Monotonicity law for the troposphere: within the zone, pressure never
/// increases as altitude increases. (At the millimeter grain of the
/// fixed-point scale the decrease is not everywhere strict: neighboring
/// altitudes can share a pressure.)
pub proof fn lemma_troposphere_pressure_monotone(altitude1_mm: int, altitude2_mm: int)
    requires
        0 <= altitude1_mm <= altitude2_mm <= 11_000_000,
    ensures
        spec_pressure_ukpa(altitude2_mm) <= spec_pressure_ukpa(altitude1_mm),
{
    lemma_div_pos_is_pos(649 * altitude1_mm, 100_000);
    lemma_div_is_ordered(649 * altitude1_mm, 649 * altitude2_mm, 100_000);
    lemma_div_is_ordered(649 * altitude2_mm, 7_139_000_000, 100_000);
    let tk1: int = spec_temperature_mc(altitude1_mm) + 273_100;
    let tk2: int = spec_temperature_mc(altitude2_mm) + 273_100;
    lemma_div_is_ordered(tk2 * 12_500, tk1 * 12_500, 3_601);
    lemma_div_above(tk2 * 12_500, 3_601, 700_000);
    lemma_div_below(tk1 * 12_500, 3_601, 1_000_208);
    let r1: int = tk1 * 12_500 / 3_601;
    let r2: int = tk2 * 12_500 / 3_601;
    lemma_fx_ln_mono_above(r2, r1);
    lemma_fx_ln_mono_above(r1, r1);
    let l1: int = fx_ln_spec(r1);
    let l2: int = fx_ln_spec(r2);
    if l2 >= 0 {
        lemma_div_pos_is_pos(5_256 * l2, 1_000);
        lemma_div_is_ordered(5_256 * l2, 5_256 * l1, 1_000);
        lemma_div_is_ordered(5_256 * l1, 5_256_000, 1_000);
    } else {
        lemma_div_pos_is_pos(5_256 * (-l2), 1_000);
        lemma_div_is_ordered(5_256 * (-l2), 3_643_180_632, 1_000);
        if l1 >= 0 {
            lemma_div_pos_is_pos(5_256 * l1, 1_000);
            lemma_div_is_ordered(5_256 * l1, 5_256_000, 1_000);
        } else {
            lemma_div_pos_is_pos(5_256 * (-l1), 1_000);
            lemma_div_is_ordered(5_256 * (-l1), 5_256 * (-l2), 1_000);
        }
    }
    let e1: int = if l1 >= 0 {
        5_256 * l1 / 1_000
    } else {
        -(5_256 * (-l1) / 1_000)
    };
    let e2: int = if l2 >= 0 {
        5_256 * l2 / 1_000
    } else {
        -(5_256 * (-l2) / 1_000)
    };
    lemma_fx_exp_mono(e2, e1);
    lemma_fx_exp_mono(-40_000_000, e2);
    lemma_div_is_ordered(10_129 * fx_exp_spec(e2), 10_129 * fx_exp_spec(e1), 100);
}

/// Monotonicity law for the upper stratosphere, up to 46 000 m: within that
/// range, pressure never increases as altitude increases. (At the millimeter
/// grain of the fixed-point scale the decrease is not everywhere strict:
/// neighboring altitudes can share a pressure.)
pub proof fn lemma_upper_stratosphere_pressure_monotone(altitude1_mm: int, altitude2_mm: int)
    requires
        25_000_000 < altitude1_mm <= altitude2_mm <= 46_000_000,
    ensures
        spec_pressure_ukpa(altitude2_mm) <= spec_pressure_ukpa(altitude1_mm),
{
    lemma_div_above(299 * altitude1_mm, 100_000, 74_750);
    lemma_div_is_ordered(299 * altitude1_mm, 299 * altitude2_mm, 100_000);
    lemma_div_is_ordered(299 * altitude2_mm, 13_754_000_000, 100_000);
    let tk1: int = spec_temperature_mc(altitude1_mm) + 273_100;
    let tk2: int = spec_temperature_mc(altitude2_mm) + 273_100;
    lemma_div_is_ordered(tk1 * 5_000, tk2 * 5_000, 1_083);
    lemma_div_above(tk1 * 5_000, 1_083, 1_000_000);
    lemma_div_below(tk2 * 5_000, 1_083, 1_299_999);
    let r1: int = tk1 * 5_000 / 1_083;
    let r2: int = tk2 * 5_000 / 1_083;
    lemma_fx_ln_mono_above(r1, r2);
    lemma_fx_ln_mono_above(r2, r2);
    let l1: int = fx_ln_spec(r1);
    let l2: int = fx_ln_spec(r2);
    lemma_div_pos_is_pos(11_388 * l1, 1_000);
    lemma_div_is_ordered(11_388 * l1, 11_388 * l2, 1_000);
    lemma_div_is_ordered(11_388 * l2, 7_893_501_096, 1_000);
    let e1: int = -(11_388 * l1 / 1_000);
    let e2: int = -(11_388 * l2 / 1_000);
    lemma_fx_exp_mono(e2, e1);
    lemma_fx_exp_mono(-40_000_000, e2);
    lemma_div_is_ordered(311 * fx_exp_spec(e2), 311 * fx_exp_spec(e1), 125);
}

/// Pressure drops across the tropopause: the first millimeter of the lower
/// stratosphere reads no more than the top of the troposphere.
#[verifier::rlimit(60)]
proof fn lemma_pressure_boundary_tropopause()
    ensures
        spec_pressure_ukpa(11_000_001) <= spec_pressure_ukpa(11_000_000),
{
    reveal_with_fuel(crate::fixed::scale_down_spec, 4);
    // The first millimeter above the boundary: the decay exponent rounds
    // to zero, so the pressure is exactly the tropopause reference.
    lemma_div_above(157, 1000, 0);
    lemma_div_below(157, 1000, 0);
    lemma_zero_div(2_000_000);
    lemma_zero_div(3_000_000);
    lemma_zero_div(4_000_000);
    lemma_zero_div(5_000_000);
    lemma_zero_div(6_000_000);
    lemma_zero_div(7_000_000);
    lemma_zero_div(8_000_000);
    lemma_zero_div(9_000_000);
    lemma_div_above(2_265_000_000, 100, 22_650_000);
    lemma_div_below(2_265_000_000, 100, 22_650_000);
    assert(spec_pressure_ukpa(11_000_001) == 22_650_000);
    // The top of the troposphere, one quotient at a time.
    lemma_div_above(7_139_000_000, 100_000, 71_390);
    lemma_div_below(7_139_000_000, 100_000, 71_390);
    lemma_div_above(2_709_375_000, 3601, 752_395);
    lemma_div_below(2_709_375_000, 3601, 752_395);
    lemma_div_above(504_790_000_000, 2_504_790, 201_529);
    lemma_div_below(504_790_000_000, 2_504_790, 201_529);
    let u_t: int = (1_504_790int - 1_000_000) * 1_000_000 / (1_504_790int + 1_000_000);
    assert(u_t == 201_529);
    assert(u_t * u_t == 40_613_937_841) by (nonlinear_arith)
        requires
            u_t == 201_529,
    ;
    lemma_div_above(40_613_937_841, 1_000_000, 40_613);
    lemma_div_below(40_613_937_841, 1_000_000, 40_613);
    let s2_t: int = u_t * u_t / 1_000_000;
    assert(s2_t == 40_613);
    assert(s2_t * u_t == 8_184_697_277) by (nonlinear_arith)
        requires
            s2_t == 40_613,
            u_t == 201_529,
    ;
    lemma_div_above(8_184_697_277, 1_000_000, 8184);
    lemma_div_below(8_184_697_277, 1_000_000, 8184);
    let s3_t: int = s2_t * u_t / 1_000_000;
    assert(s3_t == 8184);
    assert(s3_t * s2_t == 332_376_792) by (nonlinear_arith)
        requires
            s3_t == 8184,
            s2_t == 40_613,
    ;
    lemma_div_above(332_376_792, 1_000_000, 332);
    lemma_div_below(332_376_792, 1_000_000, 332);
    let s5_t: int = s3_t * s2_t / 1_000_000;
    assert(s5_t == 332);
    assert(s5_t * s2_t == 13_483_516) by (nonlinear_arith)
        requires
            s5_t == 332,
            s2_t == 40_613,
    ;
    lemma_div_above(13_483_516, 1_000_000, 13);
    lemma_div_below(13_483_516, 1_000_000, 13);
    let s7_t: int = s5_t * s2_t / 1_000_000;
    assert(s7_t == 13);
    assert(s7_t * s2_t == 527_969) by (nonlinear_arith)
        requires
            s7_t == 13,
            s2_t == 40_613,
    ;
    lemma_div_above(527_969, 1_000_000, 0);
    lemma_div_below(527_969, 1_000_000, 0);
    let s9_t: int = s7_t * s2_t / 1_000_000;
    assert(s9_t == 0);
    lemma_div_above(8184, 3, 2728);
    lemma_div_below(8184, 3, 2728);
    lemma_div_above(332, 5, 66);
    lemma_div_below(332, 5, 66);
    lemma_div_above(13, 7, 1);
    lemma_div_below(13, 7, 1);
    lemma_div_above(0, 9, 0);
    lemma_div_below(0, 9, 0);
    assert(ln_core_spec(1_504_790) == 408_648);
    assert(fx_ln_spec(752_395) == -284_499);
    lemma_div_above(1_495_326_744, 1000, 1_495_326);
    lemma_div_below(1_495_326_744, 1000, 1_495_326);
    lemma_div_above(2_495_325, 1_000_000, 2);
    lemma_div_below(2_495_325, 1_000_000, 2);
    lemma_div_above(254_695_846_276, 2_000_000, 127_347);
    lemma_div_below(254_695_846_276, 2_000_000, 127_347);
    lemma_div_above(64_268_719_878, 3_000_000, 21_422);
    lemma_div_below(64_268_719_878, 3_000_000, 21_422);
    lemma_div_above(10_811_126_428, 4_000_000, 2702);
    lemma_div_below(10_811_126_428, 4_000_000, 2702);
    lemma_div_above(1_363_629_148, 5_000_000, 272);
    lemma_div_below(1_363_629_148, 5_000_000, 272);
    lemma_div_above(137_271_328, 6_000_000, 22);
    lemma_div_below(137_271_328, 6_000_000, 22);
    lemma_div_above(11_102_828, 7_000_000, 1);
    lemma_div_below(11_102_828, 7_000_000, 1);
    lemma_div_above(504_674, 8_000_000, 0);
    lemma_div_below(504_674, 8_000_000, 0);
    lemma_div_above(0, 9_000_000, 0);
    lemma_div_below(0, 9_000_000, 0);
    assert(exp_frac_spec(504_674) == 1_656_440);
    lemma_div_above(609_369_490_760, 1_000_000, 609_369);
    lemma_div_below(609_369_490_760, 1_000_000, 609_369);
    lemma_div_above(224_174_058_351, 1_000_000, 224_174);
    lemma_div_below(224_174_058_351, 1_000_000, 224_174);
    assert(fx_exp_spec(-1_495_326) == 224_174);
    lemma_div_above(2_270_658_446, 100, 22_706_584);
    lemma_div_below(2_270_658_446, 100, 22_706_584);
    assert(spec_pressure_ukpa(11_000_000) == 22_706_584);
}

/// Pressure drops across the stratopause boundary: the first millimeter of
/// the upper stratosphere reads no more than the top of the lower
/// stratosphere.
#[verifier::rlimit(60)]
proof fn lemma_pressure_boundary_stratopause()
    ensures
        spec_pressure_ukpa(25_000_001) <= spec_pressure_ukpa(25_000_000),
{
    reveal_with_fuel(crate::fixed::scale_down_spec, 5);
    // The first millimeter above the boundary, one quotient at a time.
    lemma_div_above(7_475_000_299, 100_000, 74_750);
    lemma_div_below(7_475_000_299, 100_000, 74_750);
    lemma_div_above(1_083_200_000, 1083, 1_000_184);
    lemma_div_below(1_083_200_000, 1083, 1_000_184);
    lemma_div_above(184_000_000, 2_000_184, 91);
    lemma_div_below(184_000_000, 2_000_184, 91);
    let u_u: int = (1_000_184int - 1_000_000) * 1_000_000 / (1_000_184int + 1_000_000);
    assert(u_u == 91);
    assert(u_u * u_u == 8281) by (nonlinear_arith)
        requires
            u_u == 91,
    ;
    lemma_div_above(8281, 1_000_000, 0);
    lemma_div_below(8281, 1_000_000, 0);
    let s2_u: int = u_u * u_u / 1_000_000;
    assert(s2_u == 0);
    assert(s2_u * u_u == 0) by (nonlinear_arith)
        requires
            s2_u == 0,
            u_u == 91,
    ;
    lemma_div_above(0, 1_000_000, 0);
    lemma_div_below(0, 1_000_000, 0);
    let s3_u: int = s2_u * u_u / 1_000_000;
    assert(s3_u == 0);
    assert(s3_u * s2_u == 0) by (nonlinear_arith)
        requires
            s3_u == 0,
            s2_u == 0,
    ;
    lemma_div_above(0, 1_000_000, 0);
    lemma_div_below(0, 1_000_000, 0);
    let s5_u: int = s3_u * s2_u / 1_000_000;
    assert(s5_u == 0);
    assert(s5_u * s2_u == 0) by (nonlinear_arith)
        requires
            s5_u == 0,
            s2_u == 0,
    ;
    lemma_div_above(0, 1_000_000, 0);
    lemma_div_below(0, 1_000_000, 0);
    let s7_u: int = s5_u * s2_u / 1_000_000;
    assert(s7_u == 0);
    assert(s7_u * s2_u == 0) by (nonlinear_arith)
        requires
            s7_u == 0,
            s2_u == 0,
    ;
    lemma_div_above(0, 1_000_000, 0);
    lemma_div_below(0, 1_000_000, 0);
    let s9_u: int = s7_u * s2_u / 1_000_000;
    assert(s9_u == 0);
    lemma_div_above(0, 3, 0);
    lemma_div_below(0, 3, 0);
    lemma_div_above(0, 5, 0);
    lemma_div_below(0, 5, 0);
    lemma_div_above(0, 7, 0);
    lemma_div_below(0, 7, 0);
    lemma_div_above(0, 9, 0);
    lemma_div_below(0, 9, 0);
    assert(ln_core_spec(1_000_184) == 182);
    assert(fx_ln_spec(1_000_184) == 182);
    lemma_div_above(2_072_616, 1000, 2072);
    lemma_div_below(2_072_616, 1000, 2072);
    lemma_div_above(1_002_071, 1_000_000, 1);
    lemma_div_below(1_002_071, 1_000_000, 1);
    lemma_div_above(995_860_293_184, 2_000_000, 497_930);
    lemma_div_below(995_860_293_184, 2_000_000, 497_930);
    lemma_div_above(496_898_289_040, 3_000_000, 165_632);
    lemma_div_below(496_898_289_040, 3_000_000, 165_632);
    lemma_div_above(165_288_810_496, 4_000_000, 41_322);
    lemma_div_below(165_288_810_496, 4_000_000, 41_322);
    lemma_div_above(41_236_380_816, 5_000_000, 8247);
    lemma_div_below(41_236_380_816, 5_000_000, 8247);
    lemma_div_above(8_229_912_216, 6_000_000, 1371);
    lemma_div_below(8_229_912_216, 6_000_000, 1371);
    lemma_div_above(1_368_159_288, 7_000_000, 195);
    lemma_div_below(1_368_159_288, 7_000_000, 195);
    lemma_div_above(194_595_960, 8_000_000, 24);
    lemma_div_below(194_595_960, 8_000_000, 24);
    lemma_div_above(23_950_272, 9_000_000, 2);
    lemma_div_below(23_950_272, 9_000_000, 2);
    assert(exp_frac_spec(997_928) == 2_712_651);
    lemma_div_above(997_927_337_229, 1_000_000, 997_927);
    lemma_div_below(997_927_337_229, 1_000_000, 997_927);
    assert(fx_exp_spec(-2072) == 997_927);
    lemma_div_above(310_355_297, 125, 2_482_842);
    lemma_div_below(310_355_297, 125, 2_482_842);
    assert(spec_pressure_ukpa(25_000_001) == 2_482_842);
    // The top of the lower stratosphere, one quotient at a time.
    lemma_div_above(2_198_000_000, 1000, 2_198_000);
    lemma_div_below(2_198_000_000, 1000, 2_198_000);
    lemma_div_above(3_197_999, 1_000_000, 3);
    lemma_div_below(3_197_999, 1_000_000, 3);
    lemma_div_above(643_204_000_000, 2_000_000, 321_602);
    lemma_div_below(643_204_000_000, 2_000_000, 321_602);
    lemma_div_above(257_924_804_000, 3_000_000, 85_974);
    lemma_div_below(257_924_804_000, 3_000_000, 85_974);
    lemma_div_above(68_951_148_000, 4_000_000, 17_237);
    lemma_div_below(68_951_148_000, 4_000_000, 17_237);
    lemma_div_above(13_824_074_000, 5_000_000, 2764);
    lemma_div_below(13_824_074_000, 5_000_000, 2764);
    lemma_div_above(2_216_728_000, 6_000_000, 369);
    lemma_div_below(2_216_728_000, 6_000_000, 369);
    lemma_div_above(295_938_000, 7_000_000, 42);
    lemma_div_below(295_938_000, 7_000_000, 42);
    lemma_div_above(33_684_000, 8_000_000, 4);
    lemma_div_below(33_684_000, 8_000_000, 4);
    lemma_div_above(3_208_000, 9_000_000, 0);
    lemma_div_below(3_208_000, 9_000_000, 0);
    assert(exp_frac_spec(802_000) == 2_229_992);
    lemma_div_above(820_367_226_968, 1_000_000, 820_367);
    lemma_div_below(820_367_226_968, 1_000_000, 820_367);
    lemma_div_above(301_795_791_593, 1_000_000, 301_795);
    lemma_div_below(301_795_791_593, 1_000_000, 301_795);
    lemma_div_above(111_024_042_805, 1_000_000, 111_024);
    lemma_div_below(111_024_042_805, 1_000_000, 111_024);
    assert(fx_exp_spec(-2_198_000) == 111_024);
    lemma_div_above(251_469_360, 100, 2_514_693);
    lemma_div_below(251_469_360, 100, 2_514_693);
    assert(spec_pressure_ukpa(25_000_000) == 2_514_693);
}

/// Monotonicity law for the whole model, up to 46 000 m: pressure never
/// increases as altitude increases, within each zone and across the two zone
/// boundaries. (At the millimeter grain of the fixed-point scale the
/// decrease is not everywhere strict: neighboring altitudes can share a
/// pressure.)
pub proof fn lemma_pressure_monotone(altitude1_mm: int, altitude2_mm: int)
    requires
        0 <= altitude1_mm <= altitude2_mm <= 46_000_000,
    ensures
        spec_pressure_ukpa(altitude2_mm) <= spec_pressure_ukpa(altitude1_mm),
{
    if altitude1_mm <= 11_000_000 {
        if altitude2_mm <= 11_000_000 {
            lemma_troposphere_pressure_monotone(altitude1_mm, altitude2_mm);
        } else {
            lemma_troposphere_pressure_monotone(altitude1_mm, 11_000_000);
            lemma_pressure_boundary_tropopause();
            if altitude2_mm <= 25_000_000 {
                lemma_lower_stratosphere_pressure_monotone(11_000_001, altitude2_mm);
            } else {
                lemma_lower_stratosphere_pressure_monotone(11_000_001, 25_000_000);
                lemma_pressure_boundary_stratopause();
                lemma_upper_stratosphere_pressure_monotone(25_000_001, altitude2_mm);
            }
        }
    } else if altitude1_mm <= 25_000_000 {
        if altitude2_mm <= 25_000_000 {
            lemma_lower_stratosphere_pressure_monotone(altitude1_mm, altitude2_mm);
        } else {
            lemma_lower_stratosphere_pressure_monotone(altitude1_mm, 25_000_000);
            lemma_pressure_boundary_stratopause();
            lemma_upper_stratosphere_pressure_monotone(25_000_001, altitude2_mm);
        }
    } else {
        lemma_upper_stratosphere_pressure_monotone(altitude1_mm, altitude2_mm);
    }
}

/// The recoverable outcome of a failed consistency check: the pressure the
/// model expects at the supplied altitude against the pressure that was
/// supplied, both in micro-kilopascals.
#[derive(Clone, Copy, Debug, PartialEq, Eq, Structural)]
pub struct PressureMismatch {
    pub expected_ukpa: i64,
    pub actual_ukpa: i64,
}

/// Altitude calculator over the atmosphere model.
pub struct AltitudeCalculator;

impl AltitudeCalculator {
    /// Classify an altitude (millimeters) into its atmosphere zone.
    pub fn determine_zone(altitude_mm: i64) -> (zone: AtmosphereZone)
        ensures
            zone == spec_zone(altitude_mm as int),
    {
        determine_zone(altitude_mm)
    }

    /// Check a reading for consistency with the model: the zone is re-derived
    /// from the supplied altitude (millimeters), the model's pressure at that
    /// altitude is computed, and the supplied pressure (micro-hectopascals)
    /// must match it within 0.01 kilopascals.
    ///
    /// A mismatch is an ordinary error value carrying the expected and the
    /// actual pressure; the supplied temperature plays no part in the check.
    pub fn calculate_altitude(temperature_mc: i64, pressure_uhpa: i64, altitude_mm: i64) -> (r:
        Result<i64, PressureMismatch>)
        requires
            0 <= altitude_mm <= 1_000_000_000,
            0 <= pressure_uhpa,
        ensures
            ({
                let expected: int = spec_pressure_ukpa(altitude_mm as int);
                let actual: int = pressure_uhpa as int / 10;
                &&& (r is Ok <==> -10_000 < expected - actual < 10_000)
                &&& (r matches Ok(confirmed_mm) ==> confirmed_mm == altitude_mm)
                &&& (r matches Err(mismatch) ==> mismatch.expected_ukpa == expected
                    && mismatch.actual_ukpa == actual)
            }),
    {
        proof {
            lemma_div_pos_is_pos(pressure_uhpa as int, 10);
        }
        let actual_ukpa: i64 = pressure_uhpa / 10;
        let expected_ukpa: i64 = pressure_at_altitude(altitude_mm);
        let diff: i64 = expected_ukpa - actual_ukpa;
        if -10_000 < diff && diff < 10_000 {
            Ok(altitude_mm)
        } else {
            Err(PressureMismatch { expected_ukpa, actual_ukpa })
        }
    }
}

} // verus!
