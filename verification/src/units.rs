//! Conversions between pixels and metric lengths. The reference scale
//! comes from the vehicle sprite: 109 pixels stand for 4.12 meters, so
//! one pixel is 37798 micrometers. Values are fixed-point with 1000
//! steps per unit (milli-pixels, millimeters-as-milli-meters, and so on).

use vstd::prelude::*;
use crate::geometry::{muldiv, spec_muldiv, SEG_BOUND};

verus! {

/// Micrometers per pixel: 1 px = 37.798 mm.
pub const MICROMETERS_PER_PIXEL: i64 = 37_798;

/// Largest magnitude (in milli-units) a unit value may carry.
pub const UNIT_BOUND: i64 = 1_000_000_000_000;

/// The length unit a [`Unit`] value is expressed in.
pub enum UnitType {
    Pixels,
    Meters,
    Millimeters,
    Centimeters,
}

/// A length tagged with its unit; `value` is fixed-point with 1000
/// steps per unit.
pub struct Unit {
    pub value: i64,
    pub unit: UnitType,
}

/// The value is in the range every conversion accepts.
pub open spec fn unit_in_range(value: int) -> bool {
    -UNIT_BOUND <= value <= UNIT_BOUND
}

/// What a conversion returns: the value scaled by `m / d`, rounded
/// toward zero.
pub open spec fn converted(value: int, m: int, d: int) -> int {
    spec_muldiv(value, m, d)
}

impl Unit {
    /// A length in (milli-)pixels.
    pub fn px(value: i64) -> (r: Unit)
        ensures
            r.value == value,
            r.unit is Pixels,
    {
        Unit { value, unit: UnitType::Pixels }
    }

    /// A length in milli-millimeters.
    pub fn mm(value: i64) -> (r: Unit)
        ensures
            r.value == value,
            r.unit is Millimeters,
    {
        Unit { value, unit: UnitType::Millimeters }
    }

    /// A length in milli-centimeters.
    pub fn cm(value: i64) -> (r: Unit)
        ensures
            r.value == value,
            r.unit is Centimeters,
    {
        Unit { value, unit: UnitType::Centimeters }
    }

    /// A length in milli-meters.
    pub fn m(value: i64) -> (r: Unit)
        ensures
            r.value == value,
            r.unit is Meters,
    {
        Unit { value, unit: UnitType::Meters }
    }

    /// The length in milli-pixels.
    pub fn as_px(&self) -> (r: i64)
        requires
            unit_in_range(self.value as int),
        ensures
            self.unit is Pixels ==> r == self.value,
            self.unit is Millimeters ==> r == converted(self.value as int, 1000, 37_798),
            self.unit is Centimeters ==> r == converted(self.value as int, 10_000, 37_798),
            self.unit is Meters ==> r == converted(self.value as int, 1_000_000, 37_798),
    {
        match self.unit {
            UnitType::Pixels => self.value,
            UnitType::Millimeters => muldiv(self.value, 1000, MICROMETERS_PER_PIXEL),
            UnitType::Centimeters => muldiv(self.value, 10_000, MICROMETERS_PER_PIXEL),
            UnitType::Meters => muldiv(self.value, 1_000_000, MICROMETERS_PER_PIXEL),
        }
    }

    /// The length in milli-millimeters.
    pub fn as_mm(&self) -> (r: i64)
        requires
            unit_in_range(self.value as int),
        ensures
            self.unit is Pixels ==> r == converted(self.value as int, 37_798, 1000),
            self.unit is Millimeters ==> r == self.value,
            self.unit is Centimeters ==> r == converted(self.value as int, 10_000, 1000),
            self.unit is Meters ==> r == converted(self.value as int, 1_000_000, 1000),
    {
        match self.unit {
            UnitType::Pixels => muldiv(self.value, MICROMETERS_PER_PIXEL, 1000),
            UnitType::Millimeters => self.value,
            UnitType::Centimeters => muldiv(self.value, 10_000, 1000),
            UnitType::Meters => muldiv(self.value, 1_000_000, 1000),
        }
    }

    /// The length in milli-centimeters.
    pub fn as_cm(&self) -> (r: i64)
        requires
            unit_in_range(self.value as int),
        ensures
            self.unit is Pixels ==> r == converted(self.value as int, 37_798, 10_000),
            self.unit is Millimeters ==> r == converted(self.value as int, 1000, 10_000),
            self.unit is Centimeters ==> r == self.value,
            self.unit is Meters ==> r == converted(self.value as int, 100_000, 1000),
    {
        match self.unit {
            UnitType::Pixels => muldiv(self.value, MICROMETERS_PER_PIXEL, 10_000),
            UnitType::Millimeters => muldiv(self.value, 1000, 10_000),
            UnitType::Centimeters => self.value,
            UnitType::Meters => muldiv(self.value, 100_000, 1000),
        }
    }

    /// The length in milli-meters.
    pub fn as_m(&self) -> (r: i64)
        requires
            unit_in_range(self.value as int),
        ensures
            self.unit is Pixels ==> r == converted(self.value as int, 37_798, 1_000_000),
            self.unit is Millimeters ==> r == converted(self.value as int, 1000, 1_000_000),
            self.unit is Centimeters ==> r == converted(self.value as int, 1000, 100_000),
            self.unit is Meters ==> r == self.value,
    {
        match self.unit {
            UnitType::Pixels => muldiv(self.value, MICROMETERS_PER_PIXEL, 1_000_000),
            UnitType::Millimeters => muldiv(self.value, 1000, 1_000_000),
            UnitType::Centimeters => muldiv(self.value, 1000, 100_000),
            UnitType::Meters => self.value,
        }
    }
}

/// Meters to pixels, both fixed-point: `m * 1000000 / 37798`.
pub fn m_to_px(m: i64) -> (r: i64)
    requires
        unit_in_range(m as int),
    ensures
        r == spec_muldiv(m as int, 1_000_000, 37_798),
{
    muldiv(m, 1_000_000, MICROMETERS_PER_PIXEL)
}

/// Pixels to meters, both fixed-point: `px * 37798 / 1000000`.
pub fn px_to_m(px: i64) -> (r: i64)
    requires
        -SEG_BOUND <= px <= SEG_BOUND,
    ensures
        r == spec_muldiv(px as int, 37_798, 1_000_000),
{
    muldiv(px, MICROMETERS_PER_PIXEL, 1_000_000)
}

} // verus!
