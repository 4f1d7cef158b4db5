//! Dimensioned physical quantities in fixed point.
//!
//! Each quantity holds an integer count of millionths of its SI unit, so that
//! every type below carries its own dimension and mixing them up is a type error.
//! Input quantities are `u64` and may not exceed [`MAX_MAGNITUDE`]; derived
//! quantities (heat capacity, conductance) are `u128`. Products are rounded down
//! to the nearest millionth after each multiplication.

use vstd::prelude::*;

verus! {

/// One SI unit, in millionths.
pub const UNIT: u64 = 1_000_000;

/// Largest magnitude of an input quantity, in millionths (a million SI units).
pub const MAX_MAGNITUDE: u64 = 1_000_000_000_000;

/// Length [m], in micrometres.
#[derive(Clone, Copy, Debug, PartialEq, Eq, Structural)]
pub struct Length {
    pub micro: u64,
}

/// Area [m²], in millionths of a square metre.
#[derive(Clone, Copy, Debug, PartialEq, Eq, Structural)]
pub struct Area {
    pub micro: u64,
}

/// Volume [m³], in millionths of a cubic metre.
#[derive(Clone, Copy, Debug, PartialEq, Eq, Structural)]
pub struct Volume {
    pub micro: u64,
}

/// Mass density [kg/m³], in millionths.
#[derive(Clone, Copy, Debug, PartialEq, Eq, Structural)]
pub struct MassDensity {
    pub micro: u64,
}

/// Specific heat capacity [J/(kg·K)], in millionths.
#[derive(Clone, Copy, Debug, PartialEq, Eq, Structural)]
pub struct SpecificHeatCapacity {
    pub micro: u64,
}

/// Thermal conductivity [W/(m·K)], in millionths.
#[derive(Clone, Copy, Debug, PartialEq, Eq, Structural)]
pub struct ThermalConductivity {
    pub micro: u64,
}

/// Heat transfer coefficient [W/(m²·K)], in millionths.
#[derive(Clone, Copy, Debug, PartialEq, Eq, Structural)]
pub struct HeatTransfer {
    pub micro: u64,
}

/// Dimensionless ratio, in millionths (1.0 is `UNIT`).
#[derive(Clone, Copy, Debug, PartialEq, Eq, Structural)]
pub struct Ratio {
    pub micro: u64,
}

/// Speed [m/s], in millionths.
#[derive(Clone, Copy, Debug, PartialEq, Eq, Structural)]
pub struct Velocity {
    pub micro: u64,
}

/// Heat capacity [J/K], in microjoules per kelvin, or infinite (a thermal mass
/// whose temperature is imposed from outside).
#[derive(Clone, Copy, Debug, PartialEq, Eq, Structural)]
pub enum HeatCapacity {
    Finite(u128),
    Infinite,
}

/// Thermal conductance [W/K], in microwatts per kelvin, or infinite (a layer of
/// zero thickness).
#[derive(Clone, Copy, Debug, PartialEq, Eq, Structural)]
pub enum ThermalConductance {
    Finite(u128),
    Infinite,
}

impl HeatCapacity {
    pub fn is_finite(&self) -> (r: bool)
        ensures
            r == (*self is Finite),
    {
        match self {
            HeatCapacity::Finite(_) => true,
            HeatCapacity::Infinite => false,
        }
    }
}

/// Whether an input quantity lies in the representable range.
pub open spec fn bounded(micro: u64) -> bool {
    micro <= MAX_MAGNITUDE
}

/// Product of two fixed-point values, rounded down.
pub open spec fn mul_spec(a: int, b: int) -> int {
    a * b / (UNIT as int)
}

/// Product of two fixed-point values, rounded down.
pub fn mul_fixed(a: u128, b: u128) -> (r: u128)
    requires
        a * b <= u128::MAX,
    ensures
        r == mul_spec(a as int, b as int),
{
    a * b / (UNIT as u128)
}

pub proof fn lemma_mul_bound(a: int, b: int, x: int, y: int)
    requires
        0 <= a <= x,
        0 <= b <= y,
    ensures
        0 <= a * b <= x * y,
{
    assert(0 <= a * b <= x * y) by (nonlinear_arith)
        requires
            0 <= a <= x,
            0 <= b <= y,
    ;
}

pub proof fn lemma_mul_spec_bound(a: int, b: int, x: int, y: int)
    requires
        0 <= a <= x,
        0 <= b <= y,
    ensures
        0 <= mul_spec(a, b) <= x * y / (UNIT as int),
{
    lemma_mul_bound(a, b, x, y);
    assert(a * b / 1_000_000 <= x * y / 1_000_000) by (nonlinear_arith)
        requires
            0 <= a * b <= x * y,
    ;
}

} // verus!
