use vstd::prelude::*;

verus! {

/// The most octaves the fractal noise of the `noise` crate (0.9) can sum.
pub const FBM_MAX_OCTAVES: usize = 6;

/// The octave counts of the noise layers of the nebula noise field.
#[derive(Clone, Copy, Debug, PartialEq, Eq, Structural)]
pub struct NoiseOctaves {
    /// Large-scale density.
    pub density: usize,
    /// Mid-scale texture inside the clouds.
    pub detail: usize,
    /// Ridged emission knots.
    pub emission: usize,
    /// The two domain-warp layers.
    pub warp: usize,
}

pub open spec fn min_nat(a: int, b: int) -> int {
    if a <= b { a } else { b }
}

pub open spec fn max_nat(a: int, b: int) -> int {
    if a >= b { a } else { b }
}

/// `a - b`, or zero when that would be negative.
pub open spec fn minus_or_zero(a: int, b: int) -> int {
    if a >= b { a - b } else { 0 }
}

/// The octave counts for a requested count of `octaves`: the density layer
/// uses the requested count, capped at `FBM_MAX_OCTAVES`; the detail and
/// emission layers one octave fewer and the warp layers two fewer, but never
/// fewer than three; the detail and warp layers are capped at
/// `FBM_MAX_OCTAVES` as well.
pub open spec fn octave_plan(octaves: int) -> NoiseOctaves {
    let base = min_nat(octaves, FBM_MAX_OCTAVES as int);
    NoiseOctaves {
        density: base as usize,
        detail: min_nat(max_nat(minus_or_zero(base, 1), 3), FBM_MAX_OCTAVES as int) as usize,
        emission: max_nat(minus_or_zero(base, 1), 3) as usize,
        warp: min_nat(max_nat(minus_or_zero(base, 2), 3), FBM_MAX_OCTAVES as int) as usize,
    }
}

/// See `octave_plan`.
pub fn noise_octaves(octaves: usize) -> (plan: NoiseOctaves)
    ensures
        plan == octave_plan(octaves as int),
{
    let base = if octaves < FBM_MAX_OCTAVES {
        octaves
    } else {
        FBM_MAX_OCTAVES
    };
    let one_less = base.saturating_sub(1);
    let two_less = base.saturating_sub(2);
    let detail = if one_less > 3 {
        one_less
    } else {
        3
    };
    let emission = detail;
    let warp = if two_less > 3 {
        two_less
    } else {
        3
    };
    NoiseOctaves {
        density: base,
        detail: if detail < FBM_MAX_OCTAVES {
            detail
        } else {
            FBM_MAX_OCTAVES
        },
        emission,
        warp: if warp < FBM_MAX_OCTAVES {
            warp
        } else {
            FBM_MAX_OCTAVES
        },
    }
}

} // verus!
