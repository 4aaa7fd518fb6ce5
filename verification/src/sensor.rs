//! The sensor model: inverse-square field sampling. Each light adds
//! `intensity / squared_distance` at the sampled point; the sum is scaled by a
//! fixed gain and clamped to one unit. A light coincident with the sample
//! point contributes the full clamp value at once.

use vstd::prelude::*;

verus! {

use crate::fixed::MICRO;
use crate::geom::{dist_sq, distance_squared, lemma_dist_sq_nonneg, Point};
use crate::light::{Light, lights_wf};
use vstd::arithmetic::div_mod::{lemma_div_is_ordered, lemma_div_pos_is_pos};
use vstd::arithmetic::mul::{
    lemma_mul_inequality, lemma_mul_is_commutative, lemma_mul_nonnegative,
};

/// Field gain: the inverse-square sum is multiplied by this many units.
pub const SENSOR_GAIN: i64 = 20_000;

/// `SENSOR_GAIN` expressed over micro-unit intensity and micro-unit
/// coordinates: `SENSOR_GAIN * MICRO * MICRO`.
pub const GAIN_NUMERATOR: i128 = 20_000_000_000_000_000;

/// Largest coordinate magnitude of a sensor sample point: a vehicle position
/// plus the reach of a rotated mount offset.
pub const SENSE_LIMIT: i64 = 100_200_000_000;

/// A value clamped from above to one unit.
pub open spec fn clamp_micro(s: int) -> int {
    if s >= MICRO {
        MICRO as int
    } else {
        s
    }
}

/// What one light adds to the scaled field sum at `(px, py)`: the clamp value
/// itself when coincident (an unbounded contribution saturates the sensor),
/// else `SENSOR_GAIN * intensity / squared_distance` in micro-units.
pub open spec fn sensor_contribution(l: Light, px: int, py: int) -> int {
    let d2 = dist_sq(l.position.x as int, l.position.y as int, px, py);
    if d2 == 0 {
        MICRO as int
    } else {
        (GAIN_NUMERATOR * l.intensity) / d2
    }
}

/// Scaled field sum of the first `k` lights at `(px, py)`.
pub open spec fn activation_prefix(lights: Seq<Light>, k: int, px: int, py: int) -> int
    decreases k,
{
    if k <= 0 {
        0
    } else {
        activation_prefix(lights, k - 1, px, py) + sensor_contribution(lights[k - 1], px, py)
    }
}

/// Scaled field sum of all lights at `(px, py)`.
pub open spec fn activation_sum(lights: Seq<Light>, px: int, py: int) -> int {
    activation_prefix(lights, lights.len() as int, px, py)
}

/// The sensor activation at `(px, py)`: the scaled field sum clamped to one
/// unit.
pub open spec fn activation(lights: Seq<Light>, px: int, py: int) -> int {
    clamp_micro(activation_sum(lights, px, py))
}

/// A well-formed light never contributes negatively.
pub proof fn lemma_contribution_nonneg(l: Light, px: int, py: int)
    requires
        l.wf(),
    ensures
        sensor_contribution(l, px, py) >= 0,
{
    let d2 = dist_sq(l.position.x as int, l.position.y as int, px, py);
    lemma_dist_sq_nonneg(l.position.x as int, l.position.y as int, px, py);
    if d2 != 0 {
        lemma_mul_nonnegative(GAIN_NUMERATOR as int, l.intensity as int);
        lemma_div_pos_is_pos(GAIN_NUMERATOR * l.intensity, d2);
    }
}

/// A scaled field sum over well-formed lights is never negative.
pub proof fn lemma_prefix_nonneg(lights: Seq<Light>, k: int, px: int, py: int)
    requires
        lights_wf(lights),
        k <= lights.len(),
    ensures
        activation_prefix(lights, k, px, py) >= 0,
    decreases k,
{
    if k > 0 {
        lemma_prefix_nonneg(lights, k - 1, px, py);
        lemma_contribution_nonneg(lights[k - 1], px, py);
    }
}

/// Raising one light's intensity, all else fixed, never lowers the scaled
/// field sum.
pub proof fn lemma_prefix_monotone_in_intensity(
    s1: Seq<Light>,
    s2: Seq<Light>,
    j: int,
    k: int,
    px: int,
    py: int,
)
    requires
        s1.len() == s2.len(),
        0 <= j < s1.len(),
        forall|i: int| 0 <= i < s1.len() && i != j ==> s2[i] == s1[i],
        s2[j].position == s1[j].position,
        s2[j].intensity >= s1[j].intensity,
        s1[j].intensity >= 0,
        0 <= k <= s1.len(),
    ensures
        activation_prefix(s2, k, px, py) >= activation_prefix(s1, k, px, py),
    decreases k,
{
    if k > 0 {
        lemma_prefix_monotone_in_intensity(s1, s2, j, k - 1, px, py);
        if k - 1 == j {
            let d2 = dist_sq(s1[j].position.x as int, s1[j].position.y as int, px, py);
            lemma_dist_sq_nonneg(s1[j].position.x as int, s1[j].position.y as int, px, py);
            if d2 != 0 {
                lemma_mul_inequality(s1[j].intensity as int, s2[j].intensity as int,
                    GAIN_NUMERATOR as int);
                lemma_mul_is_commutative(s1[j].intensity as int, GAIN_NUMERATOR as int);
                lemma_mul_is_commutative(s2[j].intensity as int, GAIN_NUMERATOR as int);
                lemma_div_is_ordered(GAIN_NUMERATOR * s1[j].intensity,
                    GAIN_NUMERATOR * s2[j].intensity, d2);
            }
        } else {
            assert(s2[k - 1] == s1[k - 1]);
        }
    }
}

/// The sensor activation at the world point `(wx, wy)`: the scaled
/// inverse-square field sum over all lights, clamped to one unit.
pub fn field_activation(lights: &[Light], wx: i64, wy: i64) -> (a: i64)
    requires
        lights_wf(lights@),
        -SENSE_LIMIT <= wx <= SENSE_LIMIT,
        -SENSE_LIMIT <= wy <= SENSE_LIMIT,
    ensures
        a as int == activation(lights@, wx as int, wy as int),
        0 <= a <= MICRO,
{
    let n: usize = lights.len();
    let mut acc: i64 = 0;
    let mut i: usize = 0;
    while i < n
        invariant
            0 <= i <= n,
            n == lights@.len(),
            lights_wf(lights@),
            -SENSE_LIMIT <= wx <= SENSE_LIMIT,
            -SENSE_LIMIT <= wy <= SENSE_LIMIT,
            0 <= acc <= MICRO,
            acc as int == clamp_micro(activation_prefix(lights@, i as int, wx as int, wy as int)),
        decreases n - i,
    {
        let l: Light = *vstd::slice::slice_index_get(lights, i);
        proof {
            assert(lights@[i as int].wf());
        }
        let d2: i128 = distance_squared(l.position, Point { x: wx, y: wy });
        let ghost c = sensor_contribution(l, wx as int, wy as int);
        let t: i64 = if d2 == 0 {
            MICRO
        } else {
            proof {
                assert((GAIN_NUMERATOR as u128) * (l.intensity as u128)
                    == GAIN_NUMERATOR * l.intensity
                    && (GAIN_NUMERATOR as u128) * (l.intensity as u128)
                        <= 0x1_0000_0000_0000_0000_0000_0000u128) by (nonlinear_arith)
                    requires
                        0 < l.intensity <= 100_000_000,
                        GAIN_NUMERATOR == 20_000_000_000_000_000;
                lemma_mul_nonnegative(GAIN_NUMERATOR as int, l.intensity as int);
                lemma_div_pos_is_pos(GAIN_NUMERATOR * l.intensity, d2 as int);
            }
            let q: u128 = ((GAIN_NUMERATOR as u128) * (l.intensity as u128)) / (d2 as u128);
            if q >= MICRO as u128 {
                MICRO
            } else {
                q as i64
            }
        };
        proof {
            lemma_contribution_nonneg(l, wx as int, wy as int);
            assert(t as int == clamp_micro(c));
            lemma_prefix_nonneg(lights@, i as int, wx as int, wy as int);
            assert(activation_prefix(lights@, i as int + 1, wx as int, wy as int)
                == activation_prefix(lights@, i as int, wx as int, wy as int) + c);
        }
        acc = if acc + t >= MICRO {
            MICRO
        } else {
            acc + t
        };
        i = i + 1;
    }
    acc
}

} // verus!
