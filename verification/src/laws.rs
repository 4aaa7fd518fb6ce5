//! The library's stated laws: properties of the sensor model, the wiring
//! table, the steering law, and the idle behaviour, proved once and for all
//! inputs from the same definitions the executable contracts use.

use vstd::prelude::*;

verus! {

use crate::fixed::MICRO;
use crate::light::{Light, lights_wf};
use crate::sensor::{
    activation, lemma_prefix_monotone_in_intensity, lemma_prefix_nonneg,
};
use crate::trig::lemma_wrap_angle_identity;
use crate::vehicle::{
    capped_speed, effective_left, effective_right, raw_speed, rotation_magnitude, rotation_rate,
    stepped, Vehicle, VehicleType, DT_MAX, SPEED_CAP, SPEED_GAIN, TURN_GAIN, VEHICLE_WIDTH,
};
use vstd::arithmetic::div_mod::{lemma_basic_div, lemma_div_pos_is_pos};
use vstd::arithmetic::mul::lemma_mul_nonnegative;

/// Sensor bound: over any finite set of well-formed lights, the activation
/// at any point lies in `[0, MICRO]`.
pub proof fn lemma_sensor_bound(lights: Seq<Light>, px: int, py: int)
    requires
        lights_wf(lights),
    ensures
        0 <= activation(lights, px, py) <= MICRO,
{
    lemma_prefix_nonneg(lights, lights.len() as int, px, py);
}

/// Sensor monotonicity: raising one light's intensity, its position and all
/// other lights fixed, never lowers the activation at any point.
pub proof fn lemma_sensor_monotonicity(
    s1: Seq<Light>,
    s2: Seq<Light>,
    j: int,
    px: int,
    py: int,
)
    requires
        s1.len() == s2.len(),
        0 <= j < s1.len(),
        forall|i: int| 0 <= i < s1.len() && i != j ==> s2[i] == s1[i],
        s2[j].position == s1[j].position,
        s2[j].intensity >= s1[j].intensity,
        s1[j].intensity >= 0,
    ensures
        activation(s2, px, py) >= activation(s1, px, py),
{
    lemma_prefix_monotone_in_intensity(s1, s2, j, s1.len() as int, px, py);
}

/// Wiring table: the direct excitatory wiring passes the raw pair through,
/// the crossed excitatory wiring mirrors it, and the inhibitory wirings hand
/// on the complements (clamped at zero), direct or mirrored.
pub proof fn lemma_wiring_table(a: int, b: int)
    requires
        0 <= a <= MICRO,
        0 <= b <= MICRO,
    ensures
        effective_left(VehicleType::TwoA, a, b) == a,
        effective_right(VehicleType::TwoA, a, b) == b,
        effective_left(VehicleType::TwoB, a, b) == b,
        effective_right(VehicleType::TwoB, a, b) == a,
        effective_left(VehicleType::ThreeA, a, b) == MICRO - a,
        effective_right(VehicleType::ThreeA, a, b) == MICRO - b,
        effective_left(VehicleType::ThreeB, a, b) == MICRO - b,
        effective_right(VehicleType::ThreeB, a, b) == MICRO - a,
        effective_left(VehicleType::TwoB, a, b) == effective_right(VehicleType::TwoA, a, b),
        effective_right(VehicleType::TwoB, a, b) == effective_left(VehicleType::TwoA, a, b),
{
}

/// Turn-rate antisymmetry: swapping the two effective activations negates
/// the turn rate, for every pair and every saturation factor.
pub proof fn lemma_rotation_antisymmetric(l: int, r: int, f: int)
    ensures
        rotation_rate(l, r, f) == -rotation_rate(r, l, f),
{
}

/// Turn-rate zero cases: no differential signal means no turning. A zero
/// right activation gives a zero rate, and equal activations give a zero
/// rate (the `l == r` guard keeps the wheel-separation formula away from its
/// division by zero).
pub proof fn lemma_rotation_zero_cases(l: int, f: int)
    requires
        l >= 0,
    ensures
        rotation_rate(l, 0, f) == 0,
        rotation_rate(l, l, f) == 0,
{
    assert(rotation_magnitude(l, 0, f) == 0);
    assert(rotation_magnitude(l, l, f) == 0);
}

/// Turn-rate sign: with the left effective activation at least the right
/// one, the turn rate is never positive — the direct excitatory wiring turns
/// one fixed way toward an imbalance.
pub proof fn lemma_rotation_sign(l: int, r: int, f: int)
    requires
        0 <= r <= l <= MICRO,
        0 <= f <= MICRO,
    ensures
        rotation_rate(l, r, f) <= 0,
{
    lemma_rotation_magnitude_nonneg(l, r, f);
}

/// The turn-rate magnitude of an ordered pair is never negative.
proof fn lemma_rotation_magnitude_nonneg(l: int, r: int, f: int)
    requires
        0 <= r <= l <= MICRO,
        0 <= f <= MICRO,
    ensures
        rotation_magnitude(l, r, f) >= 0,
{
    if r != 0 && l != r {
        let h = crate::vehicle::turn_separation(l, r);
        lemma_mul_nonnegative(VEHICLE_WIDTH as int, r);
        lemma_div_pos_is_pos(VEHICLE_WIDTH * r, l - r);
        assert(h > 0);
        let z = (l * MICRO) / h;
        lemma_mul_nonnegative(l, MICRO as int);
        lemma_div_pos_is_pos(l * MICRO, h);
        vstd::arithmetic::div_mod::lemma_div_is_ordered_by_denominator(l * MICRO,
            VEHICLE_WIDTH as int, h);
        vstd::arithmetic::mul::lemma_mul_inequality(l, MICRO as int, MICRO as int);
        vstd::arithmetic::div_mod::lemma_div_is_ordered(l * MICRO, MICRO as int * MICRO,
            VEHICLE_WIDTH as int);
        assert((MICRO as int * MICRO) / (VEHICLE_WIDTH as int) == 16_666);
        crate::trig::lemma_atan_unit_bounds(z);
        lemma_mul_nonnegative(crate::trig::atan2_micro(l, h) * TURN_GAIN, f);
        lemma_mul_nonnegative(crate::trig::atan2_micro(l, h), TURN_GAIN as int);
        lemma_div_pos_is_pos(crate::trig::atan2_micro(l, h) * TURN_GAIN * f, MICRO as int);
    }
}

/// Under identical geometry, the crossed excitatory wiring turns exactly
/// opposite to the direct excitatory wiring: crossing the sensors mirrors
/// the effective pair, and the turn rate is antisymmetric under that mirror.
pub proof fn lemma_crossed_wiring_turns_opposite(a: int, b: int, f: int)
    ensures
        rotation_rate(
            effective_left(VehicleType::TwoB, a, b),
            effective_right(VehicleType::TwoB, a, b),
            f,
        ) == -rotation_rate(
            effective_left(VehicleType::TwoA, a, b),
            effective_right(VehicleType::TwoA, a, b),
            f,
        ),
{
    lemma_rotation_antisymmetric(a, b, f);
}

/// Speed cap: the speed law is exactly the gained sum below the cap and
/// exactly the cap from there on.
pub proof fn lemma_speed_cap(l: int, r: int)
    ensures
        raw_speed(l, r) == (l + r) * SPEED_GAIN,
        (l + r) * SPEED_GAIN >= SPEED_CAP ==> capped_speed(l, r) == SPEED_CAP,
        (l + r) * SPEED_GAIN < SPEED_CAP ==> capped_speed(l, r) == (l + r) * SPEED_GAIN,
{
}

/// Idle behaviour under an empty stimulus collection: one step changes no
/// orientation, an excitatory vehicle stops on the spot, and an inhibitory
/// vehicle runs at exactly the capped speed.
pub proof fn lemma_idle_without_stimulus(v: Vehicle, post: Vehicle, dt: int)
    requires
        v.wf(),
        0 <= dt <= DT_MAX,
        stepped(v, post, Seq::<Light>::empty(), dt),
    ensures
        post.orientation == v.orientation,
        post.vehicle_type == v.vehicle_type,
        v.vehicle_type is TwoA || v.vehicle_type is TwoB ==> post.velocity == 0
            && post.position == v.position,
        v.vehicle_type is ThreeA || v.vehicle_type is ThreeB ==> post.velocity == SPEED_CAP,
{
    let lights = Seq::<Light>::empty();
    assert(activation(lights, crate::vehicle::mount_world_x(v, -30_000_000, 50_000_000),
        crate::vehicle::mount_world_y(v, -30_000_000, 50_000_000)) == 0);
    let lraw = crate::vehicle::raw_left(v, lights);
    let rraw = crate::vehicle::raw_right(v, lights);
    assert(lraw == 0 && rraw == 0);
    let l = effective_left(v.vehicle_type, lraw, rraw);
    let r = effective_right(v.vehicle_type, lraw, rraw);
    assert(l == r);
    let f = crate::vehicle::saturation_factor(l, r);
    let rot = rotation_rate(l, r, f);
    assert(rot == 0);
    assert(rot * dt == 0) by (nonlinear_arith)
        requires
            rot == 0;
    assert(crate::fixed::tdiv(rot * dt, MICRO as int) == 0) by {
        lemma_basic_div(0, MICRO as int);
    }
    lemma_wrap_angle_identity(v.orientation as int);
    let orient = crate::trig::wrap_angle(
        v.orientation + crate::fixed::tdiv(rot * dt, MICRO as int),
    );
    assert(orient == v.orientation);
    if v.vehicle_type is TwoA || v.vehicle_type is TwoB {
        assert(l == 0);
        let vel = capped_speed(l, r);
        assert(vel == 0);
        let vd = vel * dt;
        assert(vd == 0);
        assert(-crate::trig::sin_micro(orient) * vd == 0) by (nonlinear_arith)
            requires
                vd == 0;
        assert(crate::trig::cos_micro(orient) * vd == 0) by (nonlinear_arith)
            requires
                vd == 0;
        assert(crate::fixed::tdiv(-crate::trig::sin_micro(orient) * vd, MICRO * (MICRO as int))
            == 0) by {
            lemma_basic_div(0, MICRO * (MICRO as int));
        }
        assert(crate::fixed::tdiv(crate::trig::cos_micro(orient) * vd, MICRO * (MICRO as int))
            == 0) by {
            lemma_basic_div(0, MICRO * (MICRO as int));
        }
        assert(post.position.x == v.position.x);
        assert(post.position.y == v.position.y);
    }
}

} // verus!
