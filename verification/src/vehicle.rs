//! Vehicles: a wiring variant, a pose (position, orientation, speed), and the
//! per-tick update that samples two sensors, permutes them per wiring, and
//! integrates the differential-drive steering law.

use vstd::prelude::*;

verus! {

use crate::fixed::{
    clamp_i64, clamp_spec, lemma_abs_mul_bound, lemma_tdiv_bound, mul_div_trunc, tdiv, tdiv128,
    MICRO,
};
use crate::geom::{Point, POS_LIMIT};
use crate::light::{Light, lights_wf};
use crate::sensor::{activation, field_activation, SENSE_LIMIT};
use crate::trig::{
    atan2_fx, atan2_micro, cos_fx, cos_micro, lemma_atan_unit_bounds, sin_fx, sin_micro,
    wrap_angle, wrap_angle_fx, TWO_PI_MICRO,
};
use vstd::arithmetic::div_mod::{
    lemma_div_is_ordered, lemma_div_is_ordered_by_denominator, lemma_div_multiples_vanish,
    lemma_div_nonincreasing, lemma_div_pos_is_pos,
};
use vstd::arithmetic::mul::{lemma_mul_inequality, lemma_mul_nonnegative};

/// Vehicle body width, in micro-units.
pub const VEHICLE_WIDTH: i64 = 60_000_000;

/// Vehicle body length, in micro-units.
pub const VEHICLE_LENGTH: i64 = 100_000_000;

/// Local offset of the front-left sensor mount: half a width to the left,
/// half a length forward.
pub const LEFT_FRONT_X: i64 = -30_000_000;

/// Forward component of both front mounts.
pub const LEFT_FRONT_Y: i64 = 50_000_000;

/// Local offset of the front-right sensor mount.
pub const RIGHT_FRONT_X: i64 = 30_000_000;

/// Forward component of both front mounts.
pub const RIGHT_FRONT_Y: i64 = 50_000_000;

/// Largest mount-offset coordinate `read_sensor` admits.
pub const MOUNT_LIMIT: i64 = 100_000_000;

/// Speed law gain: micro-units of speed per micro-unit of summed activation.
pub const SPEED_GAIN: i64 = 1_600;

/// Hard speed cap, in micro-units per second.
pub const SPEED_CAP: i64 = 600_000_000;

/// Turn law gain.
pub const TURN_GAIN: i64 = 10_000;

/// Largest admitted time step, in micro-seconds.
pub const DT_MAX: i64 = 60_000_000;

/// Largest turn-rate magnitude the steering law can produce:
/// `(MICRO * MICRO / VEHICLE_WIDTH) * TURN_GAIN` micro-radians per second.
pub const ROT_MAG_MAX: i64 = 166_660_000;

/// The four wiring variants: excitatory or inhibitory sensors, wired direct
/// or crossed.
#[derive(Clone, Copy, PartialEq, Eq, Structural, Debug)]
pub enum VehicleType {
    /// Direct excitatory wiring.
    TwoA,
    /// Crossed excitatory wiring.
    TwoB,
    /// Direct inhibitory wiring.
    ThreeA,
    /// Crossed inhibitory wiring.
    ThreeB,
}

/// A vehicle: fixed wiring, position in micro-units, orientation in
/// micro-radians within one turn, speed in micro-units per second.
#[derive(Clone, Copy, PartialEq, Eq, Structural, Debug)]
pub struct Vehicle {
    pub vehicle_type: VehicleType,
    pub position: Point,
    pub orientation: i64,
    pub velocity: i64,
}

/// An activation inhibited: one unit minus the raw value, floored at zero.
pub open spec fn inhibited(x: int) -> int {
    if MICRO - x > 0 {
        MICRO - x
    } else {
        0
    }
}

/// Effective left activation handed to the steering controller, per wiring.
pub open spec fn effective_left(t: VehicleType, left_raw: int, right_raw: int) -> int {
    match t {
        VehicleType::TwoA => left_raw,
        VehicleType::TwoB => right_raw,
        VehicleType::ThreeA => inhibited(left_raw),
        VehicleType::ThreeB => inhibited(right_raw),
    }
}

/// Effective right activation handed to the steering controller, per wiring.
pub open spec fn effective_right(t: VehicleType, left_raw: int, right_raw: int) -> int {
    match t {
        VehicleType::TwoA => right_raw,
        VehicleType::TwoB => left_raw,
        VehicleType::ThreeA => inhibited(right_raw),
        VehicleType::ThreeB => inhibited(left_raw),
    }
}

/// Speed before the cap: the summed effective activations times the gain.
pub open spec fn raw_speed(l: int, r: int) -> int {
    (l + r) * SPEED_GAIN
}

/// Speed after the cap.
pub open spec fn capped_speed(l: int, r: int) -> int {
    if raw_speed(l, r) >= SPEED_CAP {
        SPEED_CAP as int
    } else {
        raw_speed(l, r)
    }
}

/// Saturation factor in micro-units: capped over raw speed, one unit when the
/// cap is not hit, zero on a zero raw speed.
pub open spec fn saturation_factor(l: int, r: int) -> int {
    let raw = raw_speed(l, r);
    if raw == 0 {
        0
    } else {
        let f = (capped_speed(l, r) * MICRO) / raw;
        if f >= MICRO {
            MICRO as int
        } else {
            f
        }
    }
}

/// Effective wheel separation of the turn law, for `l > r > 0`:
/// `W + W * r / (l - r)`, the fixed-point form of `W + W / (l/r - 1)`.
pub open spec fn turn_separation(l: int, r: int) -> int {
    VEHICLE_WIDTH + (VEHICLE_WIDTH * r) / (l - r)
}

/// Magnitude of the turn rate for an ordered pair `l >= r`: zero without a
/// differential signal (`r == 0` or `l == r`), else the arctangent of the
/// stronger activation over the effective wheel separation, scaled by the
/// turn gain and the saturation factor.
pub open spec fn rotation_magnitude(l: int, r: int, f: int) -> int {
    if r == 0 || l == r {
        0
    } else {
        (atan2_micro(l, turn_separation(l, r)) * TURN_GAIN * f) / (MICRO as int)
    }
}

/// The signed turn rate: antisymmetric under swapping the two activations,
/// negative when the left activation is the stronger one.
pub open spec fn rotation_rate(l: int, r: int, f: int) -> int {
    if l < r {
        rotation_magnitude(r, l, f)
    } else {
        -rotation_magnitude(l, r, f)
    }
}

/// World x-coordinate of a mount offset rotated by the vehicle's orientation
/// and translated to its position.
pub open spec fn mount_world_x(v: Vehicle, ox: int, oy: int) -> int {
    v.position.x + tdiv(
        ox * cos_micro(v.orientation as int) - oy * sin_micro(v.orientation as int),
        MICRO as int,
    )
}

/// World y-coordinate of a rotated, translated mount offset.
pub open spec fn mount_world_y(v: Vehicle, ox: int, oy: int) -> int {
    v.position.y + tdiv(
        ox * sin_micro(v.orientation as int) + oy * cos_micro(v.orientation as int),
        MICRO as int,
    )
}

/// Raw activation of the front-left sensor.
pub open spec fn raw_left(v: Vehicle, lights: Seq<Light>) -> int {
    activation(
        lights,
        mount_world_x(v, LEFT_FRONT_X as int, LEFT_FRONT_Y as int),
        mount_world_y(v, LEFT_FRONT_X as int, LEFT_FRONT_Y as int),
    )
}

/// Raw activation of the front-right sensor.
pub open spec fn raw_right(v: Vehicle, lights: Seq<Light>) -> int {
    activation(
        lights,
        mount_world_x(v, RIGHT_FRONT_X as int, RIGHT_FRONT_Y as int),
        mount_world_y(v, RIGHT_FRONT_X as int, RIGHT_FRONT_Y as int),
    )
}

/// The steering controller's full step relation: `post` is `pre` after one
/// step on the effective pair `(l, r)` over `dt` micro-seconds. The new
/// orientation integrates the turn rate and wraps into one turn; the new
/// position integrates the new heading at the new speed and saturates at the
/// world edge.
pub open spec fn steered(pre: Vehicle, post: Vehicle, l: int, r: int, dt: int) -> bool {
    let vel = capped_speed(l, r);
    let f = saturation_factor(l, r);
    let rot = rotation_rate(l, r, f);
    let orient = wrap_angle(pre.orientation + tdiv(rot * dt, MICRO as int));
    let vd = vel * dt;
    let dx = tdiv(-sin_micro(orient) * vd, MICRO * (MICRO as int));
    let dy = tdiv(cos_micro(orient) * vd, MICRO * (MICRO as int));
    &&& post.vehicle_type == pre.vehicle_type
    &&& post.velocity == vel
    &&& post.orientation == orient
    &&& post.position.x == clamp_spec(pre.position.x + dx, -POS_LIMIT as int, POS_LIMIT as int)
    &&& post.position.y == clamp_spec(pre.position.y + dy, -POS_LIMIT as int, POS_LIMIT as int)
}

/// The whole per-tick update relation: raw sensing at both mounts, the wiring
/// permutation, then the steering step.
pub open spec fn stepped(pre: Vehicle, post: Vehicle, lights: Seq<Light>, dt: int) -> bool {
    let lraw = raw_left(pre, lights);
    let rraw = raw_right(pre, lights);
    steered(
        pre,
        post,
        effective_left(pre.vehicle_type, lraw, rraw),
        effective_right(pre.vehicle_type, lraw, rraw),
        dt,
    )
}

/// Every vehicle of the sequence is well-formed.
pub open spec fn vehicles_wf(s: Seq<Vehicle>) -> bool {
    forall|i: int| 0 <= i < s.len() ==> #[trigger] s[i].wf()
}

impl VehicleType {
    /// The wiring table applied to a pair of raw activations.
    pub fn effective_pair(&self, left_raw: i64, right_raw: i64) -> (p: (i64, i64))
        requires
            0 <= left_raw <= MICRO,
            0 <= right_raw <= MICRO,
        ensures
            p.0 as int == effective_left(*self, left_raw as int, right_raw as int),
            p.1 as int == effective_right(*self, left_raw as int, right_raw as int),
            0 <= p.0 <= MICRO,
            0 <= p.1 <= MICRO,
    {
        match self {
            VehicleType::TwoA => (left_raw, right_raw),
            VehicleType::TwoB => (right_raw, left_raw),
            VehicleType::ThreeA => (inhibit_fx(left_raw), inhibit_fx(right_raw)),
            VehicleType::ThreeB => (inhibit_fx(right_raw), inhibit_fx(left_raw)),
        }
    }
}

/// One unit minus the activation, floored at zero.
fn inhibit_fx(x: i64) -> (r: i64)
    requires
        0 <= x <= MICRO,
    ensures
        r as int == inhibited(x as int),
        0 <= r <= MICRO,
{
    let d: i64 = MICRO - x;
    if d > 0 {
        d
    } else {
        0
    }
}

/// Turn-rate magnitude for an ordered pair `left >= right`.
fn rotation_magnitude_fx(left: i64, right: i64, factor: i64) -> (m: i64)
    requires
        0 <= right <= left <= MICRO,
        0 <= factor <= MICRO,
    ensures
        m as int == rotation_magnitude(left as int, right as int, factor as int),
        0 <= m <= ROT_MAG_MAX,
{
    if right == 0 || left == right {
        0
    } else {
        let diff: i64 = left - right;
        proof {
            assert((VEHICLE_WIDTH as u128) * (right as u128) == VEHICLE_WIDTH * (right as int)
                && (VEHICLE_WIDTH as u128) * (right as u128) <= 60_000_000_000_000u128)
                by (nonlinear_arith)
                requires
                    0 < right <= 1_000_000,
                    VEHICLE_WIDTH == 60_000_000;
            lemma_mul_nonnegative(VEHICLE_WIDTH as int, right as int);
            lemma_div_pos_is_pos(VEHICLE_WIDTH * (right as int), diff as int);
            lemma_div_nonincreasing(VEHICLE_WIDTH * (right as int), diff as int);
        }
        let wr: u128 = (VEHICLE_WIDTH as u128) * (right as u128);
        let h: i64 = VEHICLE_WIDTH + (wr / (diff as u128)) as i64;
        proof {
            assert(h as int == turn_separation(left as int, right as int));
            lemma_mul_inequality(left as int, h as int, MICRO as int);
        }
        let at: i64 = atan2_fx(left, h);
        proof {
            let z = (left as int * MICRO) / (h as int);
            lemma_mul_nonnegative(left as int, MICRO as int);
            lemma_div_pos_is_pos(left as int * MICRO, h as int);
            lemma_div_is_ordered_by_denominator(left as int * MICRO, VEHICLE_WIDTH as int,
                h as int);
            lemma_mul_inequality(left as int, MICRO as int, MICRO as int);
            lemma_div_is_ordered(left as int * MICRO, MICRO as int * MICRO,
                VEHICLE_WIDTH as int);
            assert((MICRO as int * MICRO) / (VEHICLE_WIDTH as int) == 16_666);
            assert(z <= 16_666);
            lemma_atan_unit_bounds(z);
            assert(at <= 16_666);
        }
        proof {
            assert((at as u128) * (TURN_GAIN as u128) * (factor as u128)
                == at as int * TURN_GAIN * (factor as int)
                && (at as u128) * (TURN_GAIN as u128) * (factor as u128)
                    <= 166_660_000_000_000u128) by (nonlinear_arith)
                requires
                    0 <= at <= 16_666,
                    0 <= factor <= 1_000_000,
                    TURN_GAIN == 10_000;
            lemma_div_is_ordered(at as int * TURN_GAIN * (factor as int), 166_660_000_000_000,
                MICRO as int);
            lemma_mul_nonnegative(at as int * TURN_GAIN, factor as int);
            lemma_div_pos_is_pos(at as int * TURN_GAIN * (factor as int), MICRO as int);
        }
        let prod: u128 = (at as u128) * (TURN_GAIN as u128) * (factor as u128);
        let m: u128 = prod / (MICRO as u128);
        m as i64
    }
}

impl Vehicle {
    /// A well-formed vehicle: orientation within one turn, speed within the
    /// cap, position within the world.
    pub open spec fn wf(self) -> bool {
        &&& 0 <= self.orientation < TWO_PI_MICRO
        &&& 0 <= self.velocity <= SPEED_CAP
        &&& -POS_LIMIT <= self.position.x <= POS_LIMIT
        &&& -POS_LIMIT <= self.position.y <= POS_LIMIT
    }

    /// A new vehicle at `position` with the given wiring, facing the
    /// reference heading at rest.
    pub fn new(vehicle_type: VehicleType, position: Point) -> (v: Vehicle)
        requires
            -POS_LIMIT <= position.x <= POS_LIMIT,
            -POS_LIMIT <= position.y <= POS_LIMIT,
        ensures
            v == (Vehicle { vehicle_type, position, orientation: 0, velocity: 0 }),
            v.wf(),
    {
        Vehicle { vehicle_type, position, orientation: 0, velocity: 0 }
    }

    /// The activation at a sensor mounted at the local offset `offset`:
    /// the mount point is rotated by the vehicle's orientation, translated to
    /// its position, and the stimulus field is sampled there.
    pub fn read_sensor(&self, offset: Point, lights: &[Light]) -> (a: i64)
        requires
            self.wf(),
            lights_wf(lights@),
            -MOUNT_LIMIT <= offset.x <= MOUNT_LIMIT,
            -MOUNT_LIMIT <= offset.y <= MOUNT_LIMIT,
        ensures
            a as int == activation(
                lights@,
                mount_world_x(*self, offset.x as int, offset.y as int),
                mount_world_y(*self, offset.x as int, offset.y as int),
            ),
            0 <= a <= MICRO,
    {
        let s: i64 = sin_fx(self.orientation);
        let c: i64 = cos_fx(self.orientation);
        proof {
            lemma_abs_mul_bound(offset.x as int, c as int, MOUNT_LIMIT as int, MICRO as int);
            lemma_abs_mul_bound(offset.y as int, s as int, MOUNT_LIMIT as int, MICRO as int);
            lemma_abs_mul_bound(offset.x as int, s as int, MOUNT_LIMIT as int, MICRO as int);
            lemma_abs_mul_bound(offset.y as int, c as int, MOUNT_LIMIT as int, MICRO as int);
        }
        let num_x: i128 = (offset.x as i128) * (c as i128) - (offset.y as i128) * (s as i128);
        let num_y: i128 = (offset.x as i128) * (s as i128) + (offset.y as i128) * (c as i128);
        proof {
            lemma_tdiv_bound(num_x as int, MICRO as int, 200_000_000_000_000);
            lemma_tdiv_bound(num_y as int, MICRO as int, 200_000_000_000_000);
        }
        let rx: i64 = tdiv128(num_x, 1_000_000);
        let ry: i64 = tdiv128(num_y, 1_000_000);
        let wx: i64 = self.position.x + rx;
        let wy: i64 = self.position.y + ry;
        field_activation(lights, wx, wy)
    }

    /// The turn rate for a pair of effective activations and a saturation
    /// factor: the symmetry-reduced law, written as an explicit two-branch
    /// swap so the `right == 0` and `left == right` guards stay visible.
    pub fn calc_rotation(&self, left: i64, right: i64, factor: i64) -> (rot: i64)
        requires
            0 <= left <= MICRO,
            0 <= right <= MICRO,
            0 <= factor <= MICRO,
        ensures
            rot as int == rotation_rate(left as int, right as int, factor as int),
            -ROT_MAG_MAX <= rot <= ROT_MAG_MAX,
    {
        if left < right {
            rotation_magnitude_fx(right, left, factor)
        } else {
            -rotation_magnitude_fx(left, right, factor)
        }
    }

    /// One steering step on an already-permuted effective pair: sets the
    /// capped speed, integrates the turn rate into the orientation, and moves
    /// along the new heading.
    pub fn two_sensor_vehicle(&mut self, delta: i64, left: i64, right: i64)
        requires
            old(self).wf(),
            0 <= left <= MICRO,
            0 <= right <= MICRO,
            0 <= delta <= DT_MAX,
        ensures
            final(self).wf(),
            steered(*old(self), *final(self), left as int, right as int, delta as int),
    {
        let raw: i64 = (left + right) * SPEED_GAIN;
        let vel: i64 = if raw >= SPEED_CAP {
            SPEED_CAP
        } else {
            raw
        };
        self.velocity = vel;
        let factor: i64 = if raw == 0 {
            0
        } else {
            proof {
                assert((vel as u128) * (MICRO as u128) == vel as int * MICRO)
                    by (nonlinear_arith)
                    requires
                        0 <= vel <= 600_000_000,
                        MICRO == 1_000_000;
                lemma_mul_nonnegative(vel as int, MICRO as int);
                lemma_div_pos_is_pos(vel as int * MICRO, raw as int);
                lemma_mul_inequality(vel as int, raw as int, MICRO as int);
                lemma_div_is_ordered(vel as int * MICRO, raw as int * MICRO, raw as int);
                assert(raw as int * MICRO == (raw as int) * (MICRO as int));
                lemma_div_multiples_vanish(MICRO as int, raw as int);
            }
            let q: u128 = ((vel as u128) * (MICRO as u128)) / (raw as u128);
            q as i64
        };
        proof {
            assert(factor as int == saturation_factor(left as int, right as int));
        }
        let rot: i64 = self.calc_rotation(left, right, factor);
        proof {
            lemma_abs_mul_bound(rot as int, delta as int, ROT_MAG_MAX as int, DT_MAX as int);
            lemma_tdiv_bound(rot as int * delta, MICRO as int, 9_999_600_000_000_000);
        }
        let dang: i64 = mul_div_trunc(rot, delta, MICRO);
        let new_orient: i64 = wrap_angle_fx(self.orientation + dang);
        self.orientation = new_orient;
        let s: i64 = sin_fx(new_orient);
        let c: i64 = cos_fx(new_orient);
        proof {
            lemma_abs_mul_bound(vel as int, delta as int, SPEED_CAP as int, DT_MAX as int);
        }
        let vd: i64 = vel * delta;
        proof {
            lemma_abs_mul_bound(-(s as int), vd as int, MICRO as int,
                36_000_000_000_000_000);
            lemma_abs_mul_bound(c as int, vd as int, MICRO as int, 36_000_000_000_000_000);
            lemma_tdiv_bound(-(s as int) * vd, 1_000_000_000_000,
                36_000_000_000_000_000_000_000);
            lemma_tdiv_bound(c as int * vd, 1_000_000_000_000, 36_000_000_000_000_000_000_000);
        }
        let dx: i64 = mul_div_trunc(-s, vd, MICRO * MICRO);
        let dy: i64 = mul_div_trunc(c, vd, MICRO * MICRO);
        self.position.x = clamp_i64(self.position.x + dx, -POS_LIMIT, POS_LIMIT);
        self.position.y = clamp_i64(self.position.y + dy, -POS_LIMIT, POS_LIMIT);
    }

    /// One full tick for this vehicle: read both front sensors against the
    /// current lights, permute the pair per the wiring, and steer.
    pub fn update(&mut self, lights: &[Light], delta: i64)
        requires
            old(self).wf(),
            lights_wf(lights@),
            0 <= delta <= DT_MAX,
        ensures
            final(self).wf(),
            stepped(*old(self), *final(self), lights@, delta as int),
    {
        let left_raw: i64 = self.read_sensor(Point { x: LEFT_FRONT_X, y: LEFT_FRONT_Y }, lights);
        let right_raw: i64 = self.read_sensor(
            Point { x: RIGHT_FRONT_X, y: RIGHT_FRONT_Y },
            lights,
        );
        let (l, r): (i64, i64) = self.vehicle_type.effective_pair(left_raw, right_raw);
        self.two_sensor_vehicle(delta, l, r);
    }
}

} // verus!
