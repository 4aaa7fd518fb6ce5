//! The field replenishment policy: after the vehicles of a tick have moved,
//! every light within the capture radius of some vehicle is relocated to a
//! random spot in a fixed box around the first such vehicle in order. The new
//! spot is not re-checked this tick; a recaptured light moves again next
//! tick. The first `skip` lights (a pointer-tracked light, when the host
//! keeps one) are exempt.

use vstd::prelude::*;

verus! {

use crate::geom::{dist_sq, distance_squared, Point};
use crate::light::{Light, lights_wf};
use crate::vehicle::{vehicles_wf, Vehicle};

/// Squared capture radius, in micro-units squared (20000 squared units).
pub const CAPTURE_RADIUS_SQ: i128 = 20_000_000_000_000_000;

/// Relocation half-width per axis, in micro-units (1000 units).
pub const RELOCATE_RANGE: i64 = 1_000_000_000;

/// A vehicle captures a light when their squared distance is below the
/// capture radius.
pub open spec fn captured_by(l: Light, v: Vehicle) -> bool {
    dist_sq(
        l.position.x as int,
        l.position.y as int,
        v.position.x as int,
        v.position.y as int,
    ) < CAPTURE_RADIUS_SQ
}

/// Index of the first vehicle at or after `k` that captures `l`, or the
/// collection's length when none does.
pub open spec fn first_capturer_from(l: Light, vs: Seq<Vehicle>, k: int) -> int
    decreases vs.len() - k,
{
    if k < 0 || k >= vs.len() {
        vs.len() as int
    } else if captured_by(l, vs[k]) {
        k
    } else {
        first_capturer_from(l, vs, k + 1)
    }
}

/// Index of the first vehicle in iteration order that captures `l`, or the
/// collection's length when none does.
pub open spec fn first_capturer(l: Light, vs: Seq<Vehicle>) -> int {
    first_capturer_from(l, vs, 0)
}

/// Whether some vehicle captures `l`.
pub open spec fn captured(l: Light, vs: Seq<Vehicle>) -> bool {
    first_capturer(l, vs) < vs.len()
}

/// `nl` is `ol` relocated near `anchor`: intensity and tag unchanged, new
/// position inside the relocation box centered on the anchor's position.
pub open spec fn relocated_near(nl: Light, ol: Light, anchor: Vehicle) -> bool {
    &&& nl.intensity == ol.intensity
    &&& nl.tag == ol.tag
    &&& anchor.position.x - RELOCATE_RANGE <= nl.position.x <= anchor.position.x + RELOCATE_RANGE
    &&& anchor.position.y - RELOCATE_RANGE <= nl.position.y <= anchor.position.y + RELOCATE_RANGE
}

/// Relies on rand's `thread_rng` and `Rng::gen_range`: a sample uniform over
/// the given closed range, which is never empty here, so the call cannot
/// panic. Nothing more is assumed of the value.
#[verifier::external_body]
fn random_relocation_offset() -> (r: i64)
    ensures
        -RELOCATE_RANGE <= r <= RELOCATE_RANGE,
{
    rand::Rng::gen_range(&mut rand::thread_rng(), -RELOCATE_RANGE..=RELOCATE_RANGE)
}

/// Index of the first vehicle that captures `l`, or the vehicle count.
fn find_first_capturer(l: &Light, vehicles: &[Vehicle]) -> (idx: usize)
    requires
        l.wf(),
        vehicles_wf(vehicles@),
    ensures
        idx as int == first_capturer(*l, vehicles@),
{
    let n: usize = vehicles.len();
    let mut j: usize = 0;
    while j < n
        invariant
            0 <= j <= n,
            n == vehicles@.len(),
            l.wf(),
            vehicles_wf(vehicles@),
            first_capturer(*l, vehicles@) == first_capturer_from(*l, vehicles@, j as int),
        decreases n - j,
    {
        let v: Vehicle = *vstd::slice::slice_index_get(vehicles, j);
        proof {
            assert(vehicles@[j as int].wf());
        }
        let d2: i128 = distance_squared(l.position, v.position);
        if d2 < CAPTURE_RADIUS_SQ {
            return j;
        }
        j = j + 1;
    }
    n
}

/// One replenishment pass: every light from index `skip` on that some vehicle
/// has captured is moved to a uniformly random spot in the relocation box
/// around its first capturer; every other light is untouched.
pub fn replace_lights_on_collision(lights: &mut Vec<Light>, vehicles: &[Vehicle], skip: usize)
    requires
        lights_wf(old(lights)@),
        vehicles_wf(vehicles@),
    ensures
        final(lights)@.len() == old(lights)@.len(),
        lights_wf(final(lights)@),
        forall|k: int|
            0 <= k < old(lights)@.len() && k < skip ==> final(lights)@[k] == old(lights)@[k],
        forall|k: int|
            skip <= k < old(lights)@.len() && !captured(old(lights)@[k], vehicles@)
                ==> final(lights)@[k] == old(lights)@[k],
        forall|k: int|
            skip <= k < old(lights)@.len() && captured(old(lights)@[k], vehicles@)
                ==> relocated_near(
                final(lights)@[k],
                old(lights)@[k],
                vehicles@[first_capturer(old(lights)@[k], vehicles@)],
            ),
{
    let n: usize = lights.len();
    let start: usize = if skip > n {
        n
    } else {
        skip
    };
    let mut i: usize = start;
    while i < n
        invariant
            start <= i <= n,
            start == (if skip > n {
                n as int
            } else {
                skip as int
            }),
            n == lights@.len(),
            lights@.len() == old(lights)@.len(),
            lights_wf(lights@),
            vehicles_wf(vehicles@),
            forall|k: int| 0 <= k < n && k < start ==> lights@[k] == old(lights)@[k],
            forall|k: int| i <= k < n ==> lights@[k] == old(lights)@[k],
            forall|k: int|
                start <= k < i && !captured(old(lights)@[k], vehicles@)
                    ==> lights@[k] == old(lights)@[k],
            forall|k: int|
                start <= k < i && captured(old(lights)@[k], vehicles@)
                    ==> relocated_near(
                    lights@[k],
                    old(lights)@[k],
                    vehicles@[first_capturer(old(lights)@[k], vehicles@)],
                ),
        decreases n - i,
    {
        let l: Light = lights[i];
        let j: usize = find_first_capturer(&l, vehicles);
        if j < vehicles.len() {
            let v: Vehicle = *vstd::slice::slice_index_get(vehicles, j);
            proof {
                assert(vehicles@[j as int].wf());
            }
            let ox: i64 = random_relocation_offset();
            let oy: i64 = random_relocation_offset();
            let nl: Light = Light {
                position: Point { x: v.position.x + ox, y: v.position.y + oy },
                tag: l.tag,
                intensity: l.intensity,
            };
            proof {
                assert(lights@[i as int].wf());
                assert(nl.wf());
            }
            let ghost pre = lights@;
            lights.set(i, nl);
            proof {
                assert forall|k: int| 0 <= k < lights@.len() implies #[trigger] lights@[k].wf()
                by {
                    if k != i as int {
                        assert(lights@[k] == pre[k]);
                        assert(pre[k].wf());
                    }
                }
            }
        }
        i = i + 1;
    }
}

} // verus!
