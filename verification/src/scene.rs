//! Scenes: the named scene selection, and the owned simulation state (the
//! vehicle and light collections) with the two-phase tick that drives it.

use vstd::prelude::*;

verus! {

use crate::light::{Light, lights_wf};
use crate::replenish::{captured, first_capturer, relocated_near, replace_lights_on_collision};
use crate::vehicle::{stepped, vehicles_wf, Vehicle, DT_MAX};

/// The selectable scenes.
#[derive(PartialEq, Eq, Clone, Copy, Structural, Debug)]
pub enum Scenes {
    Scene1,
    Scene2,
    Scene3,
    Scene4,
    Scene5,
    Scene6,
}

impl Scenes {
    /// The scene's display name.
    pub fn to_str(&self) -> (r: &str)
        ensures
            *self is Scene1 ==> r@ == "Scene 1"@,
            *self is Scene2 ==> r@ == "Scene 2"@,
            *self is Scene3 ==> r@ == "Scene 3"@,
            *self is Scene4 ==> r@ == "Scene 4"@,
            *self is Scene5 ==> r@ == "Scene 5"@,
            *self is Scene6 ==> r@ == "Scene 6"@,
    {
        match self {
            Scenes::Scene1 => "Scene 1",
            Scenes::Scene2 => "Scene 2",
            Scenes::Scene3 => "Scene 3",
            Scenes::Scene4 => "Scene 4",
            Scenes::Scene5 => "Scene 5",
            Scenes::Scene6 => "Scene 6",
        }
    }
}

/// The simulation state a loaded scene owns: the ordered vehicle and light
/// collections. The core mutates both once per tick; presentation reads them.
pub struct Scene {
    pub vehicles: Vec<Vehicle>,
    pub lights: Vec<Light>,
}

/// The two-phase tick relation on scene contents: every vehicle has taken one
/// step against the pre-tick lights from index `sense_skip` on, and the
/// lights from index `relocate_skip` on have then been replenished against
/// the post-tick vehicle positions — captured ones relocated into the box
/// around their first capturer, all others untouched. The two counts differ
/// when a pointer-tracked light participates in one phase but not the other.
pub open spec fn ticked(
    pre_v: Seq<Vehicle>,
    pre_l: Seq<Light>,
    post_v: Seq<Vehicle>,
    post_l: Seq<Light>,
    dt: int,
    sense_skip: int,
    relocate_skip: int,
) -> bool {
    &&& post_v.len() == pre_v.len()
    &&& post_l.len() == pre_l.len()
    &&& forall|i: int|
        0 <= i < pre_v.len() ==> stepped(pre_v[i], post_v[i], pre_l.skip(sense_skip), dt)
    &&& forall|k: int| 0 <= k < pre_l.len() && k < relocate_skip ==> post_l[k] == pre_l[k]
    &&& forall|k: int|
        relocate_skip <= k < pre_l.len() && !captured(pre_l[k], post_v) ==> post_l[k]
            == pre_l[k]
    &&& forall|k: int|
        relocate_skip <= k < pre_l.len() && captured(pre_l[k], post_v) ==> relocated_near(
            post_l[k],
            pre_l[k],
            post_v[first_capturer(pre_l[k], post_v)],
        )
}

/// `steps` tick relations chained: some sequence of intermediate states links
/// the pre-contents to the post-contents, one tick each.
pub open spec fn advanced(
    pre_v: Seq<Vehicle>,
    pre_l: Seq<Light>,
    post_v: Seq<Vehicle>,
    post_l: Seq<Light>,
    steps: int,
    dt: int,
    sense_skip: int,
    relocate_skip: int,
) -> bool
    decreases steps,
{
    if steps <= 0 {
        post_v == pre_v && post_l == pre_l
    } else {
        exists|mid_v: Seq<Vehicle>, mid_l: Seq<Light>|
            #[trigger] ticked(pre_v, pre_l, mid_v, mid_l, dt, sense_skip, relocate_skip)
                && advanced(
                mid_v,
                mid_l,
                post_v,
                post_l,
                steps - 1,
                dt,
                sense_skip,
                relocate_skip,
            )
    }
}

/// A chain of ticks followed by one more tick is a chain one longer.
proof fn lemma_advanced_extend(
    pre_v: Seq<Vehicle>,
    pre_l: Seq<Light>,
    mid_v: Seq<Vehicle>,
    mid_l: Seq<Light>,
    post_v: Seq<Vehicle>,
    post_l: Seq<Light>,
    steps: int,
    dt: int,
    sense_skip: int,
    relocate_skip: int,
)
    requires
        steps >= 0,
        advanced(pre_v, pre_l, mid_v, mid_l, steps, dt, sense_skip, relocate_skip),
        ticked(mid_v, mid_l, post_v, post_l, dt, sense_skip, relocate_skip),
    ensures
        advanced(pre_v, pre_l, post_v, post_l, steps + 1, dt, sense_skip, relocate_skip),
    decreases steps,
{
    if steps == 0 {
        assert(ticked(pre_v, pre_l, post_v, post_l, dt, sense_skip, relocate_skip));
        assert(advanced(post_v, post_l, post_v, post_l, 0, dt, sense_skip, relocate_skip));
    } else {
        let (m_v, m_l): (Seq<Vehicle>, Seq<Light>) = choose|m_v: Seq<Vehicle>, m_l: Seq<Light>|
            #[trigger] ticked(pre_v, pre_l, m_v, m_l, dt, sense_skip, relocate_skip)
                && advanced(
                m_v,
                m_l,
                mid_v,
                mid_l,
                steps - 1,
                dt,
                sense_skip,
                relocate_skip,
            );
        lemma_advanced_extend(m_v, m_l, mid_v, mid_l, post_v, post_l, steps - 1, dt,
            sense_skip, relocate_skip);
        assert(ticked(pre_v, pre_l, m_v, m_l, dt, sense_skip, relocate_skip) && advanced(
            m_v,
            m_l,
            post_v,
            post_l,
            steps,
            dt,
            sense_skip,
            relocate_skip,
        ));
    }
}

impl Scene {
    /// A well-formed scene: every vehicle and every light is well-formed.
    pub open spec fn wf(self) -> bool {
        &&& vehicles_wf(self.vehicles@)
        &&& lights_wf(self.lights@)
    }

    /// One simulation tick. Phase one: every vehicle, in order, senses the
    /// lights from index `sense_skip` on and steers; each reads only its own
    /// state, so the phase is order-independent. Phase two: the replenishment
    /// policy relocates captured lights, from index `relocate_skip` on,
    /// against the new vehicle positions. The two counts differ when a
    /// pointer-tracked light takes part in only one of the phases.
    pub fn tick(&mut self, delta: i64, sense_skip: usize, relocate_skip: usize)
        requires
            old(self).wf(),
            0 <= delta <= DT_MAX,
            sense_skip <= old(self).lights@.len(),
        ensures
            final(self).wf(),
            final(self).vehicles@.len() == old(self).vehicles@.len(),
            final(self).lights@.len() == old(self).lights@.len(),
            ticked(
                old(self).vehicles@,
                old(self).lights@,
                final(self).vehicles@,
                final(self).lights@,
                delta as int,
                sense_skip as int,
                relocate_skip as int,
            ),
    {
        let n: usize = self.vehicles.len();
        let mut idx: usize = 0;
        while idx < n
            invariant
                0 <= idx <= n,
                n == self.vehicles@.len(),
                self.vehicles@.len() == old(self).vehicles@.len(),
                self.lights@ == old(self).lights@,
                lights_wf(self.lights@),
                vehicles_wf(old(self).vehicles@),
                sense_skip <= self.lights@.len(),
                0 <= delta <= DT_MAX,
                forall|i: int| idx <= i < n ==> self.vehicles@[i] == old(self).vehicles@[i],
                forall|i: int|
                    0 <= i < idx ==> stepped(
                        old(self).vehicles@[i],
                        #[trigger] self.vehicles@[i],
                        old(self).lights@.skip(sense_skip as int),
                        delta as int,
                    ) && self.vehicles@[i].wf(),
            decreases n - idx,
        {
            let mut v: Vehicle = self.vehicles[idx];
            proof {
                assert(old(self).vehicles@[idx as int].wf());
            }
            let len: usize = self.lights.len();
            let active: &[Light] = vstd::slice::slice_subrange(
                self.lights.as_slice(),
                sense_skip,
                len,
            );
            proof {
                assert forall|k: int| 0 <= k < active@.len() implies #[trigger] active@[k].wf()
                by {
                    assert(active@[k] == self.lights@[sense_skip + k]);
                    assert(self.lights@[sense_skip + k].wf());
                }
            }
            v.update(active, delta);
            self.vehicles.set(idx, v);
            idx = idx + 1;
        }
        proof {
            assert forall|i: int| 0 <= i < self.vehicles@.len() implies #[trigger] self
                .vehicles@[i].wf() by {}
        }
        replace_lights_on_collision(&mut self.lights, self.vehicles.as_slice(), relocate_skip);
    }

    /// Several ticks back to back with no intermediate observation: the
    /// simulation-speed multiplier of the host's frame loop.
    pub fn advance(&mut self, steps: u32, delta: i64, sense_skip: usize, relocate_skip: usize)
        requires
            old(self).wf(),
            0 <= delta <= DT_MAX,
            sense_skip <= old(self).lights@.len(),
        ensures
            final(self).wf(),
            final(self).vehicles@.len() == old(self).vehicles@.len(),
            final(self).lights@.len() == old(self).lights@.len(),
            advanced(
                old(self).vehicles@,
                old(self).lights@,
                final(self).vehicles@,
                final(self).lights@,
                steps as int,
                delta as int,
                sense_skip as int,
                relocate_skip as int,
            ),
    {
        let mut s: u32 = 0;
        while s < steps
            invariant
                0 <= s <= steps,
                self.wf(),
                self.vehicles@.len() == old(self).vehicles@.len(),
                self.lights@.len() == old(self).lights@.len(),
                sense_skip <= self.lights@.len(),
                0 <= delta <= DT_MAX,
                advanced(
                    old(self).vehicles@,
                    old(self).lights@,
                    self.vehicles@,
                    self.lights@,
                    s as int,
                    delta as int,
                    sense_skip as int,
                    relocate_skip as int,
                ),
            decreases steps - s,
        {
            let ghost mid_v = self.vehicles@;
            let ghost mid_l = self.lights@;
            self.tick(delta, sense_skip, relocate_skip);
            proof {
                lemma_advanced_extend(
                    old(self).vehicles@,
                    old(self).lights@,
                    mid_v,
                    mid_l,
                    self.vehicles@,
                    self.lights@,
                    s as int,
                    delta as int,
                    sense_skip as int,
                    relocate_skip as int,
                );
            }
            s = s + 1;
        }
    }
}

} // verus!
