use crate::animator::{animate_fits, animate_in_range, animate_spec, Animator};
use crate::collider::{
    collide_in_range, collider_fits, contact_spec, glow_spec, resolved_of, Collider,
};
use crate::components::{
    CollisionData, InputSet, MovementStats, PhysicsData, PlayerState, Sprite,
};
use crate::input_buffer::InputBuffer;
use crate::keyboard::{keyboard_fits, keyboard_spec, steer_in_range, Keyboard};
use crate::physics::{integrate_fits, integrate_in_range, integrate_spec, Physics};
use crate::player_animator::{project_spec, PlayerAnimator};
use vstd::prelude::*;

verus! {

/// What a keyboard-driven body has beyond its physics, collision and sprite.
#[derive(Clone, Copy, Debug, PartialEq, Eq, Structural)]
pub struct Pilot {
    pub stats: MovementStats,
    pub state: PlayerState,
}

/// All bodies of a game; entry `i` of each vector belongs to body `i`.
pub struct World {
    pub physics: Vec<PhysicsData>,
    pub collisions: Vec<CollisionData>,
    pub sprites: Vec<Sprite>,
    pub pilots: Vec<Option<Pilot>>,
}

/// The contents of a `World`.
pub struct WorldState {
    pub physics: Seq<PhysicsData>,
    pub collisions: Seq<CollisionData>,
    pub sprites: Seq<Sprite>,
    pub pilots: Seq<Option<Pilot>>,
}

impl View for World {
    type V = WorldState;

    open spec fn view(&self) -> WorldState {
        WorldState {
            physics: self.physics@,
            collisions: self.collisions@,
            sprites: self.sprites@,
            pilots: self.pilots@,
        }
    }
}

/// Every body has one entry in each vector.
pub open spec fn world_wf(w: WorldState) -> bool {
    &&& w.collisions.len() == w.physics.len()
    &&& w.sprites.len() == w.physics.len()
    &&& w.pilots.len() == w.physics.len()
}

/// The state machine stage: each piloted body steered by the input history.
pub open spec fn steer_spec(w: WorldState, h: Seq<InputSet>) -> WorldState {
    WorldState {
        physics: Seq::new(
            w.physics.len(),
            |i: int|
                match w.pilots[i] {
                    Some(pl) => keyboard_spec(w.physics[i], pl.stats, pl.state, h).0,
                    None => w.physics[i],
                },
        ),
        pilots: Seq::new(
            w.pilots.len(),
            |i: int|
                match w.pilots[i] {
                    Some(pl) => Some(
                        Pilot { state: keyboard_spec(w.physics[i], pl.stats, pl.state, h).1, ..pl },
                    ),
                    None => None,
                },
        ),
        ..w
    }
}

/// The collision stage.
pub open spec fn collide_spec(w: WorldState) -> WorldState {
    WorldState {
        physics: Seq::new(w.physics.len(), |i: int| resolved_of(w.physics, w.collisions, i)),
        collisions: Seq::new(w.collisions.len(), |i: int| contact_spec(w.physics, w.collisions, i)),
        sprites: Seq::new(
            w.sprites.len(),
            |i: int| glow_spec(w.physics, w.collisions, w.sprites, i),
        ),
        ..w
    }
}

/// The integration stage.
pub open spec fn integrate_all(w: WorldState) -> WorldState {
    WorldState {
        physics: Seq::new(w.physics.len(), |i: int| integrate_spec(w.physics[i])),
        ..w
    }
}

/// The presentation stage: piloted sprites follow their state, then every
/// sprite's animation steps.
pub open spec fn present_spec(w: WorldState) -> WorldState {
    WorldState {
        sprites: Seq::new(
            w.sprites.len(),
            |i: int|
                match w.pilots[i] {
                    Some(pl) => animate_spec(project_spec(w.sprites[i], w.physics[i], pl.state)),
                    None => animate_spec(w.sprites[i]),
                },
        ),
        ..w
    }
}

/// One tick: state machine, collider, integrator, presentation, in that order.
pub open spec fn tick_spec(w: WorldState, h: Seq<InputSet>) -> WorldState {
    present_spec(integrate_all(collide_spec(steer_spec(w, h))))
}

/// The sprite of body `i` as the presentation stage hands it to the animator.
pub open spec fn projected(w: WorldState, i: int) -> Sprite {
    match w.pilots[i] {
        Some(pl) => project_spec(w.sprites[i], w.physics[i], pl.state),
        None => w.sprites[i],
    }
}

/// Every piloted body can run one state-machine tick.
pub open spec fn pilots_fit(w: WorldState) -> bool {
    forall|i: int|
        0 <= i < w.physics.len() && (#[trigger] w.pilots[i]).is_some() ==> keyboard_fits(
            w.physics[i],
            w.pilots[i].unwrap().stats,
            w.pilots[i].unwrap().state,
        )
}

/// Every stage of one tick stays within its fixed-point and integer ranges.
pub open spec fn tick_fits(w: WorldState, h: Seq<InputSet>) -> bool {
    let s1 = steer_spec(w, h);
    let s2 = collide_spec(s1);
    let s3 = integrate_all(s2);
    &&& world_wf(w)
    &&& h.len() >= 4
    &&& pilots_fit(w)
    &&& collider_fits(s1.physics, s1.collisions)
    &&& forall|i: int| 0 <= i < w.physics.len() ==> integrate_fits(#[trigger] s2.physics[i])
    &&& forall|i: int| 0 <= i < w.physics.len() ==> animate_fits(#[trigger] projected(s3, i))
}

/// States after each tick, fed the given input histories in turn.
pub open spec fn run_spec(w: WorldState, hs: Seq<Seq<InputSet>>) -> WorldState
    decreases hs.len(),
{
    if hs.len() == 0 {
        w
    } else {
        tick_spec(run_spec(w, hs.drop_last()), hs.last())
    }
}

/// Determinism: from equal starting states, fed equal input histories, two runs
/// are in equal states after every tick.
pub proof fn lemma_deterministic(a: WorldState, b: WorldState, hs: Seq<Seq<InputSet>>)
    requires
        a == b,
    ensures
        forall|k: int| 0 <= k <= hs.len() ==> #[trigger] run_spec(a, hs.take(k)) == run_spec(b, hs.take(k)),
{
}

/// A copy of `v`.
fn copy_vec<T: Copy>(v: &Vec<T>) -> (r: Vec<T>)
    ensures
        r@ == v@,
{
    let mut r: Vec<T> = Vec::new();
    let mut i: usize = 0;
    while i < v.len()
        invariant
            i <= v@.len(),
            r@ == v@.subrange(0, i as int),
        decreases v@.len() - i,
    {
        r.push(v[i]);
        i = i + 1;
        assert(r@ =~= v@.subrange(0, i as int));
    }
    assert(r@ =~= v@);
    r
}

impl World {
    /// A world without bodies.
    pub fn new() -> (r: World)
        ensures
            r@.physics.len() == 0,
            world_wf(r@),
    {
        World { physics: Vec::new(), collisions: Vec::new(), sprites: Vec::new(), pilots: Vec::new() }
    }

    /// Adds a body; it is the last one.
    pub fn add_body(
        &mut self,
        physics: PhysicsData,
        collision: CollisionData,
        sprite: Sprite,
        pilot: Option<Pilot>,
    )
        requires
            world_wf(old(self)@),
        ensures
            world_wf(final(self)@),
            final(self)@.physics == old(self)@.physics.push(physics),
            final(self)@.collisions == old(self)@.collisions.push(collision),
            final(self)@.sprites == old(self)@.sprites.push(sprite),
            final(self)@.pilots == old(self)@.pilots.push(pilot),
    {
        self.physics.push(physics);
        self.collisions.push(collision);
        self.sprites.push(sprite);
        self.pilots.push(pilot);
    }

    fn steer(&mut self, h: &Vec<InputSet>)
        requires
            world_wf(old(self)@),
            h@.len() >= 4,
            pilots_fit(old(self)@),
        ensures
            final(self)@ == steer_spec(old(self)@, h@),
    {
        let ghost w = self@;
        let n = self.physics.len();
        let mut i: usize = 0;
        while i < n
            invariant
                world_wf(w),
                h@.len() >= 4,
                pilots_fit(w),
                n == w.physics.len(),
                i <= n,
                self.physics@.len() == n,
                self.pilots@.len() == n,
                self.collisions@ == w.collisions,
                self.sprites@ == w.sprites,
                forall|j: int| i <= j < n ==> #[trigger] self.physics@[j] == w.physics[j],
                forall|j: int| i <= j < n ==> #[trigger] self.pilots@[j] == w.pilots[j],
                forall|j: int| 0 <= j < i ==> #[trigger] self.physics@[j] == steer_spec(w, h@).physics[j],
                forall|j: int| 0 <= j < i ==> #[trigger] self.pilots@[j] == steer_spec(w, h@).pilots[j],
            decreases n - i,
        {
            if let Some(pl) = self.pilots[i] {
                assert(w.pilots[i as int].is_some());
                let mut p = self.physics[i];
                let mut st = pl.state;
                Keyboard.run(&mut p, &pl.stats, &mut st, h);
                self.physics.set(i, p);
                self.pilots.set(i, Some(Pilot { state: st, ..pl }));
            }
            i = i + 1;
        }
        assert(self@.physics =~= steer_spec(w, h@).physics);
        assert(self@.pilots =~= steer_spec(w, h@).pilots);
    }

    fn integrate(&mut self)
        requires
            world_wf(old(self)@),
            forall|i: int| 0 <= i < old(self)@.physics.len() ==> integrate_fits(#[trigger] old(self)@.physics[i]),
        ensures
            final(self)@ == integrate_all(old(self)@),
    {
        let ghost w = self@;
        let n = self.physics.len();
        let mut i: usize = 0;
        while i < n
            invariant
                forall|j: int| 0 <= j < w.physics.len() ==> integrate_fits(#[trigger] w.physics[j]),
                n == w.physics.len(),
                i <= n,
                self.physics@.len() == n,
                self.collisions@ == w.collisions,
                self.sprites@ == w.sprites,
                self.pilots@ == w.pilots,
                forall|j: int| i <= j < n ==> #[trigger] self.physics@[j] == w.physics[j],
                forall|j: int| 0 <= j < i ==> #[trigger] self.physics@[j] == integrate_spec(w.physics[j]),
            decreases n - i,
        {
            let mut p = self.physics[i];
            Physics.run(&mut p);
            self.physics.set(i, p);
            i = i + 1;
        }
        assert(self@.physics =~= integrate_all(w).physics);
    }

    fn present(&mut self)
        requires
            world_wf(old(self)@),
            forall|i: int| 0 <= i < old(self)@.physics.len() ==> animate_fits(#[trigger] projected(old(self)@, i)),
        ensures
            final(self)@ == present_spec(old(self)@),
    {
        let ghost w = self@;
        let n = self.sprites.len();
        let mut i: usize = 0;
        while i < n
            invariant
                world_wf(w),
                forall|j: int| 0 <= j < w.physics.len() ==> animate_fits(#[trigger] projected(w, j)),
                n == w.physics.len(),
                i <= n,
                self.sprites@.len() == n,
                self.physics@ == w.physics,
                self.collisions@ == w.collisions,
                self.pilots@ == w.pilots,
                forall|j: int| i <= j < n ==> #[trigger] self.sprites@[j] == w.sprites[j],
                forall|j: int| 0 <= j < i ==> #[trigger] self.sprites@[j] == present_spec(w).sprites[j],
            decreases n - i,
        {
            let mut sp = self.sprites[i];
            if let Some(pl) = self.pilots[i] {
                PlayerAnimator.run(&mut sp, &self.physics[i], &pl.state);
            }
            assert(sp == projected(w, i as int));
            Animator.run(&mut sp);
            self.sprites.set(i, sp);
            i = i + 1;
        }
        assert(self@.sprites =~= present_spec(w).sprites);
    }

    /// Runs one tick on the input history held by `inputs` where every stage
    /// stays in range, and tells whether it did; otherwise the world is left as
    /// it was.
    pub fn try_tick(&mut self, inputs: &InputBuffer) -> (r: bool)
        ensures
            r == (inputs.wf() && tick_fits(old(self)@, inputs@)),
            r ==> final(self)@ == tick_spec(old(self)@, inputs@),
            !r ==> final(self)@ == old(self)@,
    {
        if !inputs.is_wf() {
            return false;
        }
        let ghost w0 = self@;
        let h = inputs.get_all();
        proof {
            inputs.lemma_view_len();
        }
        let n = self.physics.len();
        if self.collisions.len() != n || self.sprites.len() != n || self.pilots.len() != n {
            return false;
        }
        let mut i: usize = 0;
        while i < n
            invariant
                self@ == w0,
                old(self)@ == w0,
                inputs.wf(),
                world_wf(w0),
                n == w0.physics.len(),
                i <= n,
                forall|j: int|
                    0 <= j < i && (#[trigger] w0.pilots[j]).is_some() ==> keyboard_fits(
                        w0.physics[j],
                        w0.pilots[j].unwrap().stats,
                        w0.pilots[j].unwrap().state,
                    ),
            decreases n - i,
        {
            if let Some(pl) = self.pilots[i] {
                if !steer_in_range(&self.physics[i], &pl.stats, &pl.state) {
                    assert(w0.pilots[i as int].is_some());
                    return false;
                }
            }
            i = i + 1;
        }
        let mut w = World {
            physics: copy_vec(&self.physics),
            collisions: copy_vec(&self.collisions),
            sprites: copy_vec(&self.sprites),
            pilots: copy_vec(&self.pilots),
        };
        w.steer(&h);
        let ghost s1 = w@;
        if !collide_in_range(&w.physics, &w.collisions) {
            return false;
        }
        Collider.run(&mut w.physics, &mut w.collisions, &mut w.sprites);
        proof {
            assert(w@.physics =~= collide_spec(s1).physics);
            assert(w@.collisions =~= collide_spec(s1).collisions);
            assert(w@.sprites =~= collide_spec(s1).sprites);
            assert(w@ == collide_spec(s1));
        }
        let ghost s2 = w@;
        assert(s1 == steer_spec(w0, inputs@));
        assert(s2 == collide_spec(steer_spec(w0, inputs@)));
        let mut i: usize = 0;
        while i < n
            invariant
                w@ == s2,
                s2 == collide_spec(steer_spec(w0, inputs@)),
                old(self)@ == w0,
                inputs.wf(),
                n == s2.physics.len(),
                i <= n,
                forall|j: int| 0 <= j < i ==> integrate_fits(#[trigger] s2.physics[j]),
            decreases n - i,
        {
            if !integrate_in_range(&w.physics[i]) {
                assert(!tick_fits(w0, inputs@));
                return false;
            }
            i = i + 1;
        }
        w.integrate();
        let ghost s3 = w@;
        assert(s3 == integrate_all(collide_spec(steer_spec(w0, inputs@))));
        let mut i: usize = 0;
        while i < n
            invariant
                w@ == s3,
                s3 == integrate_all(collide_spec(steer_spec(w0, inputs@))),
                old(self)@ == w0,
                inputs.wf(),
                world_wf(s3),
                n == s3.physics.len(),
                i <= n,
                forall|j: int| 0 <= j < i ==> animate_fits(#[trigger] projected(s3, j)),
            decreases n - i,
        {
            let mut sp = w.sprites[i];
            if let Some(pl) = w.pilots[i] {
                PlayerAnimator.run(&mut sp, &w.physics[i], &pl.state);
            }
            if !animate_in_range(&sp) {
                assert(sp == projected(s3, i as int));
                return false;
            }
            assert(sp == projected(s3, i as int));
            i = i + 1;
        }
        w.present();
        *self = w;
        true
    }

    /// Runs one tick on the input history held by `inputs`.
    pub fn tick(&mut self, inputs: &InputBuffer)
        requires
            inputs.wf(),
            tick_fits(old(self)@, inputs@),
        ensures
            final(self)@ == tick_spec(old(self)@, inputs@),
    {
        let h = inputs.get_all();
        self.steer(&h);
        let ghost w1 = self@;
        Collider.run(&mut self.physics, &mut self.collisions, &mut self.sprites);
        proof {
            assert(self@.physics =~= collide_spec(w1).physics);
            assert(self@.collisions =~= collide_spec(w1).collisions);
            assert(self@.sprites =~= collide_spec(w1).sprites);
        }
        self.integrate();
        self.present();
    }
}

} // verus!
