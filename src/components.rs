use crate::fi32::{fits, mul_spec, sq_len, Fi32, PointFi32};
use vstd::prelude::*;
use vstd::std_specs::convert::FromSpecImpl;

verus! {

/// Number of input sets an `InputBuffer` keeps.
pub const COMMAND_BUFFER_SIZE: usize = 10;

/// Number of ticks an attack lasts.
pub const ATTACK_TOTAL_FRAMES: u32 = 18;

#[derive(Clone, Copy, Debug, PartialEq, Eq, Structural, Hash)]
pub enum Direction {
    Right,
    Left,
}

impl From<Direction> for bool {
    /// Whether a sprite facing this way is drawn mirrored.
    fn from(direction: Direction) -> bool {
        match direction {
            Direction::Left => true,
            Direction::Right => false,
        }
    }
}

impl FromSpecImpl<Direction> for bool {
    open spec fn obeys_from_spec() -> bool {
        true
    }

    open spec fn from_spec(v: Direction) -> bool {
        v == Direction::Left
    }
}

#[derive(Clone, Copy, Debug, PartialEq, Eq, Structural, Hash)]
pub enum PlayerStatus {
    Idle,
    Running,
    Blocking,
    Jumping,
    Hitstun,
    Blockstun,
    Attacking,
}

/// The sprite sheet that shows a status.
pub open spec fn sheet_of(s: PlayerStatus) -> usize {
    match s {
        PlayerStatus::Idle => 0,
        PlayerStatus::Running => 1,
        PlayerStatus::Blocking => 2,
        PlayerStatus::Jumping => 3,
        PlayerStatus::Hitstun => 4,
        PlayerStatus::Blockstun => 5,
        PlayerStatus::Attacking => 6,
    }
}

impl From<PlayerStatus> for usize {
    /// The index of the sprite sheet that shows the status.
    fn from(player_status: PlayerStatus) -> usize {
        match player_status {
            PlayerStatus::Idle => 0,
            PlayerStatus::Running => 1,
            PlayerStatus::Blocking => 2,
            PlayerStatus::Jumping => 3,
            PlayerStatus::Hitstun => 4,
            PlayerStatus::Blockstun => 5,
            PlayerStatus::Attacking => 6,
        }
    }
}

impl FromSpecImpl<PlayerStatus> for usize {
    open spec fn obeys_from_spec() -> bool {
        true
    }

    open spec fn from_spec(v: PlayerStatus) -> usize {
        sheet_of(v)
    }
}

#[derive(Clone, Copy, Debug, PartialEq, Eq, Structural, Hash)]
pub enum Input {
    Move(Direction),
    Jump,
    Crouch,
    Attack,
    Quit,
}

/// The set of inputs held during one tick.
#[derive(Clone, Copy, Debug, PartialEq, Eq, Structural, Hash)]
pub struct InputSet {
    pub move_left: bool,
    pub move_right: bool,
    pub jump: bool,
    pub crouch: bool,
    pub attack: bool,
    pub quit: bool,
}

impl InputSet {
    pub open spec fn has(self, i: Input) -> bool {
        match i {
            Input::Move(Direction::Left) => self.move_left,
            Input::Move(Direction::Right) => self.move_right,
            Input::Jump => self.jump,
            Input::Crouch => self.crouch,
            Input::Attack => self.attack,
            Input::Quit => self.quit,
        }
    }

    pub open spec fn empty_spec(self) -> bool {
        forall|i: Input| !#[trigger] self.has(i)
    }

    /// The set with nothing held.
    pub fn new() -> (r: InputSet)
        ensures
            r.empty_spec(),
    {
        InputSet {
            move_left: false,
            move_right: false,
            jump: false,
            crouch: false,
            attack: false,
            quit: false,
        }
    }

    pub fn contains(&self, i: Input) -> (r: bool)
        ensures
            r == self.has(i),
    {
        match i {
            Input::Move(Direction::Left) => self.move_left,
            Input::Move(Direction::Right) => self.move_right,
            Input::Jump => self.jump,
            Input::Crouch => self.crouch,
            Input::Attack => self.attack,
            Input::Quit => self.quit,
        }
    }

    pub fn is_empty(&self) -> (r: bool)
        ensures
            r == self.empty_spec(),
    {
        let r = !(self.move_left || self.move_right || self.jump || self.crouch || self.attack
            || self.quit);
        proof {
            if !r {
                if self.move_left {
                    assert(self.has(Input::Move(Direction::Left)));
                } else if self.move_right {
                    assert(self.has(Input::Move(Direction::Right)));
                } else if self.jump {
                    assert(self.has(Input::Jump));
                } else if self.crouch {
                    assert(self.has(Input::Crouch));
                } else if self.attack {
                    assert(self.has(Input::Attack));
                } else {
                    assert(self.has(Input::Quit));
                }
            }
        }
        r
    }

    pub fn insert(&mut self, i: Input)
        ensures
            forall|j: Input| #[trigger] final(self).has(j) == (j == i || old(self).has(j)),
    {
        match i {
            Input::Move(Direction::Left) => self.move_left = true,
            Input::Move(Direction::Right) => self.move_right = true,
            Input::Jump => self.jump = true,
            Input::Crouch => self.crouch = true,
            Input::Attack => self.attack = true,
            Input::Quit => self.quit = true,
        }
    }

    pub fn remove(&mut self, i: Input)
        ensures
            forall|j: Input| #[trigger] final(self).has(j) == (j != i && old(self).has(j)),
    {
        match i {
            Input::Move(Direction::Left) => self.move_left = false,
            Input::Move(Direction::Right) => self.move_right = false,
            Input::Jump => self.jump = false,
            Input::Crouch => self.crouch = false,
            Input::Attack => self.attack = false,
            Input::Quit => self.quit = false,
        }
    }

    /// The set after resolving opposed presses: left with right is neither,
    /// and crouch with jump is jump alone.
    pub open spec fn resolved_spec(self) -> InputSet {
        let both_ways = self.move_left && self.move_right;
        InputSet {
            move_left: self.move_left && !both_ways,
            move_right: self.move_right && !both_ways,
            crouch: self.crouch && !self.jump,
            ..self
        }
    }

    /// Resolves simultaneous opposite directions to neutral and crouch with
    /// jump to jump alone.
    pub fn resolve_conflicts(self) -> (r: InputSet)
        ensures
            r == self.resolved_spec(),
    {
        let mut r = self;
        if r.contains(Input::Move(Direction::Left)) && r.contains(Input::Move(Direction::Right)) {
            r.remove(Input::Move(Direction::Left));
            r.remove(Input::Move(Direction::Right));
        }
        if r.contains(Input::Crouch) && r.contains(Input::Jump) {
            r.remove(Input::Crouch);
        }
        proof {
            assert(r.has(Input::Move(Direction::Left)) == self.resolved_spec().has(
                Input::Move(Direction::Left),
            ));
            assert(r.has(Input::Move(Direction::Right)) == self.resolved_spec().has(
                Input::Move(Direction::Right),
            ));
            assert(r.has(Input::Jump) == self.resolved_spec().has(Input::Jump));
            assert(r.has(Input::Crouch) == self.resolved_spec().has(Input::Crouch));
            assert(r.has(Input::Attack) == self.resolved_spec().has(Input::Attack));
            assert(r.has(Input::Quit) == self.resolved_spec().has(Input::Quit));
        }
        r
    }
}

impl Default for InputSet {
    fn default() -> (r: InputSet)
        ensures
            r.empty_spec(),
    {
        InputSet::new()
    }
}

/// Frames drawn during the last second.
#[derive(Clone, Copy, Debug)]
pub struct Framerate(pub u32);

impl Framerate {
    pub fn new(fps: u32) -> (r: Framerate)
        ensures
            r.0 == fps,
    {
        Framerate(fps)
    }

    pub fn get(&self) -> (r: u32)
        ensures
            r == self.0,
    {
        self.0
    }

    pub fn set(&mut self, fps: u32)
        ensures
            final(self).0 == fps,
    {
        self.0 = fps;
    }
}

impl Default for Framerate {
    fn default() -> (r: Framerate)
        ensures
            r.0 == 0,
    {
        Framerate(0)
    }
}

/// Where a body is, how fast it moves and how its speed changes this tick.
#[derive(Clone, Copy, Debug, PartialEq, Eq, Structural)]
pub struct PhysicsData {
    pub position: PointFi32,
    pub speed: PointFi32,
    pub acceleration: PointFi32,
}

/// Per-body movement constants.
#[derive(Clone, Copy, Debug, PartialEq, Eq, Structural)]
pub struct MovementStats {
    pub max_speed: Fi32,
    pub acceleration: Fi32,
    pub friction: Fi32,
    pub gravity: Fi32,
    pub jump_power: Fi32,
    pub superjump_power: Fi32,
    pub air_acceleration: Fi32,
    pub air_max_speed: Fi32,
}

/// The part of a sprite sheet on show.
#[derive(Clone, Copy, Debug, PartialEq, Eq, Structural)]
pub struct SpriteRect {
    pub x: i32,
    pub y: i32,
    pub width: u32,
    pub height: u32,
}

#[derive(Clone, Copy, Debug, PartialEq, Eq, Structural)]
pub struct Sprite {
    /// Index into the loaded sprite sheets.
    pub spritesheet: usize,
    pub current: SpriteRect,
    pub wrap: u32,
    pub flip: bool,
    pub counter: u32,
    pub animation_rate: u32,
    pub glow: bool,
}

/// Marks the body that the keyboard drives.
#[derive(Clone, Copy, Debug)]
pub struct Player1;

#[derive(Clone, Copy, Debug, PartialEq, Eq, Structural)]
pub struct PlayerState {
    pub status: PlayerStatus,
    pub facing: Direction,
    pub animation_counter: u32,
}

#[derive(Clone, Copy, Debug, PartialEq, Eq, Structural)]
pub enum CollisionMask {
    /// A circle: its center's offset from the body's position, and its radius.
    Circle(PointFi32, Fi32),
    Box,
}

impl Default for CollisionMask {
    fn default() -> (r: CollisionMask)
        ensures
            r == CollisionMask::Box,
    {
        CollisionMask::Box
    }
}

/// Whether a body touches another body this tick.
#[derive(Clone, Copy, Debug, PartialEq, Eq, Structural)]
pub struct CollisionStatus(pub bool);

impl Default for CollisionStatus {
    fn default() -> (r: CollisionStatus)
        ensures
            r.0 == false,
    {
        CollisionStatus(false)
    }
}

#[derive(Clone, Copy, Debug, PartialEq, Eq, Structural)]
pub struct CollisionData {
    pub mask: CollisionMask,
    pub status: CollisionStatus,
    pub repel_vector: PointFi32,
    pub repel_speed: Fi32,
}

/// Whether every fixed-point step of an overlap test stays in range.
pub open spec fn check_fits(m1: CollisionMask, p1: PointFi32, m2: CollisionMask, p2: PointFi32) -> bool {
    match (m1, m2) {
        (CollisionMask::Circle(c1, r1), CollisionMask::Circle(c2, r2)) => {
            let ax = p1.x@ + c1.x@;
            let ay = p1.y@ + c1.y@;
            let bx = p2.x@ + c2.x@;
            let by = p2.y@ + c2.y@;
            &&& fits(ax) && fits(ay) && fits(bx) && fits(by)
            &&& fits(ax - bx) && fits(ay - by)
            &&& fits(sq_len(ax - bx, ay - by))
            &&& fits(r1@ + r2@)
            &&& fits(mul_spec(r1@ + r2@, r1@ + r2@))
        },
        _ => true,
    }
}

/// Whether two masks at the given positions overlap: two circles overlap when
/// the squared distance of their centers is at most the square of the sum of
/// their radii, both computed in fixed point; a box overlaps nothing.
pub open spec fn overlaps(m1: CollisionMask, p1: PointFi32, m2: CollisionMask, p2: PointFi32) -> bool {
    match (m1, m2) {
        (CollisionMask::Circle(c1, r1), CollisionMask::Circle(c2, r2)) => {
            let dx = (p1.x@ + c1.x@) - (p2.x@ + c2.x@);
            let dy = (p1.y@ + c1.y@) - (p2.y@ + c2.y@);
            sq_len(dx, dy) <= mul_spec(r1@ + r2@, r1@ + r2@)
        },
        _ => false,
    }
}

impl CollisionMask {
    pub fn check(&self, position: PointFi32, other: &CollisionMask, other_position: PointFi32) -> (r:
        bool)
        requires
            check_fits(*self, position, *other, other_position),
        ensures
            r == overlaps(*self, position, *other, other_position),
    {
        if let CollisionMask::Circle(center, radius) = self {
            match other {
                CollisionMask::Circle(other_center, other_radius) => {
                    let adjusted_center = position.add(*center);
                    let adjusted_other_center = other_position.add(*other_center);
                    let d = adjusted_center.sub(adjusted_other_center);
                    let reach = radius.add(*other_radius);
                    proof {
                        crate::fi32::lemma_sq_floor(d.x@);
                        crate::fi32::lemma_sq_floor(d.y@);
                    }
                    d.x.mul(d.x).add(d.y.mul(d.y)).bits <= reach.mul(reach).bits
                },
                CollisionMask::Box => false,
            }
        } else {
            false
        }
    }
}

} // verus!
