use crate::components::{
    Direction, Input, InputSet, MovementStats, PhysicsData, PlayerState, PlayerStatus,
    ATTACK_TOTAL_FRAMES,
};
use crate::fi32::{clamp_spec, fits, fits_wide, Fi32};
use vstd::prelude::*;

verus! {

/// Turns the held inputs into acceleration and status changes.
pub struct Keyboard;

/// A fixed-point value with the given raw bits.
pub open spec fn fx(v: int) -> Fi32 {
    Fi32 { bits: v as i32 }
}

pub open spec fn min_spec(a: int, b: int) -> int {
    if a <= b {
        a
    } else {
        b
    }
}

/// Horizontal acceleration that slows a body down: air drag outside the
/// `air_max_speed` envelope while jumping, ground friction otherwise; never
/// more than the speed itself.
pub open spec fn drag_spec(status: PlayerStatus, vx: int, s: MovementStats) -> int {
    if status == PlayerStatus::Jumping {
        if vx > s.air_max_speed@ {
            -min_spec(s.air_acceleration@, vx)
        } else if vx < -s.air_max_speed@ {
            min_spec(s.air_acceleration@, -vx)
        } else {
            0
        }
    } else {
        if vx > 0 {
            -min_spec(s.friction@, vx)
        } else if vx < 0 {
            min_spec(s.friction@, -vx)
        } else {
            0
        }
    }
}

/// Horizontal acceleration toward `dir`, zero once the speed cap for the
/// body's state is reached.
pub open spec fn push_spec(dir: Direction, status: PlayerStatus, vx: int, s: MovementStats) -> int {
    let (cap, acc) = if status == PlayerStatus::Jumping {
        (s.air_max_speed@, s.air_acceleration@)
    } else {
        (s.max_speed@, s.acceleration@)
    };
    match dir {
        Direction::Left => if vx > -cap {
            -acc
        } else {
            0
        },
        Direction::Right => if vx < cap {
            acc
        } else {
            0
        },
    }
}

/// Whether Crouch was held in one of the three sets before the newest.
pub open spec fn crouch_buffered(h: Seq<InputSet>) -> bool {
    h[1].has(Input::Crouch) || h[2].has(Input::Crouch) || h[3].has(Input::Crouch)
}

/// The result of the priority-ordered input rules, before the common steps.
pub open spec fn rules_spec(p: PhysicsData, s: MovementStats, st: PlayerState, h: Seq<InputSet>) -> (
    PhysicsData,
    PlayerState,
) {
    let now = h[0];
    let p0 = PhysicsData { acceleration: with_acc_x(p, 0), ..p };
    let st0 = PlayerState { animation_counter: (st.animation_counter + 1) as u32, ..st };
    if now.empty_spec() || st.status == PlayerStatus::Attacking || now.has(Input::Attack) {
        let p1 = PhysicsData {
            acceleration: with_acc_x(p, drag_spec(st.status, p.speed.x@, s)),
            ..p
        };
        if now.has(Input::Attack) {
            let counter = if st.status != PlayerStatus::Attacking {
                0
            } else {
                st0.animation_counter
            };
            (p1, PlayerState { status: PlayerStatus::Attacking, animation_counter: counter, ..st0 })
        } else {
            (p1, st0)
        }
    } else if now.has(Input::Jump) {
        if st.status == PlayerStatus::Idle || st.status == PlayerStatus::Running {
            let vy = if crouch_buffered(h) {
                -s.superjump_power@
            } else {
                -s.jump_power@
            };
            (
                PhysicsData { speed: crate::fi32::PointFi32 { y: fx(vy), ..p.speed }, ..p0 },
                PlayerState { status: PlayerStatus::Jumping, ..st0 },
            )
        } else {
            (p0, st0)
        }
    } else if now.has(Input::Move(Direction::Left)) {
        (
            PhysicsData {
                acceleration: with_acc_x(p, push_spec(Direction::Left, st.status, p.speed.x@, s)),
                ..p
            },
            st0,
        )
    } else if now.has(Input::Move(Direction::Right)) {
        (
            PhysicsData {
                acceleration: with_acc_x(
                    p,
                    push_spec(Direction::Right, st.status, p.speed.x@, s),
                ),
                ..p
            },
            st0,
        )
    } else {
        (p0, st0)
    }
}

/// The acceleration of `p` with its horizontal part replaced.
pub open spec fn with_acc_x(p: PhysicsData, ax: int) -> crate::fi32::PointFi32 {
    crate::fi32::PointFi32 { x: fx(ax), ..p.acceleration }
}

/// Status inferred on the ground: Idle when still, Running when moving sideways.
pub open spec fn grounded_status(status: PlayerStatus, vx: int, vy: int) -> PlayerStatus {
    if status == PlayerStatus::Jumping || status == PlayerStatus::Attacking {
        status
    } else if vx == 0 && vy == 0 {
        PlayerStatus::Idle
    } else if vx != 0 {
        PlayerStatus::Running
    } else {
        status
    }
}

/// Facing after a tick: turned only by a held direction that the speed follows.
pub open spec fn facing_spec(facing: Direction, now: InputSet, vx: int) -> Direction {
    if now.has(Input::Move(Direction::Left)) && vx < 0 {
        Direction::Left
    } else if now.has(Input::Move(Direction::Right)) && vx > 0 {
        Direction::Right
    } else {
        facing
    }
}

/// One tick of the state machine for one body.
pub open spec fn keyboard_spec(p: PhysicsData, s: MovementStats, st: PlayerState, h: Seq<InputSet>) -> (
    PhysicsData,
    PlayerState,
) {
    let (p1, st1) = rules_spec(p, s, st, h);
    let vx = clamp_spec(p1.speed.x@, -s.max_speed@, s.max_speed@);
    let vy = p1.speed.y@;
    let ay = if st1.status == PlayerStatus::Jumping || p1.position.y@ < 0 {
        s.gravity@
    } else {
        0
    };
    let status2 = grounded_status(st1.status, vx, vy);
    let status3 = if status2 == PlayerStatus::Attacking && st1.animation_counter
        > ATTACK_TOTAL_FRAMES {
        PlayerStatus::Idle
    } else {
        status2
    };
    let facing = facing_spec(st1.facing, h[0], vx);
    let st2 = PlayerState { status: status3, facing, ..st1 };
    let pre = PhysicsData {
        speed: crate::fi32::PointFi32 { x: fx(vx), y: fx(vy) },
        acceleration: crate::fi32::PointFi32 { x: p1.acceleration.x, y: fx(ay) },
        ..p1
    };
    if p1.position.y@ + vy >= 0 {
        let landed = if status3 == PlayerStatus::Jumping {
            if vx == 0 {
                PlayerStatus::Idle
            } else {
                PlayerStatus::Running
            }
        } else {
            status3
        };
        (
            PhysicsData {
                position: crate::fi32::PointFi32 { y: fx(0), ..p1.position },
                speed: crate::fi32::PointFi32 { x: fx(vx), y: fx(0) },
                acceleration: crate::fi32::PointFi32 { x: p1.acceleration.x, y: fx(0) },
            },
            PlayerState { status: landed, ..st2 },
        )
    } else {
        (pre, st2)
    }
}

/// The movement constants are usable: every one that the state machine negates
/// can be negated, and the speed cap is not negative.
pub open spec fn stats_ok(s: MovementStats) -> bool {
    &&& s.max_speed@ >= 0
    &&& s.acceleration@ > i32::MIN
    &&& s.friction@ > i32::MIN
    &&& s.jump_power@ > i32::MIN
    &&& s.superjump_power@ > i32::MIN
    &&& s.air_acceleration@ > i32::MIN
    &&& s.air_max_speed@ > i32::MIN
}

/// Every fixed-point step of one state-machine tick stays in range.
pub open spec fn keyboard_fits(p: PhysicsData, s: MovementStats, st: PlayerState) -> bool {
    &&& stats_ok(s)
    &&& p.speed.x@ > i32::MIN
    &&& fits(p.position.y@ + p.speed.y@)
    &&& fits(p.position.y@ - s.jump_power@)
    &&& fits(p.position.y@ - s.superjump_power@)
    &&& st.animation_counter < u32::MAX
}

/// Input buffering of the jump: from Idle on or above the ground, a Jump
/// pressed after a Crouch held in one of the three previous ticks launches
/// with `superjump_power`, and one without such a Crouch with `jump_power`.
pub proof fn lemma_superjump(p: PhysicsData, s: MovementStats, st: PlayerState, h: Seq<InputSet>)
    requires
        h.len() >= 4,
        keyboard_fits(p, s, st),
        st.status == PlayerStatus::Idle,
        h[0].has(Input::Jump),
        !h[0].has(Input::Attack),
        p.position.y@ <= 0,
        s.jump_power@ > 0,
        s.superjump_power@ > 0,
    ensures
        keyboard_spec(p, s, st, h).1.status == PlayerStatus::Jumping,
        h[2].has(Input::Crouch) ==> keyboard_spec(p, s, st, h).0.speed.y@ == -s.superjump_power@,
        crouch_buffered(h) ==> keyboard_spec(p, s, st, h).0.speed.y@ == -s.superjump_power@,
        !crouch_buffered(h) ==> keyboard_spec(p, s, st, h).0.speed.y@ == -s.jump_power@,
{
    assert(!h[0].empty_spec());
}

/// Tells whether one state-machine tick of this body stays in range.
pub fn steer_in_range(p: &PhysicsData, s: &MovementStats, st: &PlayerState) -> (r: bool)
    ensures
        r == keyboard_fits(*p, *s, *st),
{
    let stats_ok = s.max_speed.to_bits() >= 0 && s.acceleration.to_bits() > i32::MIN
        && s.friction.to_bits() > i32::MIN
        && s.jump_power.to_bits() > i32::MIN && s.superjump_power.to_bits() > i32::MIN
        && s.air_acceleration.to_bits() > i32::MIN && s.air_max_speed.to_bits() > i32::MIN;
    let y = p.position.y.to_bits() as i64;
    stats_ok && p.speed.x.to_bits() > i32::MIN && fits_wide(y + p.speed.y.to_bits() as i64)
        && fits_wide(y - s.jump_power.to_bits() as i64) && fits_wide(
        y - s.superjump_power.to_bits() as i64,
    ) && st.animation_counter < u32::MAX
}

impl Keyboard {
    fn drag(status: PlayerStatus, vx: Fi32, s: &MovementStats) -> (r: Fi32)
        requires
            stats_ok(*s),
            vx@ > i32::MIN,
        ensures
            r@ == drag_spec(status, vx@, *s),
    {
        if status == PlayerStatus::Jumping {
            if s.air_max_speed.lt(vx) {
                s.air_acceleration.min(vx).neg()
            } else if vx.lt(s.air_max_speed.neg()) {
                s.air_acceleration.min(vx.neg())
            } else {
                Fi32::zero()
            }
        } else {
            if vx.is_positive() {
                s.friction.min(vx).neg()
            } else if vx.is_negative() {
                s.friction.min(vx.neg())
            } else {
                Fi32::zero()
            }
        }
    }

    fn push(dir: Direction, status: PlayerStatus, vx: Fi32, s: &MovementStats) -> (r: Fi32)
        requires
            stats_ok(*s),
        ensures
            r@ == push_spec(dir, status, vx@, *s),
    {
        let (cap, acc) = if status == PlayerStatus::Jumping {
            (s.air_max_speed, s.air_acceleration)
        } else {
            (s.max_speed, s.acceleration)
        };
        match dir {
            Direction::Left => if cap.neg().lt(vx) {
                acc.neg()
            } else {
                Fi32::zero()
            },
            Direction::Right => if vx.lt(cap) {
                acc
            } else {
                Fi32::zero()
            },
        }
    }

    /// Runs one tick of the state machine for one body, given the input history
    /// with the newest set first.
    pub fn run(
        &self,
        physics_data: &mut PhysicsData,
        movement_stats: &MovementStats,
        player_state: &mut PlayerState,
        inputs: &Vec<InputSet>,
    )
        requires
            inputs@.len() >= 4,
            keyboard_fits(*old(physics_data), *movement_stats, *old(player_state)),
        ensures
            (*final(physics_data), *final(player_state)) == keyboard_spec(
                *old(physics_data),
                *movement_stats,
                *old(player_state),
                inputs@,
            ),
            -movement_stats.max_speed@ <= final(physics_data).speed.x@ <= movement_stats.max_speed@,
            final(physics_data).position.y@ + final(physics_data).speed.y@ < 0 || (
            final(physics_data).position.y@ == 0 && final(physics_data).speed.y@ == 0
                && final(physics_data).acceleration.y@ == 0),
            old(physics_data).position.y@ <= 0 ==> final(physics_data).position.y@ <= 0,
    {
        let ghost p = *physics_data;
        let ghost st = *player_state;
        let s = movement_stats;
        let now = inputs[0];
        physics_data.acceleration.x = Fi32::zero();
        player_state.animation_counter = player_state.animation_counter + 1;
        if now.is_empty() || player_state.status == PlayerStatus::Attacking || now.contains(
            Input::Attack,
        ) {
            physics_data.acceleration.x = Keyboard::drag(
                player_state.status,
                physics_data.speed.x,
                s,
            );
            if now.contains(Input::Attack) {
                if player_state.status != PlayerStatus::Attacking {
                    player_state.animation_counter = 0;
                }
                player_state.status = PlayerStatus::Attacking;
            }
        } else if now.contains(Input::Jump) {
            if player_state.status == PlayerStatus::Idle || player_state.status
                == PlayerStatus::Running {
                player_state.status = PlayerStatus::Jumping;
                physics_data.speed.y = if inputs[1].contains(Input::Crouch) || inputs[2].contains(
                    Input::Crouch,
                ) || inputs[3].contains(Input::Crouch) {
                    s.superjump_power.neg()
                } else {
                    s.jump_power.neg()
                };
            }
        } else if now.contains(Input::Move(Direction::Left)) {
            physics_data.acceleration.x = Keyboard::push(
                Direction::Left,
                player_state.status,
                physics_data.speed.x,
                s,
            );
        } else if now.contains(Input::Move(Direction::Right)) {
            physics_data.acceleration.x = Keyboard::push(
                Direction::Right,
                player_state.status,
                physics_data.speed.x,
                s,
            );
        }
        proof {
            let (p1, st1) = rules_spec(p, *s, st, inputs@);
            assert(*physics_data == p1);
            assert(*player_state == st1);
        }

        // Clamp to max_speed
        physics_data.speed.x = physics_data.speed.x.clamp(s.max_speed.neg(), s.max_speed);

        // Gravity
        if player_state.status == PlayerStatus::Jumping || physics_data.position.y.is_negative() {
            physics_data.acceleration.y = s.gravity;
        } else {
            physics_data.acceleration.y = Fi32::zero();
        }

        // Status on the ground
        if player_state.status != PlayerStatus::Jumping && player_state.status
            != PlayerStatus::Attacking {
            if physics_data.speed.x.is_zero() && physics_data.speed.y.is_zero() {
                player_state.status = PlayerStatus::Idle;
            } else if !physics_data.speed.x.is_zero() {
                player_state.status = PlayerStatus::Running;
            }
        }

        // End of an attack
        if player_state.status == PlayerStatus::Attacking && player_state.animation_counter
            > ATTACK_TOTAL_FRAMES {
            player_state.status = PlayerStatus::Idle;
        }

        if now.contains(Input::Move(Direction::Left)) && physics_data.speed.x.is_negative() {
            player_state.facing = Direction::Left;
        } else if now.contains(Input::Move(Direction::Right))
            && physics_data.speed.x.is_positive() {
            player_state.facing = Direction::Right;
        }

        // Landing
        if !physics_data.position.y.add(physics_data.speed.y).is_negative() {
            physics_data.speed.y = Fi32::zero();
            physics_data.acceleration.y = Fi32::zero();
            physics_data.position.y = Fi32::zero();
            if player_state.status == PlayerStatus::Jumping {
                player_state.status = if physics_data.speed.x.is_zero() {
                    PlayerStatus::Idle
                } else {
                    PlayerStatus::Running
                };
            }
        }
    }
}

} // verus!
