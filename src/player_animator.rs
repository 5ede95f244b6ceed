use crate::components::{sheet_of, Direction, PhysicsData, PlayerState, PlayerStatus, Sprite};
use crate::fi32::abs;
use vstd::prelude::*;

verus! {

/// Picks the sprite sheet, wrap width, animation rate and mirroring that show a
/// player's state.
pub struct PlayerAnimator;

/// Raw bits of the horizontal speed above which running is drawn faster.
pub const FAST_RUN_BITS: i32 = 768;

/// Width, in pixels, of the sheet that shows a status.
pub open spec fn wrap_of(s: PlayerStatus) -> u32 {
    match s {
        PlayerStatus::Idle => 768,
        PlayerStatus::Running => 1024,
        PlayerStatus::Blocking => 256,
        PlayerStatus::Jumping => 1536,
        PlayerStatus::Hitstun => 256,
        PlayerStatus::Blockstun => 256,
        PlayerStatus::Attacking => 768,
    }
}

/// Ticks each frame of a status is held for, given the horizontal speed.
pub open spec fn rate_of(s: PlayerStatus, vx: int) -> u32 {
    match s {
        PlayerStatus::Idle => 5,
        PlayerStatus::Running => if abs(vx) > FAST_RUN_BITS {
            1
        } else {
            2
        },
        PlayerStatus::Blocking => 5,
        PlayerStatus::Jumping => 1,
        PlayerStatus::Hitstun => 3,
        PlayerStatus::Blockstun => 2,
        PlayerStatus::Attacking => 3,
    }
}

/// The sprite that shows a player's state; the frame restarts when the sheet changes.
pub open spec fn project_spec(s: Sprite, p: PhysicsData, st: PlayerState) -> Sprite {
    let sheet = sheet_of(st.status);
    Sprite {
        wrap: wrap_of(st.status),
        animation_rate: rate_of(st.status, p.speed.x@),
        flip: st.facing == Direction::Left,
        spritesheet: sheet,
        current: if sheet != s.spritesheet {
            crate::components::SpriteRect { x: 0, ..s.current }
        } else {
            s.current
        },
        ..s
    }
}

impl PlayerAnimator {
    pub fn run(&self, sprite: &mut Sprite, physics_data: &PhysicsData, player_state: &PlayerState)
        ensures
            *final(sprite) == project_spec(*old(sprite), *physics_data, *player_state),
    {
        sprite.wrap = match player_state.status {
            PlayerStatus::Idle => 768,
            PlayerStatus::Running => 1024,
            PlayerStatus::Blocking => 256,
            PlayerStatus::Jumping => 1536,
            PlayerStatus::Hitstun => 256,
            PlayerStatus::Blockstun => 256,
            PlayerStatus::Attacking => 768,
        };
        let vx = physics_data.speed.x.to_bits();
        let fast = vx > FAST_RUN_BITS || vx < -FAST_RUN_BITS;
        sprite.animation_rate = match player_state.status {
            PlayerStatus::Idle => 5,
            PlayerStatus::Running => if fast {
                1
            } else {
                2
            },
            PlayerStatus::Blocking => 5,
            PlayerStatus::Jumping => 1,
            PlayerStatus::Hitstun => 3,
            PlayerStatus::Blockstun => 2,
            PlayerStatus::Attacking => 3,
        };
        sprite.flip = bool::from(player_state.facing);
        let old_spritesheet = sprite.spritesheet;
        sprite.spritesheet = usize::from(player_state.status);
        if old_spritesheet != sprite.spritesheet {
            sprite.current.x = 0;
        }
    }
}

} // verus!
