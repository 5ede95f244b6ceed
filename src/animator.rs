use crate::components::Sprite;
use vstd::prelude::*;

verus! {

/// Steps each sprite's animation.
pub struct Animator;

/// The sprite after one tick: the counter advances, and once it passes the
/// animation rate the frame moves one width along the sheet, wrapping at
/// `wrap`, and the counter restarts.
pub open spec fn animate_spec(s: Sprite) -> Sprite {
    let counter = s.counter + 1;
    let (x, counter) = if counter > s.animation_rate {
        (((s.current.x + s.current.width) % (s.wrap as int)), 0int)
    } else {
        (s.current.x as int, counter)
    };
    Sprite {
        current: crate::components::SpriteRect { x: (x % (s.wrap as int)) as i32, ..s.current },
        counter: counter as u32,
        ..s
    }
}

/// The sprite can be stepped: a non-empty wrap width that is a valid offset,
/// a frame offset that is not negative, and sums that stay in range.
pub open spec fn animate_fits(s: Sprite) -> bool {
    &&& 0 < s.wrap <= i32::MAX
    &&& 0 <= s.current.x
    &&& s.current.x + s.current.width <= u32::MAX
    &&& s.counter < u32::MAX
}

/// Tells whether the sprite can be stepped.
pub fn animate_in_range(s: &Sprite) -> (r: bool)
    ensures
        r == animate_fits(*s),
{
    0 < s.wrap && s.wrap <= i32::MAX as u32 && 0 <= s.current.x && s.current.x as u64
        + s.current.width as u64 <= u32::MAX as u64 && s.counter < u32::MAX
}

impl Animator {
    pub fn run(&self, sprite: &mut Sprite)
        requires
            animate_fits(*old(sprite)),
        ensures
            *final(sprite) == animate_spec(*old(sprite)),
    {
        sprite.counter = sprite.counter + 1;
        if sprite.counter > sprite.animation_rate {
            sprite.current.x = ((sprite.current.x as u32 + sprite.current.width) % sprite.wrap) as i32;
            sprite.counter = 0;
        }
        sprite.current.x = sprite.current.x % (sprite.wrap as i32);
    }
}

} // verus!
