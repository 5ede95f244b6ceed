use crate::components::PhysicsData;
use crate::fi32::{fits, Fi32, PointFi32};
use vstd::prelude::*;

verus! {

/// Advances bodies by one semi-implicit Euler step.
pub struct Physics;

/// The body after one step: speed gains the acceleration, then position gains
/// the new speed.
pub open spec fn integrate_spec(p: PhysicsData) -> PhysicsData {
    let vx = p.speed.x@ + p.acceleration.x@;
    let vy = p.speed.y@ + p.acceleration.y@;
    PhysicsData {
        position: PointFi32 {
            x: Fi32 { bits: (p.position.x@ + vx) as i32 },
            y: Fi32 { bits: (p.position.y@ + vy) as i32 },
        },
        speed: PointFi32 { x: Fi32 { bits: vx as i32 }, y: Fi32 { bits: vy as i32 } },
        acceleration: p.acceleration,
    }
}

/// The step's sums stay in range.
pub open spec fn integrate_fits(p: PhysicsData) -> bool {
    let vx = p.speed.x@ + p.acceleration.x@;
    let vy = p.speed.y@ + p.acceleration.y@;
    fits(vx) && fits(vy) && fits(p.position.x@ + vx) && fits(p.position.y@ + vy)
}

/// Tells whether one integration step of this body stays in range.
pub fn integrate_in_range(p: &PhysicsData) -> (r: bool)
    ensures
        r == integrate_fits(*p),
{
    let lo = i32::MIN as i64;
    let hi = i32::MAX as i64;
    let vx = p.speed.x.to_bits() as i64 + p.acceleration.x.to_bits() as i64;
    let vy = p.speed.y.to_bits() as i64 + p.acceleration.y.to_bits() as i64;
    let x = p.position.x.to_bits() as i64 + vx;
    let y = p.position.y.to_bits() as i64 + vy;
    lo <= vx && vx <= hi && lo <= vy && vy <= hi && lo <= x && x <= hi && lo <= y && y <= hi
}

impl Physics {
    pub fn run(&self, physics_data: &mut PhysicsData)
        requires
            integrate_fits(*old(physics_data)),
        ensures
            *final(physics_data) == integrate_spec(*old(physics_data)),
    {
        physics_data.speed.x = physics_data.speed.x.add(physics_data.acceleration.x);
        physics_data.speed.y = physics_data.speed.y.add(physics_data.acceleration.y);
        physics_data.position = physics_data.position.offset(
            physics_data.speed.x,
            physics_data.speed.y,
        );
    }
}

} // verus!
