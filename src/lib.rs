pub mod animator;
pub mod collider;
pub mod components;
pub mod fi32;
pub mod input_buffer;
pub mod keyboard;
pub mod physics;
pub mod player_animator;
pub mod world;

pub use components::{
    CollisionData, CollisionMask, CollisionStatus, Direction, Framerate, Input, InputSet,
    MovementStats, PhysicsData, Player1, PlayerState, PlayerStatus, Sprite, SpriteRect,
    ATTACK_TOTAL_FRAMES, COMMAND_BUFFER_SIZE,
};
pub use fi32::{Fi32, PointFi32};
pub use input_buffer::InputBuffer;
pub use world::{Pilot, World};
