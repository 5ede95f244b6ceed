use sm::animator::{animate_in_range, Animator};
use sm::collider::{collide_in_range, Collider};
use sm::keyboard::{steer_in_range, Keyboard};
use sm::physics::{integrate_in_range, Physics};
use sm::player_animator::PlayerAnimator;
use sm::{
    CollisionData, CollisionMask, CollisionStatus, Direction, Fi32, Input, InputBuffer, InputSet,
    MovementStats, PhysicsData, Pilot, PlayerState, PlayerStatus, PointFi32, Sprite, SpriteRect,
    World, ATTACK_TOTAL_FRAMES,
};

fn fx(units: i32) -> Fi32 {
    Fi32::from_int(units)
}

fn pt(x: i32, y: i32) -> PointFi32 {
    PointFi32::new(fx(x), fx(y))
}

fn set_of(inputs: &[Input]) -> InputSet {
    let mut s = InputSet::new();
    for i in inputs {
        s.insert(*i);
    }
    s
}

fn stats() -> MovementStats {
    MovementStats {
        max_speed: fx(17),
        acceleration: fx(3),
        friction: fx(1),
        gravity: fx(2),
        jump_power: fx(20),
        superjump_power: fx(30),
        air_acceleration: fx(1),
        air_max_speed: fx(10),
    }
}

fn at_rest() -> PhysicsData {
    PhysicsData { position: pt(0, 0), speed: pt(0, 0), acceleration: pt(0, 0) }
}

fn idle() -> PlayerState {
    PlayerState { status: PlayerStatus::Idle, facing: Direction::Right, animation_counter: 0 }
}

/// History with `newest` first, padded with empty sets.
fn history(newest_first: &[InputSet]) -> Vec<InputSet> {
    let mut h = newest_first.to_vec();
    while h.len() < 10 {
        h.push(InputSet::new());
    }
    h
}

fn sprite() -> Sprite {
    Sprite {
        spritesheet: 0,
        current: SpriteRect { x: 0, y: 0, width: 128, height: 128 },
        wrap: 1024,
        flip: false,
        counter: 0,
        animation_rate: 5,
        glow: false,
    }
}

fn circle(radius: i32) -> CollisionData {
    CollisionData {
        mask: CollisionMask::Circle(pt(0, 0), fx(radius)),
        status: CollisionStatus(false),
        repel_vector: pt(0, 0),
        repel_speed: Fi32::zero(),
    }
}

#[test]
fn move_right_accelerates() {
    let mut p = at_rest();
    let mut st = idle();
    Keyboard.run(&mut p, &stats(), &mut st, &history(&[set_of(&[Input::Move(Direction::Right)])]));
    assert_eq!(p.acceleration.x.to_bits(), 3 * 128);
    assert_eq!(st.status, PlayerStatus::Idle);
    assert_eq!(st.animation_counter, 1);
    // facing does not turn before the body moves
    assert_eq!(st.facing, Direction::Right);
}

#[test]
fn move_left_turns_only_when_moving() {
    let mut p = at_rest();
    p.speed.x = fx(-2);
    let mut st = idle();
    Keyboard.run(&mut p, &stats(), &mut st, &history(&[set_of(&[Input::Move(Direction::Left)])]));
    assert_eq!(p.acceleration.x.to_bits(), -3 * 128);
    assert_eq!(st.facing, Direction::Left);
    assert_eq!(st.status, PlayerStatus::Running);
}

#[test]
fn no_push_past_the_cap() {
    let mut p = at_rest();
    p.speed.x = fx(17);
    let mut st = idle();
    Keyboard.run(&mut p, &stats(), &mut st, &history(&[set_of(&[Input::Move(Direction::Right)])]));
    assert_eq!(p.acceleration.x.to_bits(), 0);
    assert_eq!(p.speed.x.to_bits(), 17 * 128);
}

#[test]
fn speed_is_clamped_to_max_speed() {
    for start in [18, 17, -17, -40, 100] {
        let mut p = at_rest();
        p.speed.x = fx(start);
        let mut st = idle();
        Keyboard.run(&mut p, &stats(), &mut st, &history(&[InputSet::new()]));
        assert!(p.speed.x.to_bits().abs() <= 17 * 128);
    }
    let mut p = at_rest();
    p.speed.x = fx(40);
    let mut st = idle();
    Keyboard.run(&mut p, &stats(), &mut st, &history(&[InputSet::new()]));
    assert_eq!(p.speed.x.to_bits(), 17 * 128);
}

#[test]
fn friction_on_the_ground() {
    let mut p = at_rest();
    p.speed.x = fx(5);
    let mut st = idle();
    Keyboard.run(&mut p, &stats(), &mut st, &history(&[InputSet::new()]));
    assert_eq!(p.acceleration.x.to_bits(), -128);
    // friction never exceeds the speed itself
    let mut q = at_rest();
    q.speed.x = Fi32::from_bits(-50);
    Keyboard.run(&mut q, &stats(), &mut st, &history(&[InputSet::new()]));
    assert_eq!(q.acceleration.x.to_bits(), 50);
}

#[test]
fn air_drag_outside_the_envelope() {
    let mut p = at_rest();
    p.position.y = fx(-50);
    p.speed.x = fx(12);
    p.speed.y = fx(-5);
    let mut st = PlayerState { status: PlayerStatus::Jumping, ..idle() };
    Keyboard.run(&mut p, &stats(), &mut st, &history(&[InputSet::new()]));
    assert_eq!(p.acceleration.x.to_bits(), -128);
    assert_eq!(p.acceleration.y.to_bits(), 2 * 128);
    let mut q = at_rest();
    q.position.y = fx(-50);
    q.speed.x = fx(6);
    Keyboard.run(&mut q, &stats(), &mut st, &history(&[InputSet::new()]));
    assert_eq!(q.acceleration.x.to_bits(), 0);
}

#[test]
fn superjump_after_crouch_two_ticks_ago() {
    let mut p = at_rest();
    let mut st = idle();
    let h = history(&[set_of(&[Input::Jump]), InputSet::new(), set_of(&[Input::Crouch])]);
    Keyboard.run(&mut p, &stats(), &mut st, &h);
    assert_eq!(p.speed.y.to_bits(), -30 * 128);
    assert_eq!(st.status, PlayerStatus::Jumping);
}

#[test]
fn plain_jump_without_recent_crouch() {
    let mut p = at_rest();
    let mut st = idle();
    let h = history(&[
        set_of(&[Input::Jump]),
        InputSet::new(),
        InputSet::new(),
        InputSet::new(),
        set_of(&[Input::Crouch]),
    ]);
    Keyboard.run(&mut p, &stats(), &mut st, &h);
    assert_eq!(p.speed.y.to_bits(), -20 * 128);
    assert_eq!(st.status, PlayerStatus::Jumping);
}

#[test]
fn attack_overrides_movement_and_expires() {
    let mut p = at_rest();
    let mut st = idle();
    st.animation_counter = 7;
    let attack = history(&[set_of(&[Input::Attack, Input::Move(Direction::Right)])]);
    Keyboard.run(&mut p, &stats(), &mut st, &attack);
    assert_eq!(st.status, PlayerStatus::Attacking);
    assert_eq!(st.animation_counter, 0);
    assert_eq!(p.acceleration.x.to_bits(), 0);
    let right = history(&[set_of(&[Input::Move(Direction::Right)])]);
    for _ in 0..ATTACK_TOTAL_FRAMES {
        Keyboard.run(&mut p, &stats(), &mut st, &right);
        assert_eq!(st.status, PlayerStatus::Attacking);
        assert_eq!(p.acceleration.x.to_bits(), 0);
    }
    Keyboard.run(&mut p, &stats(), &mut st, &right);
    assert_eq!(st.status, PlayerStatus::Idle);
}

#[test]
fn landing_snaps_to_the_ground() {
    let mut p = at_rest();
    p.position.y = fx(-3);
    p.speed.x = fx(4);
    p.speed.y = fx(5);
    let mut st = PlayerState { status: PlayerStatus::Jumping, ..idle() };
    Keyboard.run(&mut p, &stats(), &mut st, &history(&[InputSet::new()]));
    assert_eq!(p.position.y.to_bits(), 0);
    assert_eq!(p.speed.y.to_bits(), 0);
    assert_eq!(p.acceleration.y.to_bits(), 0);
    assert_eq!(st.status, PlayerStatus::Running);
}

#[test]
fn airborne_body_is_not_snapped() {
    let mut p = at_rest();
    p.position.y = fx(-30);
    p.speed.y = fx(5);
    let mut st = PlayerState { status: PlayerStatus::Jumping, ..idle() };
    Keyboard.run(&mut p, &stats(), &mut st, &history(&[InputSet::new()]));
    assert_eq!(p.position.y.to_bits(), -30 * 128);
    assert_eq!(p.speed.y.to_bits(), 5 * 128);
    assert_eq!(st.status, PlayerStatus::Jumping);
}

#[test]
fn integrator_is_semi_implicit_euler() {
    let mut p = PhysicsData { position: pt(1, -2), speed: pt(3, 4), acceleration: pt(-1, 2) };
    Physics.run(&mut p);
    assert_eq!((p.speed.x.to_bits(), p.speed.y.to_bits()), (2 * 128, 6 * 128));
    assert_eq!((p.position.x.to_bits(), p.position.y.to_bits()), (3 * 128, 4 * 128));
    assert_eq!((p.acceleration.x.to_bits(), p.acceleration.y.to_bits()), (-128, 256));
}

#[test]
fn overlapping_pair_repels_symmetrically() {
    let mut ph = vec![at_rest(), PhysicsData { position: pt(50, 0), ..at_rest() }];
    ph[0].speed = pt(5, 1);
    ph[0].acceleration = pt(2, 0);
    ph[1].speed = pt(-3, 0);
    let mut cd = vec![circle(36), circle(36)];
    let mut sp = vec![sprite(), sprite()];
    Collider.run(&mut ph, &mut cd, &mut sp);
    assert!(cd[0].status.0 && cd[1].status.0);
    assert!(sp[0].glow && sp[1].glow);
    assert_eq!((cd[0].repel_vector.x.to_bits(), cd[0].repel_vector.y.to_bits()), (-128, 0));
    assert_eq!((cd[1].repel_vector.x.to_bits(), cd[1].repel_vector.y.to_bits()), (128, 0));
    // the closing parts of speed and acceleration are removed, the rest kept
    assert_eq!((ph[0].speed.x.to_bits(), ph[0].speed.y.to_bits()), (0, 128));
    assert_eq!(ph[0].acceleration.x.to_bits(), 0);
    assert_eq!(ph[1].speed.x.to_bits(), 0);
    for i in 0..2 {
        let dir = cd[i].repel_vector.normalize();
        assert!(ph[i].speed.dot(dir).to_bits() >= 0);
        assert!(ph[i].acceleration.dot(dir).to_bits() >= 0);
    }
}

#[test]
fn separating_bodies_keep_their_speed() {
    let mut ph = vec![at_rest(), PhysicsData { position: pt(50, 0), ..at_rest() }];
    ph[0].speed = pt(-4, 0);
    ph[1].speed = pt(4, 0);
    let mut cd = vec![circle(36), circle(36)];
    let mut sp = vec![sprite(), sprite()];
    Collider.run(&mut ph, &mut cd, &mut sp);
    assert!(cd[0].status.0);
    assert_eq!(ph[0].speed.x.to_bits(), -4 * 128);
    assert_eq!(ph[1].speed.x.to_bits(), 4 * 128);
}

#[test]
fn distant_bodies_do_not_collide() {
    let mut ph = vec![at_rest(), PhysicsData { position: pt(200, 0), ..at_rest() }];
    ph[0].speed = pt(5, 0);
    let mut cd = vec![circle(36), circle(36)];
    cd[0].status = CollisionStatus(true);
    cd[0].repel_vector = pt(1, 1);
    let mut sp = vec![sprite(), sprite()];
    Collider.run(&mut ph, &mut cd, &mut sp);
    assert!(!cd[0].status.0 && !cd[1].status.0);
    assert_eq!((cd[0].repel_vector.x.to_bits(), cd[0].repel_vector.y.to_bits()), (0, 0));
    assert_eq!((cd[1].repel_vector.x.to_bits(), cd[1].repel_vector.y.to_bits()), (0, 0));
    assert_eq!(ph[0].speed.x.to_bits(), 5 * 128);
}

#[test]
fn touching_at_exactly_the_sum_of_radii() {
    let a = CollisionMask::Circle(pt(0, 0), fx(36));
    let b = CollisionMask::Circle(pt(0, 0), fx(36));
    assert!(a.check(pt(0, 0), &b, pt(72, 0)));
    assert!(!a.check(pt(0, 0), &b, pt(73, 0)));
    assert!(!a.check(pt(0, 0), &CollisionMask::Box, pt(0, 0)));
    assert!(!CollisionMask::default().check(pt(0, 0), &a, pt(0, 0)));
}

#[test]
fn repel_vectors_sum_over_partners() {
    let mut ph = vec![
        PhysicsData { position: pt(-50, 0), ..at_rest() },
        at_rest(),
        PhysicsData { position: pt(50, 0), ..at_rest() },
    ];
    let mut cd = vec![circle(36), circle(36), circle(36)];
    let mut sp = vec![sprite(), sprite(), sprite()];
    Collider.run(&mut ph, &mut cd, &mut sp);
    assert_eq!(cd[0].repel_vector.x.to_bits(), -128);
    assert_eq!(cd[1].repel_vector.x.to_bits(), 0);
    assert_eq!(cd[2].repel_vector.x.to_bits(), 128);
    assert!(cd[1].status.0);
}

#[test]
fn animator_advances_and_wraps() {
    let mut s = sprite();
    s.counter = 5;
    s.current.x = 896;
    Animator.run(&mut s);
    assert_eq!(s.counter, 0);
    assert_eq!(s.current.x, 0);
    let mut t = sprite();
    Animator.run(&mut t);
    assert_eq!(t.counter, 1);
    assert_eq!(t.current.x, 0);
    t.counter = 5;
    Animator.run(&mut t);
    assert_eq!(t.current.x, 128);
}

#[test]
fn player_animator_follows_state() {
    let mut s = sprite();
    s.current.x = 256;
    let mut p = at_rest();
    p.speed.x = fx(7);
    let st = PlayerState { status: PlayerStatus::Running, facing: Direction::Left, animation_counter: 0 };
    PlayerAnimator.run(&mut s, &p, &st);
    assert_eq!(s.spritesheet, 1);
    assert_eq!(s.wrap, 1024);
    assert_eq!(s.animation_rate, 1);
    assert!(s.flip);
    assert_eq!(s.current.x, 0);
    s.current.x = 384;
    p.speed.x = fx(6);
    PlayerAnimator.run(&mut s, &p, &st);
    assert_eq!(s.animation_rate, 2);
    assert_eq!(s.current.x, 384);
    let jumping = PlayerState { status: PlayerStatus::Jumping, facing: Direction::Right, ..st };
    PlayerAnimator.run(&mut s, &p, &jumping);
    assert_eq!((s.spritesheet, s.wrap, s.animation_rate, s.flip), (3, 1536, 1, false));
}

#[test]
fn status_and_direction_conversions() {
    assert_eq!(usize::from(PlayerStatus::Idle), 0);
    assert_eq!(usize::from(PlayerStatus::Attacking), 6);
    assert_eq!(usize::from(PlayerStatus::Blockstun), 5);
    assert!(bool::from(Direction::Left));
    assert!(!bool::from(Direction::Right));
}

#[test]
fn framerate_get_set() {
    let mut f = sm::Framerate::new(1);
    assert_eq!(f.get(), 1);
    f.set(60);
    assert_eq!(f.get(), 60);
}

fn one_player_world() -> World {
    let mut w = World::new();
    w.add_body(
        at_rest(),
        circle(36),
        sprite(),
        Some(Pilot { stats: stats(), state: idle() }),
    );
    w
}

fn state_of(w: &World) -> PlayerState {
    w.pilots[0].unwrap().state
}

#[test]
fn end_to_end_run_jump_land() {
    let mut w = one_player_world();
    let mut inputs = InputBuffer::new();

    inputs.push(set_of(&[Input::Move(Direction::Right)]));
    w.tick(&inputs);
    assert_eq!(w.physics[0].acceleration.x.to_bits(), 3 * 128);
    assert_eq!(w.physics[0].speed.x.to_bits(), 3 * 128);

    inputs.push(set_of(&[Input::Move(Direction::Right)]));
    w.tick(&inputs);
    assert_eq!(state_of(&w).status, PlayerStatus::Running);
    assert_eq!(w.physics[0].speed.x.to_bits(), 6 * 128);

    inputs.push(set_of(&[Input::Jump]));
    w.tick(&inputs);
    assert_eq!(state_of(&w).status, PlayerStatus::Jumping);
    // -20 from the jump, then gravity's +2 in the same tick's integration
    assert_eq!(w.physics[0].speed.y.to_bits(), -18 * 128);

    let mut ticks = 0;
    while state_of(&w).status == PlayerStatus::Jumping {
        let before = w.physics[0].speed.x.to_bits();
        inputs.push(InputSet::new());
        w.tick(&inputs);
        // no air drag inside the air envelope
        assert_eq!(w.physics[0].speed.x.to_bits(), before);
        ticks += 1;
        assert!(ticks < 100);
    }
    assert_eq!(state_of(&w).status, PlayerStatus::Running);
    assert_eq!(w.physics[0].position.y.to_bits(), 0);
    assert_eq!(w.physics[0].speed.y.to_bits(), 0);

    // grounded friction: at most one unit of speed lost per tick
    let mut last = w.physics[0].speed.x.to_bits();
    while w.physics[0].speed.x.to_bits() != 0 {
        inputs.push(InputSet::new());
        w.tick(&inputs);
        let now = w.physics[0].speed.x.to_bits();
        assert!(last - now <= 128 && now <= last);
        last = now;
    }
    inputs.push(InputSet::new());
    w.tick(&inputs);
    assert_eq!(state_of(&w).status, PlayerStatus::Idle);
}

#[test]
fn two_runs_are_identical() {
    let script = [
        set_of(&[Input::Move(Direction::Right)]),
        set_of(&[Input::Move(Direction::Right)]),
        set_of(&[Input::Crouch]),
        set_of(&[Input::Jump]),
        InputSet::new(),
        set_of(&[Input::Attack]),
        set_of(&[Input::Move(Direction::Left)]),
    ];
    let build = || {
        let mut w = one_player_world();
        w.add_body(
            PhysicsData { position: pt(60, 0), ..at_rest() },
            circle(36),
            sprite(),
            None,
        );
        w
    };
    let mut a = build();
    let mut b = build();
    let mut ia = InputBuffer::new();
    let mut ib = InputBuffer::new();
    for _ in 0..5 {
        for s in script.iter() {
            ia.push(*s);
            ib.push(*s);
            a.tick(&ia);
            b.tick(&ib);
            assert_eq!(a.physics, b.physics);
            assert_eq!(a.collisions, b.collisions);
            assert_eq!(a.sprites, b.sprites);
            assert_eq!(a.pilots, b.pilots);
        }
    }
}

#[test]
fn try_tick_runs_in_range() {
    let mut a = one_player_world();
    let mut b = one_player_world();
    let mut inputs = InputBuffer::new();
    inputs.push(set_of(&[Input::Move(Direction::Right)]));
    assert!(a.try_tick(&inputs));
    b.tick(&inputs);
    assert_eq!(a.physics, b.physics);
    assert_eq!(a.sprites, b.sprites);
    assert_eq!(a.pilots, b.pilots);
}

#[test]
fn try_tick_refuses_out_of_range_and_keeps_state() {
    let mut w = one_player_world();
    let fast = PhysicsData {
        position: pt(500, 0),
        speed: PointFi32::new(Fi32::from_bits(1 << 27), Fi32::zero()),
        acceleration: pt(0, 0),
    };
    w.add_body(fast, circle(36), sprite(), None);
    let before = (w.physics.clone(), w.collisions.clone(), w.sprites.clone(), w.pilots.clone());
    let mut inputs = InputBuffer::new();
    inputs.push(set_of(&[Input::Move(Direction::Right)]));
    assert!(!w.try_tick(&inputs));
    assert_eq!((w.physics.clone(), w.collisions.clone(), w.sprites.clone(), w.pilots.clone()), before);
}

#[test]
fn try_tick_refuses_position_overflow() {
    let mut w = World::new();
    let edge = PhysicsData {
        position: PointFi32::new(Fi32::from_bits(i32::MAX - 10), Fi32::zero()),
        speed: PointFi32::new(Fi32::from_bits(100), Fi32::zero()),
        acceleration: pt(0, 0),
    };
    w.add_body(edge, CollisionData { mask: CollisionMask::Box, ..circle(1) }, sprite(), None);
    let inputs = InputBuffer::new();
    assert!(!w.try_tick(&inputs));
    assert_eq!(w.physics[0], edge);
}

#[test]
fn range_checks_of_each_stage() {
    assert!(steer_in_range(&at_rest(), &stats(), &idle()));
    let mut bad = stats();
    bad.max_speed = fx(-1);
    assert!(!steer_in_range(&at_rest(), &bad, &idle()));
    assert!(integrate_in_range(&at_rest()));
    let mut s = sprite();
    assert!(animate_in_range(&s));
    s.wrap = 0;
    assert!(!animate_in_range(&s));
    let ph = vec![at_rest(), PhysicsData { position: pt(50, 0), ..at_rest() }];
    let cd = vec![circle(36), circle(36)];
    assert!(collide_in_range(&ph, &cd));
    assert!(!collide_in_range(&ph, &cd[..1].to_vec()));
}
