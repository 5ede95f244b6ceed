use crate::components::{
    check_fits, overlaps, CollisionData, CollisionMask, CollisionStatus, PhysicsData, Sprite,
};
use crate::fi32::{
    abs, div_spec, dot_spec, fits, is_root, lemma_root_exists, lemma_sq_floor, lemma_unit_bound,
    lemma_unit_part_neg, mul_spec, root_of, sq_len, sq_wide, fits_wide, unit_part, Fi32,
    PointFi32, UNIT_BOUND,
};
use vstd::arithmetic::div_mod::lemma_fundamental_div_mod;
use vstd::prelude::*;

verus! {

/// Detects overlapping bodies and stops them from moving further into each other.
pub struct Collider;

/// Largest number of bodies the resolver takes in one pass.
pub const MAX_BODIES: usize = 1024;

/// Largest magnitude, in raw bits, of a speed or acceleration component that the
/// resolver takes.
pub const MOTION_LIMIT: i32 = 67108864;

/// Whether bodies `m` and `k` overlap, tested with the lower index first.
pub open spec fn pair_overlap(ph: Seq<PhysicsData>, cd: Seq<CollisionData>, m: int, k: int) -> bool {
    if m < k {
        overlaps(cd[m].mask, ph[m].position, cd[k].mask, ph[k].position)
    } else {
        overlaps(cd[k].mask, ph[k].position, cd[m].mask, ph[m].position)
    }
}

/// Whether `k` is another body that `m` overlaps.
pub open spec fn touching(ph: Seq<PhysicsData>, cd: Seq<CollisionData>, m: int, k: int) -> bool {
    k != m && pair_overlap(ph, cd, m, k)
}

/// Sum of the unit vectors pointing from each of the first `k` bodies that `m`
/// touches toward `m`.
pub open spec fn repel_upto(ph: Seq<PhysicsData>, cd: Seq<CollisionData>, m: int, k: int) -> (
    int,
    int,
)
    decreases k,
{
    if k <= 0 {
        (0, 0)
    } else {
        let (x, y) = repel_upto(ph, cd, m, k - 1);
        if touching(ph, cd, m, k - 1) {
            let dx = ph[m].position.x@ - ph[k - 1].position.x@;
            let dy = ph[m].position.y@ - ph[k - 1].position.y@;
            (x + unit_part(dx, dx, dy), y + unit_part(dy, dx, dy))
        } else {
            (x, y)
        }
    }
}

/// Whether `m` touches one of the first `k` bodies.
pub open spec fn touches_upto(ph: Seq<PhysicsData>, cd: Seq<CollisionData>, m: int, k: int) -> bool {
    exists|j: int| 0 <= j < k && #[trigger] touching(ph, cd, m, j)
}

/// The accumulated repel vector of body `m`.
pub open spec fn repel_of(ph: Seq<PhysicsData>, cd: Seq<CollisionData>, m: int) -> (int, int) {
    repel_upto(ph, cd, m, ph.len() as int)
}

/// Whether body `m` touches any other body.
pub open spec fn colliding_of(ph: Seq<PhysicsData>, cd: Seq<CollisionData>, m: int) -> bool {
    touches_upto(ph, cd, m, ph.len() as int)
}

/// Body `m`'s collision record after the pass.
pub open spec fn contact_spec(ph: Seq<PhysicsData>, cd: Seq<CollisionData>, m: int) -> CollisionData {
    CollisionData {
        status: CollisionStatus(colliding_of(ph, cd, m)),
        repel_vector: PointFi32 {
            x: Fi32 { bits: repel_of(ph, cd, m).0 as i32 },
            y: Fi32 { bits: repel_of(ph, cd, m).1 as i32 },
        },
        ..cd[m]
    }
}

/// Body `m`'s physics after the pass.
pub open spec fn resolved_of(ph: Seq<PhysicsData>, cd: Seq<CollisionData>, m: int) -> PhysicsData {
    resolve_spec(ph[m], repel_of(ph, cd, m).0, repel_of(ph, cd, m).1)
}

/// Body `m`'s sprite after the pass: it glows while it touches another body.
pub open spec fn glow_spec(ph: Seq<PhysicsData>, cd: Seq<CollisionData>, sp: Seq<Sprite>, m: int) -> Sprite {
    Sprite { glow: colliding_of(ph, cd, m), ..sp[m] }
}

/// A vector with its component along the unit-ish direction `(nx, ny)` removed
/// where that component points against the direction.
pub open spec fn clip_spec(vx: int, vy: int, nx: int, ny: int) -> (int, int) {
    let d = if dot_spec(vx, vy, nx, ny) < 0 {
        dot_spec(vx, vy, nx, ny)
    } else {
        0
    };
    (vx - mul_spec(nx, d), vy - mul_spec(ny, d))
}

/// The body after its speed and acceleration are clipped against its repel
/// vector `(rx, ry)`, normalized.
pub open spec fn resolve_spec(p: PhysicsData, rx: int, ry: int) -> PhysicsData {
    let nx = unit_part(rx, rx, ry);
    let ny = unit_part(ry, rx, ry);
    let (sx, sy) = clip_spec(p.speed.x@, p.speed.y@, nx, ny);
    let (ax, ay) = clip_spec(p.acceleration.x@, p.acceleration.y@, nx, ny);
    PhysicsData {
        speed: PointFi32 { x: Fi32 { bits: sx as i32 }, y: Fi32 { bits: sy as i32 } },
        acceleration: PointFi32 { x: Fi32 { bits: ax as i32 }, y: Fi32 { bits: ay as i32 } },
        ..p
    }
}

/// Speed and acceleration of a body are within `MOTION_LIMIT`.
pub open spec fn motion_ok(p: PhysicsData) -> bool {
    &&& abs(p.speed.x@) <= MOTION_LIMIT
    &&& abs(p.speed.y@) <= MOTION_LIMIT
    &&& abs(p.acceleration.x@) <= MOTION_LIMIT
    &&& abs(p.acceleration.y@) <= MOTION_LIMIT
}

/// The overlap test of `i` against `j` and the offset between them stay in range.
pub open spec fn pair_fits(ph: Seq<PhysicsData>, cd: Seq<CollisionData>, i: int, j: int) -> bool {
    let dx = ph[i].position.x@ - ph[j].position.x@;
    let dy = ph[i].position.y@ - ph[j].position.y@;
    &&& check_fits(cd[i].mask, ph[i].position, cd[j].mask, ph[j].position)
    &&& fits(dx) && fits(dy) && fits(sq_len(dx, dy))
}

/// Every fixed-point step of one resolver pass stays in range.
pub open spec fn collider_fits(ph: Seq<PhysicsData>, cd: Seq<CollisionData>) -> bool {
    &&& ph.len() == cd.len()
    &&& ph.len() <= MAX_BODIES
    &&& forall|i: int| 0 <= i < ph.len() ==> #[trigger] motion_ok(ph[i])
    &&& forall|i: int, j: int|
        0 <= i < ph.len() && 0 <= j < ph.len() && i != j ==> #[trigger] pair_fits(ph, cd, i, j)
}

/// A product of bounded values is bounded.
pub proof fn lemma_mul_bound(a: int, b: int, ba: int, bb: int)
    requires
        abs(a) <= ba,
        abs(b) <= bb,
    ensures
        abs(mul_spec(a, b)) <= (ba * bb) / 128 + 1,
{
    assert(abs(a * b) <= ba * bb) by (nonlinear_arith)
        requires
            abs(a) <= ba,
            abs(b) <= bb,
    ;
    lemma_fundamental_div_mod(a * b, 128);
    lemma_fundamental_div_mod(ba * bb, 128);
}

proof fn lemma_repel_bound(ph: Seq<PhysicsData>, cd: Seq<CollisionData>, m: int, k: int)
    requires
        0 <= k,
    ensures
        abs(repel_upto(ph, cd, m, k).0) <= UNIT_BOUND * k,
        abs(repel_upto(ph, cd, m, k).1) <= UNIT_BOUND * k,
    decreases k,
{
    if k > 0 {
        lemma_repel_bound(ph, cd, m, k - 1);
        let dx = ph[m].position.x@ - ph[k - 1].position.x@;
        let dy = ph[m].position.y@ - ph[k - 1].position.y@;
        lemma_unit_bound(dx, dx, dy);
        lemma_unit_bound(dy, dx, dy);
    }
}

/// The repel vector of a body has components within `UNIT_BOUND * MAX_BODIES`,
/// so its normalization stays in range.
proof fn lemma_repel_fits(ph: Seq<PhysicsData>, cd: Seq<CollisionData>, m: int)
    requires
        ph.len() <= MAX_BODIES,
    ensures
        abs(repel_of(ph, cd, m).0) <= UNIT_BOUND * MAX_BODIES,
        abs(repel_of(ph, cd, m).1) <= UNIT_BOUND * MAX_BODIES,
        fits(sq_len(repel_of(ph, cd, m).0, repel_of(ph, cd, m).1)),
{
    lemma_repel_bound(ph, cd, m, ph.len() as int);
    let (x, y) = repel_of(ph, cd, m);
    lemma_mul_bound(x, x, 262144, 262144);
    lemma_mul_bound(y, y, 262144, 262144);
    crate::fi32::lemma_sq_floor(x);
    crate::fi32::lemma_sq_floor(y);
}

/// Clipping a bounded vector against a unit-ish direction stays in range.
proof fn lemma_clip_fits(vx: int, vy: int, nx: int, ny: int)
    requires
        abs(vx) <= MOTION_LIMIT,
        abs(vy) <= MOTION_LIMIT,
        abs(nx) <= UNIT_BOUND,
        abs(ny) <= UNIT_BOUND,
    ensures
        fits(mul_spec(vx, nx)),
        fits(mul_spec(vy, ny)),
        fits(dot_spec(vx, vy, nx, ny)),
        ({
            let d = if dot_spec(vx, vy, nx, ny) < 0 {
                dot_spec(vx, vy, nx, ny)
            } else {
                0
            };
            &&& fits(mul_spec(nx, d)) && fits(mul_spec(ny, d))
            &&& fits(vx - mul_spec(nx, d)) && fits(vy - mul_spec(ny, d))
        }),
{
    lemma_mul_bound(vx, nx, MOTION_LIMIT as int, UNIT_BOUND as int);
    lemma_mul_bound(vy, ny, MOTION_LIMIT as int, UNIT_BOUND as int);
    let d = if dot_spec(vx, vy, nx, ny) < 0 {
        dot_spec(vx, vy, nx, ny)
    } else {
        0
    };
    assert(abs(d) <= 268435458);
    lemma_mul_bound(nx, d, UNIT_BOUND as int, 268435458);
    lemma_mul_bound(ny, d, UNIT_BOUND as int, 268435458);
}

/// Two bodies alone: when they overlap, both are marked colliding and their
/// repel vectors are exact opposites; when they do not, neither is marked and
/// both repel vectors are zero.
pub proof fn lemma_pair_symmetry(ph: Seq<PhysicsData>, cd: Seq<CollisionData>)
    requires
        ph.len() == 2,
        cd.len() == 2,
    ensures
        overlaps(cd[0].mask, ph[0].position, cd[1].mask, ph[1].position) ==> {
            &&& colliding_of(ph, cd, 0)
            &&& colliding_of(ph, cd, 1)
            &&& repel_of(ph, cd, 0).0 == -repel_of(ph, cd, 1).0
            &&& repel_of(ph, cd, 0).1 == -repel_of(ph, cd, 1).1
        },
        !overlaps(cd[0].mask, ph[0].position, cd[1].mask, ph[1].position) ==> {
            &&& !colliding_of(ph, cd, 0)
            &&& !colliding_of(ph, cd, 1)
            &&& repel_of(ph, cd, 0) == (0int, 0int)
            &&& repel_of(ph, cd, 1) == (0int, 0int)
        },
{
    let dx = ph[0].position.x@ - ph[1].position.x@;
    let dy = ph[0].position.y@ - ph[1].position.y@;
    assert(ph[1].position.x@ - ph[0].position.x@ == -dx);
    assert(ph[1].position.y@ - ph[0].position.y@ == -dy);
    lemma_unit_part_neg(dx, dy);
    assert(repel_upto(ph, cd, 0, 1) == (0int, 0int)) by {
        assert(!touching(ph, cd, 0, 0));
        assert(repel_upto(ph, cd, 0, 0) == (0int, 0int));
    }
    assert(repel_upto(ph, cd, 1, 0) == (0int, 0int));
    assert(pair_overlap(ph, cd, 1, 0) == pair_overlap(ph, cd, 0, 1));
    assert(!touching(ph, cd, 1, 1));
    assert(ph.len() as int == 2);
    if overlaps(cd[0].mask, ph[0].position, cd[1].mask, ph[1].position) {
        assert(touching(ph, cd, 0, 1));
        assert(touching(ph, cd, 1, 0));
        assert(repel_upto(ph, cd, 0, 2) == (unit_part(dx, dx, dy), unit_part(dy, dx, dy)));
        assert(repel_upto(ph, cd, 1, 1) == (unit_part(-dx, -dx, -dy), unit_part(-dy, -dx, -dy)));
        assert(repel_upto(ph, cd, 1, 2) == repel_upto(ph, cd, 1, 1));
        assert(colliding_of(ph, cd, 0));
        assert(colliding_of(ph, cd, 1));
    } else {
        assert(repel_upto(ph, cd, 0, 2) == repel_upto(ph, cd, 0, 1));
        assert(repel_upto(ph, cd, 1, 1) == repel_upto(ph, cd, 1, 0));
        assert(repel_upto(ph, cd, 1, 2) == repel_upto(ph, cd, 1, 1));
        assert(!touching(ph, cd, 0, 1));
        assert(!touching(ph, cd, 1, 0));
        assert(!touching(ph, cd, 0, 0));
        assert(!colliding_of(ph, cd, 0)) by {
            assert forall|j: int| 0 <= j < 2 implies !#[trigger] touching(ph, cd, 0, j) by {
                assert(j == 0 || j == 1);
            }
        }
        assert(!colliding_of(ph, cd, 1)) by {
            assert forall|j: int| 0 <= j < 2 implies !#[trigger] touching(ph, cd, 1, j) by {
                assert(j == 0 || j == 1);
            }
        }
    }
}

/// A horizontal direction normalizes to a unit vector that is at least one
/// whole unit long, or to zero.
proof fn lemma_horizontal_unit(rx: int)
    requires
        fits(sq_len(rx, 0)),
    ensures
        unit_part(0, rx, 0) == 0,
        unit_part(rx, rx, 0) == 0 || abs(unit_part(rx, rx, 0)) >= 128,
        rx > 0 ==> unit_part(rx, rx, 0) >= 0,
        rx < 0 ==> unit_part(rx, rx, 0) <= 0,
{
    let v = sq_len(rx, 0);
    lemma_sq_floor(rx);
    lemma_sq_floor(0);
    lemma_root_exists(v);
    let l = root_of(v);
    assert(is_root(v, l));
    if l != 0 {
        assert(128 * mul_spec(rx, rx) <= rx * rx) by {
            lemma_fundamental_div_mod(rx * rx, 128);
        }
        assert(l <= abs(rx)) by (nonlinear_arith)
            requires
                l > 0,
                l * l <= 128 * v,
                v == mul_spec(rx, rx),
                128 * mul_spec(rx, rx) <= rx * rx,
        ;
        let q = abs(128 * rx) / l;
        lemma_fundamental_div_mod(abs(128 * rx), l);
        assert(q >= 128) by (nonlinear_arith)
            requires
                l > 0,
                abs(128 * rx) == l * q + abs(128 * rx) % l,
                abs(128 * rx) % l < l,
                l <= abs(rx),
                abs(128 * rx) == 128 * abs(rx),
        ;
        assert(div_spec(0, l) == 0);
    }
}

/// Clipping against a horizontal direction of at least unit length leaves no
/// component against that direction.
proof fn lemma_clip_horizontal(vx: int, vy: int, u: int)
    requires
        abs(u) >= 128,
    ensures
        dot_spec(clip_spec(vx, vy, u, 0).0, clip_spec(vx, vy, u, 0).1, u, 0) >= 0,
{
    let t = vx * u;
    lemma_fundamental_div_mod(t, 128);
    assert(mul_spec(vy, 0) == 0);
    let d0 = mul_spec(vx, u);
    if d0 < 0 {
        let d = d0;
        lemma_fundamental_div_mod(u * d, 128);
        let c = vx - mul_spec(u, d);
        assert(mul_spec(0, d) == 0);
        if u > 0 {
            assert(c >= 0) by (nonlinear_arith)
                requires
                    u >= 128,
                    128 * d <= vx * u,
                    d < 0,
                    128 * mul_spec(u, d) <= u * d,
                    c == vx - mul_spec(u, d),
            ;
            assert(c * u >= 0) by (nonlinear_arith)
                requires
                    c >= 0,
                    u > 0,
            ;
        } else {
            assert(c <= 0) by (nonlinear_arith)
                requires
                    u <= -128,
                    128 * d <= vx * u,
                    d < 0,
                    128 * mul_spec(u, d) > u * d - 128,
                    c == vx - mul_spec(u, d),
            ;
            assert(c * u >= 0) by (nonlinear_arith)
                requires
                    c <= 0,
                    u < 0,
            ;
        }
        lemma_fundamental_div_mod(c * u, 128);
    } else {
        assert(mul_spec(u, 0) == 0);
        assert(mul_spec(0, 0) == 0);
    }
}

/// Where every body that `m` touches sits level with it, so that its repel
/// vector is horizontal, the resolver leaves `m` with no speed or acceleration
/// into the bodies it touches: the dot product of each with the normalized
/// repel vector is not negative.
pub proof fn lemma_no_closing_motion(ph: Seq<PhysicsData>, cd: Seq<CollisionData>, m: int)
    requires
        collider_fits(ph, cd),
        0 <= m < ph.len(),
        repel_of(ph, cd, m).1 == 0,
    ensures
        ({
            let (rx, ry) = repel_of(ph, cd, m);
            let nx = unit_part(rx, rx, ry);
            let ny = unit_part(ry, rx, ry);
            let p = resolved_of(ph, cd, m);
            &&& dot_spec(p.speed.x@, p.speed.y@, nx, ny) >= 0
            &&& dot_spec(p.acceleration.x@, p.acceleration.y@, nx, ny) >= 0
        }),
{
    let (rx, ry) = repel_of(ph, cd, m);
    lemma_repel_fits(ph, cd, m);
    lemma_horizontal_unit(rx);
    lemma_unit_bound(rx, rx, ry);
    let nx = unit_part(rx, rx, ry);
    let p = ph[m];
    assert(motion_ok(p));
    lemma_clip_fits(p.speed.x@, p.speed.y@, nx, 0);
    lemma_clip_fits(p.acceleration.x@, p.acceleration.y@, nx, 0);
    if nx == 0 {
        assert(mul_spec(0, 0) == 0);
        let q = resolved_of(ph, cd, m);
        assert(dot_spec(q.speed.x@, q.speed.y@, 0, 0) == 0);
        assert(dot_spec(q.acceleration.x@, q.acceleration.y@, 0, 0) == 0);
    } else {
        lemma_clip_horizontal(p.speed.x@, p.speed.y@, nx);
        lemma_clip_horizontal(p.acceleration.x@, p.acceleration.y@, nx);
    }
}

/// Tells whether `x*x + y*y` in fixed point stays in range, for `x` and `y` in range.
fn sq_len_in_range(x: i64, y: i64) -> (r: bool)
    requires
        fits(x as int),
        fits(y as int),
    ensures
        r == fits(sq_len(x as int, y as int)),
{
    proof {
        lemma_sq_floor(x as int);
        lemma_sq_floor(y as int);
    }
    sq_wide(x) + sq_wide(y) <= i32::MAX as u64
}

/// Tells whether the overlap test of two masks at these positions stays in range.
pub fn check_in_range(m1: &CollisionMask, p1: PointFi32, m2: &CollisionMask, p2: PointFi32) -> (r:
    bool)
    ensures
        r == check_fits(*m1, p1, *m2, p2),
{
    match (m1, m2) {
        (CollisionMask::Circle(c1, r1), CollisionMask::Circle(c2, r2)) => {
            let ax = p1.x.to_bits() as i64 + c1.x.to_bits() as i64;
            let ay = p1.y.to_bits() as i64 + c1.y.to_bits() as i64;
            let bx = p2.x.to_bits() as i64 + c2.x.to_bits() as i64;
            let by = p2.y.to_bits() as i64 + c2.y.to_bits() as i64;
            if !(fits_wide(ax) && fits_wide(ay) && fits_wide(bx) && fits_wide(by)) {
                return false;
            }
            if !(fits_wide(ax - bx) && fits_wide(ay - by)) {
                return false;
            }
            if !sq_len_in_range(ax - bx, ay - by) {
                return false;
            }
            let reach = r1.to_bits() as i64 + r2.to_bits() as i64;
            if !fits_wide(reach) {
                return false;
            }
            sq_wide(reach) <= i32::MAX as u64
        },
        _ => true,
    }
}

/// Tells whether the overlap test of `i` against `j` and their offset stay in range.
fn pair_in_range(ph: &Vec<PhysicsData>, cd: &Vec<CollisionData>, i: usize, j: usize) -> (r: bool)
    requires
        i < ph@.len(),
        j < ph@.len(),
        ph@.len() == cd@.len(),
    ensures
        r == pair_fits(ph@, cd@, i as int, j as int),
{
    if !check_in_range(&cd[i].mask, ph[i].position, &cd[j].mask, ph[j].position) {
        return false;
    }
    let dx = ph[i].position.x.to_bits() as i64 - ph[j].position.x.to_bits() as i64;
    let dy = ph[i].position.y.to_bits() as i64 - ph[j].position.y.to_bits() as i64;
    fits_wide(dx) && fits_wide(dy) && sq_len_in_range(dx, dy)
}

/// Tells whether speed and acceleration are within `MOTION_LIMIT`.
fn motion_in_range(p: &PhysicsData) -> (r: bool)
    ensures
        r == motion_ok(*p),
{
    let lim = MOTION_LIMIT as i64;
    let sx = p.speed.x.to_bits() as i64;
    let sy = p.speed.y.to_bits() as i64;
    let ax = p.acceleration.x.to_bits() as i64;
    let ay = p.acceleration.y.to_bits() as i64;
    -lim <= sx && sx <= lim && -lim <= sy && sy <= lim && -lim <= ax && ax <= lim && -lim <= ay
        && ay <= lim
}

/// Tells whether one resolver pass over these bodies stays in range.
pub fn collide_in_range(ph: &Vec<PhysicsData>, cd: &Vec<CollisionData>) -> (r: bool)
    ensures
        r == collider_fits(ph@, cd@),
{
    let n = ph.len();
    if cd.len() != n || n > MAX_BODIES {
        return false;
    }
    let mut i: usize = 0;
    while i < n
        invariant
            n == ph@.len(),
            i <= n,
            forall|k: int| 0 <= k < i ==> #[trigger] motion_ok(ph@[k]),
        decreases n - i,
    {
        if !motion_in_range(&ph[i]) {
            return false;
        }
        i = i + 1;
    }
    let mut i: usize = 0;
    while i < n
        invariant
            n == ph@.len(),
            n == cd@.len(),
            i <= n,
            forall|a: int, b: int|
                0 <= a < i && 0 <= b < n && a != b ==> #[trigger] pair_fits(ph@, cd@, a, b),
        decreases n - i,
    {
        let mut j: usize = 0;
        while j < n
            invariant
                n == ph@.len(),
                n == cd@.len(),
                i < n,
                j <= n,
                forall|a: int, b: int|
                    0 <= a < i && 0 <= b < n && a != b ==> #[trigger] pair_fits(ph@, cd@, a, b),
                forall|b: int| 0 <= b < j && b != i ==> #[trigger] pair_fits(ph@, cd@, i as int, b),
            decreases n - j,
        {
            if j != i && !pair_in_range(ph, cd, i, j) {
                return false;
            }
            j = j + 1;
        }
        i = i + 1;
    }
    true
}

impl Collider {
    /// Clips `v` against the direction `dir`: removes the part of `v` that
    /// points against `dir`.
    fn clip(v: PointFi32, dir: PointFi32) -> (r: PointFi32)
        requires
            abs(v.x@) <= MOTION_LIMIT,
            abs(v.y@) <= MOTION_LIMIT,
            abs(dir.x@) <= UNIT_BOUND,
            abs(dir.y@) <= UNIT_BOUND,
        ensures
            (r.x@, r.y@) == clip_spec(v.x@, v.y@, dir.x@, dir.y@),
    {
        proof {
            lemma_clip_fits(v.x@, v.y@, dir.x@, dir.y@);
        }
        let d = v.dot(dir).min(Fi32::zero());
        v.sub(dir.mul(d))
    }

    /// Contact flag and repel vector of body `m`.
    fn contacts(ph: &Vec<PhysicsData>, cd: &Vec<CollisionData>, m: usize) -> (r: (bool, PointFi32))
        requires
            collider_fits(ph@, cd@),
            m < ph@.len(),
        ensures
            r.0 == colliding_of(ph@, cd@, m as int),
            (r.1.x@, r.1.y@) == repel_of(ph@, cd@, m as int),
    {
        let n = cd.len();
        let mut colliding = false;
        let mut repel = PointFi32::zero();
        let mut k: usize = 0;
        while k < n
            invariant
                n == ph@.len(),
                collider_fits(ph@, cd@),
                m < n,
                k <= n,
                colliding == touches_upto(ph@, cd@, m as int, k as int),
                (repel.x@, repel.y@) == repel_upto(ph@, cd@, m as int, k as int),
            decreases n - k,
        {
            proof {
                lemma_repel_bound(ph@, cd@, m as int, k as int);
                lemma_repel_bound(ph@, cd@, m as int, k as int + 1);
            }
            if k != m {
                assert(pair_fits(ph@, cd@, m as int, k as int));
                assert(pair_fits(ph@, cd@, k as int, m as int));
                let hit = if m < k {
                    cd[m].mask.check(ph[m].position, &cd[k].mask, ph[k].position)
                } else {
                    cd[k].mask.check(ph[k].position, &cd[m].mask, ph[m].position)
                };
                if hit {
                    colliding = true;
                    let away = ph[m].position.sub(ph[k].position).normalize();
                    repel.add_assign(away);
                }
                proof {
                    if hit {
                        assert(touching(ph@, cd@, m as int, k as int));
                    } else if !colliding {
                        assert forall|j: int| 0 <= j < k + 1 implies !#[trigger] touching(
                            ph@,
                            cd@,
                            m as int,
                            j,
                        ) by {
                            if j < k {
                                assert(!touches_upto(ph@, cd@, m as int, k as int));
                            }
                        }
                    }
                }
            } else {
                proof {
                    if !colliding {
                        assert forall|j: int| 0 <= j < k + 1 implies !#[trigger] touching(
                            ph@,
                            cd@,
                            m as int,
                            j,
                        ) by {
                            if j < k {
                                assert(!touches_upto(ph@, cd@, m as int, k as int));
                            }
                        }
                    }
                }
            }
            k = k + 1;
        }
        (colliding, repel)
    }

    /// Runs one resolver pass over all bodies. `physics_datas[i]`,
    /// `collision_datas[i]` and `sprites[i]` belong to the same body.
    pub fn run(
        &self,
        physics_datas: &mut Vec<PhysicsData>,
        collision_datas: &mut Vec<CollisionData>,
        sprites: &mut Vec<Sprite>,
    )
        requires
            collider_fits(old(physics_datas)@, old(collision_datas)@),
            old(sprites)@.len() == old(physics_datas)@.len(),
        ensures
            final(physics_datas)@.len() == old(physics_datas)@.len(),
            final(collision_datas)@.len() == old(collision_datas)@.len(),
            final(sprites)@.len() == old(sprites)@.len(),
            forall|m: int|
                0 <= m < old(physics_datas)@.len() ==> #[trigger] final(collision_datas)@[m]
                    == contact_spec(old(physics_datas)@, old(collision_datas)@, m),
            forall|m: int|
                0 <= m < old(physics_datas)@.len() ==> #[trigger] final(physics_datas)@[m]
                    == resolved_of(old(physics_datas)@, old(collision_datas)@, m),
            forall|m: int|
                0 <= m < old(physics_datas)@.len() ==> #[trigger] final(sprites)@[m] == glow_spec(
                    old(physics_datas)@,
                    old(collision_datas)@,
                    old(sprites)@,
                    m,
                ),
    {
        let ghost ph0 = physics_datas@;
        let ghost cd0 = collision_datas@;
        let ghost sp0 = sprites@;
        let n = collision_datas.len();
        let mut found: Vec<(bool, PointFi32)> = Vec::new();
        let mut m: usize = 0;
        while m < n
            invariant
                n == ph0.len(),
                collider_fits(ph0, cd0),
                physics_datas@ == ph0,
                collision_datas@ == cd0,
                m <= n,
                found@.len() == m,
                forall|i: int|
                    0 <= i < m ==> {
                        &&& (#[trigger] found@[i]).0 == colliding_of(ph0, cd0, i)
                        &&& (found@[i].1.x@, found@[i].1.y@) == repel_of(ph0, cd0, i)
                    },
            decreases n - m,
        {
            found.push(Collider::contacts(physics_datas, collision_datas, m));
            m = m + 1;
        }
        let mut m: usize = 0;
        while m < n
            invariant
                n == ph0.len(),
                collider_fits(ph0, cd0),
                found@.len() == n,
                forall|i: int|
                    0 <= i < n ==> {
                        &&& (#[trigger] found@[i]).0 == colliding_of(ph0, cd0, i)
                        &&& (found@[i].1.x@, found@[i].1.y@) == repel_of(ph0, cd0, i)
                    },
                physics_datas@.len() == n,
                collision_datas@.len() == n,
                sprites@.len() == n,
                sp0.len() == n,
                m <= n,
                forall|i: int| m <= i < n ==> #[trigger] physics_datas@[i] == ph0[i],
                forall|i: int| m <= i < n ==> #[trigger] collision_datas@[i] == cd0[i],
                forall|i: int| m <= i < n ==> #[trigger] sprites@[i] == sp0[i],
                forall|i: int|
                    0 <= i < m ==> #[trigger] collision_datas@[i] == contact_spec(ph0, cd0, i),
                forall|i: int| 0 <= i < m ==> #[trigger] physics_datas@[i] == resolved_of(ph0, cd0, i),
                forall|i: int| 0 <= i < m ==> #[trigger] sprites@[i] == glow_spec(ph0, cd0, sp0, i),
            decreases n - m,
        {
            let (colliding, repel) = found[m];
            let mut c = collision_datas[m];
            c.status = CollisionStatus(colliding);
            c.repel_vector = repel;
            collision_datas.set(m, c);
            proof {
                lemma_repel_fits(ph0, cd0, m as int);
                assert(motion_ok(ph0[m as int]));
            }
            let dir = c.repel_vector.normalize();
            let mut p = physics_datas[m];
            p.speed = Collider::clip(p.speed, dir);
            p.acceleration = Collider::clip(p.acceleration, dir);
            physics_datas.set(m, p);
            let mut sp = sprites[m];
            sp.glow = c.status.0;
            sprites.set(m, sp);
            m = m + 1;
        }
    }
}

} // verus!
