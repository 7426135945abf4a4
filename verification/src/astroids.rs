//! Obstacles: where they appear, how they drift and how they spin.

use vstd::prelude::*;
use rand::Rng;
use crate::collision_detection::circles_overlap;
use crate::collision_detection::ColliderKind;
use crate::movement::Transform;
use crate::spaceship::find_player;
use crate::spaceship::player_index;
use crate::spawn_timer::lemma_timer_after;
use crate::tuning::ACCELERATION_SCALAR;
use crate::tuning::ASTEROID_RADIUS;
use crate::tuning::DIRECTION_SPAN;
use crate::tuning::MAX_SPAWN_ATTEMPTS;
use crate::tuning::ROTATE_SPEED;
use crate::tuning::SPACESHIP_RADIUS;
use crate::tuning::SPAWN_CLEARANCE;
use crate::tuning::SPAWN_MAX_X;
use crate::tuning::SPAWN_MAX_Z;
use crate::tuning::SPAWN_MIN_X;
use crate::tuning::SPAWN_MIN_Z;
use crate::tuning::VELOCITY_SCALAR;
use crate::vector::advance;
use crate::vector::advanced;
use crate::vector::clamp;
use crate::vector::farther_than;
use crate::vector::saturate;
use crate::vector::Vec3;
use crate::world::Command;
use crate::world::EntityState;
use crate::world::SceneAssets;
use crate::world::SpawnRequest;
use crate::world::World;
use crate::world::WorldState;

verus! {

/// Draws an integer from `low` up to, not including, `high`.
///
/// This is `rand::Rng::gen_range` on the generator of the current thread,
/// `rand::thread_rng`, with the half-open range `low..high`. It panics on an
/// empty range, which the precondition rules out, and returns a value of the
/// range. Which value is a matter of chance: nothing more is claimed of it.
#[verifier::external_body]
fn random_in(low: i64, high: i64) -> (r: i64)
    requires
        low < high,
    ensures
        low <= r < high,
{
    rand::thread_rng().gen_range(low..high)
}

/// Whether `r` is the square root of `n` rounded up.
pub open spec fn is_ceil_sqrt(n: int, r: int) -> bool {
    &&& r >= 0
    &&& r * r >= n
    &&& r == 0 || (r - 1) * (r - 1) < n
}

/// The square root of `n` rounded up.
pub open spec fn ceil_sqrt_of(n: int) -> int {
    choose|r: int| is_ceil_sqrt(n, r)
}

/// There is only one rounded-up square root.
pub proof fn lemma_ceil_sqrt_unique(n: int, r: int)
    requires
        is_ceil_sqrt(n, r),
    ensures
        ceil_sqrt_of(n) == r,
{
    let c = ceil_sqrt_of(n);
    assert(is_ceil_sqrt(n, c));
    assert(c == r) by (nonlinear_arith)
        requires
            c >= 0,
            r >= 0,
            c * c >= n,
            r * r >= n,
            c == 0 || (c - 1) * (c - 1) < n,
            r == 0 || (r - 1) * (r - 1) < n,
    ;
}

/// Computes the square root of `n` rounded up, by bisection.
fn ceil_sqrt(n: u128) -> (r: u128)
    ensures
        r as int == ceil_sqrt_of(n as int),
        is_ceil_sqrt(n as int, r as int),
        r <= 0x1_0000_0000_0000_0000,
{
    if n == 0 {
        proof {
            lemma_ceil_sqrt_unique(0, 0);
        }
        return 0;
    }
    let mut low: u128 = 0;
    let mut high: u128 = 0x1_0000_0000_0000_0000;
    assert(n <= high * high) by (nonlinear_arith)
        requires
            high == 0x1_0000_0000_0000_0000,
            n <= 0xffff_ffff_ffff_ffff_ffff_ffff_ffff_ffff,
    ;
    while high - low > 1
        invariant
            low < high <= 0x1_0000_0000_0000_0000,
            low * low < n,
            n <= high * high,
        decreases high - low,
    {
        let mid: u128 = low + (high - low) / 2;
        assert(mid * mid <= 0xffff_ffff_ffff_ffff * 0xffff_ffff_ffff_ffff) by (nonlinear_arith)
            requires
                0 <= mid <= 0xffff_ffff_ffff_ffff,
        ;
        if mid * mid >= n {
            high = mid;
        } else {
            low = mid;
        }
    }
    proof {
        lemma_ceil_sqrt_unique(n as int, high as int);
    }
    high
}

/// The quotient of `a` by a positive `b`, rounded toward zero.
pub open spec fn trunc_div(a: int, b: int) -> int {
    if a >= 0 {
        a / b
    } else {
        -((-a) / b)
    }
}

/// One component of a direction: `c * magnitude / len`, rounded toward zero
/// and saturated.
pub open spec fn direction_component(c: int, magnitude: int, len: int) -> int {
    clamp(trunc_div(c * magnitude, len))
}

/// The horizontal vector that points the way of `(x, z)` and is `magnitude`
/// long, as nearly as integers allow: each component is scaled by `magnitude`
/// over the rounded-up length of `(x, z)`. The draw `(0, 0)` points nowhere
/// and gives the zero vector.
pub open spec fn direction_of(x: int, z: int, magnitude: int) -> Vec3 {
    let len = ceil_sqrt_of(x * x + z * z);
    if len == 0 {
        Vec3::origin()
    } else {
        Vec3 {
            x: direction_component(x, magnitude, len) as i64,
            y: 0,
            z: direction_component(z, magnitude, len) as i64,
        }
    }
}

/// Computes one component of a direction.
fn component(c: i64, magnitude: i64, len: u128) -> (r: i64)
    requires
        0 < len <= 0x1_0000_0000_0000_0000,
    ensures
        r as int == direction_component(c as int, magnitude as int, len as int),
{
    assert(-0x4000_0000_0000_0000_0000_0000_0000_0000 <= (c as int) * (magnitude as int)
        <= 0x4000_0000_0000_0000_0000_0000_0000_0000) by (nonlinear_arith)
        requires
            -0x8000_0000_0000_0000 <= c as int <= 0x7fff_ffff_ffff_ffff,
            -0x8000_0000_0000_0000 <= magnitude as int <= 0x7fff_ffff_ffff_ffff,
    ;
    let product: i128 = (c as i128) * (magnitude as i128);
    let divisor: i128 = len as i128;
    if product >= 0 {
        let q: i128 = product / divisor;
        saturate(q)
    } else {
        let q: i128 = (-product) / divisor;
        assert(0 <= q <= -product) by (nonlinear_arith)
            requires
                q as int == (-(product as int)) / (divisor as int),
                divisor > 0,
                -product >= 0,
        ;
        saturate(-q)
    }
}

/// The square of a coordinate; it fits in 126 bits.
fn square(c: i64) -> (s: u128)
    ensures
        s as int == c * c,
        s <= 0x4000_0000_0000_0000_0000_0000_0000_0000,
{
    let m: u128 = if c < 0 {
        (-(c as i128)) as u128
    } else {
        c as u128
    };
    assert(m * m <= 0x4000_0000_0000_0000_0000_0000_0000_0000 && m * m == c * c)
        by (nonlinear_arith)
        requires
            0 <= m <= 0x8000_0000_0000_0000,
            m == c || m == -c,
    ;
    m * m
}

/// Computes the horizontal vector that points the way of `(x, z)` and is
/// `magnitude` long.
pub fn direction(x: i64, z: i64, magnitude: i64) -> (v: Vec3)
    ensures
        v == direction_of(x as int, z as int, magnitude as int),
{
    let len = ceil_sqrt(square(x) + square(z));
    if len == 0 {
        Vec3::zero()
    } else {
        Vec3 { x: component(x, magnitude, len), y: 0, z: component(z, magnitude, len) }
    }
}

/// The size of a truncated quotient: `q` is `p / len` rounded toward zero, so
/// its square times the square of `len` is at most the square of `p`.
proof fn lemma_trunc_div_square(p: int, len: int)
    requires
        len > 0,
    ensures
        trunc_div(p, len) * trunc_div(p, len) * (len * len) <= p * p,
{
    let a = if p >= 0 {
        p
    } else {
        -p
    };
    let q = a / len;
    assert(0 <= q * len <= a) by (nonlinear_arith)
        requires
            q == a / len,
            a >= 0,
            len > 0,
    ;
    assert(q * q * (len * len) <= a * a) by (nonlinear_arith)
        requires
            0 <= q * len <= a,
    ;
    assert(a * a == p * p) by (nonlinear_arith)
        requires
            a == p || a == -p,
    ;
    assert(trunc_div(p, len) * trunc_div(p, len) == q * q) by (nonlinear_arith)
        requires
            trunc_div(p, len) == q || trunc_div(p, len) == -q,
    ;
}

/// A direction is horizontal and never longer than the magnitude asked for.
pub proof fn lemma_direction_bounded(x: int, z: int, magnitude: int)
    requires
        0 <= magnitude <= i64::MAX,
    ensures
        direction_of(x, z, magnitude).y == 0,
        direction_of(x, z, magnitude).x * direction_of(x, z, magnitude).x + direction_of(
            x,
            z,
            magnitude,
        ).z * direction_of(x, z, magnitude).z <= magnitude * magnitude,
{
    let n = x * x + z * z;
    assert(n >= 0) by (nonlinear_arith)
        requires
            n == x * x + z * z,
    ;
    lemma_ceil_sqrt_exists(n);
    let len = ceil_sqrt_of(n);
    if len > 0 {
        let qx = trunc_div(x * magnitude, len);
        let qz = trunc_div(z * magnitude, len);
        lemma_trunc_div_square(x * magnitude, len);
        lemma_trunc_div_square(z * magnitude, len);
        let a = qx * qx;
        let b = qz * qz;
        let l2 = len * len;
        let m2 = magnitude * magnitude;
        assert((x * magnitude) * (x * magnitude) == (x * x) * m2) by (nonlinear_arith)
            requires
                m2 == magnitude * magnitude,
        ;
        assert((z * magnitude) * (z * magnitude) == (z * z) * m2) by (nonlinear_arith)
            requires
                m2 == magnitude * magnitude,
        ;
        assert(l2 > 0 && m2 >= 0) by (nonlinear_arith)
            requires
                l2 == len * len,
                m2 == magnitude * magnitude,
                len > 0,
        ;
        assert((a + b) * l2 <= l2 * m2) by (nonlinear_arith)
            requires
                a * l2 <= (x * x) * m2,
                b * l2 <= (z * z) * m2,
                l2 >= x * x + z * z,
                m2 >= 0,
        ;
        assert(a + b <= m2) by (nonlinear_arith)
            requires
                (a + b) * l2 <= l2 * m2,
                l2 > 0,
        ;
        assert(-magnitude <= qx <= magnitude && -magnitude <= qz <= magnitude)
            by (nonlinear_arith)
            requires
                qx * qx + qz * qz <= magnitude * magnitude,
                magnitude >= 0,
        ;
    }
}

/// Every number that is not negative has a rounded-up square root.
pub proof fn lemma_ceil_sqrt_exists(n: int)
    requires
        n >= 0,
    ensures
        is_ceil_sqrt(n, ceil_sqrt_of(n)),
    decreases n,
{
    if n == 0 {
        assert(is_ceil_sqrt(0, 0));
    } else {
        lemma_ceil_sqrt_exists(n - 1);
        let r = ceil_sqrt_of(n - 1);
        if r * r >= n {
            assert(is_ceil_sqrt(n, r));
        } else {
            assert(is_ceil_sqrt(n, r + 1)) by (nonlinear_arith)
                requires
                    r >= 0,
                    r * r >= n - 1,
                    r * r < n,
            ;
        }
    }
}

/// Whether `p` lies in the region where obstacles appear.
pub open spec fn in_spawn_region(p: Vec3) -> bool {
    SPAWN_MIN_X <= p.x < SPAWN_MAX_X && p.y == 0 && SPAWN_MIN_Z <= p.z < SPAWN_MAX_Z
}

/// Whether `p` keeps the clearance from a craft at `craft`: the two are
/// farther apart than twice the sum of the radii of a craft and an obstacle.
pub open spec fn has_clearance(p: Vec3, craft: Vec3) -> bool {
    farther_than(p, craft, SPAWN_CLEARANCE as int)
}

/// Whether `v` is a direction of the given magnitude for some draw from the
/// direction square.
pub open spec fn is_random_direction(v: Vec3, magnitude: int) -> bool {
    exists|x: int, z: int|
        -DIRECTION_SPAN <= x < DIRECTION_SPAN && -DIRECTION_SPAN <= z < DIRECTION_SPAN && v
            == #[trigger] direction_of(x, z, magnitude)
}

/// The request that creates an obstacle at `position` with the given drift.
pub open spec fn asteroid_request(
    position: Vec3,
    velocity: Vec3,
    acceleration: Vec3,
    assets: SceneAssets,
) -> SpawnRequest {
    SpawnRequest {
        transform: Transform::at(position),
        velocity,
        acceleration,
        radius: ASTEROID_RADIUS,
        kind: ColliderKind::Obstacle,
        model: assets.asteroids,
    }
}

/// Whether `r` is a request for a freshly drawn obstacle: it appears in
/// the spawn region, and its velocity and its acceleration are directions of
/// their fixed magnitudes.
pub open spec fn is_asteroid_request(r: SpawnRequest, assets: SceneAssets) -> bool {
    &&& r == asteroid_request(r.transform.translation, r.velocity, r.acceleration, assets)
    &&& in_spawn_region(r.transform.translation)
    &&& is_random_direction(r.velocity, VELOCITY_SCALAR as int)
    &&& is_random_direction(r.acceleration, ACCELERATION_SCALAR as int)
}

/// A place for a new obstacle, and whether it keeps the clearance from the
/// player craft.
#[derive(Clone, Copy, Debug, PartialEq, Eq, Structural)]
pub struct SpawnPoint {
    pub position: Vec3,
    pub cleared: bool,
}

/// What the timed spawn did in one frame.
#[derive(Clone, Copy, Debug, PartialEq, Eq, Structural)]
pub enum SpawnOutcome {
    /// The timer did not fire.
    Waiting,
    /// The timer fired, but there is no player craft to keep clear of.
    NoPlayer,
    /// An obstacle was asked for.
    Spawned { request: SpawnRequest, cleared: bool },
}

/// Decides whether `p` keeps the clearance from a craft at `craft`.
pub fn is_clear(p: Vec3, craft: Vec3) -> (b: bool)
    ensures
        b == has_clearance(p, craft),
{
    p.is_farther_than(craft, SPAWN_CLEARANCE)
}

/// Draws a point of the spawn region.
fn random_point() -> (p: Vec3)
    ensures
        in_spawn_region(p),
{
    let x = random_in(SPAWN_MIN_X, SPAWN_MAX_X);
    let z = random_in(SPAWN_MIN_Z, SPAWN_MAX_Z);
    Vec3 { x, y: 0, z }
}

/// Draws a direction of the given magnitude.
fn random_direction(magnitude: i64) -> (v: Vec3)
    ensures
        is_random_direction(v, magnitude as int),
{
    let x = random_in(-DIRECTION_SPAN, DIRECTION_SPAN);
    let z = random_in(-DIRECTION_SPAN, DIRECTION_SPAN);
    let v = direction(x, z, magnitude);
    assert(v == direction_of(x as int, z as int, magnitude as int));
    v
}

/// Whether `i` is the place of the first candidate that keeps the clearance.
pub open spec fn is_first_clear(candidates: Seq<Vec3>, craft: Vec3, i: int) -> bool {
    &&& 0 <= i < candidates.len()
    &&& has_clearance(candidates[i], craft)
    &&& forall|j: int| 0 <= j < i ==> !has_clearance(#[trigger] candidates[j], craft)
}

/// Whether `p` is the position to take: the first candidate that keeps the
/// clearance from the craft, or the fallback if no candidate does.
pub open spec fn is_pick(candidates: Seq<Vec3>, fallback: Vec3, craft: Vec3, p: Vec3) -> bool {
    ||| exists|i: int| is_first_clear(candidates, craft, i) && p == candidates[i]
    ||| p == fallback && forall|j: int|
        0 <= j < candidates.len() ==> !has_clearance(#[trigger] candidates[j], craft)
}

/// Whether `p` is a position that the bounded search can end with: the pick
/// among as many candidates of the spawn region as the search allows, with a
/// fallback of the spawn region.
pub open spec fn is_search_result(craft: Vec3, p: Vec3) -> bool {
    exists|candidates: Seq<Vec3>, fallback: Vec3|
        {
            &&& candidates.len() == MAX_SPAWN_ATTEMPTS
            &&& forall|j: int|
                0 <= j < candidates.len() ==> in_spawn_region(#[trigger] candidates[j])
            &&& in_spawn_region(fallback)
            &&& #[trigger] is_pick(candidates, fallback, craft, p)
        }
}

/// Takes the first candidate that keeps the clearance from the craft. If none
/// does, takes the fallback as it is, clear or not.
pub fn pick_spawn_point(candidates: &Vec<Vec3>, fallback: Vec3, craft: Vec3) -> (point:
    SpawnPoint)
    ensures
        is_pick(candidates@, fallback, craft, point.position),
        point.cleared == has_clearance(point.position, craft),
{
    let n = candidates.len();
    let mut j: usize = 0;
    while j < n
        invariant
            n == candidates@.len(),
            j <= n,
            forall|m: int| 0 <= m < j ==> !has_clearance(#[trigger] candidates@[m], craft),
        decreases n - j,
    {
        let p = candidates[j];
        if is_clear(p, craft) {
            assert(is_first_clear(candidates@, craft, j as int));
            return SpawnPoint { position: p, cleared: true };
        }
        j += 1;
    }
    SpawnPoint { position: fallback, cleared: is_clear(fallback, craft) }
}

/// Chooses where a new obstacle appears: draws `MAX_SPAWN_ATTEMPTS` points of
/// the spawn region and one more to fall back on, and picks among them with
/// `pick_spawn_point`. The search is bounded, so it never stalls.
pub fn random_asteroid_pos(spaceship_pos: Vec3) -> (point: SpawnPoint)
    ensures
        in_spawn_region(point.position),
        point.cleared == has_clearance(point.position, spaceship_pos),
        is_search_result(spaceship_pos, point.position),
{
    let mut candidates: Vec<Vec3> = Vec::new();
    let mut attempt: u32 = 0;
    while attempt < MAX_SPAWN_ATTEMPTS
        invariant
            attempt <= MAX_SPAWN_ATTEMPTS,
            candidates@.len() == attempt,
            forall|j: int| 0 <= j < candidates@.len() ==> in_spawn_region(#[trigger] candidates@[j]),
        decreases MAX_SPAWN_ATTEMPTS - attempt,
    {
        candidates.push(random_point());
        attempt += 1;
    }
    let fallback = random_point();
    let point = pick_spawn_point(&candidates, fallback, spaceship_pos);
    assert(is_pick(candidates@, fallback, spaceship_pos, point.position));
    point
}

/// The timed obstacle spawn. Advances the spawn timer by `dt_ms`. When it
/// fires and there is a player craft, asks for one obstacle: at a random place
/// of the spawn region chosen by `random_asteroid_pos`, with a random
/// direction of velocity and another of acceleration. However much time the
/// frame covers, at most one obstacle is asked for.
pub fn spawn_asteroid(world: &mut World, dt_ms: u32, scene_assets: &SceneAssets) -> (outcome:
    SpawnOutcome)
    requires
        old(world).wf(),
    ensures
        final(world).wf(),
        final(world)@.entities == old(world)@.entities,
        final(world)@.next_id == old(world)@.next_id,
        final(world)@.policy == old(world)@.policy,
        final(world)@.timer == old(world)@.timer.after(dt_ms as int),
        match outcome {
            SpawnOutcome::Waiting => {
                &&& !old(world)@.timer.fires(dt_ms as int)
                &&& final(world)@.pending == old(world)@.pending
            },
            SpawnOutcome::NoPlayer => {
                &&& old(world)@.timer.fires(dt_ms as int)
                &&& player_index(old(world)@.entities) is None
                &&& final(world)@.pending == old(world)@.pending
            },
            SpawnOutcome::Spawned { request, cleared } => {
                &&& old(world)@.timer.fires(dt_ms as int)
                &&& player_index(old(world)@.entities) matches Some(i)
                &&& final(world)@.pending == old(world)@.pending.push(Command::Spawn(request))
                &&& is_asteroid_request(request, *scene_assets)
                &&& cleared == has_clearance(
                    request.transform.translation,
                    old(world)@.entities[i].transform.translation,
                )
                &&& is_search_result(
                    old(world)@.entities[i].transform.translation,
                    request.transform.translation,
                )
            },
        },
        final(world)@.pending.len() <= old(world)@.pending.len() + 1,
{
    proof {
        lemma_timer_after(old(world)@.timer, dt_ms as int);
    }
    if !world.tick_timer(dt_ms) {
        return SpawnOutcome::Waiting;
    }
    let craft = match find_player(world) {
        Some(i) => world.entity(i).transform.translation,
        None => {
            return SpawnOutcome::NoPlayer;
        },
    };
    let point = random_asteroid_pos(craft);
    let velocity = random_direction(VELOCITY_SCALAR);
    let acceleration = random_direction(ACCELERATION_SCALAR);
    let request = SpawnRequest {
        transform: Transform::from_translation(point.position),
        velocity,
        acceleration,
        radius: ASTEROID_RADIUS,
        kind: ColliderKind::Obstacle,
        model: scene_assets.asteroids,
    };
    world.push_command(Command::Spawn(request));
    SpawnOutcome::Spawned { request, cleared: point.cleared }
}

/// An obstacle after `dt` milliseconds of spinning: its roll advances at the
/// fixed rate. Other entities do not spin.
pub open spec fn spun_entity(e: EntityState, dt: int) -> EntityState {
    if e.kind == ColliderKind::Obstacle {
        EntityState {
            transform: Transform {
                roll: advance(e.transform.roll as int, ROTATE_SPEED as int, dt) as i64,
                ..e.transform
            },
            ..e
        }
    } else {
        e
    }
}

/// The entities after `dt` milliseconds of spinning.
pub open spec fn spun(es: Seq<EntityState>, dt: int) -> Seq<EntityState> {
    es.map_values(|e: EntityState| spun_entity(e, dt))
}

/// The rotation animation: spins every obstacle about its own forward axis.
pub fn rotate_asteroid(world: &mut World, dt_ms: u32)
    requires
        old(world).wf(),
    ensures
        final(world).wf(),
        final(world)@ == (WorldState { entities: spun(old(world)@.entities, dt_ms as int), ..old(
            world,
        )@ }),
{
    let ghost es = world@.entities;
    let n = world.len();
    let mut i: usize = 0;
    while i < n
        invariant
            es == old(world)@.entities,
            n == es.len(),
            i <= n,
            world@.entities.len() == n,
            forall|m: int| 0 <= m < i ==> (#[trigger] world@.entities[m]) == spun_entity(
                es[m],
                dt_ms as int,
            ),
            forall|m: int| i <= m < n ==> (#[trigger] world@.entities[m]) == es[m],
            world@.pending == old(world)@.pending,
            world@.next_id == old(world)@.next_id,
            world@.timer == old(world)@.timer,
            world@.policy == old(world)@.policy,
        decreases n - i,
    {
        let e = world.entity(i);
        let velocity = e.velocity;
        let transform = match e.collidor.kind() {
            ColliderKind::Obstacle => Transform {
                translation: e.transform.translation,
                yaw: e.transform.yaw,
                roll: advanced(e.transform.roll, ROTATE_SPEED, dt_ms as i64),
                heading: e.transform.heading,
            },
            ColliderKind::Player => e.transform,
            ColliderKind::Projectile => e.transform,
        };
        world.set_kinematics(i, transform, velocity);
        i += 1;
    }
    assert(world@.entities =~= spun(es, dt_ms as int));
}

/// An obstacle that keeps the clearance does not overlap a craft of the
/// standard radius, nor any craft up to the radius that the clearance covers.
pub proof fn lemma_clearance_excludes_overlap(p: Vec3, craft: Vec3, craft_radius: i64)
    requires
        0 < craft_radius,
        craft_radius + ASTEROID_RADIUS <= SPAWN_CLEARANCE,
        has_clearance(p, craft),
    ensures
        !circles_overlap(p, ASTEROID_RADIUS, craft, craft_radius),
        !circles_overlap(p, ASTEROID_RADIUS, craft, SPACESHIP_RADIUS),
{
    let reach = ASTEROID_RADIUS + craft_radius;
    assert(reach * reach <= SPAWN_CLEARANCE * SPAWN_CLEARANCE) by (nonlinear_arith)
        requires
            0 <= reach <= SPAWN_CLEARANCE,
    ;
    let standard = ASTEROID_RADIUS + SPACESHIP_RADIUS;
    assert(standard * standard <= SPAWN_CLEARANCE * SPAWN_CLEARANCE) by (nonlinear_arith)
        requires
            0 <= standard <= SPAWN_CLEARANCE,
    ;
}

} // verus!
