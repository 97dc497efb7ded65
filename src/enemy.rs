use vstd::prelude::*;

use crate::components::{Enemy, Movable, Position, Timer, Velocity, POSITION_SCALE};
use crate::systems::{half_h, half_w, GameVisuals, WinSize, WALL_MARGIN};
use crate::world::{Command, CommandQueue, EntityData, Motion, Part, PartSet, Role};

verus! {

/// Milliseconds between two enemies.
pub const ENEMY_SPAWN_INTERVAL_MS: u64 = 2000;

/// Height above the top edge, in screen units, where enemies appear.
pub const ENEMY_START_OFFSET: i64 = 100;

/// Draw order of an enemy, in sub-units.
pub const ENEMY_Z: i64 = -60;

/// Downward speed of an enemy, in thousandths.
pub const ENEMY_SPEED: i64 = 200;

/// The repeating timer that paces enemy arrivals.
#[derive(Clone, Copy, Debug, PartialEq, Eq, Structural)]
pub struct EnemySpawnTimer(pub Timer);

impl Default for EnemySpawnTimer {
    fn default() -> (r: EnemySpawnTimer)
        ensures
            r.0 == (Timer { duration: ENEMY_SPAWN_INTERVAL_MS, elapsed: 0, repeating: true }),
    {
        EnemySpawnTimer(Timer::every(ENEMY_SPAWN_INTERVAL_MS))
    }
}

/// Relies on rand's `Rng::random_range` over the thread-local generator: a
/// value drawn from the half-open range `lo..hi`, which must not be empty.
#[verifier::external_body]
fn random_between(lo: i64, hi: i64) -> (r: i64)
    requires
        lo < hi,
    ensures
        lo <= r < hi,
{
    rand::Rng::random_range(&mut rand::rng(), lo..hi)
}

/// The columns where an enemy may appear: between the walls, right one excluded.
pub open spec fn spawn_range(win: WinSize) -> (int, int) {
    (-half_w(win) + WALL_MARGIN * POSITION_SCALE, half_w(win) - WALL_MARGIN * POSITION_SCALE)
}

/// Draws the column of the next enemy, between the walls. `None` when the
/// screen is too narrow to leave room between them.
pub fn enemy_spawn_column(win: WinSize) -> (r: Option<i64>)
    ensures
        r is None <==> spawn_range(win).0 >= spawn_range(win).1,
        r matches Some(x) ==> spawn_range(win).0 <= x < spawn_range(win).1,
{
    let hw: i64 = win.w as i64 * POSITION_SCALE / 2;
    let lo: i64 = -hw + WALL_MARGIN * POSITION_SCALE;
    let hi: i64 = hw - WALL_MARGIN * POSITION_SCALE;
    if lo < hi {
        Some(random_between(lo, hi))
    } else {
        None
    }
}

/// An enemy entering at column `x` above the top edge, drifting down.
pub open spec fn enemy_data(x: i64, win: WinSize, v: GameVisuals) -> EntityData {
    EntityData {
        position: Position {
            x,
            y: (half_h(win) + ENEMY_START_OFFSET * POSITION_SCALE) as i64,
            z: ENEMY_Z,
        },
        scale: 1000,
        visual: Some(v.enemy),
        role: Role::Enemy(Enemy),
        motion: Some(
            Motion {
                velocity: Velocity { x: 0, y: -ENEMY_SPEED as i64 },
                movable: Movable { auto_despawn: true },
            },
        ),
        explosion: None,
        request: None,
        parent: None,
    }
}

/// The parts an enemy is drawn with: back, left and right lights, eye and
/// inner eye, at their offsets in sub-units.
pub open spec fn enemy_parts(v: GameVisuals) -> PartSet {
    PartSet {
        p0: Part { offset: Position { x: 0, y: 0, z: (-12) as i64 }, visual: v.enemy_back },
        p1: Part { offset: Position { x: (-4200) as i64, y: 0, z: 12 }, visual: v.enemy_ipon },
        p2: Part { offset: Position { x: 4200, y: 0, z: 12 }, visual: v.enemy_ipon },
        p3: Part { offset: Position { x: 0, y: 0, z: 12 }, visual: v.enemy_eye },
        p4: Part { offset: Position { x: 0, y: (-1200) as i64, z: 24 }, visual: v.enemy_eye_inside },
    }
}

fn enemy_part_set(v: &GameVisuals) -> (r: PartSet)
    ensures
        r == enemy_parts(*v),
{
    PartSet {
        p0: Part { offset: Position { x: 0, y: 0, z: -12 }, visual: v.enemy_back },
        p1: Part { offset: Position { x: -4200, y: 0, z: 12 }, visual: v.enemy_ipon },
        p2: Part { offset: Position { x: 4200, y: 0, z: 12 }, visual: v.enemy_ipon },
        p3: Part { offset: Position { x: 0, y: 0, z: 12 }, visual: v.enemy_eye },
        p4: Part { offset: Position { x: 0, y: -1200, z: 24 }, visual: v.enemy_eye_inside },
    }
}

/// Advances the spawn timer by `delta` milliseconds; each time it completes
/// a cycle, requests an enemy with its parts at column `x`. Returns whether
/// it did.
pub fn spawn_enemy_system(
    queue: &mut CommandQueue,
    timer: &mut EnemySpawnTimer,
    delta: u64,
    win: WinSize,
    x: i64,
    visuals: &GameVisuals,
) -> (spawned: bool)
    ensures
        (final(timer).0, spawned) == old(timer).0.ticked(delta),
        final(queue).ops@ == old(queue).ops@ + if spawned {
            seq![Command::SpawnWithParts(enemy_data(x, win, *visuals), enemy_parts(*visuals))]
        } else {
            Seq::empty()
        },
{
    let spawned = timer.0.tick(delta);
    if spawned {
        let hh: i64 = win.h as i64 * POSITION_SCALE / 2;
        let data = EntityData {
            position: Position { x, y: hh + ENEMY_START_OFFSET * POSITION_SCALE, z: ENEMY_Z },
            scale: 1000,
            visual: Some(visuals.enemy),
            role: Role::Enemy(Enemy),
            motion: Some(
                Motion {
                    velocity: Velocity { x: 0, y: -ENEMY_SPEED },
                    movable: Movable { auto_despawn: true },
                },
            ),
            explosion: None,
            request: None,
            parent: None,
        };
        queue.spawn_with_parts(data, enemy_part_set(visuals));
        assert(queue.ops@ == old(queue).ops@ + seq![
            Command::SpawnWithParts(enemy_data(x, win, *visuals), enemy_parts(*visuals)),
        ]);
    } else {
        assert(queue.ops@ == old(queue).ops@ + Seq::<Command>::empty());
    }
    spawned
}

} // verus!
