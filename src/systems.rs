use vstd::prelude::*;

use crate::components::{
    Bullet, Enemy, Explosion, ExplosionAnimationTime, ExplosionColor, ExplosionTimer,
    ExplosionToSpawn, Player, Position, Timer, Velocity, EXPLOSION_DURATION_MS, PER_MILLE,
    POSITION_SCALE,
    VELOCITY_SCALE,
};
use crate::world::{
    apply_all, lemma_despawn_sticks, lemma_spared_unchanged, lemma_spares_concat, spares, Command, CommandQueue, Entity, EntityData, ExplosionState, Role,
    Slot, Visual, World,
};

verus! {

/// Ticks per time unit: the fixed time step is one sixtieth.
pub const TICKS_PER_SECOND: i64 = 60;

/// Screen units travelled per time unit at velocity one.
pub const BASE_SPEED: i64 = 500;

/// Distance in screen units between a player and the side of the screen.
pub const WALL_MARGIN: i64 = 50;

/// Distance in screen units beyond the top or bottom edge at which
/// auto-despawning entities are removed.
pub const DESPAWN_MARGIN: i64 = 300;

/// Half extents of a bullet's box, in sub-units (2.5 and 5 screen units).
pub const BULLET_HALF_W: i64 = 300;
pub const BULLET_HALF_H: i64 = 600;

/// Half extents of an enemy's box, in sub-units (35 and 25 screen units).
pub const ENEMY_HALF_W: i64 = 4200;
pub const ENEMY_HALF_H: i64 = 3000;

/// How far an explosion is drawn in front of the enemy, in sub-units.
pub const EXPLOSION_Z_OFFSET: i64 = 60;

/// Screen size in screen units.
#[derive(Clone, Copy, Debug, PartialEq, Eq, Structural)]
pub struct WinSize {
    pub w: u32,
    pub h: u32,
}

pub open spec fn half_w(win: WinSize) -> int {
    win.w * POSITION_SCALE / 2
}

pub open spec fn half_h(win: WinSize) -> int {
    win.h * POSITION_SCALE / 2
}

pub open spec fn wall_left(win: WinSize) -> int {
    -half_w(win) + WALL_MARGIN * POSITION_SCALE
}

pub open spec fn wall_right(win: WinSize) -> int {
    half_w(win) - WALL_MARGIN * POSITION_SCALE
}

/// Displacement in sub-units over one fixed step at velocity `v`:
/// v / VELOCITY_SCALE * BASE_SPEED / TICKS_PER_SECOND screen units.
pub open spec fn step(v: i64) -> int {
    v * BASE_SPEED * POSITION_SCALE / (TICKS_PER_SECOND * VELOCITY_SCALE)
}

/// `a + b`, held to the range of `i64`.
pub open spec fn sat_add(a: i64, b: int) -> i64 {
    if a + b > i64::MAX {
        i64::MAX
    } else if a + b < i64::MIN {
        i64::MIN
    } else {
        (a + b) as i64
    }
}

/// The player's x held between the two walls.
pub open spec fn clamp_x(x: i64, win: WinSize) -> i64 {
    if x <= wall_left(win) {
        wall_left(win) as i64
    } else if x >= wall_right(win) {
        wall_right(win) as i64
    } else {
        x
    }
}

pub open spec fn out_of_bounds(y: i64, win: WinSize) -> bool {
    y < -half_h(win) - DESPAWN_MARGIN * POSITION_SCALE || y > half_h(win) + DESPAWN_MARGIN
        * POSITION_SCALE
}

/// An entity after one movement step: integrated, then clamped if it is a player.
pub open spec fn move_data(d: EntityData, win: WinSize) -> EntityData {
    match d.motion {
        None => d,
        Some(m) => {
            let x = sat_add(d.position.x, step(m.velocity.x));
            let y = sat_add(d.position.y, step(m.velocity.y));
            let x = if d.role == Role::Player(Player) { clamp_x(x, win) } else { x };
            EntityData { position: Position { x, y, ..d.position }, ..d }
        },
    }
}

pub open spec fn move_slot(s: Slot, win: WinSize) -> Slot {
    if s.alive { Slot { data: move_data(s.data, win), ..s } } else { s }
}

pub open spec fn moved_slots(slots: Seq<Slot>, win: WinSize) -> Seq<Slot> {
    Seq::new(slots.len(), |i: int| move_slot(slots[i], win))
}

/// Whether a moved slot is due for removal.
pub open spec fn despawn_due(s: Slot, win: WinSize) -> bool {
    s.alive && (s.data.motion matches Some(m) && m.movable.auto_despawn && out_of_bounds(
        s.data.position.y,
        win,
    ))
}

/// The removals that movement requests among the first `n` moved slots.
pub open spec fn movement_despawns(moved: Seq<Slot>, win: WinSize, n: int) -> Seq<Command>
    decreases n,
{
    if n <= 0 {
        Seq::empty()
    } else {
        movement_despawns(moved, win, n - 1) + if despawn_due(moved[n - 1], win) {
            seq![Command::Despawn(Entity((n - 1) as usize))]
        } else {
            Seq::empty()
        }
    }
}

proof fn lemma_step_exact(v: i64)
    ensures
        step(v) == v as int,
{
    vstd::arithmetic::div_mod::lemma_div_multiples_vanish(v as int, 60000);
    assert(v * 500 * 120 == 60000 * v) by (nonlinear_arith);
}

fn add_sat(a: i64, b: i64) -> (r: i64)
    ensures
        r == sat_add(a, b as int),
{
    if b > 0 && a > i64::MAX - b {
        i64::MAX
    } else if b < 0 && a < i64::MIN - b {
        i64::MIN
    } else {
        a + b
    }
}

/// Integrates every movable entity, holds players between the walls and
/// requests the removal of auto-despawning entities that left the screen.
pub fn movement_system(world: &mut World, queue: &mut CommandQueue, win: WinSize)
    ensures
        final(world).slots@ == moved_slots(old(world).slots@, win),
        final(queue).ops@ == old(queue).ops@ + movement_despawns(
            final(world).slots@,
            win,
            old(world).slots@.len() as int,
        ),
{
    let hw: i64 = win.w as i64 * POSITION_SCALE / 2;
    let hh: i64 = win.h as i64 * POSITION_SCALE / 2;
    let left: i64 = -hw + WALL_MARGIN * POSITION_SCALE;
    let right: i64 = hw - WALL_MARGIN * POSITION_SCALE;
    let low: i64 = -hh - DESPAWN_MARGIN * POSITION_SCALE;
    let high: i64 = hh + DESPAWN_MARGIN * POSITION_SCALE;
    let n = world.slots.len();
    let mut i: usize = 0;
    while i < n
        invariant
            n == world.slots@.len(),
            n == old(world).slots@.len(),
            i <= n,
            hw == half_w(win),
            hh == half_h(win),
            left == wall_left(win),
            right == wall_right(win),
            low == -half_h(win) - DESPAWN_MARGIN * POSITION_SCALE,
            high == half_h(win) + DESPAWN_MARGIN * POSITION_SCALE,
            forall|k: int| 0 <= k < i ==> world.slots@[k] == move_slot(old(world).slots@[k], win),
            forall|k: int| i <= k < n ==> world.slots@[k] == old(world).slots@[k],
            queue.ops@ == old(queue).ops@ + movement_despawns(
                moved_slots(old(world).slots@, win),
                win,
                i as int,
            ),
        decreases n - i,
    {
        let s = world.slots[i];
        if s.alive {
            if let Some(m) = s.data.motion {
                proof {
                    lemma_step_exact(m.velocity.x);
                    lemma_step_exact(m.velocity.y);
                }
                let mut x = add_sat(s.data.position.x, m.velocity.x);
                let y = add_sat(s.data.position.y, m.velocity.y);
                if s.data.role == Role::Player(Player) {
                    x = if x <= left {
                        left
                    } else if x >= right {
                        right
                    } else {
                        x
                    };
                }
                let data = EntityData { position: Position { x, y, ..s.data.position }, ..s.data };
                world.slots.set(i, Slot { data, ..s });
                if m.movable.auto_despawn && (y < low || y > high) {
                    queue.despawn(Entity(i));
                }
            }
        }
        proof {
            let moved = moved_slots(old(world).slots@, win);
            assert(moved[i as int] == world.slots@[i as int]);
        }
        i = i + 1;
    }
    assert(world.slots@ == moved_slots(old(world).slots@, win));
}

/// Growth and alpha decay, in thousandths, of the fast explosion profile.
pub const BLUE_GROWTH: u64 = 100;
pub const BLUE_DECAY: u64 = 600;

/// Growth and alpha decay, in thousandths, of the slow explosion profile.
pub const RED_GROWTH: u64 = 150;
pub const RED_DECAY: u64 = 500;

/// Whether a bullet's box at `b` and an enemy's box at `e` touch or overlap.
pub open spec fn boxes_overlap(b: Position, e: Position) -> bool {
    b.x - BULLET_HALF_W <= e.x + ENEMY_HALF_W && b.x + BULLET_HALF_W >= e.x - ENEMY_HALF_W
        && b.y - BULLET_HALF_H <= e.y + ENEMY_HALF_H && b.y + BULLET_HALF_H >= e.y
        - ENEMY_HALF_H
}

pub open spec fn is_live_bullet(s: Slot) -> bool {
    s.alive && s.data.role == Role::Bullet(Bullet)
}

pub open spec fn is_live_enemy(s: Slot) -> bool {
    s.alive && s.data.role == Role::Enemy(Enemy)
}

/// Whether enemy `j`, not yet marked, is hit by bullet `b`.
pub open spec fn hits(slots: Seq<Slot>, marked: Seq<bool>, b: int, j: int) -> bool {
    is_live_enemy(slots[j]) && !marked[j] && boxes_overlap(
        slots[b].data.position,
        slots[j].data.position,
    )
}

/// The first enemy at index `j` or later that bullet `b` hits.
pub open spec fn first_hit(slots: Seq<Slot>, marked: Seq<bool>, b: int, j: int) -> Option<int>
    decreases slots.len() - j,
{
    if j < 0 || j >= slots.len() {
        None
    } else if hits(slots, marked, b, j) {
        Some(j)
    } else {
        first_hit(slots, marked, b, j + 1)
    }
}

/// A pending explosion as an entity of its own.
pub open spec fn request_data(
    at: Position,
    color: ExplosionColor,
    growth: u64,
    decay: u64,
) -> EntityData {
    EntityData {
        position: at,
        scale: 1000,
        visual: None,
        role: Role::Scenery,
        motion: None,
        explosion: None,
        request: Some(ExplosionToSpawn(at, color, growth, decay)),
        parent: None,
    }
}

/// Where the explosions of a destroyed enemy at `e` appear.
pub open spec fn blast_point(e: Position) -> Position {
    Position { z: sat_add(e.z, EXPLOSION_Z_OFFSET as int), ..e }
}

/// What one hit requests: both entities go, two explosions come.
pub open spec fn hit_commands(slots: Seq<Slot>, b: int, j: int) -> Seq<Command> {
    let at = blast_point(slots[j].data.position);
    seq![
        Command::Despawn(Entity(j as usize)),
        Command::Despawn(Entity(b as usize)),
        Command::Spawn(request_data(at, ExplosionColor::BLUE, BLUE_GROWTH, BLUE_DECAY)),
        Command::Spawn(request_data(at, ExplosionColor::RED, RED_GROWTH, RED_DECAY)),
    ]
}

/// The commands and enemy marks after considering the first `n` slots as bullets.
pub open spec fn collide(slots: Seq<Slot>, n: int) -> (Seq<Command>, Seq<bool>)
    decreases n,
{
    if n <= 0 {
        (Seq::empty(), Seq::new(slots.len(), |i: int| false))
    } else {
        let (cs, marked) = collide(slots, n - 1);
        let b = n - 1;
        if is_live_bullet(slots[b]) {
            match first_hit(slots, marked, b, 0) {
                Some(j) => (cs + hit_commands(slots, b, j), marked.update(j, true)),
                None => (cs, marked),
            }
        } else {
            (cs, marked)
        }
    }
}

proof fn lemma_collide_len(slots: Seq<Slot>, n: int)
    ensures
        collide(slots, n).1.len() == slots.len(),
    decreases n,
{
    if n > 0 {
        lemma_collide_len(slots, n - 1);
        let (cs, marked) = collide(slots, n - 1);
        if is_live_bullet(slots[n - 1]) {
            lemma_first_hit_range(slots, marked, n - 1, 0);
        }
    }
}

proof fn lemma_first_hit_range(slots: Seq<Slot>, marked: Seq<bool>, b: int, j: int)
    ensures
        first_hit(slots, marked, b, j) matches Some(k) ==> j <= k < slots.len() && hits(
            slots,
            marked,
            b,
            k,
        ),
    decreases slots.len() - j,
{
    if 0 <= j < slots.len() && !hits(slots, marked, b, j) {
        lemma_first_hit_range(slots, marked, b, j + 1);
    }
}

fn overlap(b: Position, e: Position) -> (r: bool)
    ensures
        r == boxes_overlap(b, e),
{
    (b.x as i128) - (BULLET_HALF_W as i128) <= (e.x as i128) + (ENEMY_HALF_W as i128)
        && (b.x as i128) + (BULLET_HALF_W as i128) >= (e.x as i128) - (ENEMY_HALF_W as i128)
        && (b.y as i128) - (BULLET_HALF_H as i128) <= (e.y as i128) + (ENEMY_HALF_H as i128)
        && (b.y as i128) + (BULLET_HALF_H as i128) >= (e.y as i128) - (ENEMY_HALF_H as i128)
}

fn request_entity(at: Position, color: ExplosionColor, growth: u64, decay: u64) -> (r: EntityData)
    ensures
        r == request_data(at, color, growth, decay),
{
    EntityData {
        position: at,
        scale: 1000,
        visual: None,
        role: Role::Scenery,
        motion: None,
        explosion: None,
        request: Some(ExplosionToSpawn(at, color, growth, decay)),
        parent: None,
    }
}

/// Checks every live bullet against the live enemies in store order. The
/// first enemy that a bullet touches is destroyed with it and two explosions
/// are requested at the enemy; an enemy already hit this tick is skipped.
pub fn enemy_hittest_laser(world: &World, queue: &mut CommandQueue)
    ensures
        final(queue).ops@ == old(queue).ops@ + collide(world.slots@, world.slots@.len() as int).0,
{
    let n = world.slots.len();
    let mut marked: Vec<bool> = Vec::new();
    let mut k: usize = 0;
    while k < n
        invariant
            n == world.slots@.len(),
            k <= n,
            marked@ == Seq::new(k as nat, |i: int| false),
        decreases n - k,
    {
        marked.push(false);
        k = k + 1;
    }
    proof {
        assert(marked@ == collide(world.slots@, 0).1);
    }
    let mut b: usize = 0;
    while b < n
        invariant
            n == world.slots@.len(),
            b <= n,
            marked@ == collide(world.slots@, b as int).1,
            queue.ops@ == old(queue).ops@ + collide(world.slots@, b as int).0,
        decreases n - b,
    {
        proof {
            lemma_collide_len(world.slots@, b as int);
        }
        let bullet = world.slots[b];
        if bullet.alive && bullet.data.role == Role::Bullet(Bullet) {
            let mut j: usize = 0;
            let mut found = false;
            while j < n && !found
                invariant
                    n == world.slots@.len(),
                    j <= n,
                    marked@.len() == n,
                    bullet == world.slots@[b as int],
                    b < n,
                    is_live_bullet(world.slots@[b as int]),
                    !found ==> marked@ == collide(world.slots@, b as int).1,
                    !found ==> queue.ops@ == old(queue).ops@ + collide(world.slots@, b as int).0,
                    !found ==> first_hit(world.slots@, marked@, b as int, 0) == first_hit(
                        world.slots@,
                        marked@,
                        b as int,
                        j as int,
                    ),
                    found ==> marked@ == collide(world.slots@, b + 1).1,
                    found ==> queue.ops@ == old(queue).ops@ + collide(world.slots@, b + 1).0,
                decreases 2 * (n - j) + if found { 0int } else { 1int },
            {
                let enemy = world.slots[j];
                if enemy.alive && enemy.data.role == Role::Enemy(Enemy) && !marked[j] && overlap(
                    bullet.data.position,
                    enemy.data.position,
                ) {
                    proof {
                        assert(first_hit(world.slots@, marked@, b as int, j as int) == Some(
                            j as int,
                        ));
                    }
                    let ghost before = queue.ops@;
                    let ghost m0 = marked@;
                    queue.despawn(Entity(j));
                    queue.despawn(Entity(b));
                    let at = Position {
                        z: add_sat(enemy.data.position.z, EXPLOSION_Z_OFFSET),
                        ..enemy.data.position
                    };
                    queue.spawn(request_entity(at, ExplosionColor::BLUE, BLUE_GROWTH, BLUE_DECAY));
                    queue.spawn(request_entity(at, ExplosionColor::RED, RED_GROWTH, RED_DECAY));
                    marked.set(j, true);
                    found = true;
                    proof {
                        let hit = hit_commands(world.slots@, b as int, j as int);
                        assert(queue.ops@ == before + hit);
                        assert(marked@ == m0.update(j as int, true));
                        assert(collide(world.slots@, b + 1) == (
                            collide(world.slots@, b as int).0 + hit,
                            m0.update(j as int, true),
                        ));
                        assert(queue.ops@ == old(queue).ops@ + collide(world.slots@, b + 1).0);
                    }
                } else {
                    j = j + 1;
                }
            }
            if !found {
                proof {
                    assert(first_hit(world.slots@, marked@, b as int, j as int) == None::<int>);
                }
            }
        }
        b = b + 1;
    }
}

/// Scale, in thousandths, of an explosion when it appears.
pub const EXPLOSION_START_SCALE: u64 = 10;

/// The renderer's handles that the simulation attaches to entities.
#[derive(Clone, Copy, Debug, PartialEq, Eq, Structural)]
pub struct GameVisuals {
    pub player: Visual,
    pub player_wing: Visual,
    pub player_tail: Visual,
    pub player_base_gun: Visual,
    pub player_base_gun_inside: Visual,
    pub player_gun: Visual,
    pub enemy: Visual,
    pub enemy_back: Visual,
    pub enemy_ipon: Visual,
    pub enemy_eye: Visual,
    pub enemy_eye_inside: Visual,
    pub bullet: Visual,
    pub explosion_blue: Visual,
    pub explosion_red: Visual,
}

pub open spec fn explosion_visual(c: ExplosionColor, v: GameVisuals) -> Visual {
    match c {
        ExplosionColor::BLUE => v.explosion_blue,
        ExplosionColor::RED => v.explosion_red,
    }
}

/// The explosion entity made from a pending request.
pub open spec fn explosion_data(r: ExplosionToSpawn, v: GameVisuals) -> EntityData {
    EntityData {
        position: r.0,
        scale: EXPLOSION_START_SCALE,
        visual: Some(explosion_visual(r.1, v)),
        role: Role::Scenery,
        motion: None,
        explosion: Some(
            ExplosionState {
                marker: Explosion,
                timer: ExplosionTimer(
                    Timer { duration: EXPLOSION_DURATION_MS, elapsed: 0, repeating: false },
                ),
                animation: ExplosionAnimationTime(r.2, r.3),
            },
        ),
        request: None,
        parent: None,
    }
}

/// What the explosion spawn step requests for the first `n` slots: for each
/// live pending request, the explosion entity and the request's removal.
pub open spec fn spawn_commands(slots: Seq<Slot>, v: GameVisuals, n: int) -> Seq<Command>
    decreases n,
{
    if n <= 0 {
        Seq::empty()
    } else {
        let s = slots[n - 1];
        spawn_commands(slots, v, n - 1) + match s.data.request {
            Some(r) => if s.alive {
                seq![
                    Command::Spawn(explosion_data(r, v)),
                    Command::Despawn(Entity((n - 1) as usize)),
                ]
            } else {
                Seq::empty()
            },
            None => Seq::empty(),
        }
    }
}

/// Turns every pending explosion request into an explosion entity and
/// removes the request.
pub fn explosion_spawn_system(world: &World, queue: &mut CommandQueue, visuals: &GameVisuals)
    ensures
        final(queue).ops@ == old(queue).ops@ + spawn_commands(
            world.slots@,
            *visuals,
            world.slots@.len() as int,
        ),
{
    let n = world.slots.len();
    let mut i: usize = 0;
    while i < n
        invariant
            n == world.slots@.len(),
            i <= n,
            queue.ops@ == old(queue).ops@ + spawn_commands(world.slots@, *visuals, i as int),
        decreases n - i,
    {
        let s = world.slots[i];
        if s.alive {
            if let Some(r) = s.data.request {
                let visual = match r.1 {
                    ExplosionColor::BLUE => visuals.explosion_blue,
                    ExplosionColor::RED => visuals.explosion_red,
                };
                let data = EntityData {
                    position: r.0,
                    scale: EXPLOSION_START_SCALE,
                    visual: Some(visual),
                    role: Role::Scenery,
                    motion: None,
                    explosion: Some(
                        ExplosionState {
                            marker: Explosion,
                            timer: ExplosionTimer(Timer::once(EXPLOSION_DURATION_MS)),
                            animation: ExplosionAnimationTime(r.2, r.3),
                        },
                    ),
                    request: None,
                    parent: None,
                };
                queue.spawn(data);
                queue.despawn(Entity(i));
            }
        }
        i = i + 1;
    }
}

/// `a * f / 1000`, held to the range of `u64`.
pub open spec fn decayed(a: u64, f: u64) -> u64 {
    if a * f / (PER_MILLE as int) > u64::MAX {
        u64::MAX
    } else {
        (a * f / (PER_MILLE as int)) as u64
    }
}

/// `a + b`, held to the range of `u64`.
pub open spec fn sat_add_u64(a: u64, b: u64) -> u64 {
    if a + b > u64::MAX { u64::MAX } else { (a + b) as u64 }
}

/// An explosion's slot after `delta` milliseconds, and whether it expired.
/// The timer always advances, so every explosion expires on time. An
/// expiring explosion changes in nothing else. A growing one grows and fades;
/// without a visual to fade it skips that update and keeps its scale and
/// everything else but the timer.
pub open spec fn animate_slot(s: Slot, delta: u64) -> (Slot, bool) {
    match s.data.explosion {
        Some(e) => if s.alive {
            let t = e.timer.0.ticked(delta).0;
            let e2 = ExplosionState { timer: ExplosionTimer(t), ..e };
            let timed = Slot { data: EntityData { explosion: Some(e2), ..s.data }, ..s };
            if t.is_finished() {
                (timed, true)
            } else {
                match s.data.visual {
                    Some(v) => (
                        Slot {
                            data: EntityData {
                                explosion: Some(e2),
                                scale: sat_add_u64(s.data.scale, e.animation.0),
                                visual: Some(Visual { alpha: decayed(v.alpha, e.animation.1), ..v }),
                                ..s.data
                            },
                            ..s
                        },
                        false,
                    ),
                    None => (timed, false),
                }
            }
        } else {
            (s, false)
        },
        None => (s, false),
    }
}

pub open spec fn animated_slots(slots: Seq<Slot>, delta: u64) -> Seq<Slot> {
    Seq::new(slots.len(), |i: int| animate_slot(slots[i], delta).0)
}

/// The removals that the animation step requests among the first `n` slots.
pub open spec fn expired_despawns(slots: Seq<Slot>, delta: u64, n: int) -> Seq<Command>
    decreases n,
{
    if n <= 0 {
        Seq::empty()
    } else {
        expired_despawns(slots, delta, n - 1) + if animate_slot(slots[n - 1], delta).1 {
            seq![Command::Despawn(Entity((n - 1) as usize))]
        } else {
            Seq::empty()
        }
    }
}

fn decay_alpha(a: u64, f: u64) -> (r: u64)
    ensures
        r == decayed(a, f),
{
    proof {
        vstd::arithmetic::mul::lemma_mul_upper_bound(
            a as int,
            u64::MAX as int,
            f as int,
            u64::MAX as int,
        );
        assert(u64::MAX as int * u64::MAX as int <= u128::MAX) by (nonlinear_arith);
    }
    let p: u128 = (a as u128) * (f as u128) / (PER_MILLE as u128);
    if p > u64::MAX as u128 {
        u64::MAX
    } else {
        p as u64
    }
}

fn add_sat_u64(a: u64, b: u64) -> (r: u64)
    ensures
        r == sat_add_u64(a, b),
{
    if a > u64::MAX - b {
        u64::MAX
    } else {
        a + b
    }
}

/// Advances every explosion by `delta` milliseconds: an explosion whose timer
/// has run out is removed, the others grow and fade. One without a visual
/// has only its timer advanced.
pub fn explosion_animation_system(world: &mut World, queue: &mut CommandQueue, delta: u64)
    ensures
        final(world).slots@ == animated_slots(old(world).slots@, delta),
        final(queue).ops@ == old(queue).ops@ + expired_despawns(
            old(world).slots@,
            delta,
            old(world).slots@.len() as int,
        ),
{
    let n = world.slots.len();
    let mut i: usize = 0;
    while i < n
        invariant
            n == world.slots@.len(),
            n == old(world).slots@.len(),
            i <= n,
            forall|k: int|
                0 <= k < i ==> world.slots@[k] == animate_slot(old(world).slots@[k], delta).0,
            forall|k: int| i <= k < n ==> world.slots@[k] == old(world).slots@[k],
            queue.ops@ == old(queue).ops@ + expired_despawns(old(world).slots@, delta, i as int),
        decreases n - i,
    {
        let s = world.slots[i];
        if s.alive {
            if let Some(e) = s.data.explosion {
                let mut t = e.timer.0;
                t.tick(delta);
                let e2 = ExplosionState { timer: ExplosionTimer(t), ..e };
                if t.finished() {
                    world.slots.set(
                        i,
                        Slot { data: EntityData { explosion: Some(e2), ..s.data }, ..s },
                    );
                    queue.despawn(Entity(i));
                } else {
                    match s.data.visual {
                        Some(v) => {
                            let data = EntityData {
                                explosion: Some(e2),
                                scale: add_sat_u64(s.data.scale, e.animation.0),
                                visual: Some(
                                    Visual { alpha: decay_alpha(v.alpha, e.animation.1), ..v },
                                ),
                                ..s.data
                            };
                            world.slots.set(i, Slot { data, ..s });
                        },
                        None => {
                            world.slots.set(
                                i,
                                Slot { data: EntityData { explosion: Some(e2), ..s.data }, ..s },
                            );
                        },
                    }
                }
            }
        }
        i = i + 1;
    }
    assert(world.slots@ == animated_slots(old(world).slots@, delta));
}

/// Finds the removal that movement requests for a slot that is due for it.
pub proof fn lemma_movement_despawn_index(
    moved: Seq<Slot>,
    win: WinSize,
    n: int,
    i: int,
) -> (k: int)
    requires
        0 <= i < n <= moved.len(),
        despawn_due(moved[i], win),
    ensures
        0 <= k < movement_despawns(moved, win, n).len(),
        movement_despawns(moved, win, n)[k] == Command::Despawn(Entity(i as usize)),
    decreases n,
{
    if i == n - 1 {
        movement_despawns(moved, win, n - 1).len() as int
    } else {
        lemma_movement_despawn_index(moved, win, n - 1, i)
    }
}

/// Finds the removal that the animation step requests for an expiring explosion.
pub proof fn lemma_expired_despawn_index(slots: Seq<Slot>, delta: u64, n: int, i: int) -> (k: int)
    requires
        0 <= i < n <= slots.len(),
        animate_slot(slots[i], delta).1,
    ensures
        0 <= k < expired_despawns(slots, delta, n).len(),
        expired_despawns(slots, delta, n)[k] == Command::Despawn(Entity(i as usize)),
    decreases n,
{
    if i == n - 1 {
        expired_despawns(slots, delta, n - 1).len() as int
    } else {
        lemma_expired_despawn_index(slots, delta, n - 1, i)
    }
}

/// Whatever the input, movement leaves every live player between the walls,
/// on any screen at least 100 units wide.
pub proof fn lemma_player_between_walls(slots: Seq<Slot>, win: WinSize, i: int)
    requires
        win.w >= 100,
        0 <= i < slots.len(),
        slots[i].alive,
        slots[i].data.role == Role::Player(Player),
        slots[i].data.motion is Some,
    ensures
        wall_left(win) <= moved_slots(slots, win)[i].data.position.x <= wall_right(win),
{
}

/// With no live bullet, or no live enemy, collision requests nothing.
pub proof fn lemma_collision_idle(slots: Seq<Slot>, n: int)
    requires
        (forall|k: int| 0 <= k < slots.len() ==> !is_live_bullet(#[trigger] slots[k]))
            || (forall|k: int| 0 <= k < slots.len() ==> !is_live_enemy(#[trigger] slots[k])),
        n <= slots.len(),
    ensures
        collide(slots, n).0 == Seq::<Command>::empty(),
    decreases n,
{
    if n > 0 {
        lemma_collision_idle(slots, n - 1);
        let marked = collide(slots, n - 1).1;
        if is_live_bullet(slots[n - 1]) {
            lemma_no_hit(slots, marked, n - 1, 0);
        }
    }
}

proof fn lemma_no_hit(slots: Seq<Slot>, marked: Seq<bool>, b: int, j: int)
    requires
        forall|k: int| 0 <= k < slots.len() ==> !is_live_enemy(#[trigger] slots[k]),
    ensures
        first_hit(slots, marked, b, j) is None,
    decreases slots.len() - j,
{
    if 0 <= j < slots.len() {
        lemma_no_hit(slots, marked, b, j + 1);
    }
}

/// A live explosion whose timer has not run out by the end of the step
/// stays and counts the time that passed; with a visual it grows by its
/// growth rate, without one it keeps everything but its timer.
pub proof fn lemma_explosion_grows(s: Slot, delta: u64)
    requires
        s.alive,
        s.data.explosion matches Some(e) && !e.timer.0.repeating && e.timer.0.elapsed + delta
            < e.timer.0.duration,
    ensures
        !animate_slot(s, delta).1,
        animate_slot(s, delta).0.alive,
        animate_slot(s, delta).0.data.scale >= s.data.scale,
        ({
            let growth = s.data.explosion->Some_0.animation.0;
            s.data.visual is Some && s.data.scale + growth <= u64::MAX ==> animate_slot(
                s,
                delta,
            ).0.data.scale == s.data.scale + growth
        }),
        s.data.visual is None ==> animate_slot(s, delta).0.data == (EntityData {
            explosion: animate_slot(s, delta).0.data.explosion,
            ..s.data
        }),
        ({
            let after = animate_slot(s, delta).0.data.explosion->Some_0.timer.0;
            after.elapsed == s.data.explosion->Some_0.timer.0.elapsed + delta
        }),
{
}

/// A live explosion whose timer runs out within the step is removed.
pub proof fn lemma_explosion_expires(s: Slot, delta: u64)
    requires
        s.alive,
        s.data.explosion matches Some(e) && !e.timer.0.repeating && e.timer.0.elapsed + delta
            >= e.timer.0.duration,
    ensures
        animate_slot(s, delta).1,
{
}

/// Movement removes only entities that are due for removal.
pub proof fn lemma_movement_spares(moved: Seq<Slot>, win: WinSize, n: int, i: int)
    requires
        0 <= i < moved.len() <= usize::MAX,
        n <= moved.len(),
        !despawn_due(moved[i], win),
    ensures
        spares(movement_despawns(moved, win, n), i),
    decreases n,
{
    if n > 0 {
        lemma_movement_spares(moved, win, n - 1, i);
        let tail = if despawn_due(moved[n - 1], win) {
            seq![Command::Despawn(Entity((n - 1) as usize))]
        } else {
            Seq::empty()
        };
        assert(spares(tail, i));
        lemma_spares_concat(movement_despawns(moved, win, n - 1), tail, i);
    }
}

/// Collision removes only live bullets and live enemies.
pub proof fn lemma_collide_spares(slots: Seq<Slot>, n: int, i: int)
    requires
        0 <= i < slots.len() <= usize::MAX,
        n <= slots.len(),
        !is_live_bullet(slots[i]),
        !is_live_enemy(slots[i]),
    ensures
        spares(collide(slots, n).0, i),
    decreases n,
{
    if n > 0 {
        lemma_collide_spares(slots, n - 1, i);
        lemma_collide_len(slots, n - 1);
        let (cs, marked) = collide(slots, n - 1);
        if is_live_bullet(slots[n - 1]) {
            lemma_first_hit_range(slots, marked, n - 1, 0);
            if let Some(j) = first_hit(slots, marked, n - 1, 0) {
                assert(spares(hit_commands(slots, n - 1, j), i));
                lemma_spares_concat(cs, hit_commands(slots, n - 1, j), i);
            }
        }
    }
}

/// The explosion spawn step removes only pending requests.
pub proof fn lemma_spawn_spares(slots: Seq<Slot>, v: GameVisuals, n: int, i: int)
    requires
        0 <= i < slots.len() <= usize::MAX,
        n <= slots.len(),
        slots[i].data.request is None,
    ensures
        spares(spawn_commands(slots, v, n), i),
    decreases n,
{
    if n > 0 {
        lemma_spawn_spares(slots, v, n - 1, i);
        let s = slots[n - 1];
        let tail = match s.data.request {
            Some(r) => if s.alive {
                seq![
                    Command::Spawn(explosion_data(r, v)),
                    Command::Despawn(Entity((n - 1) as usize)),
                ]
            } else {
                Seq::empty()
            },
            None => Seq::empty(),
        };
        assert(spares(tail, i));
        lemma_spares_concat(spawn_commands(slots, v, n - 1), tail, i);
    }
}

/// The animation step removes only expiring explosions.
pub proof fn lemma_expired_spares(slots: Seq<Slot>, delta: u64, n: int, i: int)
    requires
        0 <= i < slots.len() <= usize::MAX,
        n <= slots.len(),
        !animate_slot(slots[i], delta).1,
    ensures
        spares(expired_despawns(slots, delta, n), i),
    decreases n,
{
    if n > 0 {
        lemma_expired_spares(slots, delta, n - 1, i);
        let tail = if animate_slot(slots[n - 1], delta).1 {
            seq![Command::Despawn(Entity((n - 1) as usize))]
        } else {
            Seq::empty()
        };
        assert(spares(tail, i));
        lemma_spares_concat(expired_despawns(slots, delta, n - 1), tail, i);
    }
}

/// Whether slot `b` holds the only live bullet.
pub open spec fn only_bullet(slots: Seq<Slot>, b: int) -> bool {
    0 <= b < slots.len() && is_live_bullet(slots[b]) && forall|k: int|
        0 <= k < slots.len() && k != b ==> !is_live_bullet(#[trigger] slots[k])
}

proof fn lemma_first_hit_is(slots: Seq<Slot>, marked: Seq<bool>, b: int, j: int, e: int)
    requires
        0 <= j <= e < slots.len(),
        hits(slots, marked, b, e),
        forall|k: int| j <= k < e ==> !hits(slots, marked, b, k),
    ensures
        first_hit(slots, marked, b, j) == Some(e),
    decreases e - j,
{
    if j < e {
        lemma_first_hit_is(slots, marked, b, j + 1, e);
    }
}

proof fn lemma_one_bullet_prefix(slots: Seq<Slot>, b: int, n: int)
    requires
        only_bullet(slots, b),
        0 <= n <= slots.len(),
    ensures
        n <= b ==> collide(slots, n) == collide(slots, 0),
        b < n ==> collide(slots, n).0 == match first_hit(slots, collide(slots, 0).1, b, 0) {
            Some(j) => hit_commands(slots, b, j),
            None => Seq::<Command>::empty(),
        },
    decreases n,
{
    if n > 0 {
        lemma_one_bullet_prefix(slots, b, n - 1);
        if n - 1 == b {
            if let Some(j) = first_hit(slots, collide(slots, 0).1, b, 0) {
                assert(Seq::<Command>::empty() + hit_commands(slots, b, j) == hit_commands(
                    slots,
                    b,
                    j,
                ));
            }
        }
    }
}

/// With a single bullet, collision requests exactly one hit: on the first
/// enemy in store order that the bullet touches, if any.
pub proof fn lemma_one_bullet_collision(slots: Seq<Slot>, b: int)
    requires
        only_bullet(slots, b),
    ensures
        collide(slots, slots.len() as int).0 == match first_hit(
            slots,
            collide(slots, 0).1,
            b,
            0,
        ) {
            Some(j) => hit_commands(slots, b, j),
            None => Seq::<Command>::empty(),
        },
{
    lemma_one_bullet_prefix(slots, b, slots.len() as int);
}

/// One bullet touching exactly one enemy: both are removed at the flush and
/// exactly two explosion requests, fast and slow, are made at the enemy.
pub proof fn lemma_single_hit(slots: Seq<Slot>, b: int, e: int)
    requires
        slots.len() <= usize::MAX,
        only_bullet(slots, b),
        0 <= e < slots.len(),
        is_live_enemy(slots[e]),
        boxes_overlap(slots[b].data.position, slots[e].data.position),
        forall|k: int|
            0 <= k < slots.len() && k != e && is_live_enemy(#[trigger] slots[k]) ==> !boxes_overlap(
                slots[b].data.position,
                slots[k].data.position,
            ),
    ensures
        collide(slots, slots.len() as int).0 == hit_commands(slots, b, e),
        !apply_all(slots, hit_commands(slots, b, e))[b].alive,
        !apply_all(slots, hit_commands(slots, b, e))[e].alive,
{
    let unmarked = collide(slots, 0).1;
    assert forall|k: int| 0 <= k < e implies !hits(slots, unmarked, b, k) by {}
    lemma_first_hit_is(slots, unmarked, b, 0, e);
    lemma_one_bullet_collision(slots, b);
    let cs = hit_commands(slots, b, e);
    lemma_despawn_sticks(slots, cs, 0);
    lemma_despawn_sticks(slots, cs, 1);
}

/// One bullet touching two enemies: only the first in store order is hit;
/// the other is left exactly as it was.
pub proof fn lemma_first_enemy_taken(slots: Seq<Slot>, b: int, e1: int, e2: int)
    requires
        slots.len() <= usize::MAX,
        only_bullet(slots, b),
        0 <= e1 < e2 < slots.len(),
        is_live_enemy(slots[e1]),
        is_live_enemy(slots[e2]),
        slots[e2].data.parent is None,
        boxes_overlap(slots[b].data.position, slots[e1].data.position),
        boxes_overlap(slots[b].data.position, slots[e2].data.position),
        forall|k: int|
            0 <= k < e1 && is_live_enemy(#[trigger] slots[k]) ==> !boxes_overlap(
                slots[b].data.position,
                slots[k].data.position,
            ),
    ensures
        collide(slots, slots.len() as int).0 == hit_commands(slots, b, e1),
        !apply_all(slots, hit_commands(slots, b, e1))[b].alive,
        !apply_all(slots, hit_commands(slots, b, e1))[e1].alive,
        apply_all(slots, hit_commands(slots, b, e1))[e2] == slots[e2],
{
    let unmarked = collide(slots, 0).1;
    assert forall|k: int| 0 <= k < e1 implies !hits(slots, unmarked, b, k) by {}
    lemma_first_hit_is(slots, unmarked, b, 0, e1);
    lemma_one_bullet_collision(slots, b);
    let cs = hit_commands(slots, b, e1);
    lemma_despawn_sticks(slots, cs, 0);
    lemma_despawn_sticks(slots, cs, 1);
    assert(spares(cs, e2));
    lemma_spared_unchanged(slots, cs, e2);
}

/// A bullet at speed one climbs 1000 sub-units a tick, which is 500/60
/// screen units, and keeps its column and draw order.
pub proof fn lemma_bullet_climbs(s: Slot, win: WinSize)
    requires
        s.alive,
        s.data.motion matches Some(m) && m.velocity == (Velocity { x: 0, y: VELOCITY_SCALE as i64 }),
        s.data.position.y + VELOCITY_SCALE <= i64::MAX,
        s.data.role == Role::Bullet(Bullet),
    ensures
        move_slot(s, win).data.position == (Position {
            y: (s.data.position.y + VELOCITY_SCALE) as i64,
            ..s.data.position
        }),
        step(VELOCITY_SCALE as i64) == VELOCITY_SCALE,
        VELOCITY_SCALE * TICKS_PER_SECOND == BASE_SPEED * POSITION_SCALE,
{
    lemma_step_exact(0);
    lemma_step_exact(VELOCITY_SCALE as i64);
}

/// Total of the step lengths.
pub open spec fn total(deltas: Seq<u64>) -> int
    decreases deltas.len(),
{
    if deltas.len() == 0 { 0 } else { total(deltas.drop_last()) + deltas.last() }
}

/// A slot after one animation step per delta, and whether any step asked
/// for its removal.
pub open spec fn animate_steps(s: Slot, deltas: Seq<u64>) -> (Slot, bool)
    decreases deltas.len(),
{
    if deltas.len() == 0 {
        (s, false)
    } else {
        let (prev, expired) = animate_steps(s, deltas.drop_last());
        let (next, now) = animate_slot(prev, deltas.last());
        (next, expired || now)
    }
}

/// Over any run of animation steps that ends before its timer runs out, a
/// visible explosion stays, grows by its growth rate at every step, and
/// counts all the time that passed; once the time adds up to its duration,
/// one of the steps has asked for its removal.
pub proof fn lemma_explosion_lifetime(s: Slot, deltas: Seq<u64>)
    requires
        s.alive,
        s.data.visual is Some,
        s.data.explosion matches Some(e) && !e.timer.0.repeating && e.timer.0.elapsed
            < e.timer.0.duration,
    ensures
        ({
            let e = s.data.explosion->Some_0;
            let (r, expired) = animate_steps(s, deltas);
            &&& e.timer.0.elapsed + total(deltas) < e.timer.0.duration ==> {
                &&& !expired
                &&& r.alive
                &&& r.data.visual is Some
                &&& r.data.explosion matches Some(e2) && e2.animation == e.animation
                    && !e2.timer.0.repeating && e2.timer.0.duration == e.timer.0.duration
                    && e2.timer.0.elapsed == e.timer.0.elapsed + total(deltas)
                &&& r.data.scale >= s.data.scale
                &&& s.data.scale + deltas.len() * e.animation.0 <= u64::MAX ==> r.data.scale
                    == s.data.scale + deltas.len() * e.animation.0
            }
            &&& e.timer.0.elapsed + total(deltas) >= e.timer.0.duration ==> expired
        }),
    decreases deltas.len(),
{
    let e = s.data.explosion->Some_0;
    if deltas.len() > 0 {
        let init = deltas.drop_last();
        lemma_explosion_lifetime(s, init);
        let (prev, expired) = animate_steps(s, init);
        let d = deltas.last();
        assert(total(deltas) == total(init) + d);
        if e.timer.0.elapsed + total(init) < e.timer.0.duration {
            if e.timer.0.elapsed + total(deltas) < e.timer.0.duration {
                lemma_explosion_grows(prev, d);
                let n = deltas.len();
                let g = e.animation.0;
                assert((n - 1) * g + g == n * g) by (nonlinear_arith);
                assert(n * g >= (n - 1) * g) by (nonlinear_arith)
                    requires
                        n >= 1,
                        g >= 0,
                ;
            } else {
                lemma_explosion_expires(prev, d);
            }
        }
    }
}

/// Whether a slot is left as it is by movement: it does not move, or it
/// rests with a player already between the walls and an auto-despawning
/// entity inside the band.
pub open spec fn at_rest(s: Slot, win: WinSize) -> bool {
    s.alive ==> match s.data.motion {
        None => true,
        Some(m) => m.velocity == (Velocity { x: 0, y: 0 }) && (s.data.role == Role::Player(Player)
            ==> wall_left(win) <= s.data.position.x <= wall_right(win)) && (m.movable.auto_despawn
            ==> !out_of_bounds(s.data.position.y, win)),
    }
}

proof fn lemma_rest_despawns(slots: Seq<Slot>, win: WinSize, n: int)
    requires
        forall|k: int| 0 <= k < slots.len() ==> at_rest(#[trigger] slots[k], win),
        n <= slots.len(),
    ensures
        movement_despawns(slots, win, n) == Seq::<Command>::empty(),
    decreases n,
{
    if n > 0 {
        lemma_rest_despawns(slots, win, n - 1);
        assert(at_rest(slots[n - 1], win));
    }
}

/// When everything at rest stays where it may stay, movement changes
/// nothing and requests nothing, whatever bullets or enemies exist.
pub proof fn lemma_movement_at_rest(slots: Seq<Slot>, win: WinSize)
    requires
        forall|k: int| 0 <= k < slots.len() ==> at_rest(#[trigger] slots[k], win),
    ensures
        moved_slots(slots, win) == slots,
        movement_despawns(moved_slots(slots, win), win, slots.len() as int)
            == Seq::<Command>::empty(),
{
    lemma_step_exact(0);
    assert forall|k: int| 0 <= k < slots.len() implies move_slot(slots[k], win) == slots[k] by {
        assert(at_rest(slots[k], win));
    }
    assert(moved_slots(slots, win) =~= slots);
    lemma_rest_despawns(slots, win, slots.len() as int);
}

} // verus!
