use vstd::prelude::*;

use crate::components::{
    Bullet, Movable, Player, Position, Velocity, POSITION_SCALE, VELOCITY_SCALE,
};
use crate::systems::{half_h, sat_add, GameVisuals, WinSize};
use crate::world::{
    Command, CommandQueue, EntityData, Motion, Part, PartSet, Role, Slot, World,
};

verus! {

/// Height above the bottom edge, in screen units, where the player starts.
pub const PLAYER_START_OFFSET: i64 = 100;

/// How far above the player's centre a bullet appears, in screen units.
pub const GUN_OFFSET: i64 = 35;

/// Draw order of a bullet, in sub-units (behind the player).
pub const BULLET_Z: i64 = -12;

/// Whether slot `s` is a live player; with `need_motion`, one that can move.
pub open spec fn is_player(s: Slot, need_motion: bool) -> bool {
    s.alive && s.data.role == Role::Player(Player) && (need_motion ==> s.data.motion is Some)
}

/// Indices of the players among the first `n` slots, in order.
pub open spec fn players(slots: Seq<Slot>, need_motion: bool, n: int) -> Seq<int>
    decreases n,
{
    if n <= 0 {
        Seq::empty()
    } else if is_player(slots[n - 1], need_motion) {
        players(slots, need_motion, n - 1).push(n - 1)
    } else {
        players(slots, need_motion, n - 1)
    }
}

/// The player, when there is exactly one.
pub open spec fn single_player(slots: Seq<Slot>, need_motion: bool) -> Option<int> {
    let p = players(slots, need_motion, slots.len() as int);
    if p.len() == 1 { Some(p[0]) } else { None }
}

pub proof fn lemma_players_prefix(slots: Seq<Slot>, need_motion: bool, n: int)
    ensures
        players(slots, need_motion, n).len() <= (if n < 0 { 0 } else { n }),
        forall|k: int|
            0 <= k < players(slots, need_motion, n).len() ==> 0 <= #[trigger] players(
                slots,
                need_motion,
                n,
            )[k] < n,
    decreases n,
{
    if n > 0 {
        lemma_players_prefix(slots, need_motion, n - 1);
    }
}

fn find_single_player(world: &World, need_motion: bool) -> (r: Option<usize>)
    ensures
        r matches Some(i) ==> single_player(world.slots@, need_motion) == Some(i as int),
        r is None ==> single_player(world.slots@, need_motion) is None,
{
    let n = world.slots.len();
    let mut count: usize = 0;
    let mut first: usize = 0;
    let mut i: usize = 0;
    while i < n
        invariant
            n == world.slots@.len(),
            i <= n,
            count <= 2,
            count == (if players(world.slots@, need_motion, i as int).len() >= 2 { 2 } else {
                players(world.slots@, need_motion, i as int).len()
            }),
            count >= 1 ==> players(world.slots@, need_motion, i as int)[0] == first as int,
        decreases n - i,
    {
        let s = world.slots[i];
        let wanted = !need_motion || s.data.motion.is_some();
        if s.alive && s.data.role == Role::Player(Player) && wanted {
            if count == 0 {
                first = i;
            }
            if count < 2 {
                count = count + 1;
            }
        }
        i = i + 1;
    }
    if count == 1 {
        Some(first)
    } else {
        None
    }
}

/// The horizontal velocity that the arrow keys ask for; left wins.
pub open spec fn steer(move_left: bool, move_right: bool) -> i64 {
    if move_left {
        (-VELOCITY_SCALE) as i64
    } else if move_right {
        VELOCITY_SCALE
    } else {
        0
    }
}

pub open spec fn steered(s: Slot, move_left: bool, move_right: bool) -> Slot {
    match s.data.motion {
        Some(m) => Slot {
            data: EntityData {
                motion: Some(
                    Motion {
                        velocity: Velocity { x: steer(move_left, move_right), ..m.velocity },
                        ..m
                    },
                ),
                ..s.data
            },
            ..s
        },
        None => s,
    }
}

/// The store after steering the single player, if there is exactly one.
pub open spec fn steered_slots(slots: Seq<Slot>, move_left: bool, move_right: bool) -> Seq<Slot> {
    match single_player(slots, true) {
        Some(i) => slots.update(i, steered(slots[i], move_left, move_right)),
        None => slots,
    }
}

/// Sets the single player's horizontal velocity from the arrow keys; with
/// no player, or more than one, nothing changes.
pub fn player_keyboard_event_system(world: &mut World, move_left: bool, move_right: bool)
    ensures
        final(world).slots@ == steered_slots(old(world).slots@, move_left, move_right),
{
    if let Some(i) = find_single_player(world, true) {
        proof {
            lemma_players_prefix(world.slots@, true, world.slots@.len() as int);
        }
        let s = world.slots[i];
        if let Some(m) = s.data.motion {
            let x: i64 = if move_left {
                -VELOCITY_SCALE
            } else if move_right {
                VELOCITY_SCALE
            } else {
                0
            };
            let motion = Motion { velocity: Velocity { x, ..m.velocity }, ..m };
            world.slots.set(i, Slot { data: EntityData { motion: Some(motion), ..s.data }, ..s });
        }
    }
}

/// A bullet fired by a player at `p`.
pub open spec fn bullet_data(p: Position, v: GameVisuals) -> EntityData {
    EntityData {
        position: Position {
            x: p.x,
            y: sat_add(p.y, GUN_OFFSET * POSITION_SCALE),
            z: BULLET_Z,
        },
        scale: 1000,
        visual: Some(v.bullet),
        role: Role::Bullet(Bullet),
        motion: Some(
            Motion {
                velocity: Velocity { x: 0, y: VELOCITY_SCALE },
                movable: Movable { auto_despawn: true },
            },
        ),
        explosion: None,
        request: None,
        parent: None,
    }
}

/// The commands that firing requests: one bullet above the single player.
pub open spec fn fire_commands(slots: Seq<Slot>, fire: bool, v: GameVisuals) -> Seq<Command> {
    match single_player(slots, false) {
        Some(i) => if fire {
            seq![Command::Spawn(bullet_data(slots[i].data.position, v))]
        } else {
            Seq::empty()
        },
        None => Seq::empty(),
    }
}

/// On the fire signal, requests a bullet just above the single player.
pub fn player_fire_system(
    world: &World,
    queue: &mut CommandQueue,
    fire: bool,
    visuals: &GameVisuals,
)
    ensures
        final(queue).ops@ == old(queue).ops@ + fire_commands(world.slots@, fire, *visuals),
{
    if let Some(i) = find_single_player(world, false) {
        proof {
            lemma_players_prefix(world.slots@, false, world.slots@.len() as int);
        }
        if fire {
            let p = world.slots[i].data.position;
            let y = if p.y > i64::MAX - GUN_OFFSET * POSITION_SCALE {
                i64::MAX
            } else {
                p.y + GUN_OFFSET * POSITION_SCALE
            };
            let data = EntityData {
                position: Position { x: p.x, y, z: BULLET_Z },
                scale: 1000,
                visual: Some(visuals.bullet),
                role: Role::Bullet(Bullet),
                motion: Some(
                    Motion {
                        velocity: Velocity { x: 0, y: VELOCITY_SCALE },
                        movable: Movable { auto_despawn: true },
                    },
                ),
                explosion: None,
                request: None,
                parent: None,
            };
            queue.spawn(data);
            assert(queue.ops@ == old(queue).ops@ + fire_commands(world.slots@, fire, *visuals));
        }
    }
}

/// The player as it enters the game: centred, near the bottom, at rest.
pub open spec fn player_data(win: WinSize, v: GameVisuals) -> EntityData {
    EntityData {
        position: Position {
            x: 0,
            y: (-half_h(win) + PLAYER_START_OFFSET * POSITION_SCALE) as i64,
            z: 0,
        },
        scale: 1000,
        visual: Some(v.player),
        role: Role::Player(Player),
        motion: Some(
            Motion { velocity: Velocity { x: 0, y: 0 }, movable: Movable { auto_despawn: false } },
        ),
        explosion: None,
        request: None,
        parent: None,
    }
}

/// The parts the player is drawn with: wing, tail, gun base, its inside and
/// the gun, at their offsets in sub-units.
pub open spec fn player_parts(v: GameVisuals) -> PartSet {
    PartSet {
        p0: Part { offset: Position { x: 0, y: (-3000) as i64, z: (-12) as i64 }, visual: v.player_wing },
        p1: Part { offset: Position { x: 0, y: 0, z: (-12) as i64 }, visual: v.player_tail },
        p2: Part { offset: Position { x: 0, y: 1200, z: 24 }, visual: v.player_base_gun },
        p3: Part { offset: Position { x: 0, y: 1200, z: 36 }, visual: v.player_base_gun_inside },
        p4: Part { offset: Position { x: 0, y: 0, z: 12 }, visual: v.player_gun },
    }
}

fn player_part_set(v: &GameVisuals) -> (r: PartSet)
    ensures
        r == player_parts(*v),
{
    PartSet {
        p0: Part { offset: Position { x: 0, y: -3000, z: -12 }, visual: v.player_wing },
        p1: Part { offset: Position { x: 0, y: 0, z: -12 }, visual: v.player_tail },
        p2: Part { offset: Position { x: 0, y: 1200, z: 24 }, visual: v.player_base_gun },
        p3: Part { offset: Position { x: 0, y: 1200, z: 36 }, visual: v.player_base_gun_inside },
        p4: Part { offset: Position { x: 0, y: 0, z: 12 }, visual: v.player_gun },
    }
}

/// Requests the player entity with its parts.
pub fn spawn_player_system(queue: &mut CommandQueue, win: WinSize, visuals: &GameVisuals)
    ensures
        final(queue).ops@ == old(queue).ops@.push(
            Command::SpawnWithParts(player_data(win, *visuals), player_parts(*visuals)),
        ),
{
    let hh: i64 = win.h as i64 * POSITION_SCALE / 2;
    let data = EntityData {
        position: Position { x: 0, y: -hh + PLAYER_START_OFFSET * POSITION_SCALE, z: 0 },
        scale: 1000,
        visual: Some(visuals.player),
        role: Role::Player(Player),
        motion: Some(
            Motion { velocity: Velocity { x: 0, y: 0 }, movable: Movable { auto_despawn: false } },
        ),
        explosion: None,
        request: None,
        parent: None,
    };
    queue.spawn_with_parts(data, player_part_set(visuals));
}

} // verus!
