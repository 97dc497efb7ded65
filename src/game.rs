use vstd::prelude::*;

use crate::components::Timer;
use crate::enemy::{enemy_data, enemy_parts, spawn_enemy_system, EnemySpawnTimer};
use crate::player::{
    fire_commands, lemma_players_prefix, player_fire_system, player_keyboard_event_system,
    steered_slots,
};
use crate::systems::{
    animate_slot, animated_slots, despawn_due, lemma_collide_spares, lemma_expired_despawn_index,
    lemma_expired_spares, lemma_explosion_grows, lemma_movement_despawn_index,
    lemma_movement_spares, lemma_spawn_spares, collide, enemy_hittest_laser, expired_despawns,
    explosion_animation_system, explosion_spawn_system, moved_slots, movement_despawns,
    movement_system, spawn_commands,
    GameVisuals, WinSize,
};
use crate::world::{
    apply, apply_all, lemma_despawn_sticks, lemma_spared_unchanged, lemma_spares_concat, spares, Command,
    CommandQueue, Role, Slot, World,
};

verus! {

/// What the host hands the simulation each tick.
#[derive(Clone, Copy, Debug, PartialEq, Eq, Structural)]
pub struct TickInput {
    /// Milliseconds since the previous tick.
    pub delta_ms: u64,
    pub move_left: bool,
    pub move_right: bool,
    /// True on the tick the fire key went down.
    pub fire: bool,
    /// Column, in sub-units, for an enemy that arrives this tick.
    pub enemy_x: i64,
}

/// The whole simulation: the store, the enemy pacing timer, and the fixed
/// configuration it runs with.
pub struct Game {
    pub world: World,
    pub enemy_timer: EnemySpawnTimer,
    pub win: WinSize,
    pub visuals: GameVisuals,
}

/// Everything one tick requests, in the order the systems run.
pub open spec fn tick_commands(
    steered: Seq<Slot>,
    timer: Timer,
    input: TickInput,
    win: WinSize,
    v: GameVisuals,
) -> Seq<Command> {
    let moved = moved_slots(steered, win);
    let n = steered.len() as int;
    let spawned = timer.ticked(input.delta_ms).1;
    fire_commands(steered, input.fire, v) + (if spawned {
        seq![Command::SpawnWithParts(enemy_data(input.enemy_x, win, v), enemy_parts(v))]
    } else {
        Seq::empty()
    }) + movement_despawns(moved, win, n) + collide(moved, n).0 + spawn_commands(moved, v, n)
        + expired_despawns(moved, input.delta_ms, n)
}

/// The store after one tick: every system, then the flush.
pub open spec fn tick_slots(
    slots: Seq<Slot>,
    timer: Timer,
    input: TickInput,
    win: WinSize,
    v: GameVisuals,
) -> Seq<Slot> {
    let steered = steered_slots(slots, input.move_left, input.move_right);
    let moved = moved_slots(steered, win);
    apply_all(animated_slots(moved, input.delta_ms), tick_commands(steered, timer, input, win, v))
}

impl Game {
    /// An empty game with the player and its parts requested and applied.
    pub fn new(win: WinSize, visuals: GameVisuals) -> (r: Game)
        ensures
            r.world.slots@ == apply(
                Seq::empty(),
                Command::SpawnWithParts(
                    crate::player::player_data(win, visuals),
                    crate::player::player_parts(visuals),
                ),
            ),
            r.enemy_timer.0 == (Timer {
                duration: crate::enemy::ENEMY_SPAWN_INTERVAL_MS,
                elapsed: 0,
                repeating: true,
            }),
            r.win == win,
            r.visuals == visuals,
    {
        let mut world = World::new();
        let mut queue = CommandQueue::new();
        crate::player::spawn_player_system(&mut queue, win, &visuals);
        world.flush(&mut queue);
        proof {
            let cs = seq![
                Command::SpawnWithParts(
                    crate::player::player_data(win, visuals),
                    crate::player::player_parts(visuals),
                ),
            ];
            assert(cs.drop_last() == Seq::<Command>::empty());
            assert(apply_all(Seq::<Slot>::empty(), cs.drop_last()) == Seq::<Slot>::empty());
        }
        Game { world, enemy_timer: EnemySpawnTimer::default(), win, visuals }
    }

    /// Runs one tick: input, enemy arrival, movement, collisions, explosion
    /// spawning and animation, in that order, each reading the store as the
    /// earlier ones left it; then applies every requested change.
    pub fn tick(&mut self, input: TickInput)
        ensures
            final(self).world.slots@ == tick_slots(
                old(self).world.slots@,
                old(self).enemy_timer.0,
                input,
                old(self).win,
                old(self).visuals,
            ),
            final(self).enemy_timer.0 == old(self).enemy_timer.0.ticked(input.delta_ms).0,
            final(self).win == old(self).win,
            final(self).visuals == old(self).visuals,
    {
        let mut queue = CommandQueue::new();
        player_keyboard_event_system(&mut self.world, input.move_left, input.move_right);
        let ghost steered = self.world.slots@;
        player_fire_system(&self.world, &mut queue, input.fire, &self.visuals);
        spawn_enemy_system(
            &mut queue,
            &mut self.enemy_timer,
            input.delta_ms,
            self.win,
            input.enemy_x,
            &self.visuals,
        );
        movement_system(&mut self.world, &mut queue, self.win);
        enemy_hittest_laser(&self.world, &mut queue);
        explosion_spawn_system(&self.world, &mut queue, &self.visuals);
        explosion_animation_system(&mut self.world, &mut queue, input.delta_ms);
        self.world.flush(&mut queue);
        proof {
            assert(queue.ops@.len() == 0);
        }
    }
}


/// An auto-despawning entity whose integrated height leaves the band around
/// the screen is gone once the tick's changes are applied.
pub proof fn lemma_out_of_bounds_removed(
    slots: Seq<Slot>,
    timer: Timer,
    input: TickInput,
    win: WinSize,
    v: GameVisuals,
    i: int,
)
    requires
        slots.len() <= usize::MAX,
        0 <= i < slots.len(),
        despawn_due(
            moved_slots(steered_slots(slots, input.move_left, input.move_right), win)[i],
            win,
        ),
    ensures
        !tick_slots(slots, timer, input, win, v)[i].alive,
{
    let steered = steered_slots(slots, input.move_left, input.move_right);
    lemma_players_prefix(slots, true, slots.len() as int);
    let moved = moved_slots(steered, win);
    let n = steered.len() as int;
    let spawned = timer.ticked(input.delta_ms).1;
    let a = fire_commands(steered, input.fire, v) + (if spawned {
        seq![Command::SpawnWithParts(enemy_data(input.enemy_x, win, v), enemy_parts(v))]
    } else {
        Seq::empty()
    });
    let md = movement_despawns(moved, win, n);
    let k = lemma_movement_despawn_index(moved, win, n, i);
    let cs = tick_commands(steered, timer, input, win, v);
    assert(cs[a.len() + k] == md[k]);
    lemma_despawn_sticks(animated_slots(moved, input.delta_ms), cs, a.len() + k);
}

/// An explosion whose timer runs out during the tick is gone once the
/// tick's changes are applied.
pub proof fn lemma_expired_explosion_removed(
    slots: Seq<Slot>,
    timer: Timer,
    input: TickInput,
    win: WinSize,
    v: GameVisuals,
    i: int,
)
    requires
        slots.len() <= usize::MAX,
        0 <= i < slots.len(),
        slots[i].alive,
        slots[i].data.motion is None,
        slots[i].data.explosion matches Some(e) && !e.timer.0.repeating && e.timer.0.elapsed
            + input.delta_ms >= e.timer.0.duration,
    ensures
        !tick_slots(slots, timer, input, win, v)[i].alive,
{
    let steered = steered_slots(slots, input.move_left, input.move_right);
    let moved = moved_slots(steered, win);
    let n = steered.len() as int;
    lemma_players_prefix(slots, true, slots.len() as int);
    assert(steered.len() == slots.len());
    assert(steered[i] == slots[i]);
    assert(moved[i] == slots[i]);
    assert(animate_slot(moved[i], input.delta_ms).1);
    let k = lemma_expired_despawn_index(moved, input.delta_ms, n, i);
    let cs = tick_commands(steered, timer, input, win, v);
    let prefix = cs.len() - expired_despawns(moved, input.delta_ms, n).len();
    assert(cs[prefix + k] == expired_despawns(moved, input.delta_ms, n)[k]);
    lemma_despawn_sticks(animated_slots(moved, input.delta_ms), cs, prefix + k);
}

/// An explosion whose timer has not run out by the end of the tick is
/// still there afterwards, animated by one step: no smaller, and with the
/// tick's time counted.
pub proof fn lemma_growing_explosion_stays(
    slots: Seq<Slot>,
    timer: Timer,
    input: TickInput,
    win: WinSize,
    v: GameVisuals,
    i: int,
)
    requires
        slots.len() <= usize::MAX,
        0 <= i < slots.len(),
        slots[i].alive,
        slots[i].data.role == Role::Scenery,
        slots[i].data.motion is None,
        slots[i].data.request is None,
        slots[i].data.parent is None,
        slots[i].data.explosion matches Some(e) && !e.timer.0.repeating && e.timer.0.elapsed
            + input.delta_ms < e.timer.0.duration,
    ensures
        tick_slots(slots, timer, input, win, v)[i] == animate_slot(slots[i], input.delta_ms).0,
        tick_slots(slots, timer, input, win, v)[i].alive,
        tick_slots(slots, timer, input, win, v)[i].data.scale >= slots[i].data.scale,
{
    let steered = steered_slots(slots, input.move_left, input.move_right);
    lemma_players_prefix(slots, true, slots.len() as int);
    assert(steered.len() == slots.len());
    assert(steered[i] == slots[i]);
    let moved = moved_slots(steered, win);
    assert(moved[i] == slots[i]);
    let n = steered.len() as int;
    let delta = input.delta_ms;
    lemma_explosion_grows(slots[i], delta);
    let spawned = timer.ticked(delta).1;
    let f = fire_commands(steered, input.fire, v);
    let en: Seq<Command> = if spawned {
        seq![Command::SpawnWithParts(enemy_data(input.enemy_x, win, v), enemy_parts(v))]
    } else {
        Seq::empty()
    };
    assert(spares(f, i));
    assert(spares(en, i));
    lemma_spares_concat(f, en, i);
    lemma_movement_spares(moved, win, n, i);
    lemma_spares_concat(f + en, movement_despawns(moved, win, n), i);
    lemma_collide_spares(moved, n, i);
    lemma_spares_concat(f + en + movement_despawns(moved, win, n), collide(moved, n).0, i);
    lemma_spawn_spares(moved, v, n, i);
    lemma_spares_concat(
        f + en + movement_despawns(moved, win, n) + collide(moved, n).0,
        spawn_commands(moved, v, n),
        i,
    );
    lemma_expired_spares(moved, delta, n, i);
    lemma_spares_concat(
        f + en + movement_despawns(moved, win, n) + collide(moved, n).0 + spawn_commands(
            moved,
            v,
            n,
        ),
        expired_despawns(moved, delta, n),
        i,
    );
    let cs = tick_commands(steered, timer, input, win, v);
    assert(spares(cs, i));
    let animated = animated_slots(moved, delta);
    lemma_spared_unchanged(animated, cs, i);
}

} // verus!
