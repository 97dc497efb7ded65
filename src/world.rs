use vstd::prelude::*;

use crate::components::{
    Bullet, Enemy, Explosion, ExplosionAnimationTime, ExplosionTimer, ExplosionToSpawn, Movable,
    Player, Position, Velocity,
};

verus! {

/// An entity: its index in the store's arena. Indices are never reused.
#[derive(Clone, Copy, Debug, PartialEq, Eq, Structural)]
pub struct Entity(pub usize);

/// The role tag of an entity; at most one per entity. Explosions and other
/// decorations are `Scenery`.
#[derive(Clone, Copy, Debug, PartialEq, Eq, Structural)]
pub enum Role {
    Scenery,
    Player(Player),
    Enemy(Enemy),
    Bullet(Bullet),
}

/// An opaque handle into the renderer's resources, with the alpha (in
/// thousandths) that the material carries.
#[derive(Clone, Copy, Debug, PartialEq, Eq, Structural)]
pub struct Visual {
    pub mesh: u64,
    pub material: u64,
    pub alpha: u64,
}

/// Velocity only ever comes together with `Movable`.
#[derive(Clone, Copy, Debug, PartialEq, Eq, Structural)]
pub struct Motion {
    pub velocity: Velocity,
    pub movable: Movable,
}

/// The components of a live explosion.
#[derive(Clone, Copy, Debug, PartialEq, Eq, Structural)]
pub struct ExplosionState {
    pub marker: Explosion,
    pub timer: ExplosionTimer,
    pub animation: ExplosionAnimationTime,
}

/// Everything attached to one entity. `scale` is in thousandths. A visual
/// part of a compound sprite names its `parent`; its position is then an
/// offset from the parent's, used only for drawing.
#[derive(Clone, Copy, Debug, PartialEq, Eq, Structural)]
pub struct EntityData {
    pub position: Position,
    pub scale: u64,
    pub visual: Option<Visual>,
    pub role: Role,
    pub motion: Option<Motion>,
    pub explosion: Option<ExplosionState>,
    pub request: Option<ExplosionToSpawn>,
    pub parent: Option<Entity>,
}

/// One visual part of a compound sprite: its offset from the parent and
/// its own handle.
#[derive(Clone, Copy, Debug, PartialEq, Eq, Structural)]
pub struct Part {
    pub offset: Position,
    pub visual: Visual,
}

/// The five parts that the player and the enemies are drawn with.
#[derive(Clone, Copy, Debug, PartialEq, Eq, Structural)]
pub struct PartSet {
    pub p0: Part,
    pub p1: Part,
    pub p2: Part,
    pub p3: Part,
    pub p4: Part,
}

/// One arena cell; a destroyed entity keeps its cell with `alive == false`.
#[derive(Clone, Copy, Debug, PartialEq, Eq, Structural)]
pub struct Slot {
    pub alive: bool,
    pub data: EntityData,
}

/// A buffered change to the store.
#[derive(Clone, Copy, Debug, PartialEq, Eq, Structural)]
pub enum Command {
    Spawn(EntityData),
    /// An entity followed by its five parts, each with the entity as parent.
    SpawnWithParts(EntityData, PartSet),
    /// Removes the entity and every part whose parent it is.
    Despawn(Entity),
}

/// The entity store: an arena of slots indexed by `Entity`.
pub struct World {
    pub slots: Vec<Slot>,
}

/// Changes requested during a tick, applied in order by `World::flush`.
pub struct CommandQueue {
    pub ops: Vec<Command>,
}

/// A part as an entity of its own, attached to `parent`.
pub open spec fn part_slot(part: Part, parent: Entity) -> Slot {
    Slot {
        alive: true,
        data: EntityData {
            position: part.offset,
            scale: 1000,
            visual: Some(part.visual),
            role: Role::Scenery,
            motion: None,
            explosion: None,
            request: None,
            parent: Some(parent),
        },
    }
}

/// The store after one command. A despawn of a dead or unknown entity
/// changes nothing.
pub open spec fn apply(slots: Seq<Slot>, c: Command) -> Seq<Slot> {
    match c {
        Command::Spawn(d) => slots.push(Slot { alive: true, data: d }),
        Command::SpawnWithParts(d, ps) => {
            let e = Entity(slots.len() as usize);
            slots.push(Slot { alive: true, data: d }).push(part_slot(ps.p0, e)).push(
                part_slot(ps.p1, e),
            ).push(part_slot(ps.p2, e)).push(part_slot(ps.p3, e)).push(part_slot(ps.p4, e))
        },
        Command::Despawn(e) => if e.0 < slots.len() {
            Seq::new(
                slots.len(),
                |k: int|
                    if k == e.0 || slots[k].data.parent == Some(e) {
                        Slot { alive: false, ..slots[k] }
                    } else {
                        slots[k]
                    },
            )
        } else {
            slots
        },
    }
}

/// The store after the commands, in order.
pub open spec fn apply_all(slots: Seq<Slot>, cs: Seq<Command>) -> Seq<Slot>
    decreases cs.len(),
{
    if cs.len() == 0 {
        slots
    } else {
        apply(apply_all(slots, cs.drop_last()), cs.last())
    }
}

impl CommandQueue {
    pub fn new() -> (r: CommandQueue)
        ensures
            r.ops@ == Seq::<Command>::empty(),
    {
        CommandQueue { ops: Vec::new() }
    }

    /// Requests a new entity; it appears at the next flush.
    pub fn spawn(&mut self, data: EntityData)
        ensures
            final(self).ops@ == old(self).ops@.push(Command::Spawn(data)),
    {
        self.ops.push(Command::Spawn(data));
    }

    /// Requests the removal of `e`; repeated requests are harmless.
    pub fn despawn(&mut self, e: Entity)
        ensures
            final(self).ops@ == old(self).ops@.push(Command::Despawn(e)),
    {
        self.ops.push(Command::Despawn(e));
    }
}

fn part_entity(part: Part, parent: Entity) -> (r: Slot)
    ensures
        r == part_slot(part, parent),
{
    Slot {
        alive: true,
        data: EntityData {
            position: part.offset,
            scale: 1000,
            visual: Some(part.visual),
            role: Role::Scenery,
            motion: None,
            explosion: None,
            request: None,
            parent: Some(parent),
        },
    }
}

impl CommandQueue {
    /// Requests an entity together with its five parts.
    pub fn spawn_with_parts(&mut self, data: EntityData, parts: PartSet)
        ensures
            final(self).ops@ == old(self).ops@.push(Command::SpawnWithParts(data, parts)),
    {
        self.ops.push(Command::SpawnWithParts(data, parts));
    }
}

impl World {
    pub fn new() -> (r: World)
        ensures
            r.slots@ == Seq::<Slot>::empty(),
    {
        World { slots: Vec::new() }
    }

    /// Whether `e` names a live entity.
    pub fn is_alive(&self, e: Entity) -> (r: bool)
        ensures
            r == (e.0 < self.slots@.len() && self.slots@[e.0 as int].alive),
    {
        e.0 < self.slots.len() && self.slots[e.0].alive
    }

    /// Number of live entities.
    pub fn live_count(&self) -> (r: usize)
        ensures
            r == live_in(self.slots@, self.slots@.len() as int),
    {
        let mut n: usize = 0;
        let mut i: usize = 0;
        while i < self.slots.len()
            invariant
                i <= self.slots@.len(),
                n == live_in(self.slots@, i as int),
                n <= i,
            decreases self.slots@.len() - i,
        {
            if self.slots[i].alive {
                n = n + 1;
            }
            i = i + 1;
        }
        n
    }

    fn despawn_now(&mut self, e: Entity)
        requires
            e.0 < old(self).slots@.len(),
        ensures
            final(self).slots@ == apply(old(self).slots@, Command::Despawn(e)),
    {
        let n = self.slots.len();
        let mut k: usize = 0;
        while k < n
            invariant
                n == self.slots@.len(),
                n == old(self).slots@.len(),
                e.0 < n,
                k <= n,
                forall|j: int|
                    0 <= j < k ==> self.slots@[j] == apply(old(self).slots@, Command::Despawn(e))[j],
                forall|j: int| k <= j < n ==> self.slots@[j] == old(self).slots@[j],
            decreases n - k,
        {
            let s = self.slots[k];
            if k == e.0 || s.data.parent == Some(e) {
                self.slots.set(k, Slot { alive: false, ..s });
            }
            k = k + 1;
        }
        assert(self.slots@ == apply(old(self).slots@, Command::Despawn(e)));
    }

    /// Applies every buffered command in order, then empties the queue.
    pub fn flush(&mut self, queue: &mut CommandQueue)
        ensures
            final(self).slots@ == apply_all(old(self).slots@, old(queue).ops@),
            final(queue).ops@ == Seq::<Command>::empty(),
    {
        let mut i: usize = 0;
        while i < queue.ops.len()
            invariant
                i <= queue.ops@.len(),
                queue.ops@ == old(queue).ops@,
                self.slots@ == apply_all(old(self).slots@, queue.ops@.take(i as int)),
            decreases queue.ops@.len() - i,
        {
            assert(queue.ops@.take(i + 1).drop_last() == queue.ops@.take(i as int));
            match queue.ops[i] {
                Command::Spawn(d) => {
                    self.slots.push(Slot { alive: true, data: d });
                },
                Command::SpawnWithParts(d, ps) => {
                    let e = Entity(self.slots.len());
                    self.slots.push(Slot { alive: true, data: d });
                    self.slots.push(part_entity(ps.p0, e));
                    self.slots.push(part_entity(ps.p1, e));
                    self.slots.push(part_entity(ps.p2, e));
                    self.slots.push(part_entity(ps.p3, e));
                    self.slots.push(part_entity(ps.p4, e));
                },
                Command::Despawn(e) => {
                    if e.0 < self.slots.len() {
                        self.despawn_now(e);
                    }
                },
            }
            i = i + 1;
        }
        assert(queue.ops@.take(i as int) == queue.ops@);
        queue.ops.clear();
    }
}

/// Number of live slots among the first `n`.
pub open spec fn live_in(slots: Seq<Slot>, n: int) -> nat
    decreases n,
{
    if n <= 0 {
        0
    } else {
        live_in(slots, n - 1) + if slots[n - 1].alive { 1nat } else { 0nat }
    }
}

/// A despawn anywhere in the commands leaves the entity dead: nothing
/// brings it back.
pub proof fn lemma_despawn_sticks(slots: Seq<Slot>, cs: Seq<Command>, k: int)
    requires
        0 <= k < cs.len(),
        cs[k] matches Command::Despawn(e) && e.0 < slots.len(),
    ensures
        !apply_all(slots, cs)[cs[k]->Despawn_0.0 as int].alive,
        apply_all(slots, cs).len() >= slots.len(),
    decreases cs.len(),
{
    let e = cs[k]->Despawn_0;
    lemma_apply_all_grows(slots, cs.drop_last());
    if k < cs.len() - 1 {
        lemma_despawn_sticks(slots, cs.drop_last(), k);
    }
}

/// Commands never shrink the arena.
pub proof fn lemma_apply_all_grows(slots: Seq<Slot>, cs: Seq<Command>)
    ensures
        apply_all(slots, cs).len() >= slots.len(),
    decreases cs.len(),
{
    if cs.len() > 0 {
        lemma_apply_all_grows(slots, cs.drop_last());
    }
}

/// Whether none of the commands removes entity `i`.
pub open spec fn spares(cs: Seq<Command>, i: int) -> bool {
    forall|k: int| 0 <= k < cs.len() ==> cs[k] != Command::Despawn(Entity(i as usize))
}

/// Commands that remove neither an entity nor its parent leave its slot as
/// it was.
pub proof fn lemma_spared_unchanged(slots: Seq<Slot>, cs: Seq<Command>, i: int)
    requires
        0 <= i < slots.len() <= usize::MAX,
        spares(cs, i),
        slots[i].data.parent matches Some(p) ==> spares(cs, p.0 as int) && p.0 < usize::MAX,
    ensures
        apply_all(slots, cs)[i] == slots[i],
        apply_all(slots, cs).len() >= slots.len(),
    decreases cs.len(),
{
    if cs.len() > 0 {
        assert(spares(cs.drop_last(), i)) by {
            assert forall|k: int| 0 <= k < cs.drop_last().len() implies cs.drop_last()[k]
                != Command::Despawn(Entity(i as usize)) by {
                assert(cs.drop_last()[k] == cs[k]);
            }
        }
        lemma_spared_unchanged(slots, cs.drop_last(), i);
        assert(cs.last() == cs[cs.len() - 1]);
    }
}

pub proof fn lemma_spares_concat(a: Seq<Command>, b: Seq<Command>, i: int)
    requires
        spares(a, i),
        spares(b, i),
    ensures
        spares(a + b, i),
{
    assert forall|k: int| 0 <= k < (a + b).len() implies (a + b)[k] != Command::Despawn(
        Entity(i as usize),
    ) by {
        if k < a.len() {
            assert((a + b)[k] == a[k]);
        } else {
            assert((a + b)[k] == b[k - a.len()]);
        }
    }
}

/// A despawn anywhere in the commands also leaves every part of that
/// entity dead.
pub proof fn lemma_parts_go_with_parent(slots: Seq<Slot>, cs: Seq<Command>, k: int, i: int)
    requires
        0 <= k < cs.len(),
        0 <= i < slots.len(),
        cs[k] matches Command::Despawn(e) && e.0 < slots.len() && slots[i].data.parent == Some(e),
    ensures
        !apply_all(slots, cs)[i].alive,
    decreases cs.len(),
{
    lemma_apply_all_grows(slots, cs.drop_last());
    if k < cs.len() - 1 {
        lemma_parts_go_with_parent(slots, cs.drop_last(), k, i);
    } else {
        lemma_parent_kept(slots, cs.drop_last(), i);
    }
}

/// Commands never change which entity a slot belongs to.
pub proof fn lemma_parent_kept(slots: Seq<Slot>, cs: Seq<Command>, i: int)
    requires
        0 <= i < slots.len(),
    ensures
        apply_all(slots, cs).len() >= slots.len(),
        apply_all(slots, cs)[i].data == slots[i].data,
    decreases cs.len(),
{
    if cs.len() > 0 {
        lemma_parent_kept(slots, cs.drop_last(), i);
    }
}

} // verus!
