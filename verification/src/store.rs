//! Entity identity and component storage.
//!
//! An [`Entity`] is a (slot, generation) pair. A slot's generation counter
//! increments when the slot is freed, so a stale identifier never aliases a
//! live entity: every lookup through a despawned identifier resolves absent.
//!
//! Structural mutation (spawn/despawn) is buffered as [`Command`]s in a
//! [`CommandBuffer`] and applied at stage boundaries by
//! [`apply_commands`], never while a stage iterates the tables.

use vstd::prelude::*;
use crate::components::ComponentSet;

verus! {

/// An opaque entity identifier: a table slot plus the generation the slot
/// had when this entity was spawned.
#[derive(Clone, Copy, PartialEq, Eq, Structural, Debug, Hash)]
pub struct Entity {
    pub slot: usize,
    pub generation: u64,
}

/// One storage slot: its current generation, whether an entity lives in it,
/// and the component record of that entity.
#[derive(Clone, Copy, PartialEq, Eq, Structural, Debug)]
pub struct Slot {
    pub generation: u64,
    pub alive: bool,
    pub set: ComponentSet,
}

/// The entity/component store: a dense slot table indexed by entity slot,
/// plus a free list of slots available for reuse.
pub struct Store {
    pub slots: Vec<Slot>,
    pub free: Vec<usize>,
}

/// The mathematical model of a [`Store`].
#[verifier::ext_equal]
pub ghost struct StoreView {
    pub slots: Seq<Slot>,
    pub free: Seq<usize>,
}

impl View for Store {
    type V = StoreView;

    open spec fn view(&self) -> StoreView {
        StoreView { slots: self.slots@, free: self.free@ }
    }
}

impl StoreView {
    /// Well-formed: every free-list entry names a distinct, in-range, dead
    /// slot.
    pub open spec fn wf(self) -> bool {
        &&& forall|i: int|
            0 <= i < self.free.len() ==> (self.free[i] as int) < self.slots.len()
                && !self.slots[self.free[i] as int].alive
        &&& forall|i: int, j: int| 0 <= i < j < self.free.len() ==> self.free[i] != self.free[j]
    }

    /// Does `e` name a live entity: in range, slot occupied, generation
    /// current.
    pub open spec fn live(self, e: Entity) -> bool {
        &&& (e.slot as int) < self.slots.len()
        &&& self.slots[e.slot as int].alive
        &&& self.slots[e.slot as int].generation == e.generation
    }

    /// The component record of `e`, absent when `e` is dead or stale.
    pub open spec fn comps(self, e: Entity) -> Option<ComponentSet> {
        if self.live(e) {
            Some(self.slots[e.slot as int].set)
        } else {
            None
        }
    }

    /// The identifier the next spawn will return.
    pub open spec fn spawned_entity(self) -> Entity {
        if self.free.len() > 0 {
            Entity {
                slot: self.free.last(),
                generation: self.slots[self.free.last() as int].generation,
            }
        } else {
            Entity { slot: self.slots.len() as usize, generation: 0 }
        }
    }

    /// The store after spawning one entity with record `set`.
    pub open spec fn spawned(self, set: ComponentSet) -> StoreView {
        if self.free.len() > 0 {
            StoreView {
                slots: self.slots.update(
                    self.free.last() as int,
                    Slot {
                        generation: self.slots[self.free.last() as int].generation,
                        alive: true,
                        set,
                    },
                ),
                free: self.free.drop_last(),
            }
        } else {
            StoreView {
                slots: self.slots.push(Slot { generation: 0, alive: true, set }),
                free: self.free,
            }
        }
    }

    /// The store after despawning `e`: a no-op on a dead or stale
    /// identifier; otherwise the slot is emptied, its generation bumped and
    /// the slot freed for reuse. A slot whose generation counter is
    /// exhausted is retired instead of freed, so identifiers stay unique.
    pub open spec fn despawned(self, e: Entity) -> StoreView {
        if self.live(e) {
            if e.generation < u64::MAX {
                StoreView {
                    slots: self.slots.update(
                        e.slot as int,
                        Slot {
                            generation: (e.generation + 1) as u64,
                            alive: false,
                            set: ComponentSet::spec_empty(),
                        },
                    ),
                    free: self.free.push(e.slot),
                }
            } else {
                StoreView {
                    slots: self.slots.update(
                        e.slot as int,
                        Slot {
                            generation: e.generation,
                            alive: false,
                            set: ComponentSet::spec_empty(),
                        },
                    ),
                    free: self.free,
                }
            }
        } else {
            self
        }
    }

    /// The store after one buffered command.
    pub open spec fn applied_one(self, c: Command) -> StoreView {
        match c {
            Command::Spawn(set) => self.spawned(set),
            Command::Despawn(e) => self.despawned(e),
        }
    }

    /// The store after a whole command sequence, applied in order.
    pub open spec fn applied(self, cmds: Seq<Command>) -> StoreView
        decreases cmds.len(),
    {
        if cmds.len() == 0 {
            self
        } else {
            self.applied_one(cmds[0]).applied(cmds.skip(1))
        }
    }
}

impl Store {
    /// An empty store.
    pub fn new() -> (r: Store)
        ensures
            r@.slots.len() == 0,
            r@.free.len() == 0,
            r@.wf(),
    {
        Store { slots: Vec::new(), free: Vec::new() }
    }

    /// Create an entity carrying the record `set`, reusing a freed slot when
    /// one exists. The identifier returned is fresh: it names no entity that
    /// was live before, and every previously live entity is untouched.
    pub fn spawn(&mut self, set: ComponentSet) -> (r: Entity)
        requires
            old(self)@.wf(),
        ensures
            final(self)@ == old(self)@.spawned(set),
            r == old(self)@.spawned_entity(),
            final(self)@.wf(),
            final(self)@.live(r),
            final(self)@.comps(r) == Some(set),
            !old(self)@.live(r),
            forall|e: Entity|
                old(self)@.live(e) ==> final(self)@.live(e) && final(self)@.comps(e)
                    == old(self)@.comps(e),
            forall|e: Entity| !old(self)@.live(e) && e != r ==> !final(self)@.live(e),
    {
        let n = self.free.len();
        if n > 0 {
            let s = self.free[n - 1];
            self.free.pop();
            let g = self.slots[s].generation;
            self.slots[s] = Slot { generation: g, alive: true, set };
            assert(self@.slots =~= old(self)@.spawned(set).slots);
            assert(self@.free =~= old(self)@.spawned(set).free);
            Entity { slot: s, generation: g }
        } else {
            let s = self.slots.len();
            self.slots.push(Slot { generation: 0, alive: true, set });
            proof {
                vstd::std_specs::vec::axiom_spec_len(&self.slots);
            }
            Entity { slot: s, generation: 0 }
        }
    }

    /// Destroy the entity `e` names. A dead or stale identifier makes this
    /// a silent no-op. On success the slot's generation is bumped and the
    /// slot returns to the free list, so `e` resolves absent ever after.
    pub fn despawn(&mut self, e: Entity)
        requires
            old(self)@.wf(),
        ensures
            final(self)@ == old(self)@.despawned(e),
            final(self)@.wf(),
            !final(self)@.live(e),
            forall|x: Entity|
                old(self)@.live(x) && x != e ==> final(self)@.live(x) && final(self)@.comps(x)
                    == old(self)@.comps(x),
            forall|x: Entity| !old(self)@.live(x) ==> !final(self)@.live(x),
    {
        if e.slot < self.slots.len() {
            let sl = self.slots[e.slot];
            if sl.alive && sl.generation == e.generation {
                if e.generation < u64::MAX {
                    self.slots[e.slot] = Slot {
                        generation: e.generation + 1,
                        alive: false,
                        set: ComponentSet::empty(),
                    };
                    self.free.push(e.slot);
                } else {
                    self.slots[e.slot] = Slot {
                        generation: e.generation,
                        alive: false,
                        set: ComponentSet::empty(),
                    };
                }
            }
        }
    }

    /// The component record of `e`; absent when `e` is dead or stale — a
    /// stale identifier behaves exactly like a missing component.
    pub fn get_components(&self, e: Entity) -> (r: Option<ComponentSet>)
        ensures
            r == self@.comps(e),
    {
        if e.slot < self.slots.len() {
            let sl = self.slots[e.slot];
            if sl.alive && sl.generation == e.generation {
                Some(sl.set)
            } else {
                None
            }
        } else {
            None
        }
    }

    /// The health of `e`, absent when `e` is dead, stale, or has none.
    pub fn get_health(&self, e: Entity) -> (r: Option<crate::components::Health>)
        ensures
            r == (match self@.comps(e) {
                Some(set) => set.health,
                None => None,
            }),
    {
        match self.get_components(e) {
            Some(set) => set.health,
            None => None,
        }
    }

    /// The position of `e`, absent when `e` is dead, stale, or has none.
    pub fn get_position(&self, e: Entity) -> (r: Option<crate::components::Pos>)
        ensures
            r == (match self@.comps(e) {
                Some(set) => set.position,
                None => None,
            }),
    {
        match self.get_components(e) {
            Some(set) => set.position,
            None => None,
        }
    }

    /// Does `e` name a live entity?
    pub fn is_live(&self, e: Entity) -> (r: bool)
        ensures
            r == self@.live(e),
    {
        e.slot < self.slots.len() && self.slots[e.slot].alive
            && self.slots[e.slot].generation == e.generation
    }

    /// The identifiers of all live entities, in slot order.
    pub fn live_entities(&self) -> (r: Vec<Entity>)
        ensures
            forall|k: int| 0 <= k < r@.len() ==> self@.live(#[trigger] r@[k]),
            forall|e: Entity| self@.live(e) ==> r@.contains(e),
    {
        let mut out: Vec<Entity> = Vec::new();
        let mut i: usize = 0;
        while i < self.slots.len()
            invariant
                i <= self.slots@.len(),
                forall|k: int| 0 <= k < out@.len() ==> self@.live(#[trigger] out@[k]),
                forall|e: Entity|
                    self@.live(e) && (e.slot as int) < i as int ==> out@.contains(e),
            decreases self.slots@.len() - i,
        {
            if self.slots[i].alive {
                let e = Entity { slot: i, generation: self.slots[i].generation };
                let ghost prev = out@;
                out.push(e);
                proof {
                    assert forall|x: Entity|
                        self@.live(x) && (x.slot as int) < i + 1 implies out@.contains(x) by {
                        if (x.slot as int) < i as int {
                            let k = choose|k: int| 0 <= k < prev.len() && prev[k] == x;
                            assert(out@[k] == x);
                        } else {
                            assert(x == e);
                            assert(out@[out@.len() - 1] == x);
                        }
                    }
                }
            }
            i = i + 1;
        }
        out
    }
}

/// Well-formedness only watches slot count, liveness and the free list: a
/// store that keeps all three keeps `wf`, whatever its components became.
pub proof fn lemma_wf_same_shape(a: StoreView, b: StoreView)
    requires
        a.wf(),
        b.free == a.free,
        b.slots.len() == a.slots.len(),
        forall|i: int| 0 <= i < a.slots.len() ==> b.slots[i].alive == a.slots[i].alive,
    ensures
        b.wf(),
{
    assert forall|i: int|
        0 <= i < b.free.len() implies (b.free[i] as int) < b.slots.len()
        && !b.slots[b.free[i] as int].alive by {
        assert((a.free[i] as int) < a.slots.len() && !a.slots[a.free[i] as int].alive);
    }
}

/// A buffered structural mutation.
#[derive(Clone, Copy, PartialEq, Eq, Structural, Debug)]
pub enum Command {
    Spawn(ComponentSet),
    Despawn(Entity),
}

/// Queued structural mutations, applied in order at the next stage boundary.
pub struct CommandBuffer {
    pub queue: Vec<Command>,
}

impl View for CommandBuffer {
    type V = Seq<Command>;

    open spec fn view(&self) -> Seq<Command> {
        self.queue@
    }
}

impl CommandBuffer {
    pub fn new() -> (r: CommandBuffer)
        ensures
            r@.len() == 0,
    {
        CommandBuffer { queue: Vec::new() }
    }

    /// Request an entity with record `set` at the next stage boundary.
    pub fn queue_spawn(&mut self, set: ComponentSet)
        ensures
            final(self)@ == old(self)@.push(Command::Spawn(set)),
    {
        self.queue.push(Command::Spawn(set));
    }

    /// Request that the entity `e` names be destroyed at the next stage
    /// boundary.
    pub fn queue_despawn(&mut self, e: Entity)
        ensures
            final(self)@ == old(self)@.push(Command::Despawn(e)),
    {
        self.queue.push(Command::Despawn(e));
    }
}

/// Folding one more command onto an applied prefix is the same as applying
/// the longer sequence.
pub proof fn lemma_applied_push(v: StoreView, s: Seq<Command>, c: Command)
    ensures
        v.applied(s.push(c)) == v.applied(s).applied_one(c),
    decreases s.len(),
{
    let t = s.push(c);
    if s.len() == 0 {
        assert(t[0] == c);
        assert(t.skip(1) =~= Seq::<Command>::empty());
        assert(v.applied(t) == v.applied_one(c).applied(t.skip(1)));
        assert(v.applied_one(c).applied(t.skip(1)) == v.applied_one(c));
        assert(v.applied(s) == v);
    } else {
        assert(t[0] == s[0]);
        assert(t.skip(1) =~= s.skip(1).push(c));
        assert(v.applied(t) == v.applied_one(s[0]).applied(t.skip(1)));
        lemma_applied_push(v.applied_one(s[0]), s.skip(1), c);
        assert(v.applied(s) == v.applied_one(s[0]).applied(s.skip(1)));
    }
}

/// Drain the command buffer into the store: every queued spawn and despawn
/// takes effect, in the order it was queued, and the buffer is left empty.
pub fn apply_commands(store: &mut Store, buffer: &mut CommandBuffer)
    requires
        old(store)@.wf(),
    ensures
        final(store)@ == old(store)@.applied(old(buffer)@),
        final(store)@.wf(),
        final(buffer)@.len() == 0,
{
    let n = buffer.queue.len();
    let mut i: usize = 0;
    while i < n
        invariant
            i <= n,
            n == buffer.queue@.len(),
            buffer.queue@ == old(buffer)@,
            store@ == old(store)@.applied(buffer.queue@.take(i as int)),
            store@.wf(),
        decreases n - i,
    {
        let c = buffer.queue[i];
        proof {
            assert(buffer.queue@.take(i as int + 1) =~= buffer.queue@.take(i as int).push(
                buffer.queue@[i as int],
            ));
            lemma_applied_push(old(store)@, buffer.queue@.take(i as int), buffer.queue@[i as int]);
        }
        match c {
            Command::Spawn(set) => {
                store.spawn(set);
            },
            Command::Despawn(e) => {
                store.despawn(e);
            },
        }
        i = i + 1;
    }
    proof {
        assert(buffer.queue@.take(n as int) =~= buffer.queue@);
    }
    buffer.queue.clear();
}

/// After an entity is despawned, its identifier resolves absent, and a
/// subsequent spawn — even one reusing the freed slot — returns a distinct
/// identifier, under which the old reference still resolves absent.
pub proof fn lemma_stale_after_respawn(v: StoreView, e: Entity, set: ComponentSet)
    requires
        v.wf(),
        v.slots.len() <= usize::MAX,
        v.live(e),
    ensures
        !v.despawned(e).live(e),
        v.despawned(e).comps(e) is None,
        v.despawned(e).spawned_entity() != e,
        v.despawned(e).spawned(set).live(v.despawned(e).spawned_entity()),
        !v.despawned(e).spawned(set).live(e),
        v.despawned(e).spawned(set).comps(e) is None,
{
    let v1 = v.despawned(e);
    let e2 = v1.spawned_entity();
    let v2 = v1.spawned(set);
    assert(forall|i: int|
        0 <= i < v.free.len() ==> v.free[i] != e.slot);
    if e.generation < u64::MAX {
        assert(v1.free.last() == e.slot);
        assert(e2.generation == e.generation + 1);
    } else {
        if v1.free.len() > 0 {
            assert(v1.free.last() != e.slot);
        } else {
            assert(v1.slots.len() == v.slots.len());
            assert(e2.slot as int >= v.slots.len());
            assert((e.slot as int) < v.slots.len());
        }
    }
    assert(!v2.live(e));
}

} // verus!

verus! {

/// Spawning never disturbs a live entity and never hands out an identifier
/// that was live before.
pub proof fn lemma_spawned_wf(v: StoreView, set: ComponentSet)
    requires
        v.wf(),
    ensures
        v.spawned(set).wf(),
{
    let w = v.spawned(set);
    if v.free.len() > 0 {
        assert forall|i: int|
            0 <= i < w.free.len() implies (w.free[i] as int) < w.slots.len() && !w.slots[w.free[
        i] as int].alive by {
            assert(w.free[i] == v.free[i]);
            assert(v.free[i] != v.free[v.free.len() - 1]);
        }
    }
}

/// Despawning keeps the free list well-formed, whether or not it freed a
/// slot.
pub proof fn lemma_despawned_wf(v: StoreView, e: Entity)
    requires
        v.wf(),
    ensures
        v.despawned(e).wf(),
{
    let w = v.despawned(e);
    if v.live(e) {
        assert forall|i: int| 0 <= i < v.free.len() implies v.free[i] != e.slot by {
            assert(!v.slots[v.free[i] as int].alive);
        }
        assert forall|i: int|
            0 <= i < w.free.len() implies (w.free[i] as int) < w.slots.len() && !w.slots[w.free[
        i] as int].alive by {
            if i < v.free.len() {
                assert(v.free[i] != e.slot);
            }
        }
    }
}

/// `e`'s slot has outlived `e`: its generation moved past `e`'s, or the
/// slot was retired — dead at `e`'s generation and withheld from the free
/// list. Either way no later spawn can mint `e` again.
pub open spec fn spec_outlived(v: StoreView, e: Entity) -> bool {
    &&& (e.slot as int) < v.slots.len()
    &&& (v.slots[e.slot as int].generation > e.generation || (!v.slots[e.slot as int].alive
        && v.slots[e.slot as int].generation == e.generation && forall|i: int|
        0 <= i < v.free.len() ==> v.free[i] != e.slot))
}

/// Despawning a live entity outlives its identifier.
pub proof fn lemma_despawned_outlived(v: StoreView, e: Entity)
    requires
        v.wf(),
        v.live(e),
    ensures
        spec_outlived(v.despawned(e), e),
{
    assert forall|i: int| 0 <= i < v.free.len() implies v.free[i] != e.slot by {
        assert(!v.slots[v.free[i] as int].alive);
    }
}

/// No single command can revive an outlived identifier.
pub proof fn lemma_outlived_preserved_one(v: StoreView, e: Entity, c: Command)
    requires
        v.wf(),
        spec_outlived(v, e),
    ensures
        spec_outlived(v.applied_one(c), e),
{
    match c {
        Command::Spawn(set) => {
            let w = v.spawned(set);
            if v.free.len() > 0 {
                let t = v.free.last() as int;
                if t == e.slot as int {
                    assert(v.free[v.free.len() - 1] == e.slot);
                    assert(v.slots[t].generation > e.generation);
                } else {
                    assert(w.slots[e.slot as int] == v.slots[e.slot as int]);
                    if !(v.slots[e.slot as int].generation > e.generation) {
                        assert(w.free == v.free.drop_last());
                        assert forall|i: int| 0 <= i < w.free.len() implies w.free[i] != e.slot by {
                            assert(w.free[i] == v.free.drop_last()[i]);
                            assert(v.free.drop_last()[i] == v.free[i]);
                        }
                    }
                }
            }
        },
        Command::Despawn(x) => {
            if v.live(x) {
                if x.slot == e.slot {
                    assert(v.slots[e.slot as int].generation > e.generation);
                } else {
                    let w = v.despawned(x);
                    assert(w.slots[e.slot as int] == v.slots[e.slot as int]);
                    if !(v.slots[e.slot as int].generation > e.generation) {
                        assert forall|i: int| 0 <= i < w.free.len() implies w.free[i] != e.slot by {
                            if i < v.free.len() {
                                assert(w.free[i] == v.free[i]);
                            } else {
                                assert(w.free[i] == x.slot);
                            }
                        }
                    }
                }
            }
        },
    }
}

/// No command sequence can revive an outlived identifier.
pub proof fn lemma_outlived_preserved(v: StoreView, e: Entity, cmds: Seq<Command>)
    requires
        v.wf(),
        spec_outlived(v, e),
    ensures
        spec_outlived(v.applied(cmds), e),
        !v.applied(cmds).live(e),
    decreases cmds.len(),
{
    if cmds.len() > 0 {
        lemma_outlived_preserved_one(v, e, cmds[0]);
        match cmds[0] {
            Command::Spawn(set) => lemma_spawned_wf(v, set),
            Command::Despawn(x) => lemma_despawned_wf(v, x),
        }
        lemma_outlived_preserved(v.applied_one(cmds[0]), e, cmds.skip(1));
    }
}

/// Applying a command sequence that holds a despawn of `e` leaves `e`
/// absent, whatever else the sequence does.
pub proof fn lemma_applied_despawns(v: StoreView, e: Entity, cmds: Seq<Command>)
    requires
        v.wf(),
        v.live(e) || spec_outlived(v, e),
        spec_outlived(v, e) || cmds.contains(Command::Despawn(e)),
    ensures
        !v.applied(cmds).live(e),
    decreases cmds.len(),
{
    if spec_outlived(v, e) {
        lemma_outlived_preserved(v, e, cmds);
    } else {
        let k = choose|k: int| 0 <= k < cmds.len() && cmds[k] == Command::Despawn(e);
        let v1 = v.applied_one(cmds[0]);
        match cmds[0] {
            Command::Spawn(set) => {
                lemma_spawned_wf(v, set);
                // the spawn target is a dead slot or a fresh one, so `e`
                // stays live
                if v.free.len() > 0 {
                    assert(!v.slots[v.free.last() as int].alive);
                }
                assert(v1.live(e));
                assert(cmds.skip(1)[k - 1] == Command::Despawn(e));
                assert(cmds.skip(1).contains(Command::Despawn(e)));
                lemma_applied_despawns(v1, e, cmds.skip(1));
            },
            Command::Despawn(x) => {
                lemma_despawned_wf(v, x);
                if x == e {
                    lemma_despawned_outlived(v, e);
                    lemma_despawned_wf(v, e);
                    lemma_outlived_preserved(v1, e, cmds.skip(1));
                } else {
                    if v.live(x) && x.slot == e.slot {
                        assert(x.generation == e.generation);
                        assert(false);
                    }
                    assert(v1.live(e));
                    assert(k > 0);
                    assert(cmds.skip(1)[k - 1] == Command::Despawn(e));
                    assert(cmds.skip(1).contains(Command::Despawn(e)));
                    lemma_applied_despawns(v1, e, cmds.skip(1));
                }
            },
        }
    }
}

/// Applying a command sequence with no despawn of `e` keeps `e` live, with
/// its component record untouched.
pub proof fn lemma_applied_preserves(v: StoreView, e: Entity, cmds: Seq<Command>)
    requires
        v.wf(),
        v.live(e),
        forall|k: int| 0 <= k < cmds.len() ==> cmds[k] != Command::Despawn(e),
    ensures
        v.applied(cmds).live(e),
        v.applied(cmds).comps(e) == v.comps(e),
    decreases cmds.len(),
{
    if cmds.len() > 0 {
        let v1 = v.applied_one(cmds[0]);
        match cmds[0] {
            Command::Spawn(set) => {
                lemma_spawned_wf(v, set);
                if v.free.len() > 0 {
                    assert(!v.slots[v.free.last() as int].alive);
                }
                assert(v1.live(e) && v1.comps(e) == v.comps(e));
            },
            Command::Despawn(x) => {
                lemma_despawned_wf(v, x);
                if v.live(x) && x.slot == e.slot {
                    assert(x.generation == e.generation);
                    assert(x == e);
                    assert(cmds[0] == Command::Despawn(e));
                    assert(false);
                }
                assert(v1.live(e) && v1.comps(e) == v.comps(e));
            },
        }
        assert forall|k: int|
            0 <= k < cmds.skip(1).len() implies cmds.skip(1)[k] != Command::Despawn(e) by {
            assert(cmds.skip(1)[k] == cmds[k + 1]);
        }
        lemma_applied_preserves(v1, e, cmds.skip(1));
    }
}

} // verus!
