//! Integration of the block tick systems with the world and chunk lifecycle:
//! the per-game-tick driver over registered chunks, pending external block
//! updates, and change propagation to neighbors.

use crate::block::{spec_receives_random_ticks, BlockKind};
use crate::block_properties::BlockProperties;
use crate::block_ticking::{drains_due, due_keys, is_candidate_pick, BlockTick, TickType};
use crate::block_transitions::{BlockStateTransition, PROBABILITY_SCALE};
use crate::tick_executor::{
    apply_samples, events_phase, ticks_of, BlockTickExecutor, ProcessedTick,
};
use crate::world::BlockWorld;
use vstd::prelude::*;

verus! {

#[verifier::external_type_specification]
#[verifier::external_body]
pub struct ExAHashRandomState(ahash::RandomState);

/// The set of chunk positions registered for random ticking. Names what the
/// `ahash` map below holds: its key set.
pub uninterp spec fn chunk_set_contents(m: ahash::AHashMap<(i32, i32), bool>) -> Set<(i32, i32)>;

#[verifier::external_type_specification]
#[verifier::external_body]
#[verifier::reject_recursive_types(K)]
#[verifier::reject_recursive_types(V)]
#[verifier::reject_recursive_types(S)]
pub struct ExAHashMap<K, V, S>(ahash::AHashMap<K, V, S>);

/// Relies on `ahash::AHashMap::new`: a fresh map holds no key.
#[verifier::external_body]
fn chunk_set_new() -> (r: ahash::AHashMap<(i32, i32), bool>)
    ensures
        chunk_set_contents(r) == Set::<(i32, i32)>::empty(),
{
    ahash::AHashMap::new()
}

/// Relies on `ahash::AHashMap::insert`: afterwards the map holds the key,
/// and no other key appears or disappears.
#[verifier::external_body]
fn chunk_set_insert(m: &mut ahash::AHashMap<(i32, i32), bool>, key: (i32, i32))
    ensures
        chunk_set_contents(*final(m)) == chunk_set_contents(*old(m)).insert(key),
{
    m.insert(key, true);
}

/// Relies on `ahash::AHashMap::remove`: afterwards the map no longer holds
/// the key, and no other key appears or disappears.
#[verifier::external_body]
fn chunk_set_remove(m: &mut ahash::AHashMap<(i32, i32), bool>, key: (i32, i32))
    ensures
        chunk_set_contents(*final(m)) == chunk_set_contents(*old(m)).remove(key),
{
    m.remove(&key);
}

/// Relies on `std::collections::HashMap::keys`, reached through
/// `ahash::AHashMap`'s `Deref`: every key exactly once, in arbitrary order.
/// Nothing is assumed about the order.
#[verifier::external_body]
fn chunk_set_keys(m: &ahash::AHashMap<(i32, i32), bool>) -> (r: Vec<(i32, i32)>)
    ensures
        forall|i: int, j: int| 0 <= i < j < r@.len() ==> r@[i] != r@[j],
        forall|p: (i32, i32)| #[trigger] r@.contains(p) <==> chunk_set_contents(*m).contains(p),
{
    m.keys().copied().collect()
}

/// A pending external block update: a deferred request to (re)schedule a
/// tick, queued until its delay (an absolute game-tick count) has elapsed.
#[derive(Clone, Copy, Debug)]
pub struct BlockUpdate {
    /// The absolute world position the update concerns.
    pub position: (i32, i32, i32),
    /// The block kind recorded when the update was queued.
    pub kind: BlockKind,
    /// The absolute tick count at which the update becomes due.
    pub delay: u32,
    /// Priority handed to the scheduled tick when the update is promoted.
    pub priority: i32,
}

/// Whether a pending update is due once the running counter reads `now`.
pub open spec fn is_update_due(u: BlockUpdate, now: u64) -> bool {
    u.delay as u64 <= now
}

/// The pending updates that are not yet due at `now`, in order.
pub open spec fn not_due_updates(ups: Seq<BlockUpdate>, now: u64) -> Seq<BlockUpdate>
    decreases ups.len(),
{
    if ups.len() == 0 {
        Seq::empty()
    } else {
        not_due_updates(ups.drop_last(), now) + (if is_update_due(ups.last(), now) {
            Seq::empty()
        } else {
            seq![ups.last()]
        })
    }
}

/// The event queue after draining the pending updates at counter `now`
/// against world content `m`: each due update whose position still holds a
/// block of the recorded kind becomes a scheduled event due immediately;
/// every other update leaves the queue alone.
pub open spec fn promote_updates(
    evq: Map<(i32, i32, i32), BlockTick>,
    ups: Seq<BlockUpdate>,
    m: Map<(i32, i32, i32), (BlockKind, BlockProperties)>,
    now: u64,
) -> Map<(i32, i32, i32), BlockTick>
    decreases ups.len(),
{
    if ups.len() == 0 {
        evq
    } else {
        let prevq = promote_updates(evq, ups.drop_last(), m, now);
        let u = ups.last();
        if is_update_due(u, now) && m.contains_key(u.position) && m[u.position].0 == u.kind {
            prevq.insert(
                u.position,
                BlockTick {
                    position: u.position,
                    kind: u.kind,
                    scheduled_time: now,
                    tick_type: TickType::Scheduled,
                    priority: u.priority,
                },
            )
        } else {
            prevq
        }
    }
}

/// The neighbor of `p` one step along positive x, where representable.
pub open spec fn nb_px(p: (i32, i32, i32)) -> Option<(i32, i32, i32)> {
    if p.0 < i32::MAX {
        Some(((p.0 + 1) as i32, p.1, p.2))
    } else {
        None
    }
}

/// The neighbor of `p` one step along negative x, where representable.
pub open spec fn nb_nx(p: (i32, i32, i32)) -> Option<(i32, i32, i32)> {
    if p.0 > i32::MIN {
        Some(((p.0 - 1) as i32, p.1, p.2))
    } else {
        None
    }
}

/// The neighbor of `p` one step along positive y, where representable.
pub open spec fn nb_py(p: (i32, i32, i32)) -> Option<(i32, i32, i32)> {
    if p.1 < i32::MAX {
        Some((p.0, (p.1 + 1) as i32, p.2))
    } else {
        None
    }
}

/// The neighbor of `p` one step along negative y, where representable.
pub open spec fn nb_ny(p: (i32, i32, i32)) -> Option<(i32, i32, i32)> {
    if p.1 > i32::MIN {
        Some((p.0, (p.1 - 1) as i32, p.2))
    } else {
        None
    }
}

/// The neighbor of `p` one step along positive z, where representable.
pub open spec fn nb_pz(p: (i32, i32, i32)) -> Option<(i32, i32, i32)> {
    if p.2 < i32::MAX {
        Some((p.0, p.1, (p.2 + 1) as i32))
    } else {
        None
    }
}

/// The neighbor of `p` one step along negative z, where representable.
pub open spec fn nb_nz(p: (i32, i32, i32)) -> Option<(i32, i32, i32)> {
    if p.2 > i32::MIN {
        Some((p.0, p.1, (p.2 - 1) as i32))
    } else {
        None
    }
}

/// The pending update that propagation enqueues for one neighbor candidate:
/// one update due at the next tick, with neutral priority, where a block
/// stands; nothing where the position is absent or out of range.
pub open spec fn update_at(
    m: Map<(i32, i32, i32), (BlockKind, BlockProperties)>,
    q: Option<(i32, i32, i32)>,
) -> Seq<BlockUpdate> {
    match q {
        Some(q0) => if m.contains_key(q0) {
            seq![(BlockUpdate { position: q0, kind: m[q0].0, delay: 1, priority: 0 })]
        } else {
            Seq::empty()
        },
        None => Seq::empty(),
    }
}

/// What propagation enqueues: one pending update per present neighbor of
/// `p`, in axis order +x, -x, +y, -y, +z, -z, each with delay 1.
pub open spec fn neighbor_updates(
    m: Map<(i32, i32, i32), (BlockKind, BlockProperties)>,
    p: (i32, i32, i32),
) -> Seq<BlockUpdate> {
    update_at(m, nb_px(p)) + update_at(m, nb_nx(p)) + update_at(m, nb_py(p)) + update_at(
        m,
        nb_ny(p),
    ) + update_at(m, nb_pz(p)) + update_at(m, nb_nz(p))
}

/// Propagation fan-out law: a block change enqueues at most six pending
/// updates, one per neighbor position that holds a block (all six when
/// every neighbor is representable and occupied), each with delay 1 and
/// neutral priority.
pub proof fn lemma_propagation_fan_out(
    m: Map<(i32, i32, i32), (BlockKind, BlockProperties)>,
    p: (i32, i32, i32),
)
    ensures
        neighbor_updates(m, p).len() <= 6,
        forall|i: int|
            0 <= i < neighbor_updates(m, p).len() ==> (#[trigger] neighbor_updates(m, p)[i]).delay
                == 1 && neighbor_updates(m, p)[i].priority == 0 && m.contains_key(
                neighbor_updates(m, p)[i].position,
            ),
        (nb_px(p) is Some && m.contains_key(nb_px(p)->Some_0) && nb_nx(p) is Some
            && m.contains_key(nb_nx(p)->Some_0) && nb_py(p) is Some && m.contains_key(
            nb_py(p)->Some_0,
        ) && nb_ny(p) is Some && m.contains_key(nb_ny(p)->Some_0) && nb_pz(p) is Some
            && m.contains_key(nb_pz(p)->Some_0) && nb_nz(p) is Some && m.contains_key(
            nb_nz(p)->Some_0,
        )) ==> neighbor_updates(m, p).len() == 6,
{
}

/// Whether a region-table entry is small enough that every block position in
/// it is representable: its x and z block coordinates fit in 32 bits and its
/// height fits a signed y coordinate.
pub open spec fn region_ok(c: ((i32, i32), u32)) -> bool {
    &&& i32::MIN <= c.0.0 * 16 && c.0.0 * 16 + 15 <= i32::MAX
    &&& i32::MIN <= c.0.1 * 16 && c.0.1 * 16 + 15 <= i32::MAX
    &&& c.1 <= i32::MAX as u32
}

/// Whether a block position lies inside a region-table entry: within its
/// 16 x 16 column and below its height.
pub open spec fn in_region(c: ((i32, i32), u32), p: (i32, i32, i32)) -> bool {
    &&& c.0.0 * 16 <= p.0 <= c.0.0 * 16 + 15
    &&& 0 <= p.1 < c.1
    &&& c.0.1 * 16 <= p.2 <= c.0.1 * 16 + 15
}

/// Whether a sampled (position, kind) pair is a legitimate random-tick
/// candidate of a region: inside the region, currently holding a block of
/// that kind, and eligible for random ticks.
pub open spec fn pick_from_region(
    m: Map<(i32, i32, i32), (BlockKind, BlockProperties)>,
    c: ((i32, i32), u32),
    e: ((i32, i32, i32), BlockKind),
) -> bool {
    &&& in_region(c, e.0)
    &&& m.contains_key(e.0)
    &&& m[e.0].0 == e.1
    &&& spec_receives_random_ticks(e.1)
}

/// Whether some block of a region is eligible for random ticks.
pub open spec fn region_has_candidate(
    m: Map<(i32, i32, i32), (BlockKind, BlockProperties)>,
    c: ((i32, i32), u32),
) -> bool {
    exists|p: (i32, i32, i32)|
        #[trigger] in_region(c, p) && m.contains_key(p) && spec_receives_random_ticks(m[p].0)
}

/// Whether the candidate list holds the block that `m` places at `p`.
pub open spec fn lists_candidate(
    cands: Seq<(BlockKind, (i32, i32, i32), BlockProperties)>,
    m: Map<(i32, i32, i32), (BlockKind, BlockProperties)>,
    p: (i32, i32, i32),
) -> bool {
    exists|k: int| 0 <= k < cands.len() && (#[trigger] cands[k]).1 == p && cands[k].0 == m[p].0
}

/// The region positions the candidate scan has already visited when it
/// stands at height `y`, column row `z`, column `x`: the scan walks y
/// outermost, then z, then x.
spec fn scanned(c: ((i32, i32), u32), y: int, z: int, x: int, p: (i32, i32, i32)) -> bool {
    in_region(c, p) && (p.1 < y || (p.1 == y && (p.2 - c.0.1 * 16 < z || (p.2 - c.0.1 * 16 == z
        && p.0 - c.0.0 * 16 < x))))
}

/// The height of the first region-table entry at chunk position `q`.
pub open spec fn table_lookup(table: Seq<((i32, i32), u32)>, q: (i32, i32)) -> Option<u32>
    decreases table.len(),
{
    if table.len() == 0 {
        None
    } else if table[0].0 == q {
        Some(table[0].1)
    } else {
        table_lookup(table.drop_first(), q)
    }
}

/// How one region's random-tick pass relates world contents: some list of
/// samples drawn from the region's candidates — the per-region budget when
/// any candidate exists, none otherwise — and some random draws take `m` to
/// `m2` through [`apply_samples`].
pub open spec fn chunk_random_step(
    m: Map<(i32, i32, i32), (BlockKind, BlockProperties)>,
    rules: Seq<BlockStateTransition>,
    speed: u32,
    c: ((i32, i32), u32),
    m2: Map<(i32, i32, i32), (BlockKind, BlockProperties)>,
) -> bool {
    exists|picks: Seq<((i32, i32, i32), BlockKind)>, draws: Seq<u32>|
        {
            &&& draws.len() == picks.len()
            &&& picks.len() == (if region_has_candidate(m, c) {
                speed as nat
            } else {
                0nat
            })
            &&& (forall|i: int| 0 <= i < picks.len() ==> pick_from_region(m, c, #[trigger] picks[i]))
            &&& (forall|k: int| 0 <= k < draws.len() ==> #[trigger] draws[k] < PROBABILITY_SCALE)
            &&& m2 == apply_samples(m, rules, picks, draws)
        }
}

/// How a random-tick pass over a list of regions relates world contents:
/// one [`chunk_random_step`] per region, in list order, each against the
/// region's height in the table.
pub open spec fn random_phase_steps(
    m: Map<(i32, i32, i32), (BlockKind, BlockProperties)>,
    rules: Seq<BlockStateTransition>,
    speed: u32,
    regions: Seq<(i32, i32)>,
    table: Seq<((i32, i32), u32)>,
    m2: Map<(i32, i32, i32), (BlockKind, BlockProperties)>,
) -> bool
    decreases regions.len(),
{
    if regions.len() == 0 {
        m2 == m
    } else {
        exists|mid: Map<(i32, i32, i32), (BlockKind, BlockProperties)>|
            {
                &&& random_phase_steps(m, rules, speed, regions.drop_last(), table, mid)
                &&& table_lookup(table, regions.last()) is Some
                &&& #[trigger] chunk_random_step(
                    mid,
                    rules,
                    speed,
                    (regions.last(), table_lookup(table, regions.last())->Some_0),
                    m2,
                )
            }
    }
}

proof fn lemma_random_phase_steps_snoc(
    m: Map<(i32, i32, i32), (BlockKind, BlockProperties)>,
    rules: Seq<BlockStateTransition>,
    speed: u32,
    regions: Seq<(i32, i32)>,
    table: Seq<((i32, i32), u32)>,
    mid: Map<(i32, i32, i32), (BlockKind, BlockProperties)>,
    q: (i32, i32),
    m2: Map<(i32, i32, i32), (BlockKind, BlockProperties)>,
)
    requires
        random_phase_steps(m, rules, speed, regions, table, mid),
        table_lookup(table, q) is Some,
        chunk_random_step(mid, rules, speed, (q, table_lookup(table, q)->Some_0), m2),
    ensures
        random_phase_steps(m, rules, speed, regions.push(q), table, m2),
{
    let r2 = regions.push(q);
    assert(r2.drop_last() =~= regions);
    assert(r2.last() == q);
    assert(random_phase_steps(m, rules, speed, r2.drop_last(), table, mid));
    assert(chunk_random_step(mid, rules, speed, (r2.last(), table_lookup(table, r2.last())->Some_0), m2));
}

/// How the whole random-tick pass relates world contents: every registered
/// region present in the table is processed exactly once, in some order.
pub open spec fn random_phase(
    m: Map<(i32, i32, i32), (BlockKind, BlockProperties)>,
    rules: Seq<BlockStateTransition>,
    speed: u32,
    registered: Set<(i32, i32)>,
    table: Seq<((i32, i32), u32)>,
    m2: Map<(i32, i32, i32), (BlockKind, BlockProperties)>,
) -> bool {
    exists|rs: Seq<(i32, i32)>|
        {
            &&& (forall|i: int, j: int| 0 <= i < j < rs.len() ==> rs[i] != rs[j])
            &&& (forall|q: (i32, i32)| #[trigger]
                rs.contains(q) <==> (registered.contains(q) && table_lookup(table, q) is Some))
            &&& random_phase_steps(m, rules, speed, rs, table, m2)
        }
}

proof fn lemma_contains_push<T>(s: Seq<T>, t: T, x: T)
    ensures
        s.push(t).contains(x) <==> (s.contains(x) || x == t),
{
    if s.push(t).contains(x) {
        let i = choose|i: int| 0 <= i < s.push(t).len() && s.push(t)[i] == x;
        if i < s.len() {
            assert(s[i] == x);
        }
    }
    if s.contains(x) {
        let i = choose|i: int| 0 <= i < s.len() && s[i] == x;
        assert(s.push(t)[i] == x);
    }
    if x == t {
        assert(s.push(t)[s.len() as int] == x);
    }
}

proof fn lemma_table_lookup_entry(table: Seq<((i32, i32), u32)>, q: (i32, i32))
    ensures
        table_lookup(table, q) is Some ==> exists|e: int|
            0 <= e < table.len() && (#[trigger] table[e]).0 == q && table[e].1 == table_lookup(
                table,
                q,
            )->Some_0,
    decreases table.len(),
{
    if table.len() == 0 {
    } else if table[0].0 == q {
        assert(table[0].0 == q && table[0].1 == table_lookup(table, q)->Some_0);
    } else {
        lemma_table_lookup_entry(table.drop_first(), q);
        if table_lookup(table, q) is Some {
            let e = choose|e: int|
                0 <= e < table.drop_first().len() && (#[trigger] table.drop_first()[e]).0 == q
                    && table.drop_first()[e].1 == table_lookup(table.drop_first(), q)->Some_0;
            assert(table[e + 1] == table.drop_first()[e]);
            assert(table[e + 1].0 == q && table[e + 1].1 == table_lookup(table, q)->Some_0);
        }
    }
}

/// Manages the integration of the block tick systems with the world: tracks
/// registered chunks, drives the executor once per game tick, and promotes
/// pending external updates into scheduled ticks.
pub struct BlockWorldIntegration {
    /// Block tick executor handling block ticking behavior.
    tick_executor: BlockTickExecutor,
    /// The chunks registered for random ticking.
    registered_chunks: ahash::AHashMap<(i32, i32), bool>,
    /// Pending external block updates, in arrival order.
    pending_updates: Vec<BlockUpdate>,
    /// How often to process random ticks, in game ticks.
    random_tick_interval: u32,
    /// The running game-tick counter.
    current_tick: u64,
}

impl BlockWorldIntegration {
    /// The tick executor.
    pub closed spec fn spec_tick_executor(&self) -> BlockTickExecutor {
        self.tick_executor
    }

    /// The pending scheduled event at each position.
    pub open spec fn pending_events(&self) -> Map<(i32, i32, i32), BlockTick> {
        self.spec_tick_executor().pending()
    }

    /// The registered transition rules.
    pub open spec fn spec_rules(&self) -> Seq<BlockStateTransition> {
        self.spec_tick_executor().spec_rules()
    }

    /// The configured random tick speed.
    pub open spec fn spec_random_tick_speed(&self) -> u32 {
        self.spec_tick_executor().spec_random_tick_speed()
    }

    /// The chunks registered for random ticking.
    pub closed spec fn registered(&self) -> Set<(i32, i32)> {
        chunk_set_contents(self.registered_chunks)
    }

    /// The pending external block updates, in arrival order.
    pub closed spec fn spec_pending_updates(&self) -> Seq<BlockUpdate> {
        self.pending_updates@
    }

    /// How often random ticks are processed, in game ticks.
    pub closed spec fn spec_random_tick_interval(&self) -> u32 {
        self.random_tick_interval
    }

    /// The running game-tick counter.
    pub closed spec fn spec_current_tick(&self) -> u64 {
        self.current_tick
    }

    /// Internal validity.
    pub open spec fn wf(&self) -> bool {
        &&& self.spec_tick_executor().wf()
        &&& self.spec_random_tick_interval() >= 1
    }

    /// Creates a new block world integration around the given executor,
    /// with no registered chunks, no pending updates, a zeroed tick counter,
    /// and random ticks processed every game tick.
    pub fn new(tick_executor: BlockTickExecutor) -> (r: Self)
        requires
            tick_executor.wf(),
        ensures
            r.wf(),
            r.spec_tick_executor() == tick_executor,
            r.registered() == Set::<(i32, i32)>::empty(),
            r.spec_pending_updates() == Seq::<BlockUpdate>::empty(),
            r.spec_random_tick_interval() == 1,
            r.spec_current_tick() == 0,
    {
        BlockWorldIntegration {
            tick_executor,
            registered_chunks: chunk_set_new(),
            pending_updates: Vec::new(),
            random_tick_interval: 1,
            current_tick: 0,
        }
    }

    /// Registers a chunk for random-tick processing.
    pub fn register_chunk(&mut self, pos: (i32, i32))
        requires
            old(self).wf(),
        ensures
            final(self).wf(),
            final(self).registered() == old(self).registered().insert(pos),
            final(self).spec_tick_executor() == old(self).spec_tick_executor(),
            final(self).spec_pending_updates() == old(self).spec_pending_updates(),
            final(self).spec_random_tick_interval() == old(self).spec_random_tick_interval(),
            final(self).spec_current_tick() == old(self).spec_current_tick(),
    {
        chunk_set_insert(&mut self.registered_chunks, pos);
    }

    /// Unregisters a chunk from random-tick processing.
    pub fn unregister_chunk(&mut self, pos: (i32, i32))
        requires
            old(self).wf(),
        ensures
            final(self).wf(),
            final(self).registered() == old(self).registered().remove(pos),
            final(self).spec_tick_executor() == old(self).spec_tick_executor(),
            final(self).spec_pending_updates() == old(self).spec_pending_updates(),
            final(self).spec_random_tick_interval() == old(self).spec_random_tick_interval(),
            final(self).spec_current_tick() == old(self).spec_current_tick(),
    {
        chunk_set_remove(&mut self.registered_chunks, pos);
    }

    /// Queues a pending block update at the given position, to be promoted
    /// into a scheduled tick once `delay` (an absolute tick count) has
    /// elapsed.
    pub fn schedule_block_update(
        &mut self,
        pos: (i32, i32, i32),
        kind: BlockKind,
        delay: u32,
        priority: i32,
    )
        requires
            old(self).wf(),
        ensures
            final(self).wf(),
            final(self).spec_pending_updates() == old(self).spec_pending_updates().push(
                (BlockUpdate { position: pos, kind, delay, priority }),
            ),
            final(self).spec_tick_executor() == old(self).spec_tick_executor(),
            final(self).registered() == old(self).registered(),
            final(self).spec_random_tick_interval() == old(self).spec_random_tick_interval(),
            final(self).spec_current_tick() == old(self).spec_current_tick(),
    {
        self.pending_updates.push(BlockUpdate { position: pos, kind, delay, priority });
    }

    /// Looks up the height of the first region-table entry at `q`.
    fn lookup_height(chunks: &Vec<((i32, i32), u32)>, q: (i32, i32)) -> (r: Option<u32>)
        ensures
            r == table_lookup(chunks@, q),
    {
        let n = chunks.len();
        let mut i: usize = 0;
        proof {
            assert(chunks@.skip(0) =~= chunks@);
        }
        while i < n
            invariant
                n == chunks@.len(),
                0 <= i <= n,
                table_lookup(chunks@, q) == table_lookup(chunks@.skip(i as int), q),
            decreases n - i,
        {
            proof {
                assert(chunks@.skip(i as int)[0] == chunks@[i as int]);
            }
            if chunks[i].0.0 == q.0 && chunks[i].0.1 == q.1 {
                return Some(chunks[i].1);
            }
            proof {
                assert(chunks@.skip(i as int).drop_first() =~= chunks@.skip(i as int + 1));
            }
            i += 1;
        }
        proof {
            assert(chunks@.skip(n as int).len() == 0);
        }
        None
    }

    /// Enumerates the tick-eligible blocks of one region: every position of
    /// its 16 x 16 column up to its height whose block receives random
    /// ticks, each exactly once. A full scan bounded by the region volume.
    fn collect_candidates<W: BlockWorld>(world: &W, c: ((i32, i32), u32)) -> (r: Vec<
        (BlockKind, (i32, i32, i32), BlockProperties),
    >)
        requires
            world.wf(),
            region_ok(c),
        ensures
            forall|i: int|
                0 <= i < r@.len() ==> pick_from_region(
                    world.blocks(),
                    c,
                    ((#[trigger] r@[i]).1, r@[i].0),
                ),
            forall|p: (i32, i32, i32)|
                #[trigger] in_region(c, p) && world.blocks().contains_key(p)
                    && spec_receives_random_ticks(world.blocks()[p].0) ==> lists_candidate(
                    r@,
                    world.blocks(),
                    p,
                ),
    {
        let ghost m = world.blocks();
        let mut candidates: Vec<(BlockKind, (i32, i32, i32), BlockProperties)> = Vec::new();
        let height = c.1;
        let mut y: u32 = 0;
        while y < height
            invariant
                world.wf(),
                region_ok(c),
                m == world.blocks(),
                0 <= y <= height,
                height == c.1,
                forall|i: int|
                    0 <= i < candidates@.len() ==> pick_from_region(
                        m,
                        c,
                        ((#[trigger] candidates@[i]).1, candidates@[i].0),
                    ),
                forall|p: (i32, i32, i32)|
                    #[trigger] scanned(c, y as int, 0, 0, p) && m.contains_key(p)
                        && spec_receives_random_ticks(m[p].0) ==> lists_candidate(
                        candidates@,
                        m,
                        p,
                    ),
            decreases height - y,
        {
            let mut z: i32 = 0;
            while z < 16
                invariant
                    world.wf(),
                    region_ok(c),
                    m == world.blocks(),
                    0 <= y < height,
                    height == c.1,
                    0 <= z <= 16,
                    forall|i: int|
                        0 <= i < candidates@.len() ==> pick_from_region(
                            m,
                            c,
                            ((#[trigger] candidates@[i]).1, candidates@[i].0),
                        ),
                    forall|p: (i32, i32, i32)|
                        #[trigger] scanned(c, y as int, z as int, 0, p) && m.contains_key(p)
                            && spec_receives_random_ticks(m[p].0) ==> lists_candidate(
                            candidates@,
                            m,
                            p,
                        ),
                decreases 16 - z,
            {
                let mut x: i32 = 0;
                while x < 16
                    invariant
                        world.wf(),
                        region_ok(c),
                        m == world.blocks(),
                        0 <= y < height,
                        height == c.1,
                        0 <= z < 16,
                        0 <= x <= 16,
                        forall|i: int|
                            0 <= i < candidates@.len() ==> pick_from_region(
                                m,
                                c,
                                ((#[trigger] candidates@[i]).1, candidates@[i].0),
                            ),
                        forall|p: (i32, i32, i32)|
                            #[trigger] scanned(c, y as int, z as int, x as int, p)
                                && m.contains_key(p) && spec_receives_random_ticks(m[p].0)
                                ==> lists_candidate(candidates@, m, p),
                    decreases 16 - x,
                {
                    let pos = (c.0.0 * 16 + x, y as i32, c.0.1 * 16 + z);
                    let ghost prev = candidates@;
                    match world.get_block(pos) {
                        Some(b) => {
                            if b.0.receives_random_ticks() {
                                let kind = b.0;
                                let props = b.1.clone();
                                candidates.push((kind, pos, props));
                            }
                        },
                        None => {},
                    }
                    proof {
                        assert forall|p: (i32, i32, i32)|
                            #[trigger] scanned(c, y as int, z as int, x as int + 1, p)
                                && m.contains_key(p) && spec_receives_random_ticks(m[p].0)
                                implies lists_candidate(candidates@, m, p) by {
                            if scanned(c, y as int, z as int, x as int, p) {
                                assert(lists_candidate(prev, m, p));
                                let k = choose|k: int|
                                    0 <= k < prev.len() && (#[trigger] prev[k]).1 == p
                                        && prev[k].0 == m[p].0;
                                assert(candidates@[k] == prev[k]);
                            } else {
                                assert(p == pos);
                                assert(candidates@ == prev.push(
                                    (m[pos].0, pos, candidates@.last().2),
                                ));
                                assert(candidates@.last().1 == pos && candidates@.last().0
                                    == m[pos].0);
                            }
                        }
                    }
                    x += 1;
                }
                proof {
                    assert forall|p: (i32, i32, i32)|
                        #[trigger] scanned(c, y as int, z as int + 1, 0, p) implies scanned(
                        c,
                        y as int,
                        z as int,
                        16,
                        p,
                    ) by {
                        assert(p.0 - c.0.0 * 16 <= 15);
                    }
                }
                z += 1;
            }
            proof {
                assert forall|p: (i32, i32, i32)|
                    #[trigger] scanned(c, y as int + 1, 0, 0, p) implies scanned(
                    c,
                    y as int,
                    16,
                    0,
                    p,
                ) by {
                    assert(p.2 - c.0.1 * 16 <= 15);
                }
            }
            y += 1;
        }
        proof {
            assert forall|p: (i32, i32, i32)|
                #[trigger] in_region(c, p) && m.contains_key(p) && spec_receives_random_ticks(
                    m[p].0,
                ) implies lists_candidate(candidates@, m, p) by {
                assert(scanned(c, height as int, 0, 0, p));
            }
        }
        candidates
    }

    /// Processes random ticks for every registered chunk that the region
    /// table holds: enumerates the region's tick-eligible blocks and lets
    /// the executor sample and transition them.
    fn process_random_ticks<W: BlockWorld>(
        &self,
        world: &mut W,
        chunks: &Vec<((i32, i32), u32)>,
    )
        requires
            self.wf(),
            old(world).wf(),
            forall|i: int| 0 <= i < chunks@.len() ==> region_ok(#[trigger] chunks@[i]),
        ensures
            final(world).wf(),
            random_phase(
                old(world).blocks(),
                self.spec_rules(),
                self.spec_random_tick_speed(),
                self.registered(),
                chunks@,
                final(world).blocks(),
            ),
    {
        let keys = chunk_set_keys(&self.registered_chunks);
        let ghost m0 = world.blocks();
        let ghost rules = self.spec_rules();
        let ghost speed = self.spec_random_tick_speed();
        let ghost rs: Seq<(i32, i32)> = Seq::empty();
        let mut rs = Ghost(rs);
        let mut i: usize = 0;
        while i < keys.len()
            invariant
                self.wf(),
                world.wf(),
                rules == self.spec_rules(),
                speed == self.spec_random_tick_speed(),
                0 <= i <= keys@.len(),
                forall|a: int| 0 <= a < chunks@.len() ==> region_ok(#[trigger] chunks@[a]),
                forall|a: int, b: int| 0 <= a < b < keys@.len() ==> keys@[a] != keys@[b],
                forall|q: (i32, i32)| #[trigger]
                    keys@.contains(q) <==> self.registered().contains(q),
                forall|a: int, b: int| 0 <= a < b < rs@.len() ==> rs@[a] != rs@[b],
                forall|q: (i32, i32)| #[trigger]
                    rs@.contains(q) <==> (keys@.take(i as int).contains(q) && table_lookup(
                        chunks@,
                        q,
                    ) is Some),
                random_phase_steps(m0, rules, speed, rs@, chunks@, world.blocks()),
            decreases keys@.len() - i,
        {
            let q = keys[i];
            let ghost m_before = world.blocks();
            match Self::lookup_height(chunks, q) {
                Some(h) => {
                    proof {
                        assert(keys@.contains(q));
                        assert(!keys@.take(i as int).contains(q)) by {
                            if keys@.take(i as int).contains(q) {
                                let a = choose|a: int|
                                    0 <= a < i && keys@.take(i as int)[a] == q;
                                assert(keys@[a] == q);
                                assert(keys@[i as int] == q);
                            }
                        }
                        assert(!rs@.contains(q));
                    }
                    let ghost ck: ((i32, i32), u32) = (q, h);
                    proof {
                        lemma_table_lookup_entry(chunks@, q);
                        let e = choose|e: int|
                            0 <= e < chunks@.len() && chunks@[e].0 == q && chunks@[e].1 == h;
                        assert(region_ok(chunks@[e]));
                        assert(region_ok(ck));
                    }
                    let candidates = Self::collect_candidates(&*world, (q, h));
                    let picks = self.tick_executor.process_random_ticks(q, &candidates, world);
                    let ghost prev_rs = rs@;
                    proof {
                        rs@ = rs@.push(q);
                        // the executor's samples are legitimate picks of this region
                        let draws = choose|draws: Seq<u32>|
                            {
                                &&& draws.len() == picks@.len()
                                &&& (forall|k: int|
                                    0 <= k < draws.len() ==> #[trigger] draws[k]
                                        < PROBABILITY_SCALE)
                                &&& world.blocks() == apply_samples(
                                    m_before,
                                    rules,
                                    picks@,
                                    draws,
                                )
                            };
                        assert forall|ii: int|
                            0 <= ii < picks@.len() implies pick_from_region(
                            m_before,
                            ck,
                            #[trigger] picks@[ii],
                        ) by {
                            assert(is_candidate_pick(candidates@, picks@[ii]));
                            let j = choose|j: int|
                                0 <= j < candidates@.len() && picks@[ii] == (
                                candidates@[j].1,
                                candidates@[j].0,
                                );
                            assert(pick_from_region(m_before, ck, (
                            candidates@[j].1,
                            candidates@[j].0,
                            )));
                        }
                        assert(chunk_random_step(m_before, rules, speed, ck, world.blocks()));
                        assert(rs@.drop_last() =~= prev_rs);
                        assert(rs@.last() == q);
                        assert(table_lookup(chunks@, q) == Some(h));
                        assert(random_phase_steps(m0, rules, speed, prev_rs, chunks@, m_before));
                        lemma_random_phase_steps_snoc(
                            m0,
                            rules,
                            speed,
                            prev_rs,
                            chunks@,
                            m_before,
                            q,
                            world.blocks(),
                        );
                        assert(rs@ == prev_rs.push(q));
                        assert(random_phase_steps(m0, rules, speed, rs@, chunks@, world.blocks()));
                        assert forall|p: (i32, i32)| #[trigger]
                            rs@.contains(p) <==> (keys@.take(i + 1).contains(p) && table_lookup(
                            chunks@,
                            p,
                        ) is Some) by {
                            lemma_contains_push(prev_rs, q, p);
                            lemma_contains_push(keys@.take(i as int), keys@[i as int], p);
                            assert(keys@.take(i + 1) =~= keys@.take(i as int).push(
                                keys@[i as int],
                            ));
                        }
                    }
                },
                None => {
                    proof {
                        assert forall|p: (i32, i32)| #[trigger]
                            rs@.contains(p) <==> (keys@.take(i + 1).contains(p) && table_lookup(
                            chunks@,
                            p,
                        ) is Some) by {
                            lemma_contains_push(keys@.take(i as int), keys@[i as int], p);
                            assert(keys@.take(i + 1) =~= keys@.take(i as int).push(
                                keys@[i as int],
                            ));
                        }
                    }
                },
            }
            i += 1;
        }
        proof {
            assert(keys@.take(keys@.len() as int) =~= keys@);
            assert(random_phase(
                m0,
                rules,
                speed,
                self.registered(),
                chunks@,
                world.blocks(),
            ));
        }
    }

    /// Drains the pending external updates that are due at the current tick
    /// count: each one whose position still holds a block of the recorded
    /// kind is promoted into a scheduled tick due immediately; due updates
    /// whose block is gone or changed are dropped; the rest stay queued.
    fn process_pending_updates<W: BlockWorld>(&mut self, world: &W)
        requires
            old(self).wf(),
            world.wf(),
        ensures
            final(self).wf(),
            final(self).spec_pending_updates() == not_due_updates(
                old(self).spec_pending_updates(),
                old(self).spec_current_tick(),
            ),
            final(self).pending_events() == promote_updates(
                old(self).pending_events(),
                old(self).spec_pending_updates(),
                world.blocks(),
                old(self).spec_current_tick(),
            ),
            final(self).spec_rules() == old(self).spec_rules(),
            final(self).spec_random_tick_speed() == old(self).spec_random_tick_speed(),
            final(self).registered() == old(self).registered(),
            final(self).spec_random_tick_interval() == old(self).spec_random_tick_interval(),
            final(self).spec_current_tick() == old(self).spec_current_tick(),
    {
        let now = self.current_tick;
        let n = self.pending_updates.len();
        let ghost ups = self.pending_updates@;
        let ghost evq0 = self.pending_events();
        let ghost m = world.blocks();
        let mut remaining: Vec<BlockUpdate> = Vec::new();
        let mut i: usize = 0;
        proof {
            assert(ups.take(0) =~= Seq::<BlockUpdate>::empty());
            assert(remaining@ =~= not_due_updates(ups.take(0), now));
        }
        while i < n
            invariant
                world.wf(),
                self.wf(),
                n == self.pending_updates@.len(),
                self.pending_updates@ == ups,
                0 <= i <= n,
                now == self.spec_current_tick(),
                m == world.blocks(),
                self.pending_events() == promote_updates(evq0, ups.take(i as int), m, now),
                remaining@ == not_due_updates(ups.take(i as int), now),
                self.spec_rules() == old(self).spec_rules(),
                self.spec_random_tick_speed() == old(self).spec_random_tick_speed(),
                self.registered() == old(self).registered(),
                self.spec_random_tick_interval() == old(self).spec_random_tick_interval(),
                self.spec_current_tick() == old(self).spec_current_tick(),
                evq0 == old(self).pending_events(),
                ups == old(self).spec_pending_updates(),
            decreases n - i,
        {
            let u = self.pending_updates[i];
            let ghost prev_rem = remaining@;
            if u.delay as u64 <= now {
                match world.get_block(u.position) {
                    Some(b) => {
                        if b.0 == u.kind {
                            self.tick_executor.schedule_tick(
                                u.position,
                                u.kind,
                                0,
                                u.priority,
                                now,
                            );
                        }
                    },
                    None => {},
                }
            } else {
                remaining.push(u);
            }
            proof {
                assert(ups.take(i + 1).drop_last() =~= ups.take(i as int));
                assert(ups.take(i + 1).last() == ups[i as int]);
                assert(self.pending_events() == promote_updates(evq0, ups.take(i + 1), m, now));
                if is_update_due(u, now) {
                    assert(remaining@ =~= not_due_updates(ups.take(i as int), now)
                        + Seq::<BlockUpdate>::empty());
                } else {
                    assert(remaining@ =~= not_due_updates(ups.take(i as int), now) + seq![u]);
                }
            }
            i += 1;
        }
        proof {
            assert(ups.take(n as int) =~= ups);
        }
        self.pending_updates = remaining;
    }

    /// Runs one game tick: advances the tick counter, processes the
    /// scheduled ticks that are due, then — once every
    /// `spec_random_tick_interval` game ticks — random ticks for every
    /// registered chunk present in the region table, and finally promotes
    /// the pending external updates whose delay has elapsed. Returns the
    /// processed scheduled events, in due order.
    pub fn update<W: BlockWorld>(&mut self, world: &mut W, chunks: &Vec<((i32, i32), u32)>) -> (r:
        Vec<ProcessedTick>)
        requires
            old(self).wf(),
            old(world).wf(),
            old(self).spec_current_tick() < u64::MAX,
            forall|i: int| 0 <= i < chunks@.len() ==> region_ok(#[trigger] chunks@[i]),
        ensures
            final(self).wf(),
            final(world).wf(),
            final(self).spec_current_tick() == old(self).spec_current_tick() + 1,
            final(self).registered() == old(self).registered(),
            final(self).spec_random_tick_interval() == old(self).spec_random_tick_interval(),
            final(self).spec_rules() == old(self).spec_rules(),
            final(self).spec_random_tick_speed() == old(self).spec_random_tick_speed(),
            drains_due(
                old(self).pending_events(),
                (old(self).spec_current_tick() + 1) as u64,
                ticks_of(r@),
            ),
            final(self).spec_pending_updates() == not_due_updates(
                old(self).spec_pending_updates(),
                (old(self).spec_current_tick() + 1) as u64,
            ),
            final(self).pending_events() == promote_updates(
                old(self).pending_events().remove_keys(
                    due_keys(
                        old(self).pending_events(),
                        (old(self).spec_current_tick() + 1) as u64,
                    ),
                ),
                old(self).spec_pending_updates(),
                final(world).blocks(),
                (old(self).spec_current_tick() + 1) as u64,
            ),
            exists|w1: Map<(i32, i32, i32), (BlockKind, BlockProperties)>|
                {
                    &&& #[trigger] events_phase(
                        old(world).blocks(),
                        old(self).spec_rules(),
                        r@,
                        w1,
                    )
                    &&& if ((old(self).spec_current_tick() + 1) as u64) % (
                    old(self).spec_random_tick_interval() as u64) == 0 {
                        random_phase(
                            w1,
                            old(self).spec_rules(),
                            old(self).spec_random_tick_speed(),
                            old(self).registered(),
                            chunks@,
                            final(world).blocks(),
                        )
                    } else {
                        final(world).blocks() == w1
                    }
                },
    {
        self.current_tick = self.current_tick + 1;
        let now = self.current_tick;
        let r = self.tick_executor.process_ticks(now, world);
        let ghost w1 = world.blocks();
        if now % (self.random_tick_interval as u64) == 0 {
            self.process_random_ticks(world, chunks);
        }
        self.process_pending_updates(world);
        proof {
            assert(events_phase(old(world).blocks(), old(self).spec_rules(), r@, w1));
        }
        r
    }

    /// Enqueues the pending update for one neighbor candidate: nothing when
    /// the candidate is out of range or holds no block.
    fn enqueue_neighbor<W: BlockWorld>(&mut self, q: Option<(i32, i32, i32)>, world: &W)
        requires
            old(self).wf(),
            world.wf(),
        ensures
            final(self).wf(),
            final(self).spec_pending_updates() == old(self).spec_pending_updates() + update_at(
                world.blocks(),
                q,
            ),
            final(self).spec_tick_executor() == old(self).spec_tick_executor(),
            final(self).registered() == old(self).registered(),
            final(self).spec_random_tick_interval() == old(self).spec_random_tick_interval(),
            final(self).spec_current_tick() == old(self).spec_current_tick(),
    {
        match q {
            None => {
                proof {
                    assert(self.pending_updates@ =~= self.pending_updates@ + update_at(
                        world.blocks(),
                        q,
                    ));
                }
            },
            Some(q0) => {
                match world.get_block(q0) {
                    Some(b) => {
                        let kind = b.0;
                        self.pending_updates.push(
                            BlockUpdate { position: q0, kind, delay: 1, priority: 0 },
                        );
                        proof {
                            assert(self.pending_updates@ =~= old(self).pending_updates@
                                + update_at(world.blocks(), q));
                        }
                    },
                    None => {
                        proof {
                            assert(self.pending_updates@ =~= self.pending_updates@ + update_at(
                                world.blocks(),
                                q,
                            ));
                        }
                    },
                }
            },
        }
    }

    /// Propagates a block change to the six axis-aligned neighbors of `pos`:
    /// for each neighbor position that holds a block, a pending update with
    /// delay 1 and neutral priority is enqueued, so the change cascades one
    /// tick later rather than within the same tick.
    #[verifier::rlimit(50)]
    pub fn propagate_block_update<W: BlockWorld>(&mut self, pos: (i32, i32, i32), world: &W)
        requires
            old(self).wf(),
            world.wf(),
        ensures
            final(self).wf(),
            final(self).spec_pending_updates() == old(self).spec_pending_updates()
                + neighbor_updates(world.blocks(), pos),
            final(self).spec_tick_executor() == old(self).spec_tick_executor(),
            final(self).registered() == old(self).registered(),
            final(self).spec_random_tick_interval() == old(self).spec_random_tick_interval(),
            final(self).spec_current_tick() == old(self).spec_current_tick(),
    {
        let px: Option<(i32, i32, i32)> = if pos.0 < i32::MAX {
            Some((pos.0 + 1, pos.1, pos.2))
        } else {
            None
        };
        let nx: Option<(i32, i32, i32)> = if pos.0 > i32::MIN {
            Some((pos.0 - 1, pos.1, pos.2))
        } else {
            None
        };
        let py: Option<(i32, i32, i32)> = if pos.1 < i32::MAX {
            Some((pos.0, pos.1 + 1, pos.2))
        } else {
            None
        };
        let ny: Option<(i32, i32, i32)> = if pos.1 > i32::MIN {
            Some((pos.0, pos.1 - 1, pos.2))
        } else {
            None
        };
        let pz: Option<(i32, i32, i32)> = if pos.2 < i32::MAX {
            Some((pos.0, pos.1, pos.2 + 1))
        } else {
            None
        };
        let nz: Option<(i32, i32, i32)> = if pos.2 > i32::MIN {
            Some((pos.0, pos.1, pos.2 - 1))
        } else {
            None
        };
        proof {
            assert(px == nb_px(pos) && nx == nb_nx(pos) && py == nb_py(pos) && ny == nb_ny(pos)
                && pz == nb_pz(pos) && nz == nb_nz(pos));
        }
        self.enqueue_neighbor(px, world);
        self.enqueue_neighbor(nx, world);
        self.enqueue_neighbor(py, world);
        self.enqueue_neighbor(ny, world);
        self.enqueue_neighbor(pz, world);
        self.enqueue_neighbor(nz, world);
        proof {
            assert(self.pending_updates@ =~= old(self).pending_updates@ + neighbor_updates(
                world.blocks(),
                pos,
            ));
        }
    }

    /// Handles a block having been changed to `new_kind` at `pos`: the
    /// single entry point external block-placement code calls. Propagates
    /// pending updates to the six neighbors, and, when the new kind is
    /// eligible for random ticks, schedules an immediate tick for it.
    pub fn on_block_changed<W: BlockWorld>(
        &mut self,
        pos: (i32, i32, i32),
        new_kind: BlockKind,
        world: &W,
    )
        requires
            old(self).wf(),
            world.wf(),
        ensures
            final(self).wf(),
            final(self).spec_pending_updates() == old(self).spec_pending_updates()
                + neighbor_updates(world.blocks(), pos),
            final(self).pending_events() == if spec_receives_random_ticks(new_kind) {
                old(self).pending_events().insert(
                    pos,
                    (BlockTick {
                        position: pos,
                        kind: new_kind,
                        scheduled_time: old(self).spec_current_tick(),
                        tick_type: TickType::Scheduled,
                        priority: 0,
                    }),
                )
            } else {
                old(self).pending_events()
            },
            final(self).spec_rules() == old(self).spec_rules(),
            final(self).spec_random_tick_speed() == old(self).spec_random_tick_speed(),
            final(self).registered() == old(self).registered(),
            final(self).spec_random_tick_interval() == old(self).spec_random_tick_interval(),
            final(self).spec_current_tick() == old(self).spec_current_tick(),
    {
        self.propagate_block_update(pos, world);
        if new_kind.receives_random_ticks() {
            let now = self.current_tick;
            self.tick_executor.schedule_tick(pos, new_kind, 0, 0, now);
        }
    }

    /// Returns the pending external block updates, in arrival order.
    pub fn pending_updates(&self) -> (r: &Vec<BlockUpdate>)
        ensures
            r@ == self.spec_pending_updates(),
    {
        &self.pending_updates
    }

    /// Returns the running game-tick counter.
    pub fn current_tick(&self) -> (r: u64)
        ensures
            r == self.spec_current_tick(),
    {
        self.current_tick
    }

    /// Returns a reference to the tick executor.
    pub fn tick_executor(&self) -> (r: &BlockTickExecutor)
        ensures
            *r == self.spec_tick_executor(),
    {
        &self.tick_executor
    }

    /// Returns a mutable reference to the tick executor.
    pub fn tick_executor_mut(&mut self) -> (r: &mut BlockTickExecutor)
        ensures
            *r == old(self).spec_tick_executor(),
            final(self).spec_tick_executor() == *final(r),
            final(self).registered() == old(self).registered(),
            final(self).spec_pending_updates() == old(self).spec_pending_updates(),
            final(self).spec_random_tick_interval() == old(self).spec_random_tick_interval(),
            final(self).spec_current_tick() == old(self).spec_current_tick(),
    {
        &mut self.tick_executor
    }
}

} // verus!
