//! Time-ordered queue of pending block ticks, deduplicated by position, and
//! the budgeted random-tick sampler.

use crate::assoc::{
    assoc_map, lemma_assoc_map_get, lemma_assoc_map_has_key, lemma_assoc_map_push,
    lemma_assoc_map_remove, lemma_assoc_map_update, unique_keys,
};
use crate::block::BlockKind;
use crate::block_properties::BlockProperties;
use vstd::prelude::*;

verus! {

/// Types of block ticks.
#[derive(Clone, Copy, Debug, PartialEq, Eq, Hash, Structural)]
pub enum TickType {
    /// Random tick that occurs periodically based on the random tick speed.
    Random,
    /// Scheduled tick that occurs at a specific time.
    Scheduled,
}

/// A pending tick for a block.
#[derive(Clone, Copy, Debug)]
pub struct BlockTick {
    /// The absolute world position of the block.
    pub position: (i32, i32, i32),
    /// The kind of block the tick was scheduled for.
    pub kind: BlockKind,
    /// The game tick at which this tick becomes due.
    pub scheduled_time: u64,
    /// The type of tick.
    pub tick_type: TickType,
    /// Priority of the tick; lower values fire first among ticks due at the
    /// same time.
    pub priority: i32,
}

/// Key selector for a queue entry: its position.
pub open spec fn tick_key() -> spec_fn(BlockTick) -> (i32, i32, i32) {
    |t: BlockTick| t.position
}

/// Value selector for a queue entry: the entry itself.
pub open spec fn tick_val() -> spec_fn(BlockTick) -> BlockTick {
    |t: BlockTick| t
}

/// The mathematical content of the queue: the pending event at each position.
pub open spec fn ticks_map(s: Seq<BlockTick>) -> Map<(i32, i32, i32), BlockTick> {
    assoc_map(s, tick_key(), tick_val())
}

/// An event is due at `now` once its scheduled time has been reached.
pub open spec fn is_due(t: BlockTick, now: u64) -> bool {
    t.scheduled_time <= now
}

/// Firing order: ascending scheduled time, ties broken by ascending priority.
pub open spec fn fires_no_later(a: BlockTick, b: BlockTick) -> bool {
    a.scheduled_time < b.scheduled_time || (a.scheduled_time == b.scheduled_time && a.priority
        <= b.priority)
}

/// The positions of `m` whose events are due at `now`.
pub open spec fn due_keys(m: Map<(i32, i32, i32), BlockTick>, now: u64) -> Set<(i32, i32, i32)> {
    Set::new(|p: (i32, i32, i32)| m.contains_key(p) && is_due(m[p], now))
}

/// Whether `e` is one of the candidate blocks, as a (position, kind) pair.
pub open spec fn is_candidate_pick(
    blocks: Seq<(BlockKind, (i32, i32, i32), BlockProperties)>,
    e: ((i32, i32, i32), BlockKind),
) -> bool {
    exists|j: int| 0 <= j < blocks.len() && e == (blocks[j].1, blocks[j].0)
}

/// Whether some entry of `r` sits at position `p`.
pub open spec fn has_pos(r: Seq<BlockTick>, p: (i32, i32, i32)) -> bool {
    exists|i: int| 0 <= i < r.len() && r[i].position == p
}

/// What draining a queue with content `m` at time `now` yields: `r` holds
/// exactly the due events of `m`, each position at most once, in ascending
/// (scheduled time, priority) order.
pub open spec fn drains_due(
    m: Map<(i32, i32, i32), BlockTick>,
    now: u64,
    r: Seq<BlockTick>,
) -> bool {
    &&& (forall|i: int|
        #![trigger r[i]]
        0 <= i < r.len() ==> m.contains_key(r[i].position) && m[r[i].position] == r[i] && is_due(
            r[i],
            now,
        ))
    &&& (forall|i: int, j: int|
        #![trigger r[i], r[j]]
        0 <= i < j < r.len() ==> r[i].position != r[j].position && fires_no_later(r[i], r[j]))
    &&& (forall|p: (i32, i32, i32)|
        #![trigger m[p]]
        m.contains_key(p) && is_due(m[p], now) ==> has_pos(r, p))
}

proof fn lemma_has_pos_push(r: Seq<BlockTick>, t: BlockTick)
    ensures
        forall|p: (i32, i32, i32)| #![trigger has_pos(r.push(t), p)]
            has_pos(r.push(t), p) <==> (has_pos(r, p) || p == t.position),
{
    assert forall|p: (i32, i32, i32)| #![trigger has_pos(r.push(t), p)]
        has_pos(r.push(t), p) <==> (has_pos(r, p) || p == t.position) by {
        if has_pos(r.push(t), p) {
            let i = choose|i: int| 0 <= i < r.push(t).len() && r.push(t)[i].position == p;
            if i < r.len() {
                assert(r[i].position == p);
            }
        }
        if has_pos(r, p) {
            let i = choose|i: int| 0 <= i < r.len() && r[i].position == p;
            assert(r.push(t)[i].position == p);
        }
        if p == t.position {
            assert(r.push(t)[r.len() as int].position == p);
        }
    }
}

/// Compares two block positions componentwise.
pub fn pos_eq(a: (i32, i32, i32), b: (i32, i32, i32)) -> (r: bool)
    ensures
        r == (a == b),
{
    a.0 == b.0 && a.1 == b.1 && a.2 == b.2
}

/// Relies on `rand::Rng::gen_range` on the thread-local generator
/// `rand::thread_rng`: the result lies below `n`. Nothing is assumed about
/// which value comes back.
#[verifier::external_body]
fn rand_below(n: usize) -> (r: usize)
    requires
        n > 0,
    ensures
        r < n,
{
    rand::Rng::gen_range(&mut rand::thread_rng(), 0..n)
}

/// Draws the uniform random value that one transition evaluation consumes.
pub(crate) fn rand_draw() -> (r: u32)
    ensures
        r < crate::block_transitions::PROBABILITY_SCALE,
{
    let v = rand_below(crate::block_transitions::PROBABILITY_SCALE as usize);
    v as u32
}

/// Manages pending block ticks for a world.
///
/// At most one event is pending per position: scheduling at an occupied
/// position replaces the earlier event.
pub struct BlockTickScheduler {
    /// The pending block ticks, at most one per position.
    pending_ticks: Vec<BlockTick>,
    /// How many random ticks to draw per chunk section per game tick.
    random_tick_speed: u32,
}

impl View for BlockTickScheduler {
    type V = Map<(i32, i32, i32), BlockTick>;

    closed spec fn view(&self) -> Map<(i32, i32, i32), BlockTick> {
        ticks_map(self.pending_ticks@)
    }
}

impl BlockTickScheduler {
    /// Internal validity: no two pending events share a position.
    pub closed spec fn wf(&self) -> bool {
        unique_keys(self.pending_ticks@, tick_key())
    }

    /// The configured random tick speed.
    pub closed spec fn spec_random_tick_speed(&self) -> u32 {
        self.random_tick_speed
    }

    /// Creates a new block tick scheduler with no pending events.
    pub fn new(random_tick_speed: u32) -> (r: Self)
        ensures
            r.wf(),
            r@ == Map::<(i32, i32, i32), BlockTick>::empty(),
            r.spec_random_tick_speed() == random_tick_speed,
    {
        BlockTickScheduler { pending_ticks: Vec::new(), random_tick_speed }
    }

    /// Schedules a block tick to fire `delay` game ticks after `now`.
    ///
    /// If an event is already pending at `position` it is replaced, so the
    /// queue never holds two live events for one position.
    pub fn schedule_tick(
        &mut self,
        position: (i32, i32, i32),
        kind: BlockKind,
        delay: u64,
        tick_type: TickType,
        priority: i32,
        now: u64,
    )
        requires
            old(self).wf(),
            now + delay <= u64::MAX,
        ensures
            final(self).wf(),
            final(self)@ == old(self)@.insert(
                position,
                (BlockTick {
                    position,
                    kind,
                    scheduled_time: (now + delay) as u64,
                    tick_type,
                    priority,
                }),
            ),
            final(self).spec_random_tick_speed() == old(self).spec_random_tick_speed(),
    {
        let scheduled_time = now + delay;
        let tick = BlockTick { position, kind, scheduled_time, tick_type, priority };
        let n = self.pending_ticks.len();
        let mut i: usize = 0;
        while i < n
            invariant
                n == self.pending_ticks@.len(),
                0 <= i <= n,
                forall|j: int| 0 <= j < i ==> self.pending_ticks@[j].position != position,
                unique_keys(self.pending_ticks@, tick_key()),
                *self == *old(self),
                tick == (BlockTick {
                    position,
                    kind,
                    scheduled_time: (now + delay) as u64,
                    tick_type,
                    priority,
                }),
            decreases n - i,
        {
            if pos_eq(self.pending_ticks[i].position, position) {
                proof {
                    assert(tick_key()(tick) == tick_key()(self.pending_ticks@[i as int]));
                    lemma_assoc_map_update(
                        self.pending_ticks@,
                        tick_key(),
                        tick_val(),
                        i as int,
                        tick,
                    );
                }
                self.pending_ticks[i] = tick;
                return ;
            }
            i += 1;
        }
        proof {
            let s = self.pending_ticks@;
            assert forall|j: int| 0 <= j < s.len() implies tick_key()(s[j]) != tick_key()(tick) by {
                assert(s[j].position != position);
            }
            lemma_assoc_map_push(s, tick_key(), tick_val(), tick);
        }
        self.pending_ticks.push(tick);
    }

    /// Pops and returns every event due at `now`, in ascending
    /// (scheduled time, priority) order. Events not yet due stay pending.
    pub fn process_ticks(&mut self, now: u64) -> (r: Vec<BlockTick>)
        requires
            old(self).wf(),
        ensures
            final(self).wf(),
            drains_due(old(self)@, now, r@),
            final(self)@ == old(self)@.remove_keys(due_keys(old(self)@, now)),
            final(self).spec_random_tick_speed() == old(self).spec_random_tick_speed(),
    {
        let mut result: Vec<BlockTick> = Vec::new();
        let mut more = true;
        while more
            invariant
                unique_keys(self.pending_ticks@, tick_key()),
                self.random_tick_speed == old(self).spec_random_tick_speed(),
                // the queue shrank by exactly the drained positions
                forall|p: (i32, i32, i32)| #![trigger self@.contains_key(p)]
                    self@.contains_key(p) <==> (old(self)@.contains_key(p) && !has_pos(result@, p)),
                forall|p: (i32, i32, i32)| #![trigger self@[p]]
                    self@.contains_key(p) ==> self@[p] == old(self)@[p],
                // drained entries are due entries of the original queue
                forall|i: int|
                    #![trigger result@[i]]
                    0 <= i < result@.len() ==> old(self)@.contains_key(result@[i].position) && old(
                        self,
                    )@[result@[i].position] == result@[i] && is_due(result@[i], now),
                forall|i: int, j: int|
                    #![trigger result@[i], result@[j]]
                    0 <= i < j < result@.len() ==> result@[i].position != result@[j].position
                        && fires_no_later(result@[i], result@[j]),
                // every drained entry fires no later than anything still due
                forall|i: int, p: (i32, i32, i32)|
                    #![trigger result@[i], self@[p]]
                    0 <= i < result@.len() && self@.contains_key(p) && is_due(self@[p], now)
                        ==> fires_no_later(result@[i], self@[p]),
                !more ==> (forall|p: (i32, i32, i32)| #![trigger self@[p]]
                    self@.contains_key(p) ==> !is_due(self@[p], now)),
            decreases self.pending_ticks@.len(), (if more {
                1int
            } else {
                0int
            }),
        {
            let ghost head_map = self@;
            let ghost head_seq = self.pending_ticks@;
            let ghost head_res = result@;
            proof {
                assert(head_map == ticks_map(head_seq));
            }
            let n = self.pending_ticks.len();
            let mut best: usize = n;
            let mut k: usize = 0;
            while k < n
                invariant
                    n == self.pending_ticks@.len(),
                    0 <= k <= n,
                    best <= n,
                    best == n ==> (forall|j: int|
                        0 <= j < k ==> !is_due(self.pending_ticks@[j], now)),
                    best < n ==> is_due(self.pending_ticks@[best as int], now),
                    best < n ==> (forall|j: int|
                        0 <= j < k && is_due(self.pending_ticks@[j], now) ==> fires_no_later(
                            self.pending_ticks@[best as int],
                            self.pending_ticks@[j],
                        )),
                decreases n - k,
            {
                if self.pending_ticks[k].scheduled_time <= now {
                    if best == n {
                        best = k;
                    } else {
                        let cand_time = self.pending_ticks[k].scheduled_time;
                        let cand_prio = self.pending_ticks[k].priority;
                        let best_time = self.pending_ticks[best].scheduled_time;
                        let best_prio = self.pending_ticks[best].priority;
                        if cand_time < best_time || (cand_time == best_time && cand_prio
                            < best_prio) {
                            best = k;
                        }
                    }
                }
                k += 1;
            }
            if best == n {
                proof {
                    assert forall|p: (i32, i32, i32)| #![trigger self@[p]]
                        self@.contains_key(p) implies !is_due(self@[p], now) by {
                        lemma_assoc_map_has_key(head_seq, tick_key(), tick_val(), p);
                        let j = choose|j: int|
                            0 <= j < head_seq.len() && tick_key()(head_seq[j]) == p;
                        lemma_assoc_map_get(head_seq, tick_key(), tick_val(), j);
                        assert(self@[p] == head_seq[j]);
                        assert(self.pending_ticks@[j] == head_seq[j]);
                        assert(!is_due(self.pending_ticks@[j], now));
                    }
                }
                more = false;
            } else {
                proof {
                    lemma_assoc_map_remove(head_seq, tick_key(), tick_val(), best as int);
                    lemma_assoc_map_get(head_seq, tick_key(), tick_val(), best as int);
                    lemma_has_pos_push(head_res, head_seq[best as int]);
                    assert(is_due(head_seq[best as int], now));
                    assert forall|j: int|
                        0 <= j < head_seq.len() && is_due(
                            #[trigger] head_seq[j],
                            now,
                        ) implies fires_no_later(head_seq[best as int], head_seq[j]) by {
                        assert(self.pending_ticks@[j] == head_seq[j]);
                        assert(is_due(self.pending_ticks@[j], now));
                    }
                }
                let t = self.pending_ticks.remove(best);
                result.push(t);
                proof {
                    let tp = t.position;
                    assert(t == head_seq[best as int]);
                    assert(result@ == head_res.push(t));
                    assert(ticks_map(self.pending_ticks@) == head_map.remove(tp));
                    assert(head_map.contains_key(tp) && head_map[tp] == t);
                    assert forall|p: (i32, i32, i32)| #![trigger self@.contains_key(p)]
                        self@.contains_key(p) <==> (old(self)@.contains_key(p) && !has_pos(
                        result@,
                        p,
                    )) by {
                        assert(head_map.contains_key(p) <==> (old(self)@.contains_key(p)
                            && !has_pos(head_res, p)));
                        assert(has_pos(result@, p) <==> (has_pos(head_res, p) || p == tp));
                        assert(self@.contains_key(p) <==> (head_map.contains_key(p) && p != tp));
                    }
                    assert forall|p: (i32, i32, i32)| #![trigger self@[p]]
                        self@.contains_key(p) implies self@[p] == old(self)@[p] by {
                        assert(head_map.contains_key(p));
                        assert(self@[p] == head_map[p]);
                    }
                    assert forall|i: int, p: (i32, i32, i32)|
                        #![trigger result@[i], self@[p]]
                        0 <= i < result@.len() && self@.contains_key(p) && is_due(
                            self@[p],
                            now,
                        ) implies fires_no_later(result@[i], self@[p]) by {
                        lemma_assoc_map_has_key(head_seq, tick_key(), tick_val(), p);
                        let j = choose|j: int|
                            0 <= j < head_seq.len() && tick_key()(head_seq[j]) == p;
                        lemma_assoc_map_get(head_seq, tick_key(), tick_val(), j);
                        assert(self@[p] == head_seq[j]);
                        if i < result@.len() - 1 {
                            assert(result@[i] == head_res[i]);
                            assert(head_map.contains_key(p) && head_map[p] == head_seq[j]);
                        } else {
                            assert(result@[i] == head_seq[best as int]);
                            assert(is_due(head_seq[j], now));
                            assert(fires_no_later(head_seq[best as int], head_seq[j]));
                        }
                    }
                }
            }
        }
        proof {
            assert forall|p: (i32, i32, i32)| #[trigger]
                has_pos(result@, p) implies (old(self)@.contains_key(p) && is_due(
                old(self)@[p],
                now,
            )) by {
                let i = choose|i: int| 0 <= i < result@.len() && result@[i].position == p;
                assert(result@[i] == old(self)@[p]);
            }
            assert forall|p: (i32, i32, i32)|
                old(self)@.contains_key(p) && is_due(#[trigger] old(self)@[p], now) implies has_pos(
                result@,
                p,
            ) by {
                if !has_pos(result@, p) {
                    assert(self@.contains_key(p));
                    assert(self@[p] == old(self)@[p]);
                    assert(!is_due(self@[p], now));
                }
            }
            assert(self@ =~= old(self)@.remove_keys(due_keys(old(self)@, now)));
        }
        result
    }

    /// Draws `random_tick_speed` uniform random picks, with replacement, from
    /// the candidate blocks of a chunk section. If the candidate list is
    /// empty, no picks are drawn and the call returns an empty list.
    pub fn process_random_ticks(
        &self,
        _chunk_position: (i32, i32),
        blocks: &Vec<(BlockKind, (i32, i32, i32), BlockProperties)>,
    ) -> (r: Vec<((i32, i32, i32), BlockKind)>)
        ensures
            blocks@.len() == 0 ==> r@.len() == 0,
            blocks@.len() > 0 ==> r@.len() == self.spec_random_tick_speed(),
            forall|i: int|
                0 <= i < r@.len() ==> #[trigger] is_candidate_pick(blocks@, r@[i]),
    {
        let mut picks: Vec<((i32, i32, i32), BlockKind)> = Vec::new();
        if blocks.len() == 0 {
            return picks;
        }
        let speed = self.random_tick_speed;
        let mut c: u32 = 0;
        while c < speed
            invariant
                0 <= c <= speed,
                blocks@.len() > 0,
                picks@.len() == c,
                forall|i: int|
                    0 <= i < picks@.len() ==> #[trigger] is_candidate_pick(blocks@, picks@[i]),
            decreases speed - c,
        {
            let idx = rand_below(blocks.len());
            let kind = blocks[idx].0;
            let pos = blocks[idx].1;
            let ghost prev = picks@;
            picks.push((pos, kind));
            proof {
                assert forall|i: int|
                    0 <= i < picks@.len() implies #[trigger] is_candidate_pick(
                    blocks@,
                    picks@[i],
                ) by {
                    if i < prev.len() {
                        assert(picks@[i] == prev[i]);
                    } else {
                        let j = idx as int;
                        assert(picks@[i] == (blocks@[j].1, blocks@[j].0));
                    }
                }
            }
            c += 1;
        }
        picks
    }

    /// Drops all pending events.
    pub fn clear(&mut self)
        ensures
            final(self).wf(),
            final(self)@ == Map::<(i32, i32, i32), BlockTick>::empty(),
            final(self).spec_random_tick_speed() == old(self).spec_random_tick_speed(),
    {
        self.pending_ticks.clear();
    }

    /// Sets the random tick speed.
    pub fn set_random_tick_speed(&mut self, speed: u32)
        ensures
            final(self).wf() == old(self).wf(),
            final(self)@ == old(self)@,
            final(self).spec_random_tick_speed() == speed,
    {
        self.random_tick_speed = speed;
    }

    /// Returns the random tick speed.
    pub fn random_tick_speed(&self) -> (r: u32)
        ensures
            r == self.spec_random_tick_speed(),
    {
        self.random_tick_speed
    }
}

/// Dedup law: scheduling a second event at a position already scheduled
/// leaves the queue with only the later event; the earlier one can never
/// fire. Stated over the queue content that `schedule_tick` ensures.
pub proof fn lemma_schedule_same_position_replaces(
    m: Map<(i32, i32, i32), BlockTick>,
    a: BlockTick,
    b: BlockTick,
)
    requires
        a.position == b.position,
    ensures
        m.insert(a.position, a).insert(b.position, b) == m.insert(b.position, b),
        m.insert(a.position, a).insert(b.position, b)[b.position] == b,
{
    assert(m.insert(a.position, a).insert(b.position, b) =~= m.insert(b.position, b));
}

/// Dedup law, firing side: whatever `now` is, a drain of any queue content
/// yields at most one event per position, and at the position of the latest
/// scheduled event it can only yield that event.
pub proof fn lemma_at_most_one_fire_per_position(
    m: Map<(i32, i32, i32), BlockTick>,
    b: BlockTick,
    now: u64,
    r: Seq<BlockTick>,
)
    requires
        drains_due(m.insert(b.position, b), now, r),
    ensures
        forall|i: int, j: int|
            #![trigger r[i], r[j]]
            0 <= i < j < r.len() ==> r[i].position != r[j].position,
        forall|i: int| #![trigger r[i]] 0 <= i < r.len() && r[i].position == b.position ==> r[i] == b,
        is_due(b, now) ==> has_pos(r, b.position),
{
    let m2 = m.insert(b.position, b);
    assert(m2.contains_key(b.position) && m2[b.position] == b);
}

/// Due-order law: among the events one drain yields, an event with an
/// earlier scheduled time stands before every event with a later one.
pub proof fn lemma_due_order(
    m: Map<(i32, i32, i32), BlockTick>,
    now: u64,
    r: Seq<BlockTick>,
    i: int,
    j: int,
)
    requires
        drains_due(m, now, r),
        0 <= i < r.len(),
        0 <= j < r.len(),
        r[i].scheduled_time < r[j].scheduled_time,
    ensures
        i < j,
{
    if i == j {
    } else if j < i {
        assert(fires_no_later(r[j], r[i]));
    }
}

/// Due-order law, by position: when two pending events are both due, a
/// drain yields both, and the one scheduled strictly earlier comes out
/// before the other.
pub proof fn lemma_earlier_event_fires_first(
    m: Map<(i32, i32, i32), BlockTick>,
    now: u64,
    r: Seq<BlockTick>,
    p1: (i32, i32, i32),
    p2: (i32, i32, i32),
)
    requires
        drains_due(m, now, r),
        m.contains_key(p1),
        m.contains_key(p2),
        is_due(m[p1], now),
        is_due(m[p2], now),
        m[p1].scheduled_time < m[p2].scheduled_time,
    ensures
        has_pos(r, p1),
        has_pos(r, p2),
        forall|i: int, j: int|
            #![trigger r[i], r[j]]
            0 <= i < r.len() && 0 <= j < r.len() && r[i].position == p1 && r[j].position == p2
                ==> i < j,
{
    assert(has_pos(r, p1));
    assert(has_pos(r, p2));
    assert forall|i: int, j: int|
        #![trigger r[i], r[j]]
        0 <= i < r.len() && 0 <= j < r.len() && r[i].position == p1 && r[j].position == p2
            implies i < j by {
        assert(r[i] == m[p1]);
        assert(r[j] == m[p2]);
        lemma_due_order(m, now, r, i, j);
    }
}

} // verus!
