//! Executes block ticks: drains due events from the tick queue,
//! re-validates each against the current world, and applies transitions.

use crate::block::BlockKind;
use crate::block_properties::BlockProperties;
use crate::block_ticking::{
    drains_due, due_keys, is_candidate_pick, rand_draw, BlockTick, BlockTickScheduler, TickType,
};
use crate::block_transitions::{
    spec_check_transition, BlockStateTransition, BlockTransitionManager, PROBABILITY_SCALE,
};
use crate::world::BlockWorld;
use vstd::prelude::*;

verus! {

/// What processing one scheduled event did.
#[derive(Clone, Copy, Debug, PartialEq, Eq, Structural)]
pub enum TickOutcome {
    /// No block stood at the event's position; the event was dropped.
    Missing,
    /// The block's kind no longer matched the event's recorded kind; the
    /// event was silently dropped, with no transition and no behavior.
    Stale,
    /// The block matched and the first applicable rule moved it to this kind.
    Transitioned(BlockKind),
    /// The block matched but no transition rule applied.
    NoTransition,
}

/// One drained event together with what processing it did.
#[derive(Clone, Copy, Debug)]
pub struct ProcessedTick {
    /// The drained event.
    pub tick: BlockTick,
    /// What processing the event did.
    pub outcome: TickOutcome,
}

/// The events of a processing record.
pub open spec fn ticks_of(r: Seq<ProcessedTick>) -> Seq<BlockTick> {
    r.map_values(|pt: ProcessedTick| pt.tick)
}

/// What one scheduled event does to the world content: nothing when the
/// position is empty or the block's kind no longer matches the event
/// (staleness); otherwise the first applicable transition fires, keeping the
/// block's properties.
pub open spec fn apply_event(
    m: Map<(i32, i32, i32), (BlockKind, BlockProperties)>,
    rules: Seq<BlockStateTransition>,
    ev: BlockTick,
    draw: u32,
) -> Map<(i32, i32, i32), (BlockKind, BlockProperties)> {
    if m.contains_key(ev.position) && m[ev.position].0 == ev.kind {
        match spec_check_transition(rules, ev.kind, m[ev.position].1@, draw) {
            Some(t) => m.insert(ev.position, (t, m[ev.position].1)),
            None => m,
        }
    } else {
        m
    }
}

/// The outcome that processing one scheduled event reports on world content
/// `m`.
pub open spec fn event_outcome(
    m: Map<(i32, i32, i32), (BlockKind, BlockProperties)>,
    rules: Seq<BlockStateTransition>,
    ev: BlockTick,
    draw: u32,
) -> TickOutcome {
    if !m.contains_key(ev.position) {
        TickOutcome::Missing
    } else if m[ev.position].0 != ev.kind {
        TickOutcome::Stale
    } else {
        match spec_check_transition(rules, ev.kind, m[ev.position].1@, draw) {
            Some(t) => TickOutcome::Transitioned(t),
            None => TickOutcome::NoTransition,
        }
    }
}

/// The world content after a list of scheduled events, processed in order
/// under the given random draws.
pub open spec fn apply_events(
    m: Map<(i32, i32, i32), (BlockKind, BlockProperties)>,
    rules: Seq<BlockStateTransition>,
    evs: Seq<BlockTick>,
    draws: Seq<u32>,
) -> Map<(i32, i32, i32), (BlockKind, BlockProperties)>
    decreases evs.len(),
{
    if evs.len() == 0 {
        m
    } else {
        apply_event(
            apply_events(m, rules, evs.drop_last(), draws.drop_last()),
            rules,
            evs.last(),
            draws.last(),
        )
    }
}

/// Whether a processing record reports, for each event, the outcome of that
/// event on the world as the earlier events left it.
pub open spec fn outcomes_reported(
    m: Map<(i32, i32, i32), (BlockKind, BlockProperties)>,
    rules: Seq<BlockStateTransition>,
    r: Seq<ProcessedTick>,
    draws: Seq<u32>,
) -> bool
    decreases r.len(),
{
    if r.len() == 0 {
        true
    } else {
        &&& outcomes_reported(m, rules, r.drop_last(), draws.drop_last())
        &&& r.last().outcome == event_outcome(
            apply_events(m, rules, ticks_of(r.drop_last()), draws.drop_last()),
            rules,
            r.last().tick,
            draws.last(),
        )
    }
}

/// How one scheduled-tick pass relates world contents: some sequence of
/// uniform random draws, one per processed event, takes `m0` to `m1` through
/// [`apply_events`], with the outcomes reported faithfully.
pub open spec fn events_phase(
    m0: Map<(i32, i32, i32), (BlockKind, BlockProperties)>,
    rules: Seq<BlockStateTransition>,
    r: Seq<ProcessedTick>,
    m1: Map<(i32, i32, i32), (BlockKind, BlockProperties)>,
) -> bool {
    exists|draws: Seq<u32>|
        {
            &&& draws.len() == r.len()
            &&& (forall|k: int| 0 <= k < draws.len() ==> #[trigger] draws[k] < PROBABILITY_SCALE)
            &&& m1 == apply_events(m0, rules, ticks_of(r), draws)
            &&& outcomes_reported(m0, rules, r, draws)
        }
}

/// What one random-tick sample does to the world content: on an occupied
/// position the first applicable transition for the block's current kind
/// fires; an empty position is skipped.
pub open spec fn apply_sample(
    m: Map<(i32, i32, i32), (BlockKind, BlockProperties)>,
    rules: Seq<BlockStateTransition>,
    position: (i32, i32, i32),
    draw: u32,
) -> Map<(i32, i32, i32), (BlockKind, BlockProperties)> {
    if m.contains_key(position) {
        match spec_check_transition(rules, m[position].0, m[position].1@, draw) {
            Some(t) => m.insert(position, (t, m[position].1)),
            None => m,
        }
    } else {
        m
    }
}

/// The world content after a list of random-tick samples, processed in
/// order under the given random draws.
pub open spec fn apply_samples(
    m: Map<(i32, i32, i32), (BlockKind, BlockProperties)>,
    rules: Seq<BlockStateTransition>,
    picks: Seq<((i32, i32, i32), BlockKind)>,
    draws: Seq<u32>,
) -> Map<(i32, i32, i32), (BlockKind, BlockProperties)>
    decreases picks.len(),
{
    if picks.len() == 0 {
        m
    } else {
        apply_sample(
            apply_samples(m, rules, picks.drop_last(), draws.drop_last()),
            rules,
            picks.last().0,
            draws.last(),
        )
    }
}

/// How one random-tick pass over a sample list relates world contents: some
/// sequence of uniform random draws, one per sample, takes `m0` to `m1`
/// through [`apply_samples`].
pub open spec fn samples_phase(
    m0: Map<(i32, i32, i32), (BlockKind, BlockProperties)>,
    rules: Seq<BlockStateTransition>,
    picks: Seq<((i32, i32, i32), BlockKind)>,
    m1: Map<(i32, i32, i32), (BlockKind, BlockProperties)>,
) -> bool {
    exists|draws: Seq<u32>|
        {
            &&& draws.len() == picks.len()
            &&& (forall|k: int| 0 <= k < draws.len() ==> #[trigger] draws[k] < PROBABILITY_SCALE)
            &&& m1 == apply_samples(m0, rules, picks, draws)
        }
}

/// Staleness law: an event whose recorded kind no longer matches the block
/// at its position (or whose position holds no block) leaves the world
/// untouched; no transition fires and no behavior runs. Such an event is
/// reported as stale or missing, never as ticked.
pub proof fn lemma_stale_event_is_no_op(
    m: Map<(i32, i32, i32), (BlockKind, BlockProperties)>,
    rules: Seq<BlockStateTransition>,
    ev: BlockTick,
    draw: u32,
)
    requires
        m.contains_key(ev.position) ==> m[ev.position].0 != ev.kind,
    ensures
        apply_event(m, rules, ev, draw) == m,
        event_outcome(m, rules, ev, draw) == if m.contains_key(ev.position) {
            TickOutcome::Stale
        } else {
            TickOutcome::Missing
        },
{
}

/// Executes ticks for blocks: owns the tick queue and the transition table.
pub struct BlockTickExecutor {
    scheduler: BlockTickScheduler,
    transition_manager: BlockTransitionManager,
}

impl BlockTickExecutor {
    /// The tick queue.
    pub closed spec fn spec_scheduler(&self) -> BlockTickScheduler {
        self.scheduler
    }

    /// The pending event at each position.
    pub open spec fn pending(&self) -> Map<(i32, i32, i32), BlockTick> {
        self.spec_scheduler()@
    }

    /// The registered transition rules, in registration order.
    pub closed spec fn spec_rules(&self) -> Seq<BlockStateTransition> {
        self.transition_manager@
    }

    /// The configured random tick speed.
    pub open spec fn spec_random_tick_speed(&self) -> u32 {
        self.spec_scheduler().spec_random_tick_speed()
    }

    /// Internal validity.
    pub open spec fn wf(&self) -> bool {
        self.spec_scheduler().wf()
    }

    /// Creates a new block tick executor over the given transition table.
    pub fn new(random_tick_speed: u32, transition_manager: BlockTransitionManager) -> (r: Self)
        ensures
            r.wf(),
            r.pending() == Map::<(i32, i32, i32), BlockTick>::empty(),
            r.spec_random_tick_speed() == random_tick_speed,
            r.spec_rules() == transition_manager@,
    {
        BlockTickExecutor { scheduler: BlockTickScheduler::new(random_tick_speed), transition_manager }
    }

    /// Schedules a tick for a block, replacing any event already pending at
    /// the position.
    pub fn schedule_tick(
        &mut self,
        position: (i32, i32, i32),
        kind: BlockKind,
        delay: u64,
        priority: i32,
        now: u64,
    )
        requires
            old(self).wf(),
            now + delay <= u64::MAX,
        ensures
            final(self).wf(),
            final(self).pending() == old(self).pending().insert(
                position,
                (BlockTick {
                    position,
                    kind,
                    scheduled_time: (now + delay) as u64,
                    tick_type: TickType::Scheduled,
                    priority,
                }),
            ),
            final(self).spec_rules() == old(self).spec_rules(),
            final(self).spec_random_tick_speed() == old(self).spec_random_tick_speed(),
    {
        self.scheduler.schedule_tick(position, kind, delay, TickType::Scheduled, priority, now);
    }

    /// Hook for bespoke per-kind tick behavior, keyed by block kind. The
    /// table is closed: kinds with an entry are listed here, every other
    /// kind is a no-op. In this engine all per-kind behavior is carried by
    /// the transition table, so no entry mutates anything.
    fn dispatch_tick_behavior(kind: BlockKind, tick_type: TickType) {
        match kind {
            BlockKind::Copper | BlockKind::ExposedCopper | BlockKind::WeatheredCopper => {
                // weathering is carried by the transition table
            },
            BlockKind::BuddingAmethyst => {
                if tick_type == TickType::Random {
                    // growth of adjacent buds is carried by the transition table
                }
            },
            BlockKind::PointedDripstone => {
                // growth is carried by the transition table
            },
            _ => {},
        }
    }

    /// Processes every event due at `now`, in due order.
    ///
    /// Each due event is re-validated against the world: when the block at
    /// its position no longer matches the recorded kind (or is gone), the
    /// event is silently dropped. Otherwise the first applicable transition,
    /// if any, is written to the world, and the per-kind tick behavior runs.
    /// Events not yet due stay pending.
    pub fn process_ticks<W: BlockWorld>(&mut self, now: u64, world: &mut W) -> (r: Vec<
        ProcessedTick,
    >)
        requires
            old(self).wf(),
            old(world).wf(),
        ensures
            final(self).wf(),
            final(world).wf(),
            final(self).spec_rules() == old(self).spec_rules(),
            final(self).spec_random_tick_speed() == old(self).spec_random_tick_speed(),
            drains_due(old(self).pending(), now, ticks_of(r@)),
            final(self).pending() == old(self).pending().remove_keys(
                due_keys(old(self).pending(), now),
            ),
            events_phase(old(world).blocks(), old(self).spec_rules(), r@, final(world).blocks()),
    {
        let events = self.scheduler.process_ticks(now);
        let ghost mid_self = *self;
        let ghost m0 = world.blocks();
        let ghost rules = self.spec_rules();
        let mut out: Vec<ProcessedTick> = Vec::new();
        let ghost draws: Seq<u32> = Seq::empty();
        let mut draws = Ghost(draws);
        let mut idx: usize = 0;
        proof {
            assert(ticks_of(out@) =~= events@.take(0));
        }
        while idx < events.len()
            invariant
                *self == mid_self,
                self.wf(),
                world.wf(),
                rules == self.spec_rules(),
                0 <= idx <= events@.len(),
                out@.len() == idx,
                draws@.len() == idx,
                forall|k: int| 0 <= k < idx ==> #[trigger] draws@[k] < PROBABILITY_SCALE,
                ticks_of(out@) == events@.take(idx as int),
                world.blocks() == apply_events(m0, rules, ticks_of(out@), draws@),
                outcomes_reported(m0, rules, out@, draws@),
            decreases events@.len() - idx,
        {
            let ev = events[idx];
            let draw = rand_draw();
            let ghost m_before = world.blocks();
            let outcome: TickOutcome = match world.get_block(ev.position) {
                None => TickOutcome::Missing,
                Some(b) => {
                    let current_kind = b.0;
                    if current_kind != ev.kind {
                        TickOutcome::Stale
                    } else {
                        let target = self.transition_manager.check_transition_with(
                            current_kind,
                            &b.1,
                            draw,
                        );
                        Self::dispatch_tick_behavior(current_kind, ev.tick_type);
                        match target {
                            Some(t) => {
                                world.set_block(ev.position, t);
                                proof {
                                    assert(world.blocks() =~= m_before.insert(
                                        ev.position,
                                        (t, m_before[ev.position].1),
                                    ));
                                }
                                TickOutcome::Transitioned(t)
                            },
                            None => TickOutcome::NoTransition,
                        }
                    }
                },
            };
            proof {
                assert(world.blocks() == apply_event(m_before, rules, ev, draw));
                assert(outcome == event_outcome(m_before, rules, ev, draw));
            }
            let ghost prev_out = out@;
            let ghost prev_draws = draws@;
            out.push(ProcessedTick { tick: ev, outcome });
            proof {
                draws@ = draws@.push(draw);
                assert(ticks_of(out@) =~= ticks_of(prev_out).push(ev));
                assert(ticks_of(out@).drop_last() =~= ticks_of(prev_out));
                assert(out@.drop_last() =~= prev_out);
                assert(draws@.drop_last() =~= prev_draws);
                assert(ticks_of(out@) =~= events@.take(idx + 1));
            }
            idx += 1;
        }
        proof {
            assert(ticks_of(out@) =~= events@);
            assert(drains_due(old(self).pending(), now, ticks_of(out@)));
            let w: Seq<u32> = draws@;
            assert(m0 == old(world).blocks());
            assert(rules == old(self).spec_rules());
            assert({
                &&& w.len() == out@.len()
                &&& (forall|k: int| 0 <= k < w.len() ==> #[trigger] w[k] < PROBABILITY_SCALE)
                &&& world.blocks() == apply_events(
                    old(world).blocks(),
                    old(self).spec_rules(),
                    ticks_of(out@),
                    w,
                )
                &&& outcomes_reported(old(world).blocks(), old(self).spec_rules(), out@, w)
            });
            assert(events_phase(
                old(world).blocks(),
                old(self).spec_rules(),
                out@,
                world.blocks(),
            ));
        }
        out
    }

    /// Processes random ticks for a chunk section: draws
    /// `spec_random_tick_speed` samples from the candidate blocks (none when
    /// the list is empty) and applies only the transition check to each
    /// sampled position — random ticks drive transitions, never one-shot
    /// behaviors. Returns the samples, in order.
    pub fn process_random_ticks<W: BlockWorld>(
        &self,
        chunk_position: (i32, i32),
        blocks: &Vec<(BlockKind, (i32, i32, i32), BlockProperties)>,
        world: &mut W,
    ) -> (r: Vec<((i32, i32, i32), BlockKind)>)
        requires
            old(world).wf(),
        ensures
            final(world).wf(),
            blocks@.len() == 0 ==> r@.len() == 0 && final(world).blocks() == old(world).blocks(),
            blocks@.len() > 0 ==> r@.len() == self.spec_random_tick_speed(),
            forall|i: int| 0 <= i < r@.len() ==> #[trigger] is_candidate_pick(blocks@, r@[i]),
            samples_phase(old(world).blocks(), self.spec_rules(), r@, final(world).blocks()),
    {
        let picks = self.scheduler.process_random_ticks(chunk_position, blocks);
        let ghost m0 = world.blocks();
        let ghost rules = self.spec_rules();
        let ghost draws: Seq<u32> = Seq::empty();
        let mut draws = Ghost(draws);
        let mut idx: usize = 0;
        proof {
            assert(picks@.take(0) =~= Seq::<((i32, i32, i32), BlockKind)>::empty());
        }
        while idx < picks.len()
            invariant
                world.wf(),
                rules == self.spec_rules(),
                0 <= idx <= picks@.len(),
                draws@.len() == idx,
                forall|k: int| 0 <= k < idx ==> #[trigger] draws@[k] < PROBABILITY_SCALE,
                world.blocks() == apply_samples(m0, rules, picks@.take(idx as int), draws@),
            decreases picks@.len() - idx,
        {
            let position = picks[idx].0;
            let draw = rand_draw();
            let ghost m_before = world.blocks();
            match world.get_block(position) {
                None => {},
                Some(b) => {
                    let current_kind = b.0;
                    let target = self.transition_manager.check_transition_with(
                        current_kind,
                        &b.1,
                        draw,
                    );
                    match target {
                        Some(t) => {
                            world.set_block(position, t);
                            proof {
                                assert(world.blocks() =~= m_before.insert(
                                    position,
                                    (t, m_before[position].1),
                                ));
                            }
                        },
                        None => {},
                    }
                },
            }
            let ghost prev_draws = draws@;
            proof {
                draws@ = draws@.push(draw);
                assert(world.blocks() == apply_sample(m_before, rules, position, draw));
                assert(picks@.take(idx + 1).drop_last() =~= picks@.take(idx as int));
                assert(picks@.take(idx + 1).last() == picks@[idx as int]);
                assert(draws@.drop_last() =~= prev_draws);
            }
            idx += 1;
        }
        proof {
            assert(picks@.take(picks@.len() as int) =~= picks@);
            let w: Seq<u32> = draws@;
            assert(m0 == old(world).blocks());
            assert(rules == self.spec_rules());
            assert({
                &&& w.len() == picks@.len()
                &&& (forall|k: int| 0 <= k < w.len() ==> #[trigger] w[k] < PROBABILITY_SCALE)
                &&& world.blocks() == apply_samples(old(world).blocks(), self.spec_rules(), picks@, w)
            });
            assert(samples_phase(old(world).blocks(), self.spec_rules(), picks@, world.blocks()));
        }
        picks
    }

    /// Returns a reference to the tick queue.
    pub fn scheduler(&self) -> (r: &BlockTickScheduler)
        ensures
            *r == self.spec_scheduler(),
    {
        &self.scheduler
    }

    /// Returns a mutable reference to the tick queue.
    pub fn scheduler_mut(&mut self) -> (r: &mut BlockTickScheduler)
        ensures
            *r == old(self).spec_scheduler(),
            final(self).spec_scheduler() == *final(r),
            final(self).spec_rules() == old(self).spec_rules(),
    {
        &mut self.scheduler
    }
}

} // verus!
