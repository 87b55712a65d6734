//! Tests for the tick executor and the world integration driver: staleness,
//! random-tick transitions, neighbor propagation, and the per-tick pipeline.

use libcraft_blocks::block_transitions::PROBABILITY_SCALE;
use libcraft_blocks::{
    BlockKind, BlockProperties, BlockStateTransition, BlockTickExecutor, BlockTransitionManager,
    BlockWorld, BlockWorldIntegration, InMemoryWorld, TickOutcome, TransitionCondition,
};

fn certain_rule(source: BlockKind, target: BlockKind) -> BlockStateTransition {
    BlockStateTransition {
        source_kind: source,
        target_kind: target,
        conditions: vec![TransitionCondition::RandomTick(PROBABILITY_SCALE)],
        transition_time: None,
    }
}

fn executor_with_rules(speed: u32, rules: Vec<BlockStateTransition>) -> BlockTickExecutor {
    let mut manager = BlockTransitionManager::new();
    for rule in rules {
        manager.register_transition(rule);
    }
    BlockTickExecutor::new(speed, manager)
}

#[test]
fn stale_event_is_dropped_without_transition_or_behavior() {
    // schedule a tick for kind Stone at (5,5,5) with no delay; before
    // processing, the block changes to Dirt; processing must do nothing
    let mut executor = executor_with_rules(
        3,
        vec![
            certain_rule(BlockKind::Stone, BlockKind::GrassBlock),
            certain_rule(BlockKind::Dirt, BlockKind::GrassBlock),
        ],
    );
    let mut world = InMemoryWorld::new();
    world.place_block((5, 5, 5), BlockKind::Stone, BlockProperties::new(BlockKind::Stone));
    executor.schedule_tick((5, 5, 5), BlockKind::Stone, 0, 0, 0);

    world.place_block((5, 5, 5), BlockKind::Dirt, BlockProperties::new(BlockKind::Dirt));

    let processed = executor.process_ticks(1, &mut world);
    assert_eq!(processed.len(), 1);
    assert_eq!(processed[0].outcome, TickOutcome::Stale);
    // no transition was applied: the block is still Dirt
    let block = world.get_block((5, 5, 5)).unwrap();
    assert_eq!(block.0, BlockKind::Dirt);
}

#[test]
fn event_for_a_missing_block_is_dropped() {
    let mut executor = executor_with_rules(3, vec![]);
    let mut world = InMemoryWorld::new();
    executor.schedule_tick((9, 9, 9), BlockKind::Stone, 0, 0, 0);
    let processed = executor.process_ticks(1, &mut world);
    assert_eq!(processed.len(), 1);
    assert_eq!(processed[0].outcome, TickOutcome::Missing);
}

#[test]
fn matching_event_applies_the_first_transition() {
    let mut executor = executor_with_rules(
        3,
        vec![certain_rule(BlockKind::Stone, BlockKind::GrassBlock)],
    );
    let mut world = InMemoryWorld::new();
    world.place_block((0, 0, 0), BlockKind::Stone, BlockProperties::new(BlockKind::Stone));
    executor.schedule_tick((0, 0, 0), BlockKind::Stone, 2, 0, 0);

    // not due yet
    let processed = executor.process_ticks(1, &mut world);
    assert_eq!(processed.len(), 0);

    let processed = executor.process_ticks(2, &mut world);
    assert_eq!(processed.len(), 1);
    assert_eq!(processed[0].outcome, TickOutcome::Transitioned(BlockKind::GrassBlock));
    assert_eq!(world.get_block((0, 0, 0)).unwrap().0, BlockKind::GrassBlock);
}

#[test]
fn matching_event_without_applicable_rule_reports_no_transition() {
    let mut executor = executor_with_rules(3, vec![]);
    let mut world = InMemoryWorld::new();
    world.place_block((0, 0, 0), BlockKind::Stone, BlockProperties::new(BlockKind::Stone));
    executor.schedule_tick((0, 0, 0), BlockKind::Stone, 0, 0, 0);
    let processed = executor.process_ticks(1, &mut world);
    assert_eq!(processed.len(), 1);
    assert_eq!(processed[0].outcome, TickOutcome::NoTransition);
    assert_eq!(world.get_block((0, 0, 0)).unwrap().0, BlockKind::Stone);
}

#[test]
fn random_tick_with_certain_rule_transitions_the_sole_candidate() {
    // a Copper block at (0,64,0) with a certain random-tick rule to
    // ExposedCopper, budget 1: the world write happens exactly once
    let executor = executor_with_rules(
        1,
        vec![certain_rule(BlockKind::Copper, BlockKind::ExposedCopper)],
    );
    let mut world = InMemoryWorld::new();
    world.place_block((0, 64, 0), BlockKind::Copper, BlockProperties::new(BlockKind::Copper));
    let candidates = vec![
        (BlockKind::Copper, (0, 64, 0), BlockProperties::new(BlockKind::Copper)),
    ];
    let picks = executor.process_random_ticks((0, 0), &candidates, &mut world);
    assert_eq!(picks.len(), 1);
    assert_eq!(picks[0], ((0, 64, 0), BlockKind::Copper));
    assert_eq!(world.get_block((0, 64, 0)).unwrap().0, BlockKind::ExposedCopper);
}

#[test]
fn random_ticks_with_empty_candidates_do_nothing() {
    let executor = executor_with_rules(
        4,
        vec![certain_rule(BlockKind::Copper, BlockKind::ExposedCopper)],
    );
    let mut world = InMemoryWorld::new();
    world.place_block((0, 64, 0), BlockKind::Copper, BlockProperties::new(BlockKind::Copper));
    let candidates: Vec<(BlockKind, (i32, i32, i32), BlockProperties)> = Vec::new();
    let picks = executor.process_random_ticks((0, 0), &candidates, &mut world);
    assert_eq!(picks.len(), 0);
    assert_eq!(world.get_block((0, 64, 0)).unwrap().0, BlockKind::Copper);
}

#[test]
fn random_tick_budget_counts_handler_invocations() {
    let executor = executor_with_rules(7, vec![]);
    let mut world = InMemoryWorld::new();
    world.place_block((0, 0, 0), BlockKind::Copper, BlockProperties::new(BlockKind::Copper));
    world.place_block((1, 0, 0), BlockKind::Copper, BlockProperties::new(BlockKind::Copper));
    let candidates = vec![
        (BlockKind::Copper, (0, 0, 0), BlockProperties::new(BlockKind::Copper)),
        (BlockKind::Copper, (1, 0, 0), BlockProperties::new(BlockKind::Copper)),
    ];
    let picks = executor.process_random_ticks((0, 0), &candidates, &mut world);
    assert_eq!(picks.len(), 7);
}

fn integration_with_certain_copper_rule(speed: u32) -> BlockWorldIntegration {
    let mut manager = BlockTransitionManager::new();
    manager.register_transition(certain_rule(BlockKind::Copper, BlockKind::ExposedCopper));
    BlockWorldIntegration::new(BlockTickExecutor::new(speed, manager))
}

#[test]
fn block_change_enqueues_one_pending_update_per_present_neighbor() {
    let mut integration = integration_with_certain_copper_rule(1);
    let mut world = InMemoryWorld::new();
    let center = (10, 64, 10);
    let neighbors = [
        (11, 64, 10),
        (9, 64, 10),
        (10, 65, 10),
        (10, 63, 10),
        (10, 64, 11),
        (10, 64, 9),
    ];
    world.place_block(center, BlockKind::Stone, BlockProperties::new(BlockKind::Stone));
    for pos in neighbors {
        world.place_block(pos, BlockKind::Dirt, BlockProperties::new(BlockKind::Dirt));
    }

    integration.on_block_changed(center, BlockKind::Stone, &world);
    let pending = integration.pending_updates();
    assert_eq!(pending.len(), 6);
    for (i, update) in pending.iter().enumerate() {
        assert_eq!(update.position, neighbors[i]);
        assert_eq!(update.kind, BlockKind::Dirt);
        assert_eq!(update.delay, 1);
        assert_eq!(update.priority, 0);
    }
}

#[test]
fn block_change_skips_absent_neighbors() {
    let mut integration = integration_with_certain_copper_rule(1);
    let mut world = InMemoryWorld::new();
    let center = (0, 64, 0);
    world.place_block(center, BlockKind::Stone, BlockProperties::new(BlockKind::Stone));
    world.place_block((1, 64, 0), BlockKind::Dirt, BlockProperties::new(BlockKind::Dirt));
    world.place_block((0, 63, 0), BlockKind::Stone, BlockProperties::new(BlockKind::Stone));

    integration.on_block_changed(center, BlockKind::Stone, &world);
    let pending = integration.pending_updates();
    assert_eq!(pending.len(), 2);
    assert_eq!(pending[0].position, (1, 64, 0));
    assert_eq!(pending[1].position, (0, 63, 0));
}

#[test]
fn update_drives_scheduled_ticks_through_transitions() {
    let mut integration = integration_with_certain_copper_rule(1);
    let mut world = InMemoryWorld::new();
    world.place_block((3, 10, 3), BlockKind::Copper, BlockProperties::new(BlockKind::Copper));

    // copper is tick-eligible, so the change schedules an immediate tick
    integration.on_block_changed((3, 10, 3), BlockKind::Copper, &world);

    let chunks: Vec<((i32, i32), u32)> = Vec::new();
    let processed = integration.update(&mut world, &chunks);
    assert_eq!(processed.len(), 1);
    assert_eq!(
        processed[0].outcome,
        TickOutcome::Transitioned(BlockKind::ExposedCopper)
    );
    assert_eq!(world.get_block((3, 10, 3)).unwrap().0, BlockKind::ExposedCopper);
    assert_eq!(integration.current_tick(), 1);
}

#[test]
fn update_runs_random_ticks_over_registered_chunks() {
    let mut integration = integration_with_certain_copper_rule(3);
    let mut world = InMemoryWorld::new();
    // the sole tick-eligible block of chunk (0,0): every sample hits it
    world.place_block((4, 2, 7), BlockKind::Copper, BlockProperties::new(BlockKind::Copper));
    integration.register_chunk((0, 0));

    let chunks = vec![((0, 0), 4u32)];
    integration.update(&mut world, &chunks);
    assert_eq!(world.get_block((4, 2, 7)).unwrap().0, BlockKind::ExposedCopper);
}

#[test]
fn unregistered_chunks_receive_no_random_ticks() {
    let mut integration = integration_with_certain_copper_rule(3);
    let mut world = InMemoryWorld::new();
    world.place_block((4, 2, 7), BlockKind::Copper, BlockProperties::new(BlockKind::Copper));
    integration.register_chunk((0, 0));
    integration.unregister_chunk((0, 0));

    let chunks = vec![((0, 0), 4u32)];
    integration.update(&mut world, &chunks);
    assert_eq!(world.get_block((4, 2, 7)).unwrap().0, BlockKind::Copper);
}

#[test]
fn due_pending_updates_promote_into_scheduled_ticks() {
    let mut integration = integration_with_certain_copper_rule(1);
    let mut world = InMemoryWorld::new();
    world.place_block((3, 10, 3), BlockKind::Stone, BlockProperties::new(BlockKind::Stone));
    world.place_block((4, 10, 3), BlockKind::Copper, BlockProperties::new(BlockKind::Copper));

    // a change at (3,10,3) enqueues a pending update for the copper neighbor
    integration.on_block_changed((3, 10, 3), BlockKind::Stone, &world);
    assert_eq!(integration.pending_updates().len(), 1);

    let chunks: Vec<((i32, i32), u32)> = Vec::new();
    // first update: the pending updates become scheduled ticks
    integration.update(&mut world, &chunks);
    assert_eq!(integration.pending_updates().len(), 0);
    assert_eq!(world.get_block((4, 10, 3)).unwrap().0, BlockKind::Copper);

    // second update: the promoted tick fires and the copper weathers
    let processed = integration.update(&mut world, &chunks);
    assert_eq!(processed.len(), 1);
    assert_eq!(world.get_block((4, 10, 3)).unwrap().0, BlockKind::ExposedCopper);
    // the changed block itself gets no pending update, only its neighbors
    assert_eq!(world.get_block((3, 10, 3)).unwrap().0, BlockKind::Stone);
}

#[test]
fn pending_update_for_a_changed_block_is_dropped() {
    let mut integration = integration_with_certain_copper_rule(1);
    let mut world = InMemoryWorld::new();
    world.place_block((3, 10, 3), BlockKind::Stone, BlockProperties::new(BlockKind::Stone));
    world.place_block((4, 10, 3), BlockKind::Copper, BlockProperties::new(BlockKind::Copper));
    integration.on_block_changed((3, 10, 3), BlockKind::Stone, &world);

    // the copper block changes before the update is drained
    world.place_block((4, 10, 3), BlockKind::Dirt, BlockProperties::new(BlockKind::Dirt));

    let chunks: Vec<((i32, i32), u32)> = Vec::new();
    integration.update(&mut world, &chunks);
    assert_eq!(integration.pending_updates().len(), 0);
    let processed = integration.update(&mut world, &chunks);
    // the copper update was dropped at the drain, so nothing was scheduled
    assert_eq!(processed.len(), 0);
    assert_eq!(world.get_block((4, 10, 3)).unwrap().0, BlockKind::Dirt);
}
