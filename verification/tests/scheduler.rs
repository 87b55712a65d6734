//! Tests for the block tick scheduler: due ordering, deduplication by
//! position, and the random-tick sampler's budget.

use libcraft_blocks::{BlockKind, BlockProperties, BlockTickScheduler, TickType};

#[test]
fn processes_due_events_in_time_then_priority_order() {
    let mut scheduler = BlockTickScheduler::new(3);
    scheduler.schedule_tick((0, 0, 0), BlockKind::Stone, 5, TickType::Scheduled, 0, 0);
    scheduler.schedule_tick((1, 0, 0), BlockKind::Dirt, 2, TickType::Scheduled, 0, 0);
    scheduler.schedule_tick((2, 0, 0), BlockKind::GrassBlock, 2, TickType::Scheduled, -1, 0);
    scheduler.schedule_tick((3, 0, 0), BlockKind::Copper, 9, TickType::Scheduled, 0, 0);

    let fired = scheduler.process_ticks(5);
    assert_eq!(fired.len(), 3);
    // due time 2 before due time 5; priority -1 before priority 0 at time 2
    assert_eq!(fired[0].position, (2, 0, 0));
    assert_eq!(fired[0].kind, BlockKind::GrassBlock);
    assert_eq!(fired[1].position, (1, 0, 0));
    assert_eq!(fired[2].position, (0, 0, 0));

    // the event at (3,0,0) is not yet due and stays pending
    let fired_later = scheduler.process_ticks(9);
    assert_eq!(fired_later.len(), 1);
    assert_eq!(fired_later[0].position, (3, 0, 0));
}

#[test]
fn not_yet_due_events_stay_pending() {
    let mut scheduler = BlockTickScheduler::new(3);
    scheduler.schedule_tick((4, 4, 4), BlockKind::Stone, 10, TickType::Scheduled, 0, 0);
    let fired = scheduler.process_ticks(9);
    assert_eq!(fired.len(), 0);
    let fired = scheduler.process_ticks(10);
    assert_eq!(fired.len(), 1);
    assert_eq!(fired[0].scheduled_time, 10);
}

#[test]
fn scheduling_twice_at_one_position_fires_once_with_latest_data() {
    let mut scheduler = BlockTickScheduler::new(3);
    scheduler.schedule_tick((1, 1, 1), BlockKind::Stone, 1, TickType::Scheduled, 0, 0);
    scheduler.schedule_tick((1, 1, 1), BlockKind::Dirt, 4, TickType::Scheduled, 7, 0);

    // across all time, exactly one event fires at (1,1,1), with the data of
    // the second call
    let early = scheduler.process_ticks(3);
    assert_eq!(early.len(), 0);
    let fired = scheduler.process_ticks(100);
    assert_eq!(fired.len(), 1);
    assert_eq!(fired[0].position, (1, 1, 1));
    assert_eq!(fired[0].kind, BlockKind::Dirt);
    assert_eq!(fired[0].scheduled_time, 4);
    assert_eq!(fired[0].priority, 7);
    let after = scheduler.process_ticks(u64::MAX);
    assert_eq!(after.len(), 0);
}

#[test]
fn clear_drops_all_pending_events() {
    let mut scheduler = BlockTickScheduler::new(3);
    scheduler.schedule_tick((0, 1, 2), BlockKind::Stone, 0, TickType::Scheduled, 0, 0);
    scheduler.schedule_tick((3, 4, 5), BlockKind::Dirt, 0, TickType::Scheduled, 0, 0);
    scheduler.clear();
    let fired = scheduler.process_ticks(u64::MAX);
    assert_eq!(fired.len(), 0);
}

#[test]
fn random_tick_speed_is_settable() {
    let mut scheduler = BlockTickScheduler::new(3);
    assert_eq!(scheduler.random_tick_speed(), 3);
    scheduler.set_random_tick_speed(20);
    assert_eq!(scheduler.random_tick_speed(), 20);
}

#[test]
fn sampler_draws_exactly_the_budget_from_nonempty_candidates() {
    let scheduler = BlockTickScheduler::new(5);
    let blocks = vec![
        (BlockKind::Copper, (0, 64, 0), BlockProperties::new(BlockKind::Copper)),
        (BlockKind::ExposedCopper, (1, 64, 0), BlockProperties::new(BlockKind::ExposedCopper)),
        (BlockKind::BuddingAmethyst, (2, 64, 0), BlockProperties::new(BlockKind::BuddingAmethyst)),
    ];
    let picks = scheduler.process_random_ticks((0, 0), &blocks);
    assert_eq!(picks.len(), 5);
    for (pos, kind) in picks {
        let found = blocks.iter().any(|(k, p, _)| *p == pos && *k == kind);
        assert!(found);
    }
}

#[test]
fn sampler_draws_nothing_from_empty_candidates() {
    let scheduler = BlockTickScheduler::new(5);
    let blocks: Vec<(BlockKind, (i32, i32, i32), BlockProperties)> = Vec::new();
    let picks = scheduler.process_random_ticks((0, 0), &blocks);
    assert_eq!(picks.len(), 0);
}

#[test]
fn sampler_budget_does_not_depend_on_candidate_count() {
    let scheduler = BlockTickScheduler::new(2);
    let mut blocks = Vec::new();
    for x in 0..40 {
        blocks.push((BlockKind::Copper, (x, 64, 0), BlockProperties::new(BlockKind::Copper)));
    }
    let picks = scheduler.process_random_ticks((0, 0), &blocks);
    assert_eq!(picks.len(), 2);
}
