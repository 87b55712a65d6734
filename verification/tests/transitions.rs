//! Tests for the transition rule engine: condition evaluation and
//! first-match rule selection.

use libcraft_blocks::block_transitions::PROBABILITY_SCALE;
use libcraft_blocks::{
    BlockKind, BlockProperties, BlockStateTransition, BlockTransitionManager, TransitionCondition,
};

fn powered_rule(target: BlockKind) -> BlockStateTransition {
    BlockStateTransition {
        source_kind: BlockKind::RedstoneWire,
        target_kind: target,
        conditions: vec![TransitionCondition::RedstonePowered],
        transition_time: None,
    }
}

#[test]
fn first_registered_matching_rule_wins() {
    let mut manager = BlockTransitionManager::new();
    manager.register_transition(powered_rule(BlockKind::RedstoneBlock));
    manager.register_transition(powered_rule(BlockKind::RedstoneTorch));

    let mut props = BlockProperties::new(BlockKind::RedstoneWire);
    props.set("powered", "true");

    // both rules are satisfiable; only the first fires, deterministically
    for _ in 0..50 {
        let target = manager.check_transition(BlockKind::RedstoneWire, &props);
        assert_eq!(target, Some(BlockKind::RedstoneBlock));
    }
    let target = manager.check_transition_with(BlockKind::RedstoneWire, &props, 0);
    assert_eq!(target, Some(BlockKind::RedstoneBlock));
}

#[test]
fn no_rule_matches_other_kinds() {
    let mut manager = BlockTransitionManager::new();
    manager.register_transition(powered_rule(BlockKind::RedstoneBlock));
    let props = BlockProperties::new(BlockKind::Stone);
    assert_eq!(manager.check_transition(BlockKind::Stone, &props), None);
}

#[test]
fn redstone_powered_condition_reads_the_powered_property() {
    let mut manager = BlockTransitionManager::new();
    manager.register_transition(powered_rule(BlockKind::RedstoneBlock));

    let unpowered = BlockProperties::new(BlockKind::RedstoneWire);
    assert_eq!(manager.check_transition(BlockKind::RedstoneWire, &unpowered), None);

    let mut off = BlockProperties::new(BlockKind::RedstoneWire);
    off.set("powered", "false");
    assert_eq!(manager.check_transition(BlockKind::RedstoneWire, &off), None);

    let mut on = BlockProperties::new(BlockKind::RedstoneWire);
    on.set("powered", "false");
    on.set("powered", "true");
    assert_eq!(
        manager.check_transition(BlockKind::RedstoneWire, &on),
        Some(BlockKind::RedstoneBlock)
    );
}

#[test]
fn has_property_condition_compares_the_value() {
    let mut manager = BlockTransitionManager::new();
    manager.register_transition(BlockStateTransition {
        source_kind: BlockKind::Candle,
        target_kind: BlockKind::BlackCandle,
        conditions: vec![TransitionCondition::HasProperty(
            "lit".to_owned(),
            "true".to_owned(),
        )],
        transition_time: None,
    });

    let mut lit = BlockProperties::new(BlockKind::Candle);
    lit.set("lit", "true");
    assert_eq!(
        manager.check_transition(BlockKind::Candle, &lit),
        Some(BlockKind::BlackCandle)
    );

    let mut unlit = BlockProperties::new(BlockKind::Candle);
    unlit.set("lit", "false");
    assert_eq!(manager.check_transition(BlockKind::Candle, &unlit), None);
}

#[test]
fn world_context_conditions_are_unmet_here() {
    let mut manager = BlockTransitionManager::new();
    manager.register_transition(BlockStateTransition {
        source_kind: BlockKind::Copper,
        target_kind: BlockKind::ExposedCopper,
        conditions: vec![TransitionCondition::ExposedToSky],
        transition_time: None,
    });
    manager.register_transition(BlockStateTransition {
        source_kind: BlockKind::Copper,
        target_kind: BlockKind::WeatheredCopper,
        conditions: vec![TransitionCondition::InBiome("plains".to_owned())],
        transition_time: None,
    });
    manager.register_transition(BlockStateTransition {
        source_kind: BlockKind::Copper,
        target_kind: BlockKind::OxidizedCopper,
        conditions: vec![TransitionCondition::Connected(BlockKind::Stone)],
        transition_time: None,
    });
    let props = BlockProperties::new(BlockKind::Copper);
    assert_eq!(manager.check_transition(BlockKind::Copper, &props), None);
}

#[test]
fn random_tick_condition_respects_the_draw() {
    let mut manager = BlockTransitionManager::new();
    manager.register_transition(BlockStateTransition {
        source_kind: BlockKind::Copper,
        target_kind: BlockKind::ExposedCopper,
        conditions: vec![TransitionCondition::RandomTick(PROBABILITY_SCALE / 2)],
        transition_time: None,
    });
    let props = BlockProperties::new(BlockKind::Copper);
    // a draw below the numerator succeeds, one at or above it fails
    assert_eq!(
        manager.check_transition_with(BlockKind::Copper, &props, 0),
        Some(BlockKind::ExposedCopper)
    );
    assert_eq!(
        manager.check_transition_with(BlockKind::Copper, &props, PROBABILITY_SCALE / 2),
        None
    );
}

#[test]
fn certain_random_tick_fires_on_every_draw() {
    let mut manager = BlockTransitionManager::new();
    manager.register_transition(BlockStateTransition {
        source_kind: BlockKind::Copper,
        target_kind: BlockKind::ExposedCopper,
        conditions: vec![TransitionCondition::RandomTick(PROBABILITY_SCALE)],
        transition_time: None,
    });
    let props = BlockProperties::new(BlockKind::Copper);
    for _ in 0..20 {
        assert_eq!(
            manager.check_transition(BlockKind::Copper, &props),
            Some(BlockKind::ExposedCopper)
        );
    }
}

#[test]
fn impossible_random_tick_never_fires() {
    let mut manager = BlockTransitionManager::new();
    manager.register_transition(BlockStateTransition {
        source_kind: BlockKind::Copper,
        target_kind: BlockKind::ExposedCopper,
        conditions: vec![TransitionCondition::RandomTick(0)],
        transition_time: None,
    });
    let props = BlockProperties::new(BlockKind::Copper);
    for _ in 0..20 {
        assert_eq!(manager.check_transition(BlockKind::Copper, &props), None);
    }
}

#[test]
fn copper_weathering_chain_is_registered_in_order() {
    let manager = libcraft_blocks::initialize_block_transitions();
    let mut props = BlockProperties::new(BlockKind::Copper);
    props.set("x", "y");
    // with a certain draw the chain steps fire; with a failing draw they do not
    assert_eq!(
        manager.check_transition_with(BlockKind::Copper, &props, 0),
        Some(BlockKind::ExposedCopper)
    );
    assert_eq!(
        manager.check_transition_with(BlockKind::ExposedCopper, &props, 0),
        Some(BlockKind::WeatheredCopper)
    );
    assert_eq!(
        manager.check_transition_with(BlockKind::WeatheredCopper, &props, 0),
        Some(BlockKind::OxidizedCopper)
    );
    assert_eq!(
        manager.check_transition_with(BlockKind::CutCopper, &props, 0),
        Some(BlockKind::ExposedCutCopper)
    );
    assert_eq!(manager.check_transition_with(BlockKind::OxidizedCopper, &props, 0), None);
    assert_eq!(
        manager.check_transition_with(BlockKind::Copper, &props, PROBABILITY_SCALE - 1),
        None
    );
}
