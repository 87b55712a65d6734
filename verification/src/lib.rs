//! Block tick and state-transition engine.
//!
//! The crate centres on five pieces:
//! - `BlockTickScheduler`: a time-ordered queue of pending block ticks,
//!   deduplicated by position (scheduling twice at one position replaces the
//!   earlier event).
//! - `BlockTransitionManager`: a declarative, first-match table of block
//!   state transitions (for example the copper weathering chain).
//! - `BlockTickExecutor`: drains due ticks, re-validates that the block at
//!   each position still matches the event, and applies transitions through a
//!   `BlockWorld` capability.
//! - `BlockWorldIntegration`: the per-game-tick driver; tracks registered
//!   chunks, runs scheduled and random ticks, and promotes pending external
//!   block updates into scheduled ticks.
//! - Supporting data: block kinds, per-block string properties, block
//!   behaviors, block entities, and the block registry.

pub mod assoc;
pub mod behaviors;
pub mod block;
pub mod block_entity;
pub mod block_properties;
pub mod block_ticking;
pub mod block_transitions;
pub mod chunk_integration;
pub mod registration;
pub mod tick_executor;
pub mod world;

pub use behaviors::{
    get_behavior_for_block, BehaviorKind, ChestBehavior, DoorBehavior, RedstoneBehavior,
};
pub use block::BlockKind;
pub use block_entity::{
    create_block_entity, requires_block_entity, BlockEntity, BlockEntityData, BlockEntityKind,
    BlockEntityManager, BlockEntityValue,
};
pub use block_properties::{BlockBehavior, BlockProperties, DefaultBlockBehavior};
pub use block_ticking::{BlockTick, BlockTickScheduler, TickType};
pub use block_transitions::{
    register_copper_transitions, BlockStateTransition, BlockTransitionManager,
    TransitionCondition,
};
pub use chunk_integration::{BlockUpdate, BlockWorldIntegration};
pub use registration::{BlockRegistration, BlockRegistry};
pub use tick_executor::{BlockTickExecutor, ProcessedTick, TickOutcome};
pub use world::{BlockWorld, InMemoryWorld};

use vstd::prelude::*;

verus! {

/// Builds a transition manager holding the default transition table: the
/// copper weathering chain.
pub fn initialize_block_transitions() -> (manager: BlockTransitionManager)
    ensures
        block_transitions::is_copper_transition_table(manager@),
{
    let mut manager = BlockTransitionManager::new();
    register_copper_transitions(&mut manager);
    manager
}

/// The default random tick speed: how many random ticks each chunk section
/// receives per game tick.
pub const DEFAULT_RANDOM_TICK_SPEED: u32 = 3;

/// Builds a block tick executor with the default random tick speed and the
/// default transition table.
pub fn initialize_block_tick_executor() -> (r: BlockTickExecutor)
    ensures
        r.wf(),
        r.pending() == Map::<(i32, i32, i32), BlockTick>::empty(),
        r.spec_random_tick_speed() == DEFAULT_RANDOM_TICK_SPEED,
        block_transitions::is_copper_transition_table(r.spec_rules()),
{
    let transition_manager = initialize_block_transitions();
    BlockTickExecutor::new(DEFAULT_RANDOM_TICK_SPEED, transition_manager)
}

/// Builds a block world integration around a default tick executor: no
/// registered chunks, no pending updates, and a zeroed tick counter.
pub fn initialize_block_world_integration() -> (r: BlockWorldIntegration)
    ensures
        r.wf(),
        r.pending_events() == Map::<(i32, i32, i32), BlockTick>::empty(),
        r.spec_random_tick_speed() == DEFAULT_RANDOM_TICK_SPEED,
        block_transitions::is_copper_transition_table(r.spec_rules()),
        r.registered() == Set::<(i32, i32)>::empty(),
        r.spec_pending_updates() == Seq::<chunk_integration::BlockUpdate>::empty(),
        r.spec_random_tick_interval() == 1,
        r.spec_current_tick() == 0,
{
    let tick_executor = initialize_block_tick_executor();
    BlockWorldIntegration::new(tick_executor)
}

/// Builds a block registry holding the built-in blocks and behaviors.
#[verifier::rlimit(100)]
pub fn initialize_block_registry() -> (r: BlockRegistry)
    ensures
        r.wf(),
        r.behaviors_view() == Map::<BlockKind, BehaviorKind>::empty().insert(
            BlockKind::LightningRod,
            BehaviorKind::Redstone,
        ).insert(BlockKind::OakDoor, BehaviorKind::Door).insert(
            BlockKind::Chest,
            BehaviorKind::Chest,
        ).insert(BlockKind::RedstoneWire, BehaviorKind::Redstone),
        r.blocks_view().dom() == Set::<Seq<char>>::empty().insert("stone"@).insert(
            "grass_block"@,
        ).insert("dirt"@).insert("copper_block"@).insert("exposed_copper"@).insert(
            "weathered_copper"@,
        ).insert("oxidized_copper"@).insert("cut_copper"@).insert("exposed_cut_copper"@).insert(
            "weathered_cut_copper"@,
        ).insert("oxidized_cut_copper"@).insert("amethyst_block"@).insert(
            "budding_amethyst"@,
        ).insert("amethyst_cluster"@).insert("tinted_glass"@).insert("lightning_rod"@).insert(
            "candle"@,
        ),
        registration::is_fresh_registration(r.blocks_view()["stone"@], BlockKind::Stone),
        registration::is_fresh_registration(r.blocks_view()["grass_block"@], BlockKind::GrassBlock),
        registration::is_fresh_registration(r.blocks_view()["dirt"@], BlockKind::Dirt),
        registration::is_fresh_registration(r.blocks_view()["copper_block"@], BlockKind::Copper),
        registration::is_fresh_registration(
            r.blocks_view()["exposed_copper"@],
            BlockKind::ExposedCopper,
        ),
        registration::is_fresh_registration(
            r.blocks_view()["weathered_copper"@],
            BlockKind::WeatheredCopper,
        ),
        registration::is_fresh_registration(
            r.blocks_view()["oxidized_copper"@],
            BlockKind::OxidizedCopper,
        ),
        registration::is_fresh_registration(r.blocks_view()["cut_copper"@], BlockKind::CutCopper),
        registration::is_fresh_registration(
            r.blocks_view()["exposed_cut_copper"@],
            BlockKind::ExposedCutCopper,
        ),
        registration::is_fresh_registration(
            r.blocks_view()["weathered_cut_copper"@],
            BlockKind::WeatheredCutCopper,
        ),
        registration::is_fresh_registration(
            r.blocks_view()["oxidized_cut_copper"@],
            BlockKind::OxidizedCutCopper,
        ),
        registration::is_fresh_registration(
            r.blocks_view()["amethyst_block"@],
            BlockKind::AmethystBlock,
        ),
        registration::is_fresh_registration(
            r.blocks_view()["budding_amethyst"@],
            BlockKind::BuddingAmethyst,
        ),
        registration::is_fresh_registration(
            r.blocks_view()["amethyst_cluster"@],
            BlockKind::AmethystCluster,
        ),
        registration::is_fresh_registration(
            r.blocks_view()["tinted_glass"@],
            BlockKind::TintedGlass,
        ),
        registration::is_fresh_registration(
            r.blocks_view()["lightning_rod"@],
            BlockKind::LightningRod,
        ),
        registration::is_fresh_registration(r.blocks_view()["candle"@], BlockKind::Candle),
{
    proof {
        reveal_strlit("stone");
        reveal_strlit("grass_block");
        reveal_strlit("dirt");
        reveal_strlit("copper_block");
        reveal_strlit("exposed_copper");
        reveal_strlit("weathered_copper");
        reveal_strlit("oxidized_copper");
        reveal_strlit("cut_copper");
        reveal_strlit("exposed_cut_copper");
        reveal_strlit("weathered_cut_copper");
        reveal_strlit("oxidized_cut_copper");
        reveal_strlit("amethyst_block");
        reveal_strlit("budding_amethyst");
        reveal_strlit("amethyst_cluster");
        reveal_strlit("tinted_glass");
        reveal_strlit("lightning_rod");
        reveal_strlit("candle");
    }
    let mut registry = BlockRegistry::new();
    registry.register_block("stone", BlockKind::Stone);
    registry.register_block("grass_block", BlockKind::GrassBlock);
    registry.register_block("dirt", BlockKind::Dirt);
    registry.register_block("copper_block", BlockKind::Copper);
    registry.register_block("exposed_copper", BlockKind::ExposedCopper);
    registry.register_block("weathered_copper", BlockKind::WeatheredCopper);
    registry.register_block("oxidized_copper", BlockKind::OxidizedCopper);
    registry.register_block("cut_copper", BlockKind::CutCopper);
    registry.register_block("exposed_cut_copper", BlockKind::ExposedCutCopper);
    registry.register_block("weathered_cut_copper", BlockKind::WeatheredCutCopper);
    registry.register_block("oxidized_cut_copper", BlockKind::OxidizedCutCopper);
    registry.register_block("amethyst_block", BlockKind::AmethystBlock);
    registry.register_block("budding_amethyst", BlockKind::BuddingAmethyst);
    registry.register_block("amethyst_cluster", BlockKind::AmethystCluster);
    registry.register_block("tinted_glass", BlockKind::TintedGlass);
    registry.register_block("lightning_rod", BlockKind::LightningRod);
    registry.register_behavior(BlockKind::LightningRod, BehaviorKind::Redstone);
    registry.register_block("candle", BlockKind::Candle);
    registry.register_behavior(BlockKind::OakDoor, BehaviorKind::Door);
    registry.register_behavior(BlockKind::Chest, BehaviorKind::Chest);
    registry.register_behavior(BlockKind::RedstoneWire, BehaviorKind::Redstone);
    proof {
        // the seventeen registered names are pairwise distinct, so every
        // registration survives the ones made after it
        assert("stone"@.len() == 5);
        assert("grass_block"@.len() == 11);
        assert("dirt"@.len() == 4);
        assert("copper_block"@.len() == 12);
        assert("exposed_copper"@.len() == 14);
        assert("weathered_copper"@.len() == 16);
        assert("oxidized_copper"@.len() == 15);
        assert("cut_copper"@.len() == 10);
        assert("exposed_cut_copper"@.len() == 18);
        assert("weathered_cut_copper"@.len() == 20);
        assert("oxidized_cut_copper"@.len() == 19);
        assert("amethyst_block"@.len() == 14);
        assert("budding_amethyst"@.len() == 16);
        assert("amethyst_cluster"@.len() == 16);
        assert("tinted_glass"@.len() == 12);
        assert("lightning_rod"@.len() == 13);
        assert("candle"@.len() == 6);
        assert("copper_block"@[0] == 'c');
        assert("tinted_glass"@[0] == 't');
        assert("exposed_copper"@[0] == 'e');
        assert("amethyst_block"@[0] == 'a');
        assert("weathered_copper"@[0] == 'w');
        assert("budding_amethyst"@[0] == 'b');
        assert("amethyst_cluster"@[0] == 'a');
        assert("stone"@ != "grass_block"@);
        assert("stone"@ != "dirt"@);
        assert("stone"@ != "copper_block"@);
        assert("stone"@ != "exposed_copper"@);
        assert("stone"@ != "weathered_copper"@);
        assert("stone"@ != "oxidized_copper"@);
        assert("stone"@ != "cut_copper"@);
        assert("stone"@ != "exposed_cut_copper"@);
        assert("stone"@ != "weathered_cut_copper"@);
        assert("stone"@ != "oxidized_cut_copper"@);
        assert("stone"@ != "amethyst_block"@);
        assert("stone"@ != "budding_amethyst"@);
        assert("stone"@ != "amethyst_cluster"@);
        assert("stone"@ != "tinted_glass"@);
        assert("stone"@ != "lightning_rod"@);
        assert("stone"@ != "candle"@);
        assert("grass_block"@ != "dirt"@);
        assert("grass_block"@ != "copper_block"@);
        assert("grass_block"@ != "exposed_copper"@);
        assert("grass_block"@ != "weathered_copper"@);
        assert("grass_block"@ != "oxidized_copper"@);
        assert("grass_block"@ != "cut_copper"@);
        assert("grass_block"@ != "exposed_cut_copper"@);
        assert("grass_block"@ != "weathered_cut_copper"@);
        assert("grass_block"@ != "oxidized_cut_copper"@);
        assert("grass_block"@ != "amethyst_block"@);
        assert("grass_block"@ != "budding_amethyst"@);
        assert("grass_block"@ != "amethyst_cluster"@);
        assert("grass_block"@ != "tinted_glass"@);
        assert("grass_block"@ != "lightning_rod"@);
        assert("grass_block"@ != "candle"@);
        assert("dirt"@ != "copper_block"@);
        assert("dirt"@ != "exposed_copper"@);
        assert("dirt"@ != "weathered_copper"@);
        assert("dirt"@ != "oxidized_copper"@);
        assert("dirt"@ != "cut_copper"@);
        assert("dirt"@ != "exposed_cut_copper"@);
        assert("dirt"@ != "weathered_cut_copper"@);
        assert("dirt"@ != "oxidized_cut_copper"@);
        assert("dirt"@ != "amethyst_block"@);
        assert("dirt"@ != "budding_amethyst"@);
        assert("dirt"@ != "amethyst_cluster"@);
        assert("dirt"@ != "tinted_glass"@);
        assert("dirt"@ != "lightning_rod"@);
        assert("dirt"@ != "candle"@);
        assert("copper_block"@ != "exposed_copper"@);
        assert("copper_block"@ != "weathered_copper"@);
        assert("copper_block"@ != "oxidized_copper"@);
        assert("copper_block"@ != "cut_copper"@);
        assert("copper_block"@ != "exposed_cut_copper"@);
        assert("copper_block"@ != "weathered_cut_copper"@);
        assert("copper_block"@ != "oxidized_cut_copper"@);
        assert("copper_block"@ != "amethyst_block"@);
        assert("copper_block"@ != "budding_amethyst"@);
        assert("copper_block"@ != "amethyst_cluster"@);
        assert("copper_block"@ != "tinted_glass"@);
        assert("copper_block"@ != "lightning_rod"@);
        assert("copper_block"@ != "candle"@);
        assert("exposed_copper"@ != "weathered_copper"@);
        assert("exposed_copper"@ != "oxidized_copper"@);
        assert("exposed_copper"@ != "cut_copper"@);
        assert("exposed_copper"@ != "exposed_cut_copper"@);
        assert("exposed_copper"@ != "weathered_cut_copper"@);
        assert("exposed_copper"@ != "oxidized_cut_copper"@);
        assert("exposed_copper"@ != "amethyst_block"@);
        assert("exposed_copper"@ != "budding_amethyst"@);
        assert("exposed_copper"@ != "amethyst_cluster"@);
        assert("exposed_copper"@ != "tinted_glass"@);
        assert("exposed_copper"@ != "lightning_rod"@);
        assert("exposed_copper"@ != "candle"@);
        assert("weathered_copper"@ != "oxidized_copper"@);
        assert("weathered_copper"@ != "cut_copper"@);
        assert("weathered_copper"@ != "exposed_cut_copper"@);
        assert("weathered_copper"@ != "weathered_cut_copper"@);
        assert("weathered_copper"@ != "oxidized_cut_copper"@);
        assert("weathered_copper"@ != "amethyst_block"@);
        assert("weathered_copper"@ != "budding_amethyst"@);
        assert("weathered_copper"@ != "amethyst_cluster"@);
        assert("weathered_copper"@ != "tinted_glass"@);
        assert("weathered_copper"@ != "lightning_rod"@);
        assert("weathered_copper"@ != "candle"@);
        assert("oxidized_copper"@ != "cut_copper"@);
        assert("oxidized_copper"@ != "exposed_cut_copper"@);
        assert("oxidized_copper"@ != "weathered_cut_copper"@);
        assert("oxidized_copper"@ != "oxidized_cut_copper"@);
        assert("oxidized_copper"@ != "amethyst_block"@);
        assert("oxidized_copper"@ != "budding_amethyst"@);
        assert("oxidized_copper"@ != "amethyst_cluster"@);
        assert("oxidized_copper"@ != "tinted_glass"@);
        assert("oxidized_copper"@ != "lightning_rod"@);
        assert("oxidized_copper"@ != "candle"@);
        assert("cut_copper"@ != "exposed_cut_copper"@);
        assert("cut_copper"@ != "weathered_cut_copper"@);
        assert("cut_copper"@ != "oxidized_cut_copper"@);
        assert("cut_copper"@ != "amethyst_block"@);
        assert("cut_copper"@ != "budding_amethyst"@);
        assert("cut_copper"@ != "amethyst_cluster"@);
        assert("cut_copper"@ != "tinted_glass"@);
        assert("cut_copper"@ != "lightning_rod"@);
        assert("cut_copper"@ != "candle"@);
        assert("exposed_cut_copper"@ != "weathered_cut_copper"@);
        assert("exposed_cut_copper"@ != "oxidized_cut_copper"@);
        assert("exposed_cut_copper"@ != "amethyst_block"@);
        assert("exposed_cut_copper"@ != "budding_amethyst"@);
        assert("exposed_cut_copper"@ != "amethyst_cluster"@);
        assert("exposed_cut_copper"@ != "tinted_glass"@);
        assert("exposed_cut_copper"@ != "lightning_rod"@);
        assert("exposed_cut_copper"@ != "candle"@);
        assert("weathered_cut_copper"@ != "oxidized_cut_copper"@);
        assert("weathered_cut_copper"@ != "amethyst_block"@);
        assert("weathered_cut_copper"@ != "budding_amethyst"@);
        assert("weathered_cut_copper"@ != "amethyst_cluster"@);
        assert("weathered_cut_copper"@ != "tinted_glass"@);
        assert("weathered_cut_copper"@ != "lightning_rod"@);
        assert("weathered_cut_copper"@ != "candle"@);
        assert("oxidized_cut_copper"@ != "amethyst_block"@);
        assert("oxidized_cut_copper"@ != "budding_amethyst"@);
        assert("oxidized_cut_copper"@ != "amethyst_cluster"@);
        assert("oxidized_cut_copper"@ != "tinted_glass"@);
        assert("oxidized_cut_copper"@ != "lightning_rod"@);
        assert("oxidized_cut_copper"@ != "candle"@);
        assert("amethyst_block"@ != "budding_amethyst"@);
        assert("amethyst_block"@ != "amethyst_cluster"@);
        assert("amethyst_block"@ != "tinted_glass"@);
        assert("amethyst_block"@ != "lightning_rod"@);
        assert("amethyst_block"@ != "candle"@);
        assert("budding_amethyst"@ != "amethyst_cluster"@);
        assert("budding_amethyst"@ != "tinted_glass"@);
        assert("budding_amethyst"@ != "lightning_rod"@);
        assert("budding_amethyst"@ != "candle"@);
        assert("amethyst_cluster"@ != "tinted_glass"@);
        assert("amethyst_cluster"@ != "lightning_rod"@);
        assert("amethyst_cluster"@ != "candle"@);
        assert("tinted_glass"@ != "lightning_rod"@);
        assert("tinted_glass"@ != "candle"@);
        assert("lightning_rod"@ != "candle"@);
        assert(Map::<Seq<char>, BlockRegistration>::empty().dom() =~= Set::<Seq<char>>::empty());
        assert(registry.blocks_view().dom() =~= Set::<Seq<char>>::empty().insert(
            "stone"@,
        ).insert("grass_block"@).insert("dirt"@).insert("copper_block"@).insert(
            "exposed_copper"@,
        ).insert("weathered_copper"@).insert("oxidized_copper"@).insert("cut_copper"@).insert(
            "exposed_cut_copper"@,
        ).insert("weathered_cut_copper"@).insert("oxidized_cut_copper"@).insert(
            "amethyst_block"@,
        ).insert("budding_amethyst"@).insert("amethyst_cluster"@).insert("tinted_glass"@).insert(
            "lightning_rod"@,
        ).insert("candle"@));
    }
    registry
}


} // verus!
