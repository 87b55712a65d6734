//! Tests for the supporting data types: properties, behaviors, the block
//! registry, block entities, and the in-memory world.

use libcraft_blocks::{
    create_block_entity, get_behavior_for_block, initialize_block_registry, requires_block_entity,
    BehaviorKind, BlockBehavior, BlockEntityData, BlockEntityKind, BlockEntityManager, BlockKind,
    BlockProperties, BlockWorld, ChestBehavior, DefaultBlockBehavior, DoorBehavior, InMemoryWorld,
    RedstoneBehavior,
};

#[test]
fn properties_set_and_get_round_trip() {
    let mut props = BlockProperties::new(BlockKind::OakDoor);
    assert_eq!(props.kind(), BlockKind::OakDoor);
    assert_eq!(props.get("open"), None);
    props.set("open", "false");
    assert_eq!(props.get("open").map(String::as_str), Some("false"));
    props.set("open", "true");
    assert_eq!(props.get("open").map(String::as_str), Some("true"));
    assert_eq!(props.all().len(), 1);
}

#[test]
fn default_properties_match_the_kind_table() {
    let door = BlockKind::OakDoor.default_properties();
    assert_eq!(door.kind(), BlockKind::OakDoor);
    assert_eq!(door.get("half").map(String::as_str), Some("lower"));
    assert_eq!(door.get("facing").map(String::as_str), Some("north"));
    assert_eq!(door.get("open").map(String::as_str), Some("false"));
    assert_eq!(door.get("hinge").map(String::as_str), Some("left"));
    assert_eq!(door.get("powered").map(String::as_str), Some("false"));

    let copper = BlockKind::Copper.default_properties();
    assert_eq!(copper.all().len(), 0);

    let candle = BlockKind::RedCandle.default_properties();
    assert_eq!(candle.get("candles").map(String::as_str), Some("1"));
    assert_eq!(candle.get("lit").map(String::as_str), Some("false"));

    let dripstone = BlockKind::PointedDripstone.default_properties();
    assert_eq!(dripstone.get("thickness").map(String::as_str), Some("tip"));
    assert_eq!(
        dripstone.get("vertical_direction").map(String::as_str),
        Some("up")
    );
}

#[test]
fn random_tick_eligibility_follows_the_kind() {
    assert!(BlockKind::Copper.receives_random_ticks());
    assert!(BlockKind::ExposedCopper.receives_random_ticks());
    assert!(BlockKind::WeatheredCopper.receives_random_ticks());
    assert!(BlockKind::BuddingAmethyst.receives_random_ticks());
    assert!(BlockKind::PointedDripstone.receives_random_ticks());
    assert!(!BlockKind::OxidizedCopper.receives_random_ticks());
    assert!(!BlockKind::Stone.receives_random_ticks());
    assert!(!BlockKind::OakDoor.receives_random_ticks());
}

#[test]
fn behaviors_dispatch_by_kind() {
    assert_eq!(get_behavior_for_block(BlockKind::OakDoor), BehaviorKind::Door);
    assert_eq!(get_behavior_for_block(BlockKind::IronDoor), BehaviorKind::Door);
    assert_eq!(get_behavior_for_block(BlockKind::Chest), BehaviorKind::Chest);
    assert_eq!(
        get_behavior_for_block(BlockKind::RedstoneWire),
        BehaviorKind::Redstone
    );
    assert_eq!(get_behavior_for_block(BlockKind::Stone), BehaviorKind::Default);
    assert_eq!(BlockKind::TrappedChest.get_behavior(), BehaviorKind::Chest);
}

#[test]
fn door_behavior_refuses_iron_doors() {
    let oak = BlockProperties::new(BlockKind::OakDoor);
    let iron = BlockProperties::new(BlockKind::IronDoor);
    assert!(DoorBehavior.can_interact(&oak));
    assert!(DoorBehavior.on_interact(&oak));
    assert!(!DoorBehavior.can_interact(&iron));
    assert!(!DoorBehavior.on_interact(&iron));

    let chest = BlockProperties::new(BlockKind::Chest);
    assert!(ChestBehavior.can_interact(&chest));
    let wire = BlockProperties::new(BlockKind::RedstoneWire);
    assert!(!RedstoneBehavior.can_interact(&wire));
    let stone = BlockProperties::new(BlockKind::Stone);
    assert!(!DefaultBlockBehavior.can_interact(&stone));

    // the dispatch table agrees with the concrete behaviors
    assert!(BlockKind::OakDoor.get_behavior().can_interact(&oak));
    assert!(!BlockKind::IronDoor.get_behavior().can_interact(&iron));
}

#[test]
fn registry_holds_the_builtin_blocks_and_behaviors() {
    let registry = initialize_block_registry();
    assert_eq!(registry.get_behavior(BlockKind::LightningRod), BehaviorKind::Redstone);
    assert_eq!(registry.get_behavior(BlockKind::OakDoor), BehaviorKind::Door);
    assert_eq!(registry.get_behavior(BlockKind::Chest), BehaviorKind::Chest);
    assert_eq!(registry.get_behavior(BlockKind::RedstoneWire), BehaviorKind::Redstone);
    assert_eq!(registry.get_behavior(BlockKind::Dirt), BehaviorKind::Default);

    let stone = registry.get_registration("stone").unwrap();
    assert_eq!(stone.kind, BlockKind::Stone);
    assert_eq!(stone.default_state, 0);
    assert_eq!(stone.states.len(), 0);

    let copper = registry.get_registration("copper_block").unwrap();
    assert_eq!(copper.kind, BlockKind::Copper);

    assert!(registry.get_registration("bedrock").is_none());
}

#[test]
fn registry_replaces_reregistered_blocks() {
    let mut registry = initialize_block_registry();
    registry.register_block("stone", BlockKind::Dirt);
    assert_eq!(registry.get_registration("stone").unwrap().kind, BlockKind::Dirt);
    registry.register_behavior(BlockKind::Chest, BehaviorKind::Default);
    assert_eq!(registry.get_behavior(BlockKind::Chest), BehaviorKind::Default);
}

#[test]
fn block_entities_exist_for_container_kinds() {
    let entity = create_block_entity(BlockKind::Chest, (1, 2, 3)).unwrap();
    assert_eq!(entity.kind, BlockEntityKind::Chest);
    assert_eq!(entity.block_kind, BlockKind::Chest);
    assert_eq!(entity.position, (1, 2, 3));

    let furnace = create_block_entity(BlockKind::BlastFurnace, (0, 0, 0)).unwrap();
    assert_eq!(furnace.kind, BlockEntityKind::Furnace);

    let sensor = create_block_entity(BlockKind::SculkSensor, (0, 0, 0)).unwrap();
    assert_eq!(sensor.kind, BlockEntityKind::SculkSensor);

    assert!(create_block_entity(BlockKind::Stone, (0, 0, 0)).is_none());
    assert!(requires_block_entity(BlockKind::Hopper));
    assert!(!requires_block_entity(BlockKind::GrassBlock));
}

#[test]
fn block_entity_data_stores_typed_values() {
    let mut data = BlockEntityData::new();
    assert_eq!(data.get_string("name"), None);
    data.set_string("name", "storage".to_owned());
    assert_eq!(data.get_string("name").map(String::as_str), Some("storage"));
    data.set_int("count", 7);
    assert_eq!(data.get_int("count"), Some(7));
    // a key holds one value at a time, whatever its type
    data.set_int("name", 3);
    assert_eq!(data.get_string("name"), None);
    assert_eq!(data.get_int("name"), Some(3));
}

#[test]
fn block_entity_manager_stores_entities_by_position() {
    let mut manager = BlockEntityManager::new();
    assert!(!manager.contains((1, 2, 3)));
    let entity = create_block_entity(BlockKind::Chest, (1, 2, 3)).unwrap();
    manager.set((1, 2, 3), entity);
    assert!(manager.contains((1, 2, 3)));
    assert_eq!(manager.get((1, 2, 3)).unwrap().kind, BlockEntityKind::Chest);
    assert!(manager.get((9, 9, 9)).is_none());

    let replacement = create_block_entity(BlockKind::Furnace, (1, 2, 3)).unwrap();
    manager.set((1, 2, 3), replacement);
    assert_eq!(manager.get((1, 2, 3)).unwrap().kind, BlockEntityKind::Furnace);

    let removed = manager.remove((1, 2, 3)).unwrap();
    assert_eq!(removed.kind, BlockEntityKind::Furnace);
    assert!(!manager.contains((1, 2, 3)));
    assert!(manager.remove((1, 2, 3)).is_none());
}

#[test]
fn in_memory_world_reads_and_writes_blocks() {
    let mut world = InMemoryWorld::new();
    assert!(world.get_block((0, 0, 0)).is_none());

    let mut props = BlockProperties::new(BlockKind::LightningRod);
    props.set("powered", "true");
    world.place_block((0, 0, 0), BlockKind::LightningRod, props);

    let block = world.get_block((0, 0, 0)).unwrap();
    assert_eq!(block.0, BlockKind::LightningRod);
    assert_eq!(block.1.get("powered").map(String::as_str), Some("true"));

    // setting the kind keeps the properties of an occupied position
    world.set_block((0, 0, 0), BlockKind::RedstoneBlock);
    let block = world.get_block((0, 0, 0)).unwrap();
    assert_eq!(block.0, BlockKind::RedstoneBlock);
    assert_eq!(block.1.get("powered").map(String::as_str), Some("true"));

    // setting the kind of an empty position creates a bare block
    world.set_block((5, 5, 5), BlockKind::Stone);
    let fresh = world.get_block((5, 5, 5)).unwrap();
    assert_eq!(fresh.0, BlockKind::Stone);
    assert_eq!(fresh.1.all().len(), 0);

    world.remove_block((0, 0, 0));
    assert!(world.get_block((0, 0, 0)).is_none());
}
