//! Per-kind block behaviors, dispatched through a closed table over the
//! block kinds.

use crate::block::BlockKind;
use crate::block_properties::{BlockBehavior, BlockProperties, DefaultBlockBehavior};
use vstd::prelude::*;

verus! {

/// Behavior of doors: interactable by hand, except iron doors.
pub struct DoorBehavior;

impl BlockBehavior for DoorBehavior {
    fn on_placed(&self, _properties: &BlockProperties) {
    }

    fn on_broken(&self, _properties: &BlockProperties) {
        // breaking one half of a door also breaks the other; carried by the
        // block-placement code, which owns the world
    }

    fn can_interact(&self, properties: &BlockProperties) -> (r: bool)
        ensures
            r == (properties.spec_kind() != BlockKind::IronDoor),
    {
        // iron doors cannot be opened by hand
        properties.kind() != BlockKind::IronDoor
    }

    fn on_interact(&self, properties: &BlockProperties) -> (r: bool)
        ensures
            r == (properties.spec_kind() != BlockKind::IronDoor),
    {
        self.can_interact(properties)
    }
}

/// Behavior of chests: always interactable.
pub struct ChestBehavior;

impl BlockBehavior for ChestBehavior {
    fn on_placed(&self, _properties: &BlockProperties) {
    }

    fn on_broken(&self, _properties: &BlockProperties) {
    }

    fn can_interact(&self, _properties: &BlockProperties) -> (r: bool)
        ensures
            r,
    {
        true
    }

    fn on_interact(&self, _properties: &BlockProperties) -> (r: bool)
        ensures
            r,
    {
        true
    }
}

/// Behavior of redstone components: not interactable by hand.
pub struct RedstoneBehavior;

impl BlockBehavior for RedstoneBehavior {
    fn on_placed(&self, _properties: &BlockProperties) {
    }

    fn on_broken(&self, _properties: &BlockProperties) {
    }

    fn can_interact(&self, _properties: &BlockProperties) -> (r: bool)
        ensures
            !r,
    {
        false
    }

    fn on_interact(&self, _properties: &BlockProperties) -> (r: bool)
        ensures
            !r,
    {
        false
    }
}

/// The closed set of block behaviors, as a tagged dispatch table: the block
/// kinds form a finite closed set, so behaviors are dispatched by a match
/// rather than through boxed trait objects.
#[derive(Clone, Copy, Debug, PartialEq, Eq, Structural)]
pub enum BehaviorKind {
    /// Doors: see [`DoorBehavior`].
    Door,
    /// Chests: see [`ChestBehavior`].
    Chest,
    /// Redstone components: see [`RedstoneBehavior`].
    Redstone,
    /// Everything else: see [`DefaultBlockBehavior`].
    Default,
}

impl BlockBehavior for BehaviorKind {
    fn on_placed(&self, properties: &BlockProperties) {
        match self {
            BehaviorKind::Door => DoorBehavior.on_placed(properties),
            BehaviorKind::Chest => ChestBehavior.on_placed(properties),
            BehaviorKind::Redstone => RedstoneBehavior.on_placed(properties),
            BehaviorKind::Default => DefaultBlockBehavior.on_placed(properties),
        }
    }

    fn on_broken(&self, properties: &BlockProperties) {
        match self {
            BehaviorKind::Door => DoorBehavior.on_broken(properties),
            BehaviorKind::Chest => ChestBehavior.on_broken(properties),
            BehaviorKind::Redstone => RedstoneBehavior.on_broken(properties),
            BehaviorKind::Default => DefaultBlockBehavior.on_broken(properties),
        }
    }

    fn can_interact(&self, properties: &BlockProperties) -> (r: bool)
        ensures
            r == spec_can_interact(*self, properties.spec_kind()),
    {
        match self {
            BehaviorKind::Door => DoorBehavior.can_interact(properties),
            BehaviorKind::Chest => ChestBehavior.can_interact(properties),
            BehaviorKind::Redstone => RedstoneBehavior.can_interact(properties),
            BehaviorKind::Default => DefaultBlockBehavior.can_interact(properties),
        }
    }

    fn on_interact(&self, properties: &BlockProperties) -> (r: bool)
        ensures
            r == spec_can_interact(*self, properties.spec_kind()),
    {
        match self {
            BehaviorKind::Door => DoorBehavior.on_interact(properties),
            BehaviorKind::Chest => ChestBehavior.on_interact(properties),
            BehaviorKind::Redstone => RedstoneBehavior.on_interact(properties),
            BehaviorKind::Default => DefaultBlockBehavior.on_interact(properties),
        }
    }
}

/// Whether a behavior accepts interaction with a block of the given kind.
pub open spec fn spec_can_interact(b: BehaviorKind, kind: BlockKind) -> bool {
    match b {
        BehaviorKind::Door => kind != BlockKind::IronDoor,
        BehaviorKind::Chest => true,
        BehaviorKind::Redstone => false,
        BehaviorKind::Default => false,
    }
}

/// The built-in behavior of each block kind.
pub open spec fn spec_behavior_for_block(kind: BlockKind) -> BehaviorKind {
    match kind {
        BlockKind::OakDoor
        | BlockKind::SpruceDoor
        | BlockKind::BirchDoor
        | BlockKind::JungleDoor
        | BlockKind::AcaciaDoor
        | BlockKind::DarkOakDoor
        | BlockKind::IronDoor => BehaviorKind::Door,
        BlockKind::Chest | BlockKind::TrappedChest => BehaviorKind::Chest,
        BlockKind::RedstoneWire | BlockKind::RedstoneTorch | BlockKind::RedstoneBlock
            => BehaviorKind::Redstone,
        _ => BehaviorKind::Default,
    }
}

/// Returns the built-in behavior for a block kind.
pub fn get_behavior_for_block(kind: BlockKind) -> (r: BehaviorKind)
    ensures
        r == spec_behavior_for_block(kind),
{
    match kind {
        BlockKind::OakDoor
        | BlockKind::SpruceDoor
        | BlockKind::BirchDoor
        | BlockKind::JungleDoor
        | BlockKind::AcaciaDoor
        | BlockKind::DarkOakDoor
        | BlockKind::IronDoor => BehaviorKind::Door,
        BlockKind::Chest | BlockKind::TrappedChest => BehaviorKind::Chest,
        BlockKind::RedstoneWire | BlockKind::RedstoneTorch | BlockKind::RedstoneBlock
            => BehaviorKind::Redstone,
        _ => BehaviorKind::Default,
    }
}

} // verus!
