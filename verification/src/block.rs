//! The closed set of block kinds the engine knows about.

use crate::behaviors::{get_behavior_for_block, spec_behavior_for_block, BehaviorKind};
use crate::block_properties::BlockProperties;
use vstd::prelude::*;

verus! {

/// Enumerated tag identifying a block's type. Compared by equality for the
/// staleness check on scheduled ticks.
#[derive(Clone, Copy, Debug, PartialEq, Eq, Hash, Structural)]
pub enum BlockKind {
    Stone,
    GrassBlock,
    Dirt,
    // Doors
    OakDoor,
    SpruceDoor,
    BirchDoor,
    JungleDoor,
    AcaciaDoor,
    DarkOakDoor,
    CrimsonDoor,
    WarpedDoor,
    IronDoor,
    // Containers and redstone
    Chest,
    TrappedChest,
    EnchantingTable,
    Furnace,
    BlastFurnace,
    SmokerFurnace,
    Hopper,
    Dropper,
    Dispenser,
    Beehive,
    RedstoneWire,
    RedstoneTorch,
    RedstoneBlock,
    Lantern,
    SoulLantern,
    // Copper weathering chain
    Copper,
    ExposedCopper,
    WeatheredCopper,
    OxidizedCopper,
    CutCopper,
    ExposedCutCopper,
    WeatheredCutCopper,
    OxidizedCutCopper,
    CutCopperStairs,
    ExposedCutCopperStairs,
    WeatheredCutCopperStairs,
    OxidizedCutCopperStairs,
    CutCopperSlab,
    ExposedCutCopperSlab,
    WeatheredCutCopperSlab,
    OxidizedCutCopperSlab,
    LightningRod,
    // Amethyst and dripstone
    AmethystBlock,
    BuddingAmethyst,
    AmethystCluster,
    PointedDripstone,
    TintedGlass,
    // Candles
    Candle,
    WhiteCandle,
    OrangeCandle,
    MagentaCandle,
    LightBlueCandle,
    YellowCandle,
    LimeCandle,
    PinkCandle,
    GrayCandle,
    LightGrayCandle,
    CyanCandle,
    PurpleCandle,
    BlueCandle,
    BrownCandle,
    GreenCandle,
    RedCandle,
    BlackCandle,
    SculkSensor,
}

/// Which block kinds are eligible for random ticks.
pub open spec fn spec_receives_random_ticks(kind: BlockKind) -> bool {
    match kind {
        BlockKind::Copper
        | BlockKind::ExposedCopper
        | BlockKind::WeatheredCopper
        | BlockKind::CutCopper
        | BlockKind::ExposedCutCopper
        | BlockKind::WeatheredCutCopper
        | BlockKind::CutCopperStairs
        | BlockKind::ExposedCutCopperStairs
        | BlockKind::WeatheredCutCopperStairs
        | BlockKind::CutCopperSlab
        | BlockKind::ExposedCutCopperSlab
        | BlockKind::WeatheredCutCopperSlab
        | BlockKind::BuddingAmethyst
        | BlockKind::PointedDripstone => true,
        _ => false,
    }
}

/// The default property mapping of each block kind.
pub open spec fn default_props_map(kind: BlockKind) -> Map<Seq<char>, Seq<char>> {
    match kind {
        BlockKind::OakDoor
        | BlockKind::SpruceDoor
        | BlockKind::BirchDoor
        | BlockKind::JungleDoor
        | BlockKind::AcaciaDoor
        | BlockKind::DarkOakDoor
        | BlockKind::CrimsonDoor
        | BlockKind::WarpedDoor
        | BlockKind::IronDoor => Map::empty().insert("half"@, "lower"@).insert(
            "facing"@,
            "north"@,
        ).insert("open"@, "false"@).insert("hinge"@, "left"@).insert("powered"@, "false"@),
        BlockKind::Chest | BlockKind::TrappedChest => Map::empty().insert(
            "facing"@,
            "north"@,
        ).insert("waterlogged"@, "false"@).insert("type"@, "single"@),
        BlockKind::Lantern | BlockKind::SoulLantern => Map::empty().insert(
            "hanging"@,
            "false"@,
        ).insert("waterlogged"@, "false"@),
        BlockKind::CutCopperStairs
        | BlockKind::ExposedCutCopperStairs
        | BlockKind::WeatheredCutCopperStairs
        | BlockKind::OxidizedCutCopperStairs => Map::empty().insert("facing"@, "north"@).insert(
            "half"@,
            "bottom"@,
        ).insert("shape"@, "straight"@).insert("waterlogged"@, "false"@),
        BlockKind::CutCopperSlab
        | BlockKind::ExposedCutCopperSlab
        | BlockKind::WeatheredCutCopperSlab
        | BlockKind::OxidizedCutCopperSlab => Map::empty().insert("type"@, "bottom"@).insert(
            "waterlogged"@,
            "false"@,
        ),
        BlockKind::LightningRod => Map::empty().insert("facing"@, "up"@).insert(
            "powered"@,
            "false"@,
        ).insert("waterlogged"@, "false"@),
        BlockKind::Candle
        | BlockKind::WhiteCandle
        | BlockKind::OrangeCandle
        | BlockKind::MagentaCandle
        | BlockKind::LightBlueCandle
        | BlockKind::YellowCandle
        | BlockKind::LimeCandle
        | BlockKind::PinkCandle
        | BlockKind::GrayCandle
        | BlockKind::LightGrayCandle
        | BlockKind::CyanCandle
        | BlockKind::PurpleCandle
        | BlockKind::BlueCandle
        | BlockKind::BrownCandle
        | BlockKind::GreenCandle
        | BlockKind::RedCandle
        | BlockKind::BlackCandle => Map::empty().insert("candles"@, "1"@).insert(
            "lit"@,
            "false"@,
        ).insert("waterlogged"@, "false"@),
        BlockKind::PointedDripstone => Map::empty().insert("thickness"@, "tip"@).insert(
            "vertical_direction"@,
            "up"@,
        ).insert("waterlogged"@, "false"@),
        BlockKind::AmethystCluster => Map::empty().insert("facing"@, "up"@).insert(
            "waterlogged"@,
            "false"@,
        ),
        _ => Map::empty(),
    }
}

impl BlockKind {
    /// Returns the built-in behavior of this block kind.
    pub fn get_behavior(&self) -> (r: BehaviorKind)
        ensures
            r == spec_behavior_for_block(*self),
    {
        get_behavior_for_block(*self)
    }

    /// Builds the default properties of this block kind.
    pub fn default_properties(&self) -> (props: BlockProperties)
        ensures
            props.wf(),
            props.spec_kind() == *self,
            props@ == default_props_map(*self),
    {
        let mut props = BlockProperties::new(*self);
        match self {
            BlockKind::OakDoor
            | BlockKind::SpruceDoor
            | BlockKind::BirchDoor
            | BlockKind::JungleDoor
            | BlockKind::AcaciaDoor
            | BlockKind::DarkOakDoor
            | BlockKind::CrimsonDoor
            | BlockKind::WarpedDoor
            | BlockKind::IronDoor => {
                props.set("half", "lower");
                props.set("facing", "north");
                props.set("open", "false");
                props.set("hinge", "left");
                props.set("powered", "false");
            },
            BlockKind::Chest | BlockKind::TrappedChest => {
                props.set("facing", "north");
                props.set("waterlogged", "false");
                props.set("type", "single");
            },
            BlockKind::Lantern | BlockKind::SoulLantern => {
                props.set("hanging", "false");
                props.set("waterlogged", "false");
            },
            BlockKind::CutCopperStairs
            | BlockKind::ExposedCutCopperStairs
            | BlockKind::WeatheredCutCopperStairs
            | BlockKind::OxidizedCutCopperStairs => {
                props.set("facing", "north");
                props.set("half", "bottom");
                props.set("shape", "straight");
                props.set("waterlogged", "false");
            },
            BlockKind::CutCopperSlab
            | BlockKind::ExposedCutCopperSlab
            | BlockKind::WeatheredCutCopperSlab
            | BlockKind::OxidizedCutCopperSlab => {
                props.set("type", "bottom");
                props.set("waterlogged", "false");
            },
            BlockKind::LightningRod => {
                props.set("facing", "up");
                props.set("powered", "false");
                props.set("waterlogged", "false");
            },
            BlockKind::Candle
            | BlockKind::WhiteCandle
            | BlockKind::OrangeCandle
            | BlockKind::MagentaCandle
            | BlockKind::LightBlueCandle
            | BlockKind::YellowCandle
            | BlockKind::LimeCandle
            | BlockKind::PinkCandle
            | BlockKind::GrayCandle
            | BlockKind::LightGrayCandle
            | BlockKind::CyanCandle
            | BlockKind::PurpleCandle
            | BlockKind::BlueCandle
            | BlockKind::BrownCandle
            | BlockKind::GreenCandle
            | BlockKind::RedCandle
            | BlockKind::BlackCandle => {
                props.set("candles", "1");
                props.set("lit", "false");
                props.set("waterlogged", "false");
            },
            BlockKind::PointedDripstone => {
                props.set("thickness", "tip");
                props.set("vertical_direction", "up");
                props.set("waterlogged", "false");
            },
            BlockKind::AmethystCluster => {
                props.set("facing", "up");
                props.set("waterlogged", "false");
            },
            _ => {},
        }
        props
    }

    /// Whether this block can receive random ticks.
    pub fn receives_random_ticks(&self) -> (r: bool)
        ensures
            r == spec_receives_random_ticks(*self),
    {
        match self {
            BlockKind::Copper
            | BlockKind::ExposedCopper
            | BlockKind::WeatheredCopper
            | BlockKind::CutCopper
            | BlockKind::ExposedCutCopper
            | BlockKind::WeatheredCutCopper
            | BlockKind::CutCopperStairs
            | BlockKind::ExposedCutCopperStairs
            | BlockKind::WeatheredCutCopperStairs
            | BlockKind::CutCopperSlab
            | BlockKind::ExposedCutCopperSlab
            | BlockKind::WeatheredCutCopperSlab
            | BlockKind::BuddingAmethyst
            | BlockKind::PointedDripstone => true,
            _ => false,
        }
    }
}

} // verus!
