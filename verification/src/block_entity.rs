//! Block entities: blocks that store additional data beyond their kind and
//! properties (chests, signs, furnaces), and their per-world storage.

use crate::assoc::{
    assoc_map, lemma_assoc_map_get, lemma_assoc_map_has_key, lemma_assoc_map_push,
    lemma_assoc_map_remove, lemma_assoc_map_update, unique_keys,
};
use crate::block::BlockKind;
use crate::block_ticking::pos_eq;
use vstd::prelude::*;

verus! {

/// The different kinds of block entities.
#[derive(Clone, Copy, Debug, PartialEq, Eq, Hash, Structural)]
pub enum BlockEntityKind {
    Chest,
    Sign,
    Banner,
    Furnace,
    Beacon,
    BrewingStand,
    Hopper,
    Dropper,
    Dispenser,
    CommandBlock,
    Jukebox,
    Campfire,
    Bell,
    Bed,
    EnchantingTable,
    EndPortal,
    Lectern,
    Comparator,
    SkullBlock,
    Beehive,
    StructureBlock,
    SculkSensor,
}

/// A value stored in block entity data.
#[derive(Clone, Debug)]
pub enum BlockEntityValue {
    String(String),
    Int(i32),
    Boolean(bool),
    IntArray(Vec<i32>),
    StringArray(Vec<String>),
}

/// Key selector for a data entry: the key's view.
pub open spec fn entry_key() -> spec_fn((String, BlockEntityValue)) -> Seq<char> {
    |p: (String, BlockEntityValue)| p.0@
}

/// Value selector for a data entry: the stored value.
pub open spec fn entry_val() -> spec_fn((String, BlockEntityValue)) -> BlockEntityValue {
    |p: (String, BlockEntityValue)| p.1
}

/// Container for custom block entity data: a mapping from key to value.
#[derive(Clone, Debug)]
pub struct BlockEntityData {
    /// The stored entries, at most one per key.
    data: Vec<(String, BlockEntityValue)>,
}

impl View for BlockEntityData {
    type V = Map<Seq<char>, BlockEntityValue>;

    closed spec fn view(&self) -> Map<Seq<char>, BlockEntityValue> {
        assoc_map(self.data@, entry_key(), entry_val())
    }
}

impl BlockEntityData {
    /// Internal validity: each key is stored at most once.
    pub closed spec fn wf(&self) -> bool {
        unique_keys(self.data@, entry_key())
    }

    /// Creates an empty block entity data container.
    pub fn new() -> (r: Self)
        ensures
            r.wf(),
            r@ == Map::<Seq<char>, BlockEntityValue>::empty(),
    {
        BlockEntityData { data: Vec::new() }
    }

    /// Looks up the value stored under a key.
    fn get_value(&self, key: &str) -> (r: Option<&BlockEntityValue>)
        requires
            self.wf(),
        ensures
            match r {
                Some(v) => self@.contains_key(key@) && *v == self@[key@],
                None => !self@.contains_key(key@),
            },
    {
        let wanted: String = key.to_owned();
        let n = self.data.len();
        let mut i: usize = 0;
        while i < n
            invariant
                n == self.data@.len(),
                0 <= i <= n,
                forall|j: int| 0 <= j < i ==> (#[trigger] self.data@[j]).0@ != wanted@,
                self.wf(),
                wanted@ == key@,
            decreases n - i,
        {
            if self.data[i].0 == wanted {
                proof {
                    lemma_assoc_map_get(self.data@, entry_key(), entry_val(), i as int);
                }
                return Some(&self.data[i].1);
            }
            i += 1;
        }
        proof {
            lemma_assoc_map_has_key(self.data@, entry_key(), entry_val(), key@);
        }
        None
    }

    /// Stores a value under a key, replacing any prior value.
    fn set_value(&mut self, key: &str, value: BlockEntityValue)
        requires
            old(self).wf(),
        ensures
            final(self).wf(),
            final(self)@ == old(self)@.insert(key@, value),
    {
        let wanted: String = key.to_owned();
        let n = self.data.len();
        let mut i: usize = 0;
        while i < n
            invariant
                n == self.data@.len(),
                0 <= i <= n,
                forall|j: int| 0 <= j < i ==> (#[trigger] self.data@[j]).0@ != wanted@,
                self.wf(),
                *self == *old(self),
                wanted@ == key@,
            decreases n - i,
        {
            if self.data[i].0 == wanted {
                proof {
                    assert(entry_key()((wanted, value)) == wanted@);
                    lemma_assoc_map_update(self.data@, entry_key(), entry_val(), i as int, (
                        wanted,
                        value,
                    ));
                }
                self.data[i] = (wanted, value);
                return ;
            }
            i += 1;
        }
        proof {
            let s = self.data@;
            assert(entry_key()((wanted, value)) == wanted@);
            assert forall|j: int| 0 <= j < s.len() implies entry_key()(s[j]) != entry_key()(
                (wanted, value),
            ) by {
                assert(s[j].0@ != wanted@);
            }
            lemma_assoc_map_push(s, entry_key(), entry_val(), (wanted, value));
        }
        self.data.push((wanted, value));
    }

    /// Gets a string value; none when the key is absent or holds another
    /// kind of value.
    pub fn get_string(&self, key: &str) -> (r: Option<&String>)
        requires
            self.wf(),
        ensures
            match r {
                Some(v) => self@.contains_key(key@) && self@[key@] == BlockEntityValue::String(*v),
                None => !self@.contains_key(key@) || !(self@[key@] is String),
            },
    {
        match self.get_value(key) {
            Some(BlockEntityValue::String(v)) => Some(v),
            _ => None,
        }
    }

    /// Sets a string value.
    pub fn set_string(&mut self, key: &str, value: String)
        requires
            old(self).wf(),
        ensures
            final(self).wf(),
            final(self)@ == old(self)@.insert(key@, BlockEntityValue::String(value)),
    {
        self.set_value(key, BlockEntityValue::String(value));
    }

    /// Gets an integer value; none when the key is absent or holds another
    /// kind of value.
    pub fn get_int(&self, key: &str) -> (r: Option<i32>)
        requires
            self.wf(),
        ensures
            match r {
                Some(v) => self@.contains_key(key@) && self@[key@] == BlockEntityValue::Int(v),
                None => !self@.contains_key(key@) || !(self@[key@] is Int),
            },
    {
        match self.get_value(key) {
            Some(BlockEntityValue::Int(v)) => Some(*v),
            _ => None,
        }
    }

    /// Sets an integer value.
    pub fn set_int(&mut self, key: &str, value: i32)
        requires
            old(self).wf(),
        ensures
            final(self).wf(),
            final(self)@ == old(self)@.insert(key@, BlockEntityValue::Int(value)),
    {
        self.set_value(key, BlockEntityValue::Int(value));
    }
}

/// A block entity: a block that stores additional data beyond its kind and
/// properties.
#[derive(Debug)]
pub struct BlockEntity {
    /// The type of block entity.
    pub kind: BlockEntityKind,
    /// The block kind this entity is attached to.
    pub block_kind: BlockKind,
    /// The absolute world position of this block entity.
    pub position: (i32, i32, i32),
    /// Custom data for this block entity.
    pub data: BlockEntityData,
}

/// Key selector for a stored entity: its position.
pub open spec fn entity_key() -> spec_fn(((i32, i32, i32), BlockEntity)) -> (i32, i32, i32) {
    |e: ((i32, i32, i32), BlockEntity)| e.0
}

/// Value selector for a stored entity: the entity.
pub open spec fn entity_val() -> spec_fn(((i32, i32, i32), BlockEntity)) -> BlockEntity {
    |e: ((i32, i32, i32), BlockEntity)| e.1
}

/// Stores the block entities of a world, keyed by position.
pub struct BlockEntityManager {
    /// The stored entities, at most one per position.
    entities: Vec<((i32, i32, i32), BlockEntity)>,
}

impl View for BlockEntityManager {
    type V = Map<(i32, i32, i32), BlockEntity>;

    closed spec fn view(&self) -> Map<(i32, i32, i32), BlockEntity> {
        assoc_map(self.entities@, entity_key(), entity_val())
    }
}

impl BlockEntityManager {
    /// Internal validity: at most one entity per position.
    pub closed spec fn wf(&self) -> bool {
        unique_keys(self.entities@, entity_key())
    }

    /// Creates an empty block entity manager.
    pub fn new() -> (r: Self)
        ensures
            r.wf(),
            r@ == Map::<(i32, i32, i32), BlockEntity>::empty(),
    {
        BlockEntityManager { entities: Vec::new() }
    }

    /// Gets the block entity at the given position.
    pub fn get(&self, position: (i32, i32, i32)) -> (r: Option<&BlockEntity>)
        requires
            self.wf(),
        ensures
            match r {
                Some(e) => self@.contains_key(position) && *e == self@[position],
                None => !self@.contains_key(position),
            },
    {
        let n = self.entities.len();
        let mut i: usize = 0;
        while i < n
            invariant
                n == self.entities@.len(),
                0 <= i <= n,
                forall|j: int| 0 <= j < i ==> (#[trigger] self.entities@[j]).0 != position,
                self.wf(),
            decreases n - i,
        {
            if pos_eq(self.entities[i].0, position) {
                proof {
                    lemma_assoc_map_get(self.entities@, entity_key(), entity_val(), i as int);
                }
                return Some(&self.entities[i].1);
            }
            i += 1;
        }
        proof {
            lemma_assoc_map_has_key(self.entities@, entity_key(), entity_val(), position);
        }
        None
    }

    /// Sets the block entity at the given position, replacing any prior one.
    pub fn set(&mut self, position: (i32, i32, i32), entity: BlockEntity)
        requires
            old(self).wf(),
        ensures
            final(self).wf(),
            final(self)@ == old(self)@.insert(position, entity),
    {
        let n = self.entities.len();
        let mut i: usize = 0;
        while i < n
            invariant
                n == self.entities@.len(),
                0 <= i <= n,
                forall|j: int| 0 <= j < i ==> (#[trigger] self.entities@[j]).0 != position,
                self.wf(),
                *self == *old(self),
            decreases n - i,
        {
            if pos_eq(self.entities[i].0, position) {
                proof {
                    lemma_assoc_map_update(self.entities@, entity_key(), entity_val(), i as int, (
                        position,
                        entity,
                    ));
                }
                self.entities[i] = (position, entity);
                return ;
            }
            i += 1;
        }
        proof {
            let s = self.entities@;
            assert forall|j: int| 0 <= j < s.len() implies entity_key()(s[j]) != entity_key()(
                (position, entity),
            ) by {
                assert(s[j].0 != position);
            }
            lemma_assoc_map_push(s, entity_key(), entity_val(), (position, entity));
        }
        self.entities.push((position, entity));
    }

    /// Removes and returns the block entity at the given position.
    pub fn remove(&mut self, position: (i32, i32, i32)) -> (r: Option<BlockEntity>)
        requires
            old(self).wf(),
        ensures
            final(self).wf(),
            final(self)@ == old(self)@.remove(position),
            match r {
                Some(e) => old(self)@.contains_key(position) && e == old(self)@[position],
                None => !old(self)@.contains_key(position),
            },
    {
        let n = self.entities.len();
        let mut i: usize = 0;
        while i < n
            invariant
                n == self.entities@.len(),
                0 <= i <= n,
                forall|j: int| 0 <= j < i ==> (#[trigger] self.entities@[j]).0 != position,
                self.wf(),
                *self == *old(self),
            decreases n - i,
        {
            if pos_eq(self.entities[i].0, position) {
                proof {
                    lemma_assoc_map_get(self.entities@, entity_key(), entity_val(), i as int);
                    lemma_assoc_map_remove(self.entities@, entity_key(), entity_val(), i as int);
                }
                let entry = self.entities.remove(i);
                return Some(entry.1);
            }
            i += 1;
        }
        proof {
            lemma_assoc_map_has_key(self.entities@, entity_key(), entity_val(), position);
            assert(self@ =~= self@.remove(position));
        }
        None
    }

    /// Checks whether a block entity exists at the given position.
    pub fn contains(&self, position: (i32, i32, i32)) -> (r: bool)
        requires
            self.wf(),
        ensures
            r == self@.contains_key(position),
    {
        match self.get(position) {
            Some(_) => true,
            None => false,
        }
    }
}

/// The kind of block entity a block kind carries, if any.
pub open spec fn spec_entity_kind_for(block_kind: BlockKind) -> Option<BlockEntityKind> {
    match block_kind {
        BlockKind::Chest => Some(BlockEntityKind::Chest),
        BlockKind::TrappedChest => Some(BlockEntityKind::Chest),
        BlockKind::EnchantingTable => Some(BlockEntityKind::EnchantingTable),
        BlockKind::Furnace => Some(BlockEntityKind::Furnace),
        BlockKind::BlastFurnace => Some(BlockEntityKind::Furnace),
        BlockKind::SmokerFurnace => Some(BlockEntityKind::Furnace),
        BlockKind::Hopper => Some(BlockEntityKind::Hopper),
        BlockKind::Dropper => Some(BlockEntityKind::Dropper),
        BlockKind::Dispenser => Some(BlockEntityKind::Dispenser),
        BlockKind::Beehive => Some(BlockEntityKind::Beehive),
        BlockKind::SculkSensor => Some(BlockEntityKind::SculkSensor),
        _ => None,
    }
}

/// Creates a fresh block entity for the given block kind at the given
/// position: one with empty data for kinds that carry an entity, none for
/// the rest.
pub fn create_block_entity(block_kind: BlockKind, position: (i32, i32, i32)) -> (r: Option<
    BlockEntity,
>)
    ensures
        match r {
            Some(e) => {
                &&& spec_entity_kind_for(block_kind) == Some(e.kind)
                &&& e.block_kind == block_kind
                &&& e.position == position
                &&& e.data.wf()
                &&& e.data@ == Map::<Seq<char>, BlockEntityValue>::empty()
            },
            None => spec_entity_kind_for(block_kind) is None,
        },
{
    let entity_kind: Option<BlockEntityKind> = match block_kind {
        BlockKind::Chest => Some(BlockEntityKind::Chest),
        BlockKind::TrappedChest => Some(BlockEntityKind::Chest),
        BlockKind::EnchantingTable => Some(BlockEntityKind::EnchantingTable),
        BlockKind::Furnace => Some(BlockEntityKind::Furnace),
        BlockKind::BlastFurnace => Some(BlockEntityKind::Furnace),
        BlockKind::SmokerFurnace => Some(BlockEntityKind::Furnace),
        BlockKind::Hopper => Some(BlockEntityKind::Hopper),
        BlockKind::Dropper => Some(BlockEntityKind::Dropper),
        BlockKind::Dispenser => Some(BlockEntityKind::Dispenser),
        BlockKind::Beehive => Some(BlockEntityKind::Beehive),
        BlockKind::SculkSensor => Some(BlockEntityKind::SculkSensor),
        _ => None,
    };
    match entity_kind {
        Some(kind) => Some(
            BlockEntity { kind, block_kind, position, data: BlockEntityData::new() },
        ),
        None => None,
    }
}

/// Checks whether the given block kind requires a block entity.
pub fn requires_block_entity(block_kind: BlockKind) -> (r: bool)
    ensures
        r == (spec_entity_kind_for(block_kind) is Some),
{
    create_block_entity(block_kind, (0, 0, 0)).is_some()
}

} // verus!
