//! Registration of blocks: their names, default properties and behaviors.

use crate::assoc::{
    assoc_map, lemma_assoc_map_get, lemma_assoc_map_has_key, lemma_assoc_map_push,
    lemma_assoc_map_update, unique_keys,
};
use crate::behaviors::BehaviorKind;
use crate::block::{default_props_map, BlockKind};
use crate::block_properties::BlockProperties;
use vstd::prelude::*;

verus! {

/// Registration information for a specific block.
#[derive(Debug)]
pub struct BlockRegistration {
    /// The registered block kind.
    pub kind: BlockKind,
    /// The block's default properties.
    pub properties: BlockProperties,
    /// The block's default state identifier.
    pub default_state: u16,
    /// The block's state identifiers.
    pub states: Vec<u16>,
}

/// Key selector for a name registration: the name's view.
pub open spec fn reg_key() -> spec_fn((String, BlockRegistration)) -> Seq<char> {
    |e: (String, BlockRegistration)| e.0@
}

/// Value selector for a name registration: the registration.
pub open spec fn reg_val() -> spec_fn((String, BlockRegistration)) -> BlockRegistration {
    |e: (String, BlockRegistration)| e.1
}

/// Key selector for a behavior registration: the block kind.
pub open spec fn beh_key() -> spec_fn((BlockKind, BehaviorKind)) -> BlockKind {
    |e: (BlockKind, BehaviorKind)| e.0
}

/// Value selector for a behavior registration: the behavior.
pub open spec fn beh_val() -> spec_fn((BlockKind, BehaviorKind)) -> BehaviorKind {
    |e: (BlockKind, BehaviorKind)| e.1
}

/// Whether a registration is the fresh one that registering `kind` creates:
/// the kind's default properties and no states yet.
pub open spec fn is_fresh_registration(r: BlockRegistration, kind: BlockKind) -> bool {
    &&& r.kind == kind
    &&& r.properties.wf()
    &&& r.properties.spec_kind() == kind
    &&& r.properties@ == default_props_map(kind)
    &&& r.default_state == 0
    &&& r.states@ == Seq::<u16>::empty()
}

/// Manages registration of blocks: their names and their behaviors.
pub struct BlockRegistry {
    /// Registered blocks keyed by name, at most one per name.
    registered_blocks: Vec<(String, BlockRegistration)>,
    /// Registered behaviors keyed by block kind, at most one per kind.
    behavior_registry: Vec<(BlockKind, BehaviorKind)>,
}

impl BlockRegistry {
    /// Internal validity: names and kinds are registered at most once.
    pub closed spec fn wf(&self) -> bool {
        &&& unique_keys(self.registered_blocks@, reg_key())
        &&& unique_keys(self.behavior_registry@, beh_key())
    }

    /// The registration under each name.
    pub closed spec fn blocks_view(&self) -> Map<Seq<char>, BlockRegistration> {
        assoc_map(self.registered_blocks@, reg_key(), reg_val())
    }

    /// The behavior registered for each block kind.
    pub closed spec fn behaviors_view(&self) -> Map<BlockKind, BehaviorKind> {
        assoc_map(self.behavior_registry@, beh_key(), beh_val())
    }

    /// Creates a new, empty block registry.
    pub fn new() -> (r: Self)
        ensures
            r.wf(),
            r.blocks_view() == Map::<Seq<char>, BlockRegistration>::empty(),
            r.behaviors_view() == Map::<BlockKind, BehaviorKind>::empty(),
    {
        BlockRegistry { registered_blocks: Vec::new(), behavior_registry: Vec::new() }
    }

    /// Registers a block under a name, with its default properties,
    /// replacing any earlier registration under that name.
    pub fn register_block(&mut self, name: &str, kind: BlockKind)
        requires
            old(self).wf(),
        ensures
            final(self).wf(),
            final(self).blocks_view().dom() == old(self).blocks_view().dom().insert(name@),
            forall|q: Seq<char>|
                q != name@ && old(self).blocks_view().contains_key(q)
                    ==> final(self).blocks_view()[q] == old(self).blocks_view()[q],
            final(self).blocks_view().contains_key(name@),
            is_fresh_registration(final(self).blocks_view()[name@], kind),
            final(self).behaviors_view() == old(self).behaviors_view(),
    {
        let key: String = name.to_owned();
        let properties = kind.default_properties();
        let registration = BlockRegistration {
            kind,
            properties,
            default_state: 0,
            states: Vec::new(),
        };
        let n = self.registered_blocks.len();
        let mut i: usize = 0;
        while i < n
            invariant
                n == self.registered_blocks@.len(),
                0 <= i <= n,
                forall|j: int| 0 <= j < i ==> (#[trigger] self.registered_blocks@[j]).0@ != key@,
                self.wf(),
                *self == *old(self),
                key@ == name@,
                is_fresh_registration(registration, kind),
            decreases n - i,
        {
            if self.registered_blocks[i].0 == key {
                proof {
                    lemma_assoc_map_update(
                        self.registered_blocks@,
                        reg_key(),
                        reg_val(),
                        i as int,
                        (key, registration),
                    );
                    lemma_assoc_map_get(self.registered_blocks@, reg_key(), reg_val(), i as int);
                    assert(self.blocks_view().dom() =~= self.blocks_view().dom().insert(name@));
                }
                self.registered_blocks[i] = (key, registration);
                return ;
            }
            i += 1;
        }
        proof {
            let s = self.registered_blocks@;
            assert forall|j: int| 0 <= j < s.len() implies reg_key()(s[j]) != reg_key()(
                (key, registration),
            ) by {
                assert(s[j].0@ != key@);
            }
            lemma_assoc_map_push(s, reg_key(), reg_val(), (key, registration));
        }
        self.registered_blocks.push((key, registration));
    }

    /// Registers a behavior for a block kind, replacing any earlier one.
    pub fn register_behavior(&mut self, kind: BlockKind, behavior: BehaviorKind)
        requires
            old(self).wf(),
        ensures
            final(self).wf(),
            final(self).behaviors_view() == old(self).behaviors_view().insert(kind, behavior),
            final(self).blocks_view() == old(self).blocks_view(),
    {
        let n = self.behavior_registry.len();
        let mut i: usize = 0;
        while i < n
            invariant
                n == self.behavior_registry@.len(),
                0 <= i <= n,
                forall|j: int| 0 <= j < i ==> (#[trigger] self.behavior_registry@[j]).0 != kind,
                self.wf(),
                *self == *old(self),
            decreases n - i,
        {
            if self.behavior_registry[i].0 == kind {
                proof {
                    lemma_assoc_map_update(
                        self.behavior_registry@,
                        beh_key(),
                        beh_val(),
                        i as int,
                        (kind, behavior),
                    );
                }
                self.behavior_registry[i] = (kind, behavior);
                return ;
            }
            i += 1;
        }
        proof {
            let s = self.behavior_registry@;
            assert forall|j: int| 0 <= j < s.len() implies beh_key()(s[j]) != beh_key()(
                (kind, behavior),
            ) by {
                assert(s[j].0 != kind);
            }
            lemma_assoc_map_push(s, beh_key(), beh_val(), (kind, behavior));
        }
        self.behavior_registry.push((kind, behavior));
    }

    /// Gets the behavior registered for a block kind, or the default
    /// behavior when none is registered.
    pub fn get_behavior(&self, kind: BlockKind) -> (r: BehaviorKind)
        requires
            self.wf(),
        ensures
            r == if self.behaviors_view().contains_key(kind) {
                self.behaviors_view()[kind]
            } else {
                BehaviorKind::Default
            },
    {
        let n = self.behavior_registry.len();
        let mut i: usize = 0;
        while i < n
            invariant
                n == self.behavior_registry@.len(),
                0 <= i <= n,
                forall|j: int| 0 <= j < i ==> (#[trigger] self.behavior_registry@[j]).0 != kind,
                self.wf(),
            decreases n - i,
        {
            if self.behavior_registry[i].0 == kind {
                proof {
                    lemma_assoc_map_get(self.behavior_registry@, beh_key(), beh_val(), i as int);
                }
                return self.behavior_registry[i].1;
            }
            i += 1;
        }
        proof {
            lemma_assoc_map_has_key(self.behavior_registry@, beh_key(), beh_val(), kind);
        }
        BehaviorKind::Default
    }

    /// Gets the registration under a name, if any.
    pub fn get_registration(&self, name: &str) -> (r: Option<&BlockRegistration>)
        requires
            self.wf(),
        ensures
            match r {
                Some(reg) => self.blocks_view().contains_key(name@) && *reg
                    == self.blocks_view()[name@],
                None => !self.blocks_view().contains_key(name@),
            },
    {
        let key: String = name.to_owned();
        let n = self.registered_blocks.len();
        let mut i: usize = 0;
        while i < n
            invariant
                n == self.registered_blocks@.len(),
                0 <= i <= n,
                forall|j: int| 0 <= j < i ==> (#[trigger] self.registered_blocks@[j]).0@ != key@,
                self.wf(),
                key@ == name@,
            decreases n - i,
        {
            if self.registered_blocks[i].0 == key {
                proof {
                    lemma_assoc_map_get(self.registered_blocks@, reg_key(), reg_val(), i as int);
                }
                return Some(&self.registered_blocks[i].1);
            }
            i += 1;
        }
        proof {
            lemma_assoc_map_has_key(self.registered_blocks@, reg_key(), reg_val(), name@);
        }
        None
    }
}

} // verus!
