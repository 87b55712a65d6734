//! The world capability: authoritative block storage that the tick engine
//! reads and writes, abstracted as a narrow read/write interface, and an
//! in-memory implementation of it.

use crate::assoc::{
    assoc_map, lemma_assoc_map_get, lemma_assoc_map_has_key, lemma_assoc_map_push,
    lemma_assoc_map_remove, unique_keys,
};
use crate::block::BlockKind;
use crate::block_properties::BlockProperties;
use crate::block_ticking::pos_eq;
use vstd::prelude::*;

verus! {

/// What setting a block does to the world content: the kind at `position`
/// becomes `kind`; an occupied position keeps its properties, a fresh one
/// gets empty properties; everything else is untouched.
pub open spec fn set_block_post(
    m: Map<(i32, i32, i32), (BlockKind, BlockProperties)>,
    m2: Map<(i32, i32, i32), (BlockKind, BlockProperties)>,
    position: (i32, i32, i32),
    kind: BlockKind,
) -> bool {
    &&& m2.dom() == m.dom().insert(position)
    &&& (forall|q: (i32, i32, i32)|
        #![trigger m2[q]]
        q != position && m.contains_key(q) ==> m2[q] == m[q])
    &&& m2.contains_key(position)
    &&& m2[position].0 == kind
    &&& (m.contains_key(position) ==> m2 == m.insert(position, (kind, m[position].1)))
    &&& (!m.contains_key(position) ==> m2[position].1@ == Map::<Seq<char>, Seq<char>>::empty()
        && m2[position].1.spec_kind() == kind && m2[position].1.wf())
}

/// Read/write access to the authoritative world state. The tick engine owns
/// no block storage; it is handed this capability per call.
pub trait BlockWorld {
    /// The current block at each position: its kind and its properties.
    spec fn blocks(&self) -> Map<(i32, i32, i32), (BlockKind, BlockProperties)>;

    /// Validity of the world value; holds of every value the implementation
    /// hands out and is kept by every mutation.
    spec fn wf(&self) -> bool;

    /// Reads the block at `position`; none means no block there or the
    /// position is unloaded.
    fn get_block(&self, position: (i32, i32, i32)) -> (r: Option<&(BlockKind, BlockProperties)>)
        requires
            self.wf(),
        ensures
            match r {
                Some(b) => self.blocks().contains_key(position) && *b == self.blocks()[position]
                    && b.1.wf(),
                None => !self.blocks().contains_key(position),
            },
    ;

    /// Writes the block kind at `position`. Always succeeds synchronously;
    /// the write is visible to every later read.
    fn set_block(&mut self, position: (i32, i32, i32), kind: BlockKind)
        requires
            old(self).wf(),
        ensures
            final(self).wf(),
            set_block_post(old(self).blocks(), final(self).blocks(), position, kind),
    ;
}

/// Key selector for a world cell: its position.
pub open spec fn cell_key() -> spec_fn(
    ((i32, i32, i32), (BlockKind, BlockProperties)),
) -> (i32, i32, i32) {
    |c: ((i32, i32, i32), (BlockKind, BlockProperties))| c.0
}

/// Value selector for a world cell: its kind and properties.
pub open spec fn cell_val() -> spec_fn(((i32, i32, i32), (BlockKind, BlockProperties))) -> (
    BlockKind,
    BlockProperties,
) {
    |c: ((i32, i32, i32), (BlockKind, BlockProperties))| c.1
}

/// A plain in-memory world: a finite set of blocks keyed by position. It
/// serves as the reference implementation of [`BlockWorld`] for tests and
/// self-contained hosts.
pub struct InMemoryWorld {
    /// The stored blocks, at most one per position.
    cells: Vec<((i32, i32, i32), (BlockKind, BlockProperties))>,
}

impl BlockWorld for InMemoryWorld {
    closed spec fn blocks(&self) -> Map<(i32, i32, i32), (BlockKind, BlockProperties)> {
        assoc_map(self.cells@, cell_key(), cell_val())
    }

    closed spec fn wf(&self) -> bool {
        &&& unique_keys(self.cells@, cell_key())
        &&& (forall|i: int| 0 <= i < self.cells@.len() ==> (#[trigger] self.cells@[i]).1.1.wf())
    }

    fn get_block(&self, position: (i32, i32, i32)) -> (r: Option<&(BlockKind, BlockProperties)>) {
        let n = self.cells.len();
        let mut i: usize = 0;
        while i < n
            invariant
                n == self.cells@.len(),
                0 <= i <= n,
                forall|j: int| 0 <= j < i ==> (#[trigger] self.cells@[j]).0 != position,
                self.wf(),
            decreases n - i,
        {
            if pos_eq(self.cells[i].0, position) {
                proof {
                    lemma_assoc_map_get(self.cells@, cell_key(), cell_val(), i as int);
                }
                return Some(&self.cells[i].1);
            }
            i += 1;
        }
        proof {
            lemma_assoc_map_has_key(self.cells@, cell_key(), cell_val(), position);
        }
        None
    }

    fn set_block(&mut self, position: (i32, i32, i32), kind: BlockKind) {
        let n = self.cells.len();
        let mut i: usize = 0;
        while i < n
            invariant
                n == self.cells@.len(),
                0 <= i <= n,
                forall|j: int| 0 <= j < i ==> (#[trigger] self.cells@[j]).0 != position,
                self.wf(),
                *self == *old(self),
            decreases n - i,
        {
            if pos_eq(self.cells[i].0, position) {
                proof {
                    lemma_assoc_map_get(self.cells@, cell_key(), cell_val(), i as int);
                    lemma_assoc_map_remove(self.cells@, cell_key(), cell_val(), i as int);
                }
                let ghost prev = self.cells@;
                let entry = self.cells.remove(i);
                let ghost mid = self.cells@;
                proof {
                    assert forall|j: int|
                        0 <= j < mid.len() implies cell_key()(mid[j]) != cell_key()(
                        (position, (kind, entry.1.1)),
                    ) by {
                        let j0: int = if j < i {
                            j
                        } else {
                            j + 1
                        };
                        assert(mid[j] == prev[j0]);
                        assert(cell_key()(prev[j0]) != cell_key()(prev[i as int]));
                    }
                    lemma_assoc_map_push(mid, cell_key(), cell_val(), (position, (kind, entry.1.1)));
                }
                let props = entry.1.1;
                self.cells.push((position, (kind, props)));
                proof {
                    assert forall|k: int|
                        0 <= k < self.cells@.len() implies (#[trigger] self.cells@[k]).1.1.wf() by {
                        if k < mid.len() {
                            let j0: int = if k < i {
                                k
                            } else {
                                k + 1
                            };
                            assert(self.cells@[k] == prev[j0]);
                        } else {
                            assert(self.cells@[k] == (position, (kind, prev[i as int].1.1)));
                        }
                    }
                    assert(self.blocks() =~= old(self).blocks().insert(
                        position,
                        (kind, old(self).blocks()[position].1),
                    ));
                    assert(self.blocks().dom() =~= old(self).blocks().dom().insert(position));
                }
                return ;
            }
            i += 1;
        }
        let ghost prev = self.cells@;
        let fresh = BlockProperties::new(kind);
        proof {
            lemma_assoc_map_has_key(prev, cell_key(), cell_val(), position);
            assert forall|j: int|
                0 <= j < prev.len() implies cell_key()(prev[j]) != cell_key()(
                (position, (kind, fresh)),
            ) by {
                assert(prev[j].0 != position);
            }
            lemma_assoc_map_push(prev, cell_key(), cell_val(), (position, (kind, fresh)));
        }
        self.cells.push((position, (kind, fresh)));
        proof {
            assert forall|k: int|
                0 <= k < self.cells@.len() implies (#[trigger] self.cells@[k]).1.1.wf() by {
                if k < prev.len() {
                    assert(self.cells@[k] == prev[k]);
                }
            }
            assert(self.blocks().dom() =~= old(self).blocks().dom().insert(position));
        }
    }
}

impl InMemoryWorld {
    /// Creates an empty world.
    pub fn new() -> (r: Self)
        ensures
            r.wf(),
            r.blocks() == Map::<(i32, i32, i32), (BlockKind, BlockProperties)>::empty(),
    {
        InMemoryWorld { cells: Vec::new() }
    }

    /// Places a block with the given kind and properties, replacing whatever
    /// stood at the position.
    pub fn place_block(
        &mut self,
        position: (i32, i32, i32),
        kind: BlockKind,
        properties: BlockProperties,
    )
        requires
            old(self).wf(),
            properties.wf(),
        ensures
            final(self).wf(),
            final(self).blocks() == old(self).blocks().insert(position, (kind, properties)),
    {
        let n = self.cells.len();
        let mut i: usize = 0;
        while i < n
            invariant
                n == self.cells@.len(),
                0 <= i <= n,
                forall|j: int| 0 <= j < i ==> (#[trigger] self.cells@[j]).0 != position,
                self.wf(),
                properties.wf(),
                *self == *old(self),
            decreases n - i,
        {
            if pos_eq(self.cells[i].0, position) {
                proof {
                    crate::assoc::lemma_assoc_map_update(
                        self.cells@,
                        cell_key(),
                        cell_val(),
                        i as int,
                        (position, (kind, properties)),
                    );
                }
                let ghost prev = self.cells@;
                self.cells[i] = (position, (kind, properties));
                proof {
                    assert forall|k: int|
                        0 <= k < self.cells@.len() implies (#[trigger] self.cells@[k]).1.1.wf() by {
                        if k != i {
                            assert(self.cells@[k] == prev[k]);
                        }
                    }
                }
                return ;
            }
            i += 1;
        }
        proof {
            assert forall|j: int|
                0 <= j < self.cells@.len() implies cell_key()(self.cells@[j]) != cell_key()(
                (position, (kind, properties)),
            ) by {
                assert(self.cells@[j].0 != position);
            }
            lemma_assoc_map_push(self.cells@, cell_key(), cell_val(), (position, (kind, properties)));
        }
        let ghost prev = self.cells@;
        self.cells.push((position, (kind, properties)));
        proof {
            assert forall|k: int|
                0 <= k < self.cells@.len() implies (#[trigger] self.cells@[k]).1.1.wf() by {
                if k < prev.len() {
                    assert(self.cells@[k] == prev[k]);
                }
            }
        }
    }

    /// Removes the block at `position`, if any.
    pub fn remove_block(&mut self, position: (i32, i32, i32))
        requires
            old(self).wf(),
        ensures
            final(self).wf(),
            final(self).blocks() == old(self).blocks().remove(position),
    {
        let n = self.cells.len();
        let mut i: usize = 0;
        while i < n
            invariant
                n == self.cells@.len(),
                0 <= i <= n,
                forall|j: int| 0 <= j < i ==> (#[trigger] self.cells@[j]).0 != position,
                self.wf(),
                *self == *old(self),
            decreases n - i,
        {
            if pos_eq(self.cells[i].0, position) {
                proof {
                    lemma_assoc_map_remove(self.cells@, cell_key(), cell_val(), i as int);
                }
                let ghost prev = self.cells@;
                self.cells.remove(i);
                proof {
                    assert forall|k: int|
                        0 <= k < self.cells@.len() implies (#[trigger] self.cells@[k]).1.1.wf() by {
                        let j0: int = if k < i {
                            k
                        } else {
                            k + 1
                        };
                        assert(self.cells@[k] == prev[j0]);
                    }
                }
                return ;
            }
            i += 1;
        }
        proof {
            lemma_assoc_map_has_key(self.cells@, cell_key(), cell_val(), position);
            assert(self.blocks() =~= self.blocks().remove(position));
        }
    }
}

} // verus!
