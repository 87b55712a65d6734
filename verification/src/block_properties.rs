//! Per-block variant state: a mapping from property names to property values
//! (for example "powered" -> "true"), attached to a block kind.

use crate::assoc::{
    assoc_map, lemma_assoc_map_get, lemma_assoc_map_has_key, lemma_assoc_map_push,
    lemma_assoc_map_update, unique_keys,
};
use crate::block::BlockKind;
use vstd::prelude::*;

verus! {

/// Key selector for a property entry: the name's view.
pub open spec fn prop_key() -> spec_fn((String, String)) -> Seq<char> {
    |p: (String, String)| p.0@
}

/// Value selector for a property entry: the value's view.
pub open spec fn prop_val() -> spec_fn((String, String)) -> Seq<char> {
    |p: (String, String)| p.1@
}

/// The mathematical content of an association list of properties: a map from
/// name view to value view.
pub open spec fn pairs_map(s: Seq<(String, String)>) -> Map<Seq<char>, Seq<char>> {
    assoc_map(s, prop_key(), prop_val())
}

/// No two entries of the association list share a name.
pub open spec fn keys_unique(s: Seq<(String, String)>) -> bool {
    unique_keys(s, prop_key())
}

/// Mapping from property name to property value, together with the kind of
/// block the properties belong to.
#[derive(Debug, Clone)]
pub struct BlockProperties {
    /// Association list of (name, value) pairs; keys are kept distinct.
    properties: Vec<(String, String)>,
    /// The kind of block these properties belong to.
    kind: BlockKind,
}

impl View for BlockProperties {
    type V = Map<Seq<char>, Seq<char>>;

    closed spec fn view(&self) -> Map<Seq<char>, Seq<char>> {
        pairs_map(self.properties@)
    }
}

impl BlockProperties {
    /// Internal validity: the association list holds each key at most once.
    pub closed spec fn wf(&self) -> bool {
        keys_unique(self.properties@)
    }

    /// The kind of block these properties belong to.
    pub closed spec fn spec_kind(&self) -> BlockKind {
        self.kind
    }

    /// Creates an empty property mapping for the given block kind.
    pub fn new(kind: BlockKind) -> (r: Self)
        ensures
            r.wf(),
            r@ == Map::<Seq<char>, Seq<char>>::empty(),
            r.spec_kind() == kind,
    {
        BlockProperties { properties: Vec::new(), kind }
    }

    /// Sets a property value, replacing any prior value under the same name.
    pub fn set(&mut self, name: &str, value: &str)
        requires
            old(self).wf(),
        ensures
            final(self).wf(),
            final(self)@ == old(self)@.insert(name@, value@),
            final(self).spec_kind() == old(self).spec_kind(),
    {
        let key: String = name.to_owned();
        let val: String = value.to_owned();
        let n = self.properties.len();
        let mut i: usize = 0;
        while i < n
            invariant
                n == self.properties@.len(),
                0 <= i <= n,
                forall|j: int| 0 <= j < i ==> self.properties@[j].0@ != key@,
                keys_unique(self.properties@),
                *self == *old(self),
                key@ == name@,
                val@ == value@,
            decreases n - i,
        {
            if self.properties[i].0 == key {
                proof {
                    assert(prop_key()((key, val)) == key@);
                    lemma_assoc_map_update(self.properties@, prop_key(), prop_val(), i as int, (
                        key,
                        val,
                    ));
                }
                self.properties[i] = (key, val);
                return ;
            }
            i += 1;
        }
        proof {
            let s = self.properties@;
            assert(prop_key()((key, val)) == key@);
            assert forall|j: int| 0 <= j < s.len() implies prop_key()(s[j]) != prop_key()(
                (key, val),
            ) by {
                assert(s[j].0@ != key@);
            }
            lemma_assoc_map_push(s, prop_key(), prop_val(), (key, val));
        }
        self.properties.push((key, val));
    }

    /// Gets a property value by name.
    pub fn get(&self, name: &str) -> (r: Option<&String>)
        requires
            self.wf(),
        ensures
            match r {
                Some(v) => self@.contains_key(name@) && v@ == self@[name@],
                None => !self@.contains_key(name@),
            },
    {
        let key: String = name.to_owned();
        let n = self.properties.len();
        let mut i: usize = 0;
        while i < n
            invariant
                n == self.properties@.len(),
                0 <= i <= n,
                forall|j: int| 0 <= j < i ==> self.properties@[j].0@ != key@,
                keys_unique(self.properties@),
                key@ == name@,
            decreases n - i,
        {
            if self.properties[i].0 == key {
                proof {
                    lemma_assoc_map_get(self.properties@, prop_key(), prop_val(), i as int);
                }
                return Some(&self.properties[i].1);
            }
            i += 1;
        }
        proof {
            lemma_assoc_map_has_key(self.properties@, prop_key(), prop_val(), name@);
        }
        None
    }

    /// Returns the kind of block.
    pub fn kind(&self) -> (r: BlockKind)
        ensures
            r == self.spec_kind(),
    {
        self.kind
    }

    /// Returns all properties as (name, value) pairs.
    pub fn all(&self) -> (r: &Vec<(String, String)>)
        ensures
            pairs_map(r@) == self@,
            self.wf() ==> keys_unique(r@),
    {
        &self.properties
    }
}

/// Defines the behavior hooks of a block.
pub trait BlockBehavior {
    /// Called when a block is placed.
    fn on_placed(&self, properties: &BlockProperties);

    /// Called when a block is broken.
    fn on_broken(&self, properties: &BlockProperties);

    /// Whether this block can be interacted with.
    fn can_interact(&self, properties: &BlockProperties) -> bool;

    /// Called when a block is interacted with; reports whether the
    /// interaction had an effect.
    fn on_interact(&self, properties: &BlockProperties) -> bool;
}

/// Behavior that does nothing and refuses interaction.
pub struct DefaultBlockBehavior;

impl BlockBehavior for DefaultBlockBehavior {
    fn on_placed(&self, _properties: &BlockProperties) {
    }

    fn on_broken(&self, _properties: &BlockProperties) {
    }

    fn can_interact(&self, _properties: &BlockProperties) -> (r: bool)
        ensures
            !r,
    {
        false
    }

    fn on_interact(&self, _properties: &BlockProperties) -> (r: bool)
        ensures
            !r,
    {
        false
    }
}

} // verus!
