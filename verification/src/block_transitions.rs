//! Declarative block state transitions: a first-match table of
//! (source kind, target kind, conditions) rules.

use crate::block::BlockKind;
use crate::block_properties::BlockProperties;
use vstd::prelude::*;

verus! {

/// Probabilities of `RandomTick` conditions are numerators over this scale
/// (parts per million); the scale itself stands for certainty.
pub const PROBABILITY_SCALE: u32 = 1000000;

/// Conditions that must be met for a transition to occur. A rule fires only
/// when all of its conditions hold.
#[derive(Clone, Debug)]
pub enum TransitionCondition {
    /// Block must be exposed to sky or rain. Resolving this needs world
    /// context the engine does not own, so it evaluates as unmet here.
    ExposedToSky,
    /// Block must be connected to a block of the given kind. Needs world
    /// context the engine does not own; evaluates as unmet here.
    Connected(BlockKind),
    /// Block must be powered by redstone: its "powered" property is "true".
    RedstonePowered,
    /// Block must be in the named biome. Needs world context the engine does
    /// not own; evaluates as unmet here.
    InBiome(String),
    /// Succeeds with the given probability, a numerator over
    /// [`PROBABILITY_SCALE`], drawn from the evaluation's random draw. An
    /// evaluation is an independent trial.
    RandomTick(u32),
    /// The named property must hold the given value.
    HasProperty(String, String),
}

/// A possible transition from one block kind to another.
#[derive(Clone, Debug)]
pub struct BlockStateTransition {
    /// The block kind this transition applies to.
    pub source_kind: BlockKind,
    /// The target block kind after the transition.
    pub target_kind: BlockKind,
    /// Conditions required for the transition; all must hold.
    pub conditions: Vec<TransitionCondition>,
    /// Time the transition nominally needs, in game ticks; none for instant
    /// transitions.
    pub transition_time: Option<u64>,
}

/// Whether one condition holds of the given properties, under the uniform
/// random draw `draw` (below [`PROBABILITY_SCALE`]) of this evaluation.
pub open spec fn spec_condition_met(
    c: TransitionCondition,
    props: Map<Seq<char>, Seq<char>>,
    draw: u32,
) -> bool {
    match c {
        TransitionCondition::ExposedToSky => false,
        TransitionCondition::Connected(_) => false,
        TransitionCondition::RedstonePowered => props.contains_key("powered"@) && props["powered"@]
            == "true"@,
        TransitionCondition::InBiome(_) => false,
        TransitionCondition::RandomTick(p) => draw < p,
        TransitionCondition::HasProperty(name, value) => props.contains_key(name@) && props[name@]
            == value@,
    }
}

/// Whether every condition of a list holds.
pub open spec fn spec_all_conditions_met(
    conds: Seq<TransitionCondition>,
    props: Map<Seq<char>, Seq<char>>,
    draw: u32,
) -> bool {
    forall|i: int| 0 <= i < conds.len() ==> spec_condition_met(#[trigger] conds[i], props, draw)
}

/// Whether a rule applies to a block of kind `kind` with the given properties.
pub open spec fn spec_rule_matches(
    t: BlockStateTransition,
    kind: BlockKind,
    props: Map<Seq<char>, Seq<char>>,
    draw: u32,
) -> bool {
    t.source_kind == kind && spec_all_conditions_met(t.conditions@, props, draw)
}

/// First-match evaluation of a rule table: the target of the first rule that
/// applies, none when no rule does.
pub open spec fn spec_check_transition(
    rules: Seq<BlockStateTransition>,
    kind: BlockKind,
    props: Map<Seq<char>, Seq<char>>,
    draw: u32,
) -> Option<BlockKind>
    decreases rules.len(),
{
    if rules.len() == 0 {
        None
    } else if spec_rule_matches(rules[0], kind, props, draw) {
        Some(rules[0].target_kind)
    } else {
        spec_check_transition(rules.drop_first(), kind, props, draw)
    }
}

/// Manager for block state transitions. Rules are evaluated in registration
/// order and only the first applicable rule fires.
pub struct BlockTransitionManager {
    transitions: Vec<BlockStateTransition>,
}

impl View for BlockTransitionManager {
    type V = Seq<BlockStateTransition>;

    closed spec fn view(&self) -> Seq<BlockStateTransition> {
        self.transitions@
    }
}

impl BlockTransitionManager {
    /// Creates a new, empty transition manager.
    pub fn new() -> (r: Self)
        ensures
            r@ == Seq::<BlockStateTransition>::empty(),
    {
        BlockTransitionManager { transitions: Vec::new() }
    }

    /// Registers a block state transition after all rules registered so far.
    pub fn register_transition(&mut self, transition: BlockStateTransition)
        ensures
            final(self)@ == old(self)@.push(transition),
    {
        self.transitions.push(transition);
    }

    /// Checks whether a specific condition is met, under the random draw of
    /// this evaluation.
    fn check_condition(
        &self,
        condition: &TransitionCondition,
        properties: &BlockProperties,
        draw: u32,
    ) -> (r: bool)
        requires
            properties.wf(),
        ensures
            r == spec_condition_met(*condition, properties@, draw),
    {
        match condition {
            TransitionCondition::ExposedToSky => false,
            TransitionCondition::Connected(_) => false,
            TransitionCondition::RedstonePowered => {
                let wanted: String = "true".to_owned();
                match properties.get("powered") {
                    Some(v) => *v == wanted,
                    None => false,
                }
            },
            TransitionCondition::InBiome(_) => false,
            TransitionCondition::RandomTick(p) => draw < *p,
            TransitionCondition::HasProperty(name, value) => {
                match properties.get(name.as_str()) {
                    Some(v) => *v == *value,
                    None => false,
                }
            },
        }
    }

    /// First-match evaluation under an explicit random draw: returns the
    /// target of the first registered rule whose source matches `kind` and
    /// whose conditions all hold; none when no rule applies. A pure function
    /// of its arguments.
    pub fn check_transition_with(
        &self,
        kind: BlockKind,
        properties: &BlockProperties,
        draw: u32,
    ) -> (r: Option<BlockKind>)
        requires
            properties.wf(),
        ensures
            r == spec_check_transition(self@, kind, properties@, draw),
    {
        let n = self.transitions.len();
        let mut i: usize = 0;
        proof {
            assert(self@.skip(0) =~= self@);
        }
        while i < n
            invariant
                n == self.transitions@.len(),
                0 <= i <= n,
                properties.wf(),
                spec_check_transition(self@, kind, properties@, draw) == spec_check_transition(
                    self@.skip(i as int),
                    kind,
                    properties@,
                    draw,
                ),
            decreases n - i,
        {
            proof {
                assert(self@.skip(i as int)[0] == self@[i as int]);
            }
            let rule = &self.transitions[i];
            if rule.source_kind == kind {
                let m = rule.conditions.len();
                let mut j: usize = 0;
                let mut all_met = true;
                while j < m
                    invariant
                        n == self.transitions@.len(),
                        0 <= i < n,
                        rule == self.transitions@[i as int],
                        m == rule.conditions@.len(),
                        0 <= j <= m,
                        properties.wf(),
                        all_met ==> (forall|q: int|
                            0 <= q < j ==> spec_condition_met(
                                #[trigger] rule.conditions@[q],
                                properties@,
                                draw,
                            )),
                        !all_met ==> !spec_all_conditions_met(rule.conditions@, properties@, draw),
                    decreases m - j,
                {
                    if !self.check_condition(&rule.conditions[j], properties, draw) {
                        proof {
                            assert(!spec_condition_met(rule.conditions@[j as int], properties@, draw));
                        }
                        all_met = false;
                    }
                    j += 1;
                }
                if all_met {
                    proof {
                        assert(spec_all_conditions_met(rule.conditions@, properties@, draw));
                        assert(spec_rule_matches(self@.skip(i as int)[0], kind, properties@, draw));
                    }
                    return Some(rule.target_kind);
                }
            }
            proof {
                assert(!spec_rule_matches(self@.skip(i as int)[0], kind, properties@, draw));
                assert(self@.skip(i as int).drop_first() =~= self@.skip(i as int + 1));
            }
            i += 1;
        }
        proof {
            assert(self@.skip(n as int).len() == 0);
        }
        None
    }

    /// Checks whether a block can transition and returns the target kind.
    ///
    /// Rules with `RandomTick` conditions make this call a random trial: one
    /// uniform draw below [`PROBABILITY_SCALE`] is taken for the whole
    /// evaluation, and repeated calls are independent trials. For every
    /// outcome, the result is the first-match evaluation under some such
    /// draw.
    pub fn check_transition(&self, kind: BlockKind, properties: &BlockProperties) -> (r: Option<
        BlockKind,
    >)
        requires
            properties.wf(),
        ensures
            exists|draw: u32|
                draw < PROBABILITY_SCALE && r == #[trigger] spec_check_transition(
                    self@,
                    kind,
                    properties@,
                    draw,
                ),
    {
        let draw = crate::block_ticking::rand_draw();
        let r = self.check_transition_with(kind, properties, draw);
        proof {
            assert(draw < PROBABILITY_SCALE && r == spec_check_transition(
                self@,
                kind,
                properties@,
                draw,
            ));
        }
        r
    }
}

/// First-match law: when rule `i` applies and no earlier rule does, the
/// evaluation returns rule `i`'s target. Two rules with the same source kind
/// that both apply never both fire: the first registered wins. Evaluation is
/// a function of the table, the block, the properties and the draw, so
/// repeated evaluations with the same arguments agree.
pub proof fn lemma_first_match(
    rules: Seq<BlockStateTransition>,
    kind: BlockKind,
    props: Map<Seq<char>, Seq<char>>,
    draw: u32,
    i: int,
)
    requires
        0 <= i < rules.len(),
        spec_rule_matches(rules[i], kind, props, draw),
        forall|j: int| 0 <= j < i ==> !spec_rule_matches(#[trigger] rules[j], kind, props, draw),
    ensures
        spec_check_transition(rules, kind, props, draw) == Some(rules[i].target_kind),
    decreases i,
{
    if i == 0 {
    } else {
        assert(!spec_rule_matches(rules[0], kind, props, draw));
        assert(rules.drop_first()[i - 1] == rules[i]);
        assert forall|j: int|
            0 <= j < i - 1 implies !spec_rule_matches(
            #[trigger] rules.drop_first()[j],
            kind,
            props,
            draw,
        ) by {
            assert(rules.drop_first()[j] == rules[j + 1]);
        }
        lemma_first_match(rules.drop_first(), kind, props, draw, i - 1);
    }
}

/// The copper weathering chance: five percent per random-tick evaluation,
/// as a numerator over [`PROBABILITY_SCALE`].
pub const COPPER_WEATHER_CHANCE: u32 = 50000;

/// Nominal weathering time in game ticks: twelve thousand seconds at twenty
/// game ticks per second.
pub const COPPER_WEATHER_TICKS: u64 = 240000;

/// Whether `t` is the weathering rule from `from` to `to`: a single
/// random-tick condition with the copper weathering chance.
pub open spec fn is_weathering_rule(t: BlockStateTransition, from: BlockKind, to: BlockKind) -> bool {
    &&& t.source_kind == from
    &&& t.target_kind == to
    &&& t.conditions@ == seq![TransitionCondition::RandomTick(COPPER_WEATHER_CHANCE)]
    &&& t.transition_time == Some(COPPER_WEATHER_TICKS)
}

/// Whether `s` is the default transition table: the copper weathering chain,
/// in weathering order.
pub open spec fn is_copper_transition_table(s: Seq<BlockStateTransition>) -> bool {
    &&& s.len() == 4
    &&& is_weathering_rule(s[0], BlockKind::Copper, BlockKind::ExposedCopper)
    &&& is_weathering_rule(s[1], BlockKind::ExposedCopper, BlockKind::WeatheredCopper)
    &&& is_weathering_rule(s[2], BlockKind::WeatheredCopper, BlockKind::OxidizedCopper)
    &&& is_weathering_rule(s[3], BlockKind::CutCopper, BlockKind::ExposedCutCopper)
}

/// Registers the copper weathering stages.
pub fn register_copper_transitions(manager: &mut BlockTransitionManager)
    ensures
        final(manager)@.len() == old(manager)@.len() + 4,
        forall|i: int| 0 <= i < old(manager)@.len() ==> final(manager)@[i] == old(manager)@[i],
        is_weathering_rule(
            final(manager)@[old(manager)@.len() as int],
            BlockKind::Copper,
            BlockKind::ExposedCopper,
        ),
        is_weathering_rule(
            final(manager)@[old(manager)@.len() as int + 1],
            BlockKind::ExposedCopper,
            BlockKind::WeatheredCopper,
        ),
        is_weathering_rule(
            final(manager)@[old(manager)@.len() as int + 2],
            BlockKind::WeatheredCopper,
            BlockKind::OxidizedCopper,
        ),
        is_weathering_rule(
            final(manager)@[old(manager)@.len() as int + 3],
            BlockKind::CutCopper,
            BlockKind::ExposedCutCopper,
        ),
{
    manager.register_transition(weathering_rule(BlockKind::Copper, BlockKind::ExposedCopper));
    manager.register_transition(
        weathering_rule(BlockKind::ExposedCopper, BlockKind::WeatheredCopper),
    );
    manager.register_transition(
        weathering_rule(BlockKind::WeatheredCopper, BlockKind::OxidizedCopper),
    );
    manager.register_transition(weathering_rule(BlockKind::CutCopper, BlockKind::ExposedCutCopper));
}

/// Builds one copper weathering rule.
fn weathering_rule(from: BlockKind, to: BlockKind) -> (t: BlockStateTransition)
    ensures
        is_weathering_rule(t, from, to),
{
    let mut conditions: Vec<TransitionCondition> = Vec::new();
    conditions.push(TransitionCondition::RandomTick(COPPER_WEATHER_CHANCE));
    proof {
        assert(conditions@ =~= seq![TransitionCondition::RandomTick(COPPER_WEATHER_CHANCE)]);
    }
    BlockStateTransition {
        source_kind: from,
        target_kind: to,
        conditions,
        transition_time: Some(COPPER_WEATHER_TICKS),
    }
}

} // verus!
