//! Eleanor's strategy: learn each planet she stands on, then work through a
//! stack of objectives (produce a complex resource by its recipe tree,
//! gather its ingredients, find planets that make them), forgetting what she
//! knows of a planet now and then.

use vstd::prelude::*;
use common_game::components::planet::PlanetType as GamePlanetType;
use common_game::components::resource::{BasicResourceType, ComplexResourceType, ResourceType};
use crate::amon::{count_of, complex_count_of, held_in};
use crate::explorer::{recipe, uses};
use crate::first::{first_in, first_of, lemma_first_unique};
use crate::bag::BagSnapshot;
use crate::chance::{gen_index, gen_ratio};
use crate::idmap::IdMap;
use crate::resources::{BasicSet, ComplexSet};

verus! {

// =========================================================================
// WHAT ELEANOR KNOWS OF A PLANET
// =========================================================================

/// What Eleanor knows of one planet; each fact may be missing.
pub struct PlanetInfo {
    pub gen_recipes: Option<BasicSet>,
    pub comb_recipes: Option<ComplexSet>,
    pub kind: Option<GamePlanetType>,
    pub neighbours: Option<Vec<u32>>,
}

pub open spec fn spec_can_generate(info: PlanetInfo, r: BasicResourceType) -> bool {
    match info.gen_recipes {
        Some(s) => s@.contains(r),
        None => false,
    }
}

pub open spec fn spec_can_combine(info: PlanetInfo, r: ComplexResourceType) -> bool {
    match info.comb_recipes {
        Some(s) => s@.contains(r),
        None => false,
    }
}

pub open spec fn spec_fully_known(info: PlanetInfo) -> bool {
    info.gen_recipes is Some && info.comb_recipes is Some && info.kind is Some && info.neighbours is Some
}

/// Planets of types B and D are the dangerous ones.
pub open spec fn spec_dangerous(info: PlanetInfo) -> bool {
    info.kind == Some(GamePlanetType::B) || info.kind == Some(GamePlanetType::D)
}

fn copy_ids(v: &Vec<u32>) -> (out: Vec<u32>)
    ensures
        out@ == v@,
{
    let mut out: Vec<u32> = Vec::new();
    let mut i: usize = 0;
    while i < v.len()
        invariant
            i <= v@.len(),
            out@ == v@.take(i as int),
        decreases v@.len() - i,
    {
        proof { assert(v@.take(i + 1) =~= v@.take(i as int).push(v@[i as int])); }
        out.push(v[i]);
        i = i + 1;
    }
    proof { assert(v@.take(i as int) =~= v@); }
    out
}

impl PlanetInfo {
    /// Nothing known yet.
    pub fn new() -> (p: PlanetInfo)
        ensures
            p.gen_recipes is None,
            p.comb_recipes is None,
            p.kind is None,
            p.neighbours is None,
    {
        PlanetInfo { gen_recipes: None, comb_recipes: None, kind: None, neighbours: None }
    }

    pub fn can_generate(&self, r: BasicResourceType) -> (b: bool)
        ensures
            b == spec_can_generate(*self, r),
    {
        match &self.gen_recipes {
            Some(s) => s.contains(r),
            None => false,
        }
    }

    pub fn can_combine(&self, r: ComplexResourceType) -> (b: bool)
        ensures
            b == spec_can_combine(*self, r),
    {
        match &self.comb_recipes {
            Some(s) => s.contains(r),
            None => false,
        }
    }

    pub fn is_fully_known(&self) -> (b: bool)
        ensures
            b == spec_fully_known(*self),
    {
        self.gen_recipes.is_some() && self.comb_recipes.is_some() && self.kind.is_some() && self.neighbours.is_some()
    }

    pub fn is_dangerous(&self) -> (b: bool)
        ensures
            b == spec_dangerous(*self),
    {
        match self.kind {
            Some(GamePlanetType::B) => true,
            Some(GamePlanetType::D) => true,
            _ => false,
        }
    }

    /// A copy of what is known.
    pub fn duplicate(&self) -> (p: PlanetInfo)
        ensures
            p.gen_recipes == self.gen_recipes,
            p.comb_recipes == self.comb_recipes,
            p.kind == self.kind,
            match (p.neighbours, self.neighbours) {
                (Some(a), Some(b)) => a@ == b@,
                (None, None) => true,
                _ => false,
            },
    {
        PlanetInfo {
            gen_recipes: self.gen_recipes,
            comb_recipes: self.comb_recipes,
            kind: self.kind,
            neighbours: match &self.neighbours {
                Some(ns) => Some(copy_ids(ns)),
                None => None,
            },
        }
    }

    /// Drops the facts picked: the generation recipes, the combination
    /// recipes, the neighbours. The kind is never forgotten.
    pub fn forget_fields(&mut self, drop_gen: bool, drop_comb: bool, drop_neighbours: bool)
        ensures
            final(self).gen_recipes == if drop_gen { None } else { old(self).gen_recipes },
            final(self).comb_recipes == if drop_comb { None } else { old(self).comb_recipes },
            final(self).neighbours == if drop_neighbours { None } else { old(self).neighbours },
            final(self).kind == old(self).kind,
    {
        if drop_gen {
            self.gen_recipes = None;
        }
        if drop_comb {
            self.comb_recipes = None;
        }
        if drop_neighbours {
            self.neighbours = None;
        }
    }

    /// Forgets each fact (generation recipes, combination recipes,
    /// neighbours) with a chance of one in five; the kind stays.
    pub fn forget_random(&mut self)
        ensures
            final(self).gen_recipes == old(self).gen_recipes || final(self).gen_recipes is None,
            final(self).comb_recipes == old(self).comb_recipes || final(self).comb_recipes is None,
            final(self).neighbours == old(self).neighbours || final(self).neighbours is None,
            final(self).kind == old(self).kind,
    {
        let drop_gen = gen_ratio(1, 5);
        let drop_comb = gen_ratio(1, 5);
        let drop_neighbours = gen_ratio(1, 5);
        self.forget_fields(drop_gen, drop_comb, drop_neighbours);
    }
}

// =========================================================================
// STATES AND OBJECTIVES
// =========================================================================

/// What Eleanor is doing about her knowledge of the current planet.
#[derive(Clone, Copy, Debug, PartialEq, Eq, Structural)]
pub enum KnowledgeState {
    Unknowing,
    DeducingPlanetType,
    NeedGenerationRecipes,
    NeedCombinationRecipes,
    NeedNeighbours,
    Amnesiac,
    Deciding,
}

/// One entry of Eleanor's objective stack.
#[derive(Clone, Copy, Debug, PartialEq, Eq)]
pub enum Objective {
    Produce(ComplexResourceType),
    GatherBasic(BasicResourceType),
    CombineInto(ComplexResourceType),
    FindGeneratorFor(BasicResourceType),
    FindCombinerFor(ComplexResourceType),
    Relocate(u32),
}

/// What Eleanor asks of her explorer after a step.
#[derive(Clone, Copy, Debug, PartialEq, Eq)]
pub enum EleanorRequest {
    DiscoverResources,
    DiscoverCombinations,
    RequestNeighbours,
    Generate(BasicResourceType),
    Combine(ComplexResourceType),
    Travel(u32),
    Nothing,
}

/// The answer to a request.
pub enum EleanorReply {
    /// The generation recipes, when they were learned.
    Resources(Option<BasicSet>),
    /// The combination recipes, when they were learned.
    Combinations(Option<ComplexSet>),
    /// The neighbours, when they were learned.
    Neighbours(Option<Vec<u32>>),
    /// The bag after a successful generation, or `None` when it failed.
    Generated(Option<BagSnapshot>),
    /// The bag after a successful combination, or `None` when it failed.
    Combined(Option<BagSnapshot>),
    /// Whether the travel to the planet reached it.
    Travelled(bool),
}

// =========================================================================
// SPECIFICATIONS OF THE OBJECTIVE STACK
// =========================================================================

pub open spec fn has_basic(inv: BagSnapshot, r: BasicResourceType) -> bool {
    count_of(inv, r) > 0
}

pub open spec fn has_complex(inv: BagSnapshot, r: ComplexResourceType) -> bool {
    complex_count_of(inv, r) > 0
}

pub open spec fn push_if(cond: bool, o: Objective) -> Seq<Objective> {
    if cond { seq![o] } else { Seq::empty() }
}

/// How many carbon a diamond still needs.
pub open spec fn carbon_missing(inv: BagSnapshot) -> nat {
    if count_of(inv, BasicResourceType::Carbon) >= 2 { 0 } else { (2 - count_of(inv, BasicResourceType::Carbon)) as nat }
}

/// What producing `target` pushes on the stack: combining it, and on top
/// the ingredients the bag lacks.
pub open spec fn recipe_tree(target: ComplexResourceType, inv: BagSnapshot) -> Seq<Objective> {
    seq![Objective::CombineInto(target)] + match target {
        ComplexResourceType::Water =>
            push_if(!has_basic(inv, BasicResourceType::Hydrogen), Objective::GatherBasic(BasicResourceType::Hydrogen))
            + push_if(!has_basic(inv, BasicResourceType::Oxygen), Objective::GatherBasic(BasicResourceType::Oxygen)),
        ComplexResourceType::Diamond =>
            Seq::new(carbon_missing(inv), |i: int| Objective::GatherBasic(BasicResourceType::Carbon)),
        ComplexResourceType::Life =>
            push_if(!has_complex(inv, ComplexResourceType::Water), Objective::Produce(ComplexResourceType::Water))
            + push_if(!has_basic(inv, BasicResourceType::Carbon), Objective::GatherBasic(BasicResourceType::Carbon)),
        ComplexResourceType::Robot =>
            push_if(!has_complex(inv, ComplexResourceType::Life), Objective::Produce(ComplexResourceType::Life))
            + push_if(!has_basic(inv, BasicResourceType::Silicon), Objective::GatherBasic(BasicResourceType::Silicon)),
        ComplexResourceType::Dolphin =>
            push_if(!has_complex(inv, ComplexResourceType::Water), Objective::Produce(ComplexResourceType::Water))
            + push_if(!has_complex(inv, ComplexResourceType::Life), Objective::Produce(ComplexResourceType::Life)),
        ComplexResourceType::AIPartner =>
            push_if(!has_complex(inv, ComplexResourceType::Robot), Objective::Produce(ComplexResourceType::Robot))
            + push_if(!has_complex(inv, ComplexResourceType::Diamond), Objective::Produce(ComplexResourceType::Diamond)),
    }
}

/// The objective that obtains a resource of kind `t`: gathering a basic
/// one, producing a complex one.
pub open spec fn obtain(t: ResourceType) -> Objective {
    match t {
        ResourceType::Basic(b) => Objective::GatherBasic(b),
        ResourceType::Complex(c) => Objective::Produce(c),
    }
}

/// How many times `o` occurs in `s`.
pub open spec fn occurrences(s: Seq<Objective>, o: Objective) -> nat
    decreases s.len(),
{
    if s.len() == 0 { 0 } else { occurrences(s.drop_last(), o) + if s.last() == o { 1nat } else { 0nat } }
}

/// What a recipe still needs of kind `t` beyond what the bag holds.
pub open spec fn shortfall(need: nat, held: nat) -> nat {
    if need > held { (need - held) as nat } else { 0 }
}

proof fn lemma_two_objectives(target: ComplexResourceType, inv: BagSnapshot, p: ResourceType, q: ResourceType, a: bool, b: bool)
    requires
        recipe_tree(target, inv) == seq![Objective::CombineInto(target)] + (push_if(a, obtain(p)) + push_if(b, obtain(q))),
        (p == recipe(target).0 && q == recipe(target).1) || (p == recipe(target).1 && q == recipe(target).0),
        p != q,
        a == (held_in(inv, p) == 0),
        b == (held_in(inv, q) == 0),
        uses(target, p) == 1,
        uses(target, q) == 1,
    ensures
        forall|k: int| 1 <= k < recipe_tree(target, inv).len() ==>
            #[trigger] recipe_tree(target, inv)[k] == obtain(recipe(target).0)
            || recipe_tree(target, inv)[k] == obtain(recipe(target).1),
        forall|t: ResourceType| occurrences(recipe_tree(target, inv).drop_first(), #[trigger] obtain(t))
            == shortfall(uses(target, t), held_in(inv, t)),
{
    reveal_with_fuel(occurrences, 3);
    let x = obtain(p);
    let y = obtain(q);
    let rest = push_if(a, x) + push_if(b, y);
    assert(recipe_tree(target, inv).drop_first() =~= rest);
    assert(x != y);
    assert forall|t: ResourceType| occurrences(rest, #[trigger] obtain(t)) == shortfall(uses(target, t), held_in(inv, t)) by {
        if a && b {
            assert(rest =~= seq![x, y]);
            assert(rest.drop_last() =~= seq![x]);
        } else if a {
            assert(rest =~= seq![x]);
        } else if b {
            assert(rest =~= seq![y]);
        } else {
            assert(rest =~= Seq::<Objective>::empty());
        }
    }
    if a && b {
        assert(rest =~= seq![x, y]);
    } else if a {
        assert(rest =~= seq![x]);
    } else if b {
        assert(rest =~= seq![y]);
    } else {
        assert(rest =~= Seq::<Objective>::empty());
    }
}

/// Producing `target` pushes its combination, and above it exactly what
/// the bag lacks of the ingredients of its recipe: one objective per
/// missing unit, gathering a basic ingredient or producing a complex one,
/// and nothing else.
pub proof fn lemma_recipe_tree_obtains_missing(target: ComplexResourceType, inv: BagSnapshot, t: ResourceType)
    ensures
        recipe_tree(target, inv)[0] == Objective::CombineInto(target),
        forall|k: int| 1 <= k < recipe_tree(target, inv).len() ==>
            #[trigger] recipe_tree(target, inv)[k] == obtain(recipe(target).0)
            || recipe_tree(target, inv)[k] == obtain(recipe(target).1),
        occurrences(recipe_tree(target, inv).drop_first(), obtain(t)) == shortfall(uses(target, t), held_in(inv, t)),
{
    reveal_with_fuel(occurrences, 3);
    let rest = recipe_tree(target, inv).drop_first();
    assert(recipe_tree(target, inv)[0] == Objective::CombineInto(target));
    match target {
        ComplexResourceType::Diamond => {
            let g = Objective::GatherBasic(BasicResourceType::Carbon);
            let m = carbon_missing(inv);
            assert(rest =~= Seq::new(m, |i: int| g));
            if m == 0 {
                assert(rest =~= Seq::<Objective>::empty());
            } else if m == 1 {
                assert(rest =~= seq![g]);
            } else {
                assert(rest =~= seq![g, g]);
                assert(rest.drop_last() =~= seq![g]);
            }
        },
        ComplexResourceType::Water => lemma_two_objectives(target, inv,
            ResourceType::Basic(BasicResourceType::Hydrogen), ResourceType::Basic(BasicResourceType::Oxygen),
            !has_basic(inv, BasicResourceType::Hydrogen), !has_basic(inv, BasicResourceType::Oxygen)),
        ComplexResourceType::Life => lemma_two_objectives(target, inv,
            ResourceType::Complex(ComplexResourceType::Water), ResourceType::Basic(BasicResourceType::Carbon),
            !has_complex(inv, ComplexResourceType::Water), !has_basic(inv, BasicResourceType::Carbon)),
        ComplexResourceType::Robot => lemma_two_objectives(target, inv,
            ResourceType::Complex(ComplexResourceType::Life), ResourceType::Basic(BasicResourceType::Silicon),
            !has_complex(inv, ComplexResourceType::Life), !has_basic(inv, BasicResourceType::Silicon)),
        ComplexResourceType::Dolphin => lemma_two_objectives(target, inv,
            ResourceType::Complex(ComplexResourceType::Water), ResourceType::Complex(ComplexResourceType::Life),
            !has_complex(inv, ComplexResourceType::Water), !has_complex(inv, ComplexResourceType::Life)),
        ComplexResourceType::AIPartner => lemma_two_objectives(target, inv,
            ResourceType::Complex(ComplexResourceType::Robot), ResourceType::Complex(ComplexResourceType::Diamond),
            !has_complex(inv, ComplexResourceType::Robot), !has_complex(inv, ComplexResourceType::Diamond)),
    }
}

/// The stack after abandoning the current sub-tree: everything down to and
/// including the nearest `Produce`, or everything when there is none.
pub open spec fn aborted(objs: Seq<Objective>) -> Seq<Objective>
    decreases objs.len(),
{
    if objs.len() == 0 {
        objs
    } else if objs.last() is Produce {
        objs.drop_last()
    } else {
        aborted(objs.drop_last())
    }
}

/// `a + b`, wrapping at the width of `usize`.
pub open spec fn wrap_add(a: nat, b: nat) -> nat {
    if a + b > usize::MAX { (a + b - usize::MAX - 1) as nat } else { a + b }
}

/// The index drawn for a new objective from the current planet and the bag.
pub open spec fn objective_seed(current: u32, inv: BagSnapshot) -> nat {
    wrap_add(wrap_add(current as nat, count_of(inv, BasicResourceType::Carbon)),
        complex_count_of(inv, ComplexResourceType::Water)) % 13
}

/// The complex resource chosen for a new objective, weighted 3, 3, 2, 2, 2,
/// 1 for water, diamond, life, robot, dolphin, AI partner.
pub open spec fn weighted_objective(seed: nat) -> ComplexResourceType {
    if seed < 3 { ComplexResourceType::Water }
    else if seed < 6 { ComplexResourceType::Diamond }
    else if seed < 8 { ComplexResourceType::Life }
    else if seed < 10 { ComplexResourceType::Robot }
    else if seed < 12 { ComplexResourceType::Dolphin }
    else { ComplexResourceType::AIPartner }
}

/// The kind Eleanor deduces from a planet's recipe lists.
pub open spec fn deduced_kind(gen_count: nat, comb_count: nat) -> GamePlanetType {
    if comb_count == 0 {
        if gen_count > 1 { GamePlanetType::D } else { GamePlanetType::A }
    } else if comb_count > 1 {
        GamePlanetType::C
    } else {
        GamePlanetType::B
    }
}

/// The state that follows `Amnesiac` for what is known of the current
/// planet.
pub open spec fn after_amnesia(info: Option<PlanetInfo>) -> KnowledgeState {
    match info {
        None => KnowledgeState::Unknowing,
        Some(p) => if spec_fully_known(p) {
            KnowledgeState::Deciding
        } else if p.gen_recipes is None {
            KnowledgeState::NeedGenerationRecipes
        } else if p.comb_recipes is None {
            KnowledgeState::NeedCombinationRecipes
        } else if p.neighbours is None {
            KnowledgeState::NeedNeighbours
        } else {
            KnowledgeState::DeducingPlanetType
        },
    }
}

// =========================================================================
// ELEANOR
// =========================================================================

/// Eleanor's knowledge, knowledge state and objective stack.
pub struct Eleanor {
    current_planet: u32,
    planets_info: IdMap<PlanetInfo>,
    inventory: BagSnapshot,
    knowledge_state: KnowledgeState,
    objectives: Vec<Objective>,
}

impl Eleanor {
    /// The states that act on the current planet find what they need of it.
    pub closed spec fn wf(self) -> bool {
        &&& self.planets_info.wf()
        &&& self.knowledge_state == KnowledgeState::DeducingPlanetType ==> self.info_map().contains_key(self.current_planet)
            && self.info_map()[self.current_planet].gen_recipes is Some
            && self.info_map()[self.current_planet].comb_recipes is Some
        &&& (self.knowledge_state == KnowledgeState::NeedGenerationRecipes
            || self.knowledge_state == KnowledgeState::NeedCombinationRecipes
            || self.knowledge_state == KnowledgeState::NeedNeighbours)
            ==> self.info_map().contains_key(self.current_planet)
        &&& self.knowledge_state == KnowledgeState::Deciding && self.info_map().contains_key(self.current_planet)
            ==> spec_fully_known(self.info_map()[self.current_planet])
    }

    pub closed spec fn info_map(self) -> Map<u32, PlanetInfo> {
        self.planets_info@
    }

    pub closed spec fn info_order(self) -> Seq<u32> {
        self.planets_info.order()
    }

    pub closed spec fn spec_current(self) -> u32 {
        self.current_planet
    }

    pub closed spec fn spec_inventory(self) -> BagSnapshot {
        self.inventory
    }

    pub closed spec fn spec_state(self) -> KnowledgeState {
        self.knowledge_state
    }

    pub closed spec fn stack(self) -> Seq<Objective> {
        self.objectives@
    }

    /// Eleanor on `current_planet` with this bag, knowing nothing.
    pub fn new(current_planet: u32, inventory: BagSnapshot) -> (e: Eleanor)
        ensures
            e.wf(),
            e.spec_current() == current_planet,
            e.spec_inventory() == inventory,
            e.info_map() == Map::<u32, PlanetInfo>::empty(),
            e.spec_state() == KnowledgeState::Unknowing,
            e.stack() == Seq::<Objective>::empty(),
    {
        Eleanor {
            current_planet,
            planets_info: IdMap::new(),
            inventory,
            knowledge_state: KnowledgeState::Unknowing,
            objectives: Vec::new(),
        }
    }

    /// Starts over on `current_planet` with this bag.
    pub fn reset(&mut self, current_planet: u32, inventory: BagSnapshot)
        ensures
            final(self).wf(),
            final(self).spec_current() == current_planet,
            final(self).spec_inventory() == inventory,
            final(self).info_map() == Map::<u32, PlanetInfo>::empty(),
            final(self).spec_state() == KnowledgeState::Unknowing,
            final(self).stack() == Seq::<Objective>::empty(),
    {
        *self = Eleanor::new(current_planet, inventory);
    }

    /// Whether Eleanor knows anything of the planet she is on.
    pub fn knows_current(&self) -> (b: bool)
        requires
            self.wf(),
        ensures
            b == self.info_map().contains_key(self.spec_current()),
    {
        self.planets_info.contains_key(self.current_planet)
    }

    // ---------------------------------------------------------------------
    // RECIPE TREE AND OBJECTIVES
    // ---------------------------------------------------------------------

    fn push_recipe_tree(&mut self, target: ComplexResourceType)
        ensures
            final(self).stack() == old(self).stack() + recipe_tree(target, old(self).spec_inventory()),
            final(self).current_planet == old(self).current_planet,
            final(self).planets_info == old(self).planets_info,
            final(self).inventory == old(self).inventory,
            final(self).knowledge_state == old(self).knowledge_state,
    {
        let ghost o = self.objectives@;
        let inv = self.inventory;
        self.objectives.push(Objective::CombineInto(target));
        match target {
            ComplexResourceType::Water => {
                if !(inv.get_basic_count(BasicResourceType::Hydrogen) > 0) {
                    self.objectives.push(Objective::GatherBasic(BasicResourceType::Hydrogen));
                }
                if !(inv.get_basic_count(BasicResourceType::Oxygen) > 0) {
                    self.objectives.push(Objective::GatherBasic(BasicResourceType::Oxygen));
                }
            },
            ComplexResourceType::Diamond => {
                let have = inv.get_basic_count(BasicResourceType::Carbon);
                let missing: usize = if have >= 2 { 0 } else { 2 - have };
                let ghost base = self.objectives@;
                let mut k: usize = 0;
                while k < missing
                    invariant
                        k <= missing,
                        missing == carbon_missing(inv),
                        self.current_planet == old(self).current_planet,
                        self.planets_info == old(self).planets_info,
                        self.inventory == old(self).inventory,
                        self.knowledge_state == old(self).knowledge_state,
                        self.objectives@ == base + Seq::new(k as nat, |i: int| Objective::GatherBasic(BasicResourceType::Carbon)),
                    decreases missing - k,
                {
                    self.objectives.push(Objective::GatherBasic(BasicResourceType::Carbon));
                    proof {
                        assert(base + Seq::new((k + 1) as nat, |i: int| Objective::GatherBasic(BasicResourceType::Carbon))
                            =~= (base + Seq::new(k as nat, |i: int| Objective::GatherBasic(BasicResourceType::Carbon)))
                                .push(Objective::GatherBasic(BasicResourceType::Carbon)));
                    }
                    k = k + 1;
                }
            },
            ComplexResourceType::Life => {
                if !(inv.get_complex_count(ComplexResourceType::Water) > 0) {
                    self.objectives.push(Objective::Produce(ComplexResourceType::Water));
                }
                if !(inv.get_basic_count(BasicResourceType::Carbon) > 0) {
                    self.objectives.push(Objective::GatherBasic(BasicResourceType::Carbon));
                }
            },
            ComplexResourceType::Robot => {
                if !(inv.get_complex_count(ComplexResourceType::Life) > 0) {
                    self.objectives.push(Objective::Produce(ComplexResourceType::Life));
                }
                if !(inv.get_basic_count(BasicResourceType::Silicon) > 0) {
                    self.objectives.push(Objective::GatherBasic(BasicResourceType::Silicon));
                }
            },
            ComplexResourceType::Dolphin => {
                if !(inv.get_complex_count(ComplexResourceType::Water) > 0) {
                    self.objectives.push(Objective::Produce(ComplexResourceType::Water));
                }
                if !(inv.get_complex_count(ComplexResourceType::Life) > 0) {
                    self.objectives.push(Objective::Produce(ComplexResourceType::Life));
                }
            },
            ComplexResourceType::AIPartner => {
                if !(inv.get_complex_count(ComplexResourceType::Robot) > 0) {
                    self.objectives.push(Objective::Produce(ComplexResourceType::Robot));
                }
                if !(inv.get_complex_count(ComplexResourceType::Diamond) > 0) {
                    self.objectives.push(Objective::Produce(ComplexResourceType::Diamond));
                }
            },
        }
        proof {
            assert(self.objectives@ =~= o + recipe_tree(target, inv));
        }
    }

    /// Pushes a new objective to produce a complex resource, drawn from the
    /// current planet and the bag.
    fn push_random_objective(&mut self)
        ensures
            final(self).stack() == old(self).stack().push(
                Objective::Produce(weighted_objective(objective_seed(old(self).spec_current(), old(self).spec_inventory())))),
            final(self).current_planet == old(self).current_planet,
            final(self).planets_info == old(self).planets_info,
            final(self).inventory == old(self).inventory,
            final(self).knowledge_state == old(self).knowledge_state,
    {
        let total: usize = 13;
        let seed = (self.current_planet as usize)
            .wrapping_add(self.inventory.get_basic_count(BasicResourceType::Carbon))
            .wrapping_add(self.inventory.get_complex_count(ComplexResourceType::Water)) % total;
        let choice = if seed < 3 {
            ComplexResourceType::Water
        } else if seed < 6 {
            ComplexResourceType::Diamond
        } else if seed < 8 {
            ComplexResourceType::Life
        } else if seed < 10 {
            ComplexResourceType::Robot
        } else if seed < 12 {
            ComplexResourceType::Dolphin
        } else {
            ComplexResourceType::AIPartner
        };
        self.objectives.push(Objective::Produce(choice));
    }

    /// Abandons the current sub-tree of objectives.
    fn abort_current_objective(&mut self)
        ensures
            final(self).stack() == aborted(old(self).stack()),
            final(self).current_planet == old(self).current_planet,
            final(self).planets_info == old(self).planets_info,
            final(self).inventory == old(self).inventory,
            final(self).knowledge_state == old(self).knowledge_state,
    {
        while self.objectives.len() > 0
            invariant_except_break
                aborted(self.objectives@) == aborted(old(self).stack()),
            invariant
                self.current_planet == old(self).current_planet,
                self.planets_info == old(self).planets_info,
                self.inventory == old(self).inventory,
                self.knowledge_state == old(self).knowledge_state,
            ensures
                self.objectives@ == aborted(old(self).stack()),
                self.current_planet == old(self).current_planet,
                self.planets_info == old(self).planets_info,
                self.inventory == old(self).inventory,
                self.knowledge_state == old(self).knowledge_state,
            decreases self.objectives@.len(),
        {
            let ghost before = self.objectives@;
            let top = self.objectives.pop();
            proof {
                assert(before.drop_last() =~= self.objectives@);
                assert(top == Some(before.last()));
            }
            match top {
                Some(Objective::Produce(_)) => {
                    break;
                },
                _ => {},
            }
        }
    }

    // ---------------------------------------------------------------------
    // SEARCHES
    // ---------------------------------------------------------------------

    /// A planet known to generate `r`: the first safe one, else the first
    /// one at all.
    pub fn find_planet_that_generates(&self, r: BasicResourceType) -> (found: Option<u32>)
        requires
            self.wf(),
        ensures
            found == spec_find_generator(self.info_map(), self.info_order(), r),
    {
        let ghost p = safe_generator(self.info_map(), r);
        let ghost q = generator(self.info_map(), r);
        let mut fallback: Option<u32> = None;
        let mut i: usize = 0;
        while i < self.planets_info.len()
            invariant
                self.wf(),
                p == safe_generator(self.info_map(), r),
                q == generator(self.info_map(), r),
                i <= self.info_order().len(),
                forall|j: int| 0 <= j < i ==> !p(#[trigger] self.info_order()[j]),
                first_in(self.info_order().take(i as int), q, fallback),
            decreases self.info_order().len() - i,
        {
            let id = self.planets_info.key_at(i);
            let info = self.planets_info.value_at(i);
            proof {
                let t = self.info_order().take(i + 1);
                assert(t[i as int] == id);
                assert forall|j: int| 0 <= j < i implies t[j] == self.info_order().take(i as int)[j] by {}
            }
            if info.can_generate(r) {
                if info.is_dangerous() {
                    if fallback.is_none() {
                        fallback = Some(id);
                        proof {
                            let t = self.info_order().take(i + 1);
                            assert(t[i as int] == id && q(id));
                        }
                    } else {
                        proof {
                            let t = self.info_order().take(i + 1);
                            let x = fallback->0;
                            let w = choose|w: int| 0 <= w < i && self.info_order().take(i as int)[w] == x && q(x)
                                && forall|j: int| 0 <= j < w ==> !q(#[trigger] self.info_order().take(i as int)[j]);
                            assert(t[w] == x);
                        }
                    }
                } else {
                    proof {
                        assert(self.info_order()[i as int] == id && p(id));
                        assert(first_in(self.info_order(), p, Some(id)));
                        lemma_first_unique(self.info_order(), p, Some(id));
                    }
                    return Some(id);
                }
            } else {
                proof {
                    let t = self.info_order().take(i + 1);
                    if fallback is Some {
                        let x = fallback->0;
                        let w = choose|w: int| 0 <= w < i && self.info_order().take(i as int)[w] == x && q(x)
                            && forall|j: int| 0 <= j < w ==> !q(#[trigger] self.info_order().take(i as int)[j]);
                        assert(t[w] == x);
                    }
                }
            }
            i = i + 1;
        }
        proof {
            assert(self.info_order().take(i as int) =~= self.info_order());
            assert(first_in(self.info_order(), p, None));
            lemma_first_unique(self.info_order(), p, None);
            lemma_first_unique(self.info_order(), q, fallback);
        }
        fallback
    }

    /// The first planet known to combine `r`.
    pub fn find_planet_that_combines(&self, r: ComplexResourceType) -> (found: Option<u32>)
        requires
            self.wf(),
        ensures
            found == first_of(self.info_order(), combiner(self.info_map(), r)),
    {
        let ghost p = combiner(self.info_map(), r);
        let mut i: usize = 0;
        while i < self.planets_info.len()
            invariant
                self.wf(),
                p == combiner(self.info_map(), r),
                i <= self.info_order().len(),
                forall|j: int| 0 <= j < i ==> !p(#[trigger] self.info_order()[j]),
            decreases self.info_order().len() - i,
        {
            let id = self.planets_info.key_at(i);
            if self.planets_info.value_at(i).can_combine(r) {
                proof {
                    assert(self.info_order()[i as int] == id && p(id));
                    lemma_first_unique(self.info_order(), p, Some(id));
                }
                return Some(id);
            }
            i = i + 1;
        }
        proof { lemma_first_unique(self.info_order(), p, None); }
        None
    }

    /// The first neighbour of the current planet that is not fully known,
    /// else its first neighbour; `None` when the current planet is unknown
    /// or has no neighbours.
    pub fn pick_unexplored_neighbour(&self) -> (found: Option<u32>)
        requires
            self.wf(),
            self.info_map().contains_key(self.spec_current()) ==> self.info_map()[self.spec_current()].neighbours is Some,
        ensures
            found == spec_pick_unexplored(self.info_map(), self.spec_current()),
    {
        match self.planets_info.get(self.current_planet) {
            None => None,
            Some(info) => {
                proof { assert(*info == self.info_map()[self.spec_current()]); }
                let ns = match &info.neighbours {
                    Some(ns) => ns,
                    None => { return None; },
                };
                proof { assert(ns@ == self.info_map()[self.spec_current()].neighbours->0@); }
                let ghost p = unexplored(self.info_map());
                let mut i: usize = 0;
                while i < ns.len()
                    invariant
                        self.wf(),
                        self.info_map().contains_key(self.spec_current()),
                        self.info_map()[self.spec_current()].neighbours is Some,
                        ns@ == self.info_map()[self.spec_current()].neighbours->0@,
                        p == unexplored(self.info_map()),
                        i <= ns@.len(),
                        forall|j: int| 0 <= j < i ==> !p(#[trigger] ns@[j]),
                    decreases ns@.len() - i,
                {
                    let n = ns[i];
                    let unexplored = match self.planets_info.get(n) {
                        Some(other) => !other.is_fully_known(),
                        None => true,
                    };
                    if unexplored {
                        proof {
                            assert(first_in(ns@, p, Some(n)));
                            lemma_first_unique(ns@, p, Some(n));
                        }
                        return Some(n);
                    }
                    i = i + 1;
                }
                proof {
                    assert(first_in(ns@, p, None));
                    lemma_first_unique(ns@, p, None);
                }
                if ns.len() > 0 { Some(ns[0]) } else { None }
            },
        }
    }

    // ---------------------------------------------------------------------
    // DESTROYED PLANETS
    // ---------------------------------------------------------------------

    /// A travel to `dead_planet` failed: the planet is forgotten, dropped
    /// from every neighbour list, and every relocation to it is dropped
    /// from the stack; the knowledge state, the current planet and the bag
    /// stay as they were. Forgetting the current planet while learning it
    /// leaves a state that the next step cannot use.
    pub fn on_planet_destroyed(&mut self, dead_planet: u32)
        requires
            old(self).wf(),
        ensures
            !(dead_planet == old(self).spec_current() && learns_current(old(self).spec_state())) ==> final(self).wf(),
            forgot_planet(*old(self), *final(self), dead_planet),
    {
        let _ = self.planets_info.remove(dead_planet);
        let ghost m1 = self.planets_info@;
        let mut i: usize = 0;
        while i < self.planets_info.len()
            invariant
                self.planets_info.wf(),
                self.planets_info@.dom() == m1.dom(),
                self.planets_info.order().len() == old(self).planets_info.order().len() - if old(self).info_map().contains_key(dead_planet) { 1int } else { 0int },
                i <= self.planets_info.order().len(),
                m1 == old(self).info_map().remove(dead_planet),
                forall|id: u32| #[trigger] self.planets_info@.contains_key(id) ==> {
                    let a = self.planets_info@[id];
                    let b = m1[id];
                    &&& a.gen_recipes == b.gen_recipes
                    &&& a.comb_recipes == b.comb_recipes
                    &&& a.kind == b.kind
                    &&& if self.planets_info.order().take(i as int).contains(id) {
                        match (a.neighbours, b.neighbours) {
                            (Some(x), Some(y)) => x@ == y@.filter(not_id(dead_planet)),
                            (None, None) => true,
                            _ => false,
                        }
                    } else {
                        match (a.neighbours, b.neighbours) {
                            (Some(x), Some(y)) => x@ == y@,
                            (None, None) => true,
                            _ => false,
                        }
                    }
                },
                self.current_planet == old(self).current_planet,
                self.inventory == old(self).inventory,
                self.knowledge_state == old(self).knowledge_state,
                self.objectives == old(self).objectives,
            decreases self.planets_info.order().len() - i,
        {
            let ghost order = self.planets_info.order();
            let id = self.planets_info.key_at(i);
            let info = self.planets_info.value_at(i);
            let neighbours = match &info.neighbours {
                Some(ns) => {
                    let mut kept: Vec<u32> = Vec::new();
                    let mut k: usize = 0;
                    while k < ns.len()
                        invariant
                            k <= ns@.len(),
                            kept@ == ns@.take(k as int).filter(not_id(dead_planet)),
                        decreases ns@.len() - k,
                    {
                        proof {
                            assert(ns@.take(k + 1) =~= ns@.take(k as int).push(ns@[k as int]));
                            ns@.take(k as int).lemma_filter_push(ns@[k as int], not_id(dead_planet));
                        }
                        if ns[k] != dead_planet {
                            kept.push(ns[k]);
                        }
                        k = k + 1;
                    }
                    proof { assert(ns@.take(k as int) =~= ns@); }
                    Some(kept)
                },
                None => None,
            };
            let updated = PlanetInfo {
                gen_recipes: info.gen_recipes,
                comb_recipes: info.comb_recipes,
                kind: info.kind,
                neighbours,
            };
            self.planets_info.update_at(i, updated);
            proof {
                assert forall|x: u32| #[trigger] self.planets_info@.contains_key(x) implies
                    (self.planets_info.order().take(i + 1).contains(x) <==> (order.take(i as int).contains(x) || x == id)) by {
                    if self.planets_info.order().take(i + 1).contains(x) {
                        let w = choose|w: int| 0 <= w < i + 1 && #[trigger] self.planets_info.order().take(i + 1)[w] == x;
                        if w < i {
                            assert(order.take(i as int)[w] == x);
                        }
                    }
                    if order.take(i as int).contains(x) {
                        let w = choose|w: int| 0 <= w < i && #[trigger] order.take(i as int)[w] == x;
                        assert(self.planets_info.order().take(i + 1)[w] == x);
                    }
                    if x == id {
                        assert(self.planets_info.order().take(i + 1)[i as int] == x);
                    }
                }
                self.planets_info.lemma_order_is_domain();
                assert(!order.take(i as int).contains(id)) by {
                    if order.take(i as int).contains(id) {
                        let w = choose|w: int| 0 <= w < i && #[trigger] order.take(i as int)[w] == id;
                        assert(order[w] == order[i as int]);
                    }
                }
            }
            i = i + 1;
        }
        let ghost order = self.planets_info.order();
        proof {
            assert(order.take(i as int) =~= order);
            self.planets_info.lemma_order_is_domain();
            assert(self.planets_info@.dom() =~= old(self).info_map().dom().remove(dead_planet));
            assert forall|id: u32| #[trigger] self.planets_info@.contains_key(id) implies {
                let a = self.planets_info@[id];
                let b = old(self).info_map()[id];
                &&& a.gen_recipes == b.gen_recipes
                &&& a.comb_recipes == b.comb_recipes
                &&& a.kind == b.kind
                &&& pruned(a.neighbours, b.neighbours, dead_planet)
            } by {
                assert(order.contains(id));
                assert(order.take(i as int).contains(id));
                assert(m1[id] == old(self).info_map()[id]);
            }
        }
        let mut kept: Vec<Objective> = Vec::new();
        let mut k: usize = 0;
        while k < self.objectives.len()
            invariant
                k <= self.objectives@.len(),
                self.objectives == old(self).objectives,
                kept@ == self.objectives@.take(k as int).filter(not_relocation(dead_planet)),
            decreases self.objectives@.len() - k,
        {
            let o = self.objectives[k];
            proof {
                assert(self.objectives@.take(k + 1) =~= self.objectives@.take(k as int).push(o));
                self.objectives@.take(k as int).lemma_filter_push(o, not_relocation(dead_planet));
            }
            let drop = match o {
                Objective::Relocate(id) => id == dead_planet,
                _ => false,
            };
            if !drop {
                kept.push(o);
            }
            k = k + 1;
        }
        proof { assert(self.objectives@.take(k as int) =~= self.objectives@); }
        self.objectives = kept;
        proof {
            let c = self.current_planet;
            if self.planets_info@.contains_key(c) {
                let a = self.planets_info@[c];
                let b = old(self).info_map()[c];
                assert(a.neighbours is Some <==> b.neighbours is Some);
            }
        }
    }
}


/// With nothing left to do, Eleanor's deciding step takes one new
/// objective, the production of a complex resource seeded by the planet she
/// is on and the bag she carries, and asks nothing of her explorer.
pub proof fn lemma_act_on_empty_stack(map: Map<u32, PlanetInfo>, order: Seq<u32>, current: u32, inv: BagSnapshot)
    ensures
        acted(map, order, current, inv, Seq::empty())
            == (seq![Objective::Produce(weighted_objective(objective_seed(current, inv)))], EleanorRequest::Nothing),
{
    assert(Seq::<Objective>::empty().push(Objective::Produce(weighted_objective(objective_seed(current, inv))))
        =~= seq![Objective::Produce(weighted_objective(objective_seed(current, inv)))]);
}

/// The stack and the request after acting on stack `st` from planet
/// `current`.
pub open spec fn acted(map: Map<u32, PlanetInfo>, order: Seq<u32>, current: u32, inv: BagSnapshot, st: Seq<Objective>)
    -> (Seq<Objective>, EleanorRequest)
{
    if st.len() == 0 {
        (st.push(Objective::Produce(weighted_objective(objective_seed(current, inv)))), EleanorRequest::Nothing)
    } else {
        match st.last() {
            Objective::Produce(t) => (st.drop_last() + recipe_tree(t, inv), EleanorRequest::Nothing),
            Objective::GatherBasic(r) => if map.contains_key(current) && spec_can_generate(map[current], r) {
                (st, EleanorRequest::Generate(r))
            } else if spec_find_generator(map, order, r) is None && spec_pick_unexplored(map, current) is None {
                (aborted(st), EleanorRequest::Nothing)
            } else {
                (st.push(Objective::FindGeneratorFor(r)), EleanorRequest::Nothing)
            },
            Objective::CombineInto(r) => if map.contains_key(current) && spec_can_combine(map[current], r) {
                (st, EleanorRequest::Combine(r))
            } else if first_of(order, combiner(map, r)) is None && spec_pick_unexplored(map, current) is None {
                (aborted(st), EleanorRequest::Nothing)
            } else {
                (st.push(Objective::FindCombinerFor(r)), EleanorRequest::Nothing)
            },
            Objective::FindGeneratorFor(r) => match spec_find_generator(map, order, r) {
                Some(d) => (st.drop_last().push(Objective::Relocate(d)), EleanorRequest::Nothing),
                None => match spec_pick_unexplored(map, current) {
                    Some(n) => (st.push(Objective::Relocate(n)), EleanorRequest::Nothing),
                    None => (aborted(st), EleanorRequest::Nothing),
                },
            },
            Objective::FindCombinerFor(r) => match first_of(order, combiner(map, r)) {
                Some(d) => (st.drop_last().push(Objective::Relocate(d)), EleanorRequest::Nothing),
                None => match spec_pick_unexplored(map, current) {
                    Some(n) => (st.push(Objective::Relocate(n)), EleanorRequest::Nothing),
                    None => (aborted(st), EleanorRequest::Nothing),
                },
            },
            Objective::Relocate(dst) => (st, EleanorRequest::Travel(dst)),
        }
    }
}

/// Eleanor's knowledge is unchanged from `s` to `t`.
pub open spec fn same_knowledge(s: Eleanor, t: Eleanor) -> bool {
    &&& t.info_map() == s.info_map()
    &&& t.info_order() == s.info_order()
    &&& t.spec_current() == s.spec_current()
    &&& t.spec_inventory() == s.spec_inventory()
}

/// Any id but `dead`.
pub open spec fn not_id(dead: u32) -> spec_fn(u32) -> bool {
    |n: u32| n != dead
}

/// Any objective but a relocation to `dead`.
pub open spec fn not_relocation(dead: u32) -> spec_fn(Objective) -> bool {
    |o: Objective| o != Objective::Relocate(dead)
}

/// The neighbour lists agree once `dead` is dropped from the old one.
pub open spec fn pruned(a: Option<Vec<u32>>, b: Option<Vec<u32>>, dead: u32) -> bool {
    match (a, b) {
        (Some(x), Some(y)) => x@ == y@.filter(not_id(dead)),
        (None, None) => true,
        _ => false,
    }
}

/// `t` is `s` after a travel to `dead` failed: the planet forgotten,
/// dropped from every neighbour list, and every relocation to it dropped
/// from the stack.
pub open spec fn forgot_planet(s: Eleanor, t: Eleanor, dead: u32) -> bool {
    &&& t.info_map().dom() == s.info_map().dom().remove(dead)
    &&& forall|id: u32| #[trigger] t.info_map().contains_key(id) ==> {
        let a = t.info_map()[id];
        let b = s.info_map()[id];
        &&& a.gen_recipes == b.gen_recipes
        &&& a.comb_recipes == b.comb_recipes
        &&& a.kind == b.kind
        &&& pruned(a.neighbours, b.neighbours, dead)
    }
    &&& t.stack() == s.stack().filter(not_relocation(dead))
    &&& t.spec_current() == s.spec_current()
    &&& t.spec_inventory() == s.spec_inventory()
    &&& t.spec_state() == s.spec_state()
}

/// States in which Eleanor is learning the current planet and needs what
/// she already knows of it.
pub open spec fn learns_current(st: KnowledgeState) -> bool {
    ||| st == KnowledgeState::DeducingPlanetType
    ||| st == KnowledgeState::NeedGenerationRecipes
    ||| st == KnowledgeState::NeedCombinationRecipes
    ||| st == KnowledgeState::NeedNeighbours
}

/// `info` with the facts picked dropped; the kind is kept.
pub open spec fn forget_some(info: PlanetInfo, drop_gen: bool, drop_comb: bool, drop_neighbours: bool) -> PlanetInfo {
    PlanetInfo {
        gen_recipes: if drop_gen { None } else { info.gen_recipes },
        comb_recipes: if drop_comb { None } else { info.comb_recipes },
        kind: info.kind,
        neighbours: if drop_neighbours { None } else { info.neighbours },
    }
}

/// `t` is `s` after forgetting the facts picked of the planet at position
/// `i` of the known planets.
pub open spec fn forgot_at(s: Eleanor, t: Eleanor, i: int, drop_gen: bool, drop_comb: bool, drop_neighbours: bool) -> bool {
    let victim = s.info_order()[i];
    &&& t.info_order() == s.info_order()
    &&& t.info_map() == s.info_map().insert(victim, forget_some(s.info_map()[victim], drop_gen, drop_comb, drop_neighbours))
    &&& t.spec_current() == s.spec_current()
    &&& t.spec_inventory() == s.spec_inventory()
    &&& t.stack() == s.stack()
    &&& t.spec_state() == if victim == s.spec_current() { KnowledgeState::Amnesiac } else { s.spec_state() }
}

/// Nothing known of a planet.
pub open spec fn blank_info() -> PlanetInfo {
    PlanetInfo { gen_recipes: None, comb_recipes: None, kind: None, neighbours: None }
}

/// Known to generate `res`, and not dangerous.
pub open spec fn safe_generator(map: Map<u32, PlanetInfo>, res: BasicResourceType) -> spec_fn(u32) -> bool {
    |id: u32| spec_can_generate(map[id], res) && !spec_dangerous(map[id])
}

/// Known to generate `res`.
pub open spec fn generator(map: Map<u32, PlanetInfo>, res: BasicResourceType) -> spec_fn(u32) -> bool {
    |id: u32| spec_can_generate(map[id], res)
}

/// Known to combine `res`.
pub open spec fn combiner(map: Map<u32, PlanetInfo>, res: ComplexResourceType) -> spec_fn(u32) -> bool {
    |id: u32| spec_can_combine(map[id], res)
}

/// Unknown, or not fully known.
pub open spec fn unexplored(map: Map<u32, PlanetInfo>) -> spec_fn(u32) -> bool {
    |n: u32| !map.contains_key(n) || !spec_fully_known(map[n])
}

/// The planet Eleanor goes to for `res`: the first safe generator she
/// knows, else the first generator.
pub open spec fn spec_find_generator(map: Map<u32, PlanetInfo>, order: Seq<u32>, res: BasicResourceType) -> Option<u32> {
    match first_of(order, safe_generator(map, res)) {
        Some(x) => Some(x),
        None => first_of(order, generator(map, res)),
    }
}

/// The neighbour Eleanor explores next from `current`: the first one not
/// fully known, else the first one.
pub open spec fn spec_pick_unexplored(map: Map<u32, PlanetInfo>, current: u32) -> Option<u32> {
    if !map.contains_key(current) || map[current].neighbours is None {
        None
    } else {
        let ns = map[current].neighbours->0@;
        match first_of(ns, unexplored(map)) {
            Some(x) => Some(x),
            None => if ns.len() > 0 { Some(ns[0]) } else { None },
        }
    }
}


impl Eleanor {
    /// Acts on the top of the objective stack.
    fn act(&mut self) -> (req: EleanorRequest)
        requires
            old(self).wf(),
            old(self).spec_state() == KnowledgeState::Deciding,
        ensures
            same_knowledge(*old(self), *final(self)),
            final(self).planets_info == old(self).planets_info,
            final(self).spec_state() == old(self).spec_state(),
            (final(self).stack(), req) == acted(old(self).info_map(), old(self).info_order(), old(self).spec_current(),
                old(self).spec_inventory(), old(self).stack()),
    {
        let n = self.objectives.len();
        if n == 0 {
            self.push_random_objective();
            return EleanorRequest::Nothing;
        }
        let objective = self.objectives[n - 1];
        proof { assert(objective == self.stack().last()); }
        match objective {
            Objective::Produce(target) => {
                let _ = self.objectives.pop();
                self.push_recipe_tree(target);
                EleanorRequest::Nothing
            },
            Objective::GatherBasic(resource) => {
                let here = match self.planets_info.get(self.current_planet) {
                    Some(info) => info.can_generate(resource),
                    None => false,
                };
                if here {
                    EleanorRequest::Generate(resource)
                } else if self.find_planet_that_generates(resource).is_none() && self.pick_unexplored_neighbour().is_none() {
                    self.abort_current_objective();
                    EleanorRequest::Nothing
                } else {
                    self.objectives.push(Objective::FindGeneratorFor(resource));
                    EleanorRequest::Nothing
                }
            },
            Objective::CombineInto(resource) => {
                let here = match self.planets_info.get(self.current_planet) {
                    Some(info) => info.can_combine(resource),
                    None => false,
                };
                if here {
                    EleanorRequest::Combine(resource)
                } else if self.find_planet_that_combines(resource).is_none() && self.pick_unexplored_neighbour().is_none() {
                    self.abort_current_objective();
                    EleanorRequest::Nothing
                } else {
                    self.objectives.push(Objective::FindCombinerFor(resource));
                    EleanorRequest::Nothing
                }
            },
            Objective::FindGeneratorFor(resource) => {
                match self.find_planet_that_generates(resource) {
                    Some(dst) => {
                        let _ = self.objectives.pop();
                        self.objectives.push(Objective::Relocate(dst));
                    },
                    None => match self.pick_unexplored_neighbour() {
                        Some(next) => self.objectives.push(Objective::Relocate(next)),
                        None => self.abort_current_objective(),
                    },
                }
                EleanorRequest::Nothing
            },
            Objective::FindCombinerFor(resource) => {
                match self.find_planet_that_combines(resource) {
                    Some(dst) => {
                        let _ = self.objectives.pop();
                        self.objectives.push(Objective::Relocate(dst));
                    },
                    None => match self.pick_unexplored_neighbour() {
                        Some(next) => self.objectives.push(Objective::Relocate(next)),
                        None => self.abort_current_objective(),
                    },
                }
                EleanorRequest::Nothing
            },
            Objective::Relocate(dst) => EleanorRequest::Travel(dst),
        }
    }

    /// One step of Eleanor's knowledge state machine: learns what it can
    /// without asking, or says what to ask; acting on the objectives once
    /// the current planet is fully known.
    pub fn decide(&mut self) -> (req: EleanorRequest)
        requires
            old(self).wf(),
        ensures
            final(self).wf(),
            match old(self).spec_state() {
                KnowledgeState::Unknowing => {
                    &&& req == EleanorRequest::Nothing
                    &&& final(self).info_map() == old(self).info_map().insert(old(self).spec_current(), blank_info())
                    &&& final(self).spec_current() == old(self).spec_current()
                    &&& final(self).spec_inventory() == old(self).spec_inventory()
                    &&& final(self).stack() == old(self).stack()
                    &&& final(self).spec_state() == KnowledgeState::Amnesiac
                },
                KnowledgeState::DeducingPlanetType => {
                    let info = old(self).info_map()[old(self).spec_current()];
                    &&& req == EleanorRequest::Nothing
                    &&& final(self).info_map() == old(self).info_map().insert(old(self).spec_current(),
                        PlanetInfo { kind: Some(deduced_kind(info.gen_recipes->0@.len(), info.comb_recipes->0@.len())), ..info })
                    &&& final(self).info_order() == old(self).info_order()
                    &&& final(self).spec_current() == old(self).spec_current()
                    &&& final(self).spec_inventory() == old(self).spec_inventory()
                    &&& final(self).stack() == old(self).stack()
                    &&& final(self).spec_state() == KnowledgeState::Amnesiac
                },
                KnowledgeState::NeedGenerationRecipes => req == EleanorRequest::DiscoverResources
                    && same_knowledge(*old(self), *final(self)) && final(self).stack() == old(self).stack()
                    && final(self).spec_state() == KnowledgeState::Amnesiac,
                KnowledgeState::NeedCombinationRecipes => req == EleanorRequest::DiscoverCombinations
                    && same_knowledge(*old(self), *final(self)) && final(self).stack() == old(self).stack()
                    && final(self).spec_state() == KnowledgeState::Amnesiac,
                KnowledgeState::NeedNeighbours => req == EleanorRequest::RequestNeighbours
                    && same_knowledge(*old(self), *final(self)) && final(self).stack() == old(self).stack()
                    && final(self).spec_state() == KnowledgeState::Amnesiac,
                KnowledgeState::Amnesiac => req == EleanorRequest::Nothing
                    && same_knowledge(*old(self), *final(self)) && final(self).stack() == old(self).stack()
                    && final(self).spec_state() == after_amnesia(
                        if old(self).info_map().contains_key(old(self).spec_current()) {
                            Some(old(self).info_map()[old(self).spec_current()])
                        } else {
                            None
                        }),
                KnowledgeState::Deciding => {
                    &&& same_knowledge(*old(self), *final(self))
                    &&& final(self).spec_state() == KnowledgeState::Amnesiac
                    &&& (final(self).stack(), req) == acted(old(self).info_map(), old(self).info_order(), old(self).spec_current(),
                        old(self).spec_inventory(), old(self).stack())
                },
            },
            req is DiscoverResources || req is DiscoverCombinations || req is RequestNeighbours
                ==> final(self).info_map().contains_key(final(self).spec_current()),
    {
        match self.knowledge_state {
            KnowledgeState::Unknowing => {
                let blank = PlanetInfo::new();
                let current = self.current_planet;
                self.planets_info.insert(current, blank);
                proof {
                    assert(blank == blank_info());
                    assert(self.planets_info.wf());
                }
                self.knowledge_state = KnowledgeState::Amnesiac;
                EleanorRequest::Nothing
            },
            KnowledgeState::DeducingPlanetType => {
                let idx = self.planets_info.position_of(self.current_planet);
                let info = self.planets_info.value_at(idx);
                let (gen_count, comb_count) = match (&info.gen_recipes, &info.comb_recipes) {
                    (Some(g), Some(c)) => (g.len(), c.len()),
                    _ => (0, 0),
                };
                let kind = if comb_count == 0 {
                    if gen_count > 1 { GamePlanetType::D } else { GamePlanetType::A }
                } else if comb_count > 1 {
                    GamePlanetType::C
                } else {
                    GamePlanetType::B
                };
                let slot = self.planets_info.value_mut_at(idx);
                slot.kind = Some(kind);
                self.knowledge_state = KnowledgeState::Amnesiac;
                EleanorRequest::Nothing
            },
            KnowledgeState::NeedGenerationRecipes => {
                self.knowledge_state = KnowledgeState::Amnesiac;
                EleanorRequest::DiscoverResources
            },
            KnowledgeState::NeedCombinationRecipes => {
                self.knowledge_state = KnowledgeState::Amnesiac;
                EleanorRequest::DiscoverCombinations
            },
            KnowledgeState::NeedNeighbours => {
                self.knowledge_state = KnowledgeState::Amnesiac;
                EleanorRequest::RequestNeighbours
            },
            KnowledgeState::Amnesiac => {
                self.knowledge_state = match self.planets_info.get(self.current_planet) {
                    None => KnowledgeState::Unknowing,
                    Some(info) => {
                        if info.is_fully_known() {
                            KnowledgeState::Deciding
                        } else if info.gen_recipes.is_none() {
                            KnowledgeState::NeedGenerationRecipes
                        } else if info.comb_recipes.is_none() {
                            KnowledgeState::NeedCombinationRecipes
                        } else if info.neighbours.is_none() {
                            KnowledgeState::NeedNeighbours
                        } else {
                            KnowledgeState::DeducingPlanetType
                        }
                    },
                };
                EleanorRequest::Nothing
            },
            KnowledgeState::Deciding => {
                let req = self.act();
                self.knowledge_state = KnowledgeState::Amnesiac;
                req
            },
        }
    }
}

impl Eleanor {
    /// Takes in the answer to a request: learned facts of the current
    /// planet, the bag after a granted generation or combination (which
    /// completes the objective on top), or the outcome of a travel.
    pub fn absorb(&mut self, request: EleanorRequest, reply: EleanorReply)
        requires
            old(self).wf(),
            old(self).spec_state() == KnowledgeState::Amnesiac,
            request is DiscoverResources || request is DiscoverCombinations || request is RequestNeighbours
                ==> old(self).info_map().contains_key(old(self).spec_current()),
        ensures
            final(self).wf(),
            final(self).spec_state() == KnowledgeState::Amnesiac,
            match (request, reply) {
                (EleanorRequest::DiscoverResources, EleanorReply::Resources(Some(set))) => {
                    &&& final(self).info_map() == old(self).info_map().insert(old(self).spec_current(),
                        PlanetInfo { gen_recipes: Some(set), ..old(self).info_map()[old(self).spec_current()] })
                    &&& final(self).info_order() == old(self).info_order()
                    &&& final(self).spec_current() == old(self).spec_current()
                    &&& final(self).spec_inventory() == old(self).spec_inventory()
                    &&& final(self).stack() == old(self).stack()
                },
                (EleanorRequest::DiscoverCombinations, EleanorReply::Combinations(Some(set))) => {
                    &&& final(self).info_map() == old(self).info_map().insert(old(self).spec_current(),
                        PlanetInfo { comb_recipes: Some(set), ..old(self).info_map()[old(self).spec_current()] })
                    &&& final(self).info_order() == old(self).info_order()
                    &&& final(self).spec_current() == old(self).spec_current()
                    &&& final(self).spec_inventory() == old(self).spec_inventory()
                    &&& final(self).stack() == old(self).stack()
                },
                (EleanorRequest::RequestNeighbours, EleanorReply::Neighbours(Some(ns))) => {
                    &&& final(self).info_map() == old(self).info_map().insert(old(self).spec_current(),
                        PlanetInfo { neighbours: Some(ns), ..old(self).info_map()[old(self).spec_current()] })
                    &&& final(self).info_order() == old(self).info_order()
                    &&& final(self).spec_current() == old(self).spec_current()
                    &&& final(self).spec_inventory() == old(self).spec_inventory()
                    &&& final(self).stack() == old(self).stack()
                },
                (EleanorRequest::Generate(_), EleanorReply::Generated(Some(bag)))
                | (EleanorRequest::Combine(_), EleanorReply::Combined(Some(bag))) => {
                    &&& final(self).info_map() == old(self).info_map()
                    &&& final(self).info_order() == old(self).info_order()
                    &&& final(self).spec_current() == old(self).spec_current()
                    &&& final(self).spec_inventory() == bag
                    &&& final(self).stack() == if old(self).stack().len() > 0 { old(self).stack().drop_last() } else { old(self).stack() }
                },
                (EleanorRequest::Travel(dst), EleanorReply::Travelled(true)) => {
                    &&& final(self).spec_current() == dst
                    &&& final(self).info_map() == if old(self).info_map().contains_key(dst) {
                        old(self).info_map()
                    } else {
                        old(self).info_map().insert(dst, blank_info())
                    }
                    &&& final(self).spec_inventory() == old(self).spec_inventory()
                    &&& final(self).stack() == if old(self).stack().len() > 0 { old(self).stack().drop_last() } else { old(self).stack() }
                },
                (EleanorRequest::Travel(dst), EleanorReply::Travelled(false)) => forgot_planet(*old(self), *final(self), dst),
                _ => same_knowledge(*old(self), *final(self)) && final(self).stack() == old(self).stack(),
            },
    {
        match (request, reply) {
            (EleanorRequest::DiscoverResources, EleanorReply::Resources(Some(set))) => {
                let idx = self.planets_info.position_of(self.current_planet);
                let slot = self.planets_info.value_mut_at(idx);
                slot.gen_recipes = Some(set);
            },
            (EleanorRequest::DiscoverCombinations, EleanorReply::Combinations(Some(set))) => {
                let idx = self.planets_info.position_of(self.current_planet);
                let slot = self.planets_info.value_mut_at(idx);
                slot.comb_recipes = Some(set);
            },
            (EleanorRequest::RequestNeighbours, EleanorReply::Neighbours(Some(ns))) => {
                let idx = self.planets_info.position_of(self.current_planet);
                let slot = self.planets_info.value_mut_at(idx);
                slot.neighbours = Some(ns);
            },
            (EleanorRequest::Generate(_), EleanorReply::Generated(Some(bag)))
            | (EleanorRequest::Combine(_), EleanorReply::Combined(Some(bag))) => {
                self.inventory = bag;
                let _ = self.objectives.pop();
            },
            (EleanorRequest::Travel(dst), EleanorReply::Travelled(ok)) => {
                if ok {
                    self.current_planet = dst;
                    if !self.planets_info.contains_key(dst) {
                        self.planets_info.insert(dst, PlanetInfo::new());
                    }
                    let _ = self.objectives.pop();
                } else {
                    self.on_planet_destroyed(dst);
                }
            },
            _ => {},
        }
    }

    /// Forgets the facts picked (generation recipes, combination recipes,
    /// neighbours) of the planet at position `idx` of the known planets;
    /// forgetting about the current planet sends Eleanor back to re-learning
    /// it, whatever was dropped.
    pub fn forget_planet(&mut self, idx: usize, drop_gen: bool, drop_comb: bool, drop_neighbours: bool)
        requires
            old(self).wf(),
            idx < old(self).info_order().len(),
        ensures
            final(self).wf(),
            final(self).info_order() == old(self).info_order(),
            final(self).info_map() == old(self).info_map().insert(old(self).info_order()[idx as int],
                forget_some(old(self).info_map()[old(self).info_order()[idx as int]], drop_gen, drop_comb, drop_neighbours)),
            final(self).spec_current() == old(self).spec_current(),
            final(self).spec_inventory() == old(self).spec_inventory(),
            final(self).stack() == old(self).stack(),
            final(self).spec_state() == if old(self).info_order()[idx as int] == old(self).spec_current() {
                KnowledgeState::Amnesiac
            } else {
                old(self).spec_state()
            },
    {
        let victim = self.planets_info.key_at(idx);
        let slot = self.planets_info.value_mut_at(idx);
        slot.forget_fields(drop_gen, drop_comb, drop_neighbours);
        if victim == self.current_planet {
            self.knowledge_state = KnowledgeState::Amnesiac;
        }
    }

    /// Now and then (one tick in fifty) forgets some facts of one known
    /// planet, picked at random, each fact with a chance of one in five;
    /// forgetting about the current planet sends Eleanor back to
    /// re-learning it.
    pub fn maybe_forget(&mut self)
        requires
            old(self).wf(),
        ensures
            final(self).wf(),
            final(self).info_map().dom() == old(self).info_map().dom(),
            final(self).info_order() == old(self).info_order(),
            final(self).spec_current() == old(self).spec_current(),
            final(self).spec_inventory() == old(self).spec_inventory(),
            final(self).stack() == old(self).stack(),
            *final(self) == *old(self) || exists|i: int, g: bool, c: bool, n: bool|
                0 <= i < old(self).info_order().len() && #[trigger] forgot_at(*old(self), *final(self), i, g, c, n),
    {
        if !gen_ratio(1, 50) {
            return;
        }
        let n = self.planets_info.len();
        if n == 0 {
            return;
        }
        let idx = gen_index(n);
        let drop_gen = gen_ratio(1, 5);
        let drop_comb = gen_ratio(1, 5);
        let drop_neighbours = gen_ratio(1, 5);
        let ghost before = *self;
        self.forget_planet(idx, drop_gen, drop_comb, drop_neighbours);
        proof {
            assert(forgot_at(before, *self, idx as int, drop_gen, drop_comb, drop_neighbours));
            before.planets_info.lemma_order_is_domain();
            assert(before.info_map().contains_key(before.info_order()[idx as int]));
            assert(self.info_map().dom() =~= before.info_map().dom());
        }
    }
}
} // verus!
