//! Amon's strategy: gather the basic resources of the AI-partner recipe in
//! full sets, evacuate to a bunker (a planet that combines but generates
//! nothing) when the alarm goes off, and there climb the recipe tree as far
//! as the bag allows.

use vstd::prelude::*;
use common_game::components::resource::{BasicResourceType, ComplexResourceType, ResourceType};
use crate::explorer::{recipe, uses};
use crate::bag::BagSnapshot;
use crate::first::first_in;
use crate::idmap::IdMap;
use crate::resources::{BasicSet, ComplexSet};
use crate::route::{next_hop, step, keys_unique, reachable_by, lemma_reachable_by_lists, lemma_shortest_by_lists, shortest_via_by};

verus! {

/// The phases of Amon's run.
#[derive(Clone, Copy, Debug, PartialEq, Eq, Structural)]
pub enum AmonState {
    GoldRush,
    Evacuating,
    BunkerCrafting,
    VictoryFlex,
}

/// What Amon has learned of one planet.
pub struct AmonPlanetInfo {
    pub generates: BasicSet,
    pub combines: ComplexSet,
    pub neighbors: Vec<u32>,
}

/// A bunker combines something and generates nothing.
pub open spec fn spec_is_bunker(info: AmonPlanetInfo) -> bool {
    info.combines@.len() != 0 && info.generates@.len() == 0
}

impl AmonPlanetInfo {
    pub fn is_bunker(&self) -> (b: bool)
        ensures
            b == spec_is_bunker(*self),
    {
        !self.combines.is_empty() && self.generates.is_empty()
    }
}

/// The seconds after which the gold rush ends and Amon runs for a bunker.
pub open spec fn alarm_secs() -> u64 {
    24
}

/// The phase after the clock reads `elapsed_secs`: the gold rush ends when
/// the alarm goes off; other phases are left as they are.
pub fn after_alarm(state: AmonState, elapsed_secs: u64) -> (s: AmonState)
    ensures
        s == if elapsed_secs >= alarm_secs() && state == AmonState::GoldRush { AmonState::Evacuating } else { state },
{
    if elapsed_secs >= 24 && state == AmonState::GoldRush {
        AmonState::Evacuating
    } else {
        state
    }
}

// =========================================================================
// ROUTES OVER THE PLANETS AMON KNOWS
// =========================================================================

/// `y` is a known neighbour of the known planet `x`.
pub open spec fn known_step(map: Map<u32, AmonPlanetInfo>, x: u32, y: u32) -> bool {
    map.contains_key(x) && map[x].neighbors@.contains(y)
}

/// `x` is the first hop of a shortest route Amon knows from `current` to
/// `t`.
pub open spec fn known_first_hop(map: Map<u32, AmonPlanetInfo>, current: u32, x: u32, t: u32) -> bool {
    &&& known_step(map, current, x)
    &&& known_reachable(map, x, t)
    &&& shortest_via_by(|a: u32, b: u32| known_step(map, a, b), current, x, t)
}

/// Amon knows a walk from `a` to `b`.
pub open spec fn known_reachable(map: Map<u32, AmonPlanetInfo>, a: u32, b: u32) -> bool {
    reachable_by(|x: u32, y: u32| known_step(map, x, y), a, b)
}

fn copy_ids(v: &Vec<u32>) -> (out: Vec<u32>)
    ensures
        out@ == v@,
{
    let mut out: Vec<u32> = Vec::new();
    let mut i: usize = 0;
    while i < v.len()
        invariant
            i <= v@.len(),
            out@ == v@.take(i as int),
        decreases v@.len() - i,
    {
        proof { assert(v@.take(i + 1) =~= v@.take(i as int).push(v@[i as int])); }
        out.push(v[i]);
        i = i + 1;
    }
    proof { assert(v@.take(i as int) =~= v@); }
    out
}

/// The first hop on a shortest known route from `start` to `target`, or
/// `None` when already there or when no known route leads there.
pub fn get_next_hop(start: u32, target: u32, galaxy_map: &IdMap<AmonPlanetInfo>) -> (h: Option<u32>)
    requires
        galaxy_map.wf(),
    ensures
        h is None <==> (start == target || !known_reachable(galaxy_map@, start, target)),
        h matches Some(x) ==> known_step(galaxy_map@, start, x) && known_reachable(galaxy_map@, x, target),
        start != target && known_step(galaxy_map@, start, target) ==> h == Some(target),
        h matches Some(x) ==> shortest_via_by(|a: u32, b: u32| known_step(galaxy_map@, a, b), start, x, target),
{
    let ghost m = galaxy_map@;
    let mut graph: Vec<(u32, Vec<u32>)> = Vec::new();
    let mut i: usize = 0;
    proof { galaxy_map.lemma_order_is_domain(); }
    while i < galaxy_map.len()
        invariant
            galaxy_map.wf(),
            m == galaxy_map@,
            i <= galaxy_map.order().len(),
            graph@.len() == i,
            forall|k: int| 0 <= k < i ==> (#[trigger] graph@[k]).0 == galaxy_map.order()[k]
                && graph@[k].1@ == m[galaxy_map.order()[k]].neighbors@,
        decreases galaxy_map.order().len() - i,
    {
        let id = galaxy_map.key_at(i);
        let ns = copy_ids(&galaxy_map.value_at(i).neighbors);
        graph.push((id, ns));
        i = i + 1;
    }
    proof {
        assert(keys_unique(graph@)) by {
            assert forall|a: int, b: int| 0 <= a < graph@.len() && 0 <= b < graph@.len() && a != b implies
                graph@[a].0 != graph@[b].0 by {
                assert(graph@[a].0 == galaxy_map.order()[a]);
                assert(graph@[b].0 == galaxy_map.order()[b]);
            }
        }
        assert forall|x: u32, y: u32| #[trigger] step(graph@, x, y) == known_step(m, x, y) by {
            if step(graph@, x, y) {
                let k = choose|k: int| 0 <= k < graph@.len() && graph@[k].0 == x && (#[trigger] graph@[k].1@).contains(y);
                assert(galaxy_map.order().contains(x));
            }
            if known_step(m, x, y) {
                assert(galaxy_map.order().contains(x));
                let k = choose|k: int| 0 <= k < galaxy_map.order().len() && galaxy_map.order()[k] == x;
                assert(graph@[k].0 == x && graph@[k].1@.contains(y));
            }
        }
        lemma_reachable_by_lists(graph@, |x: u32, y: u32| known_step(m, x, y), start, target);
    }
    let h = next_hop(&graph, start, target);
    proof {
        if let Some(x) = h {
            lemma_reachable_by_lists(graph@, |x: u32, y: u32| known_step(m, x, y), x, target);
            lemma_shortest_by_lists(graph@, |a: u32, b: u32| known_step(m, a, b), start, x, target);
        }
    }
    h
}

// =========================================================================
// THE GOLD RUSH: FULL SETS OF THE AI-PARTNER RECIPE
// =========================================================================

/// How many of a basic kind a bag summary counts.
pub open spec fn count_of(bag: BagSnapshot, t: BasicResourceType) -> nat {
    match bag.basic_entry(t) {
        Some(c) => c as nat,
        None => 0,
    }
}

/// How many of a complex kind a bag summary counts.
pub open spec fn complex_count_of(bag: BagSnapshot, t: ComplexResourceType) -> nat {
    match bag.complex_entry(t) {
        Some(c) => c as nat,
        None => 0,
    }
}

pub open spec fn min_nat(a: nat, b: nat) -> nat {
    if a <= b { a } else { b }
}

/// The recipe sets the bag completes (three carbon, one silicon, one
/// hydrogen, one oxygen each), plus the one being gathered.
pub open spec fn target_sets(bag: BagSnapshot) -> nat {
    min_nat(min_nat(min_nat(count_of(bag, BasicResourceType::Carbon) / 3, count_of(bag, BasicResourceType::Silicon)),
        count_of(bag, BasicResourceType::Hydrogen)), count_of(bag, BasicResourceType::Oxygen)) + 1
}

/// How many of each basic kind the set being gathered needs in the bag, in
/// the order Amon tries them.
pub open spec fn spec_quotas(bag: BagSnapshot) -> Seq<(BasicResourceType, nat)> {
    let t = target_sets(bag);
    seq![
        (BasicResourceType::Carbon, 3 * t),
        (BasicResourceType::Silicon, t),
        (BasicResourceType::Hydrogen, t),
        (BasicResourceType::Oxygen, t),
    ]
}

/// How many of kind `t` a bag summary holds.
pub open spec fn held_in(bag: BagSnapshot, t: ResourceType) -> nat {
    match t {
        ResourceType::Basic(b) => count_of(bag, b),
        ResourceType::Complex(c) => complex_count_of(bag, c),
    }
}

/// How far up the recipe tree a complex kind sits.
pub open spec fn recipe_depth(k: ComplexResourceType) -> nat {
    match k {
        ComplexResourceType::Water => 1,
        ComplexResourceType::Diamond => 1,
        ComplexResourceType::Life => 2,
        ComplexResourceType::Robot => 3,
        ComplexResourceType::Dolphin => 3,
        ComplexResourceType::AIPartner => 4,
    }
}

/// How many of basic kind `b` an ingredient of a `k` consumes, built from
/// scratch.
pub open spec fn ingredient_basics(x: ResourceType, b: BasicResourceType, k: ComplexResourceType) -> nat
    decreases recipe_depth(k), 0nat,
{
    match x {
        ResourceType::Basic(a) => if a == b { 1 } else { 0 },
        ResourceType::Complex(c) => if recipe_depth(c) < recipe_depth(k) { basics_consumed(c, b) } else { 0 },
    }
}

/// How many of basic kind `b` one `k` consumes, built from scratch down its
/// recipe tree.
pub open spec fn basics_consumed(k: ComplexResourceType, b: BasicResourceType) -> nat
    decreases recipe_depth(k), 1nat,
{
    ingredient_basics(recipe(k).0, b, k) + ingredient_basics(recipe(k).1, b, k)
}

/// One AI partner, built from scratch, consumes three carbon and one each
/// of silicon, hydrogen and oxygen.
pub proof fn lemma_ai_partner_basics()
    ensures
        basics_consumed(ComplexResourceType::AIPartner, BasicResourceType::Carbon) == 3,
        basics_consumed(ComplexResourceType::AIPartner, BasicResourceType::Silicon) == 1,
        basics_consumed(ComplexResourceType::AIPartner, BasicResourceType::Hydrogen) == 1,
        basics_consumed(ComplexResourceType::AIPartner, BasicResourceType::Oxygen) == 1,
{
    let (w, d, l, r, a) = (ComplexResourceType::Water, ComplexResourceType::Diamond, ComplexResourceType::Life,
        ComplexResourceType::Robot, ComplexResourceType::AIPartner);
    let (c, si) = (BasicResourceType::Carbon, BasicResourceType::Silicon);
    assert(basics_consumed(w, c) == 0);
    assert(basics_consumed(w, si) == 0);
    assert(basics_consumed(d, c) == 2);
    assert(basics_consumed(d, si) == 0);
    assert(basics_consumed(l, c) == 1);
    assert(basics_consumed(l, si) == 0);
    assert(basics_consumed(r, c) == 1);
    assert(basics_consumed(r, si) == 1);
    assert(basics_consumed(a, c) == 3);
    assert(basics_consumed(a, si) == 1);
    assert(basics_consumed(w, BasicResourceType::Hydrogen) == 1);
    assert(basics_consumed(l, BasicResourceType::Hydrogen) == 1);
    assert(basics_consumed(r, BasicResourceType::Hydrogen) == 1);
    assert(basics_consumed(d, BasicResourceType::Hydrogen) == 0);
    assert(basics_consumed(w, BasicResourceType::Oxygen) == 1);
    assert(basics_consumed(l, BasicResourceType::Oxygen) == 1);
    assert(basics_consumed(r, BasicResourceType::Oxygen) == 1);
    assert(basics_consumed(d, BasicResourceType::Oxygen) == 0);
}

/// Each quota is the number of sets being gathered times what one AI
/// partner, built from scratch, consumes of that kind, and each basic kind
/// has one quota.
pub proof fn lemma_quotas_are_ai_partner_sets(bag: BagSnapshot)
    ensures
        spec_quotas(bag).len() == 4,
        forall|i: int| 0 <= i < 4 ==> #[trigger] spec_quotas(bag)[i].1
            == target_sets(bag) * basics_consumed(ComplexResourceType::AIPartner, spec_quotas(bag)[i].0),
        forall|i: int, j: int| 0 <= i < j < 4 ==> #[trigger] spec_quotas(bag)[i].0 != #[trigger] spec_quotas(bag)[j].0,
{
    lemma_ai_partner_basics();
    let q = spec_quotas(bag);
    let t = target_sets(bag);
    assert(q[0] == (BasicResourceType::Carbon, 3 * t));
    assert(q[1] == (BasicResourceType::Silicon, t));
    assert(q[2] == (BasicResourceType::Hydrogen, t));
    assert(q[3] == (BasicResourceType::Oxygen, t));
    let k3 = basics_consumed(ComplexResourceType::AIPartner, BasicResourceType::Carbon);
    assert(t * k3 == 3 * t) by (nonlinear_arith) requires k3 == 3;
    let k1 = basics_consumed(ComplexResourceType::AIPartner, BasicResourceType::Silicon);
    assert(t * k1 == t) by (nonlinear_arith) requires k1 == 1;
    assert(q[0].1 == target_sets(bag) * basics_consumed(ComplexResourceType::AIPartner, q[0].0));
    assert(q[1].1 == target_sets(bag) * basics_consumed(ComplexResourceType::AIPartner, q[1].0));
    assert(q[2].1 == target_sets(bag) * basics_consumed(ComplexResourceType::AIPartner, q[2].0));
    assert(q[3].1 == target_sets(bag) * basics_consumed(ComplexResourceType::AIPartner, q[3].0));
}

/// The set being gathered is the first the bag cannot complete: the bag
/// holds every basic the sets before it consume, and lacks some basic of
/// this one.
pub proof fn lemma_target_is_first_incomplete_set(bag: BagSnapshot)
    ensures
        target_sets(bag) >= 1,
        forall|b: BasicResourceType| count_of(bag, b)
            >= (target_sets(bag) - 1) * #[trigger] basics_consumed(ComplexResourceType::AIPartner, b),
        exists|b: BasicResourceType| count_of(bag, b)
            < target_sets(bag) * #[trigger] basics_consumed(ComplexResourceType::AIPartner, b),
{
    lemma_ai_partner_basics();
    let t = target_sets(bag);
    let c = count_of(bag, BasicResourceType::Carbon);
    assert forall|b: BasicResourceType| count_of(bag, b)
        >= (t - 1) * #[trigger] basics_consumed(ComplexResourceType::AIPartner, b) by {
        match b {
            BasicResourceType::Carbon => assert(c >= 3 * (c / 3)),
            _ => {},
        }
    }
    if t - 1 == c / 3 {
        assert(c < 3 * t);
        assert(count_of(bag, BasicResourceType::Carbon) < t * basics_consumed(ComplexResourceType::AIPartner, BasicResourceType::Carbon));
    } else if t - 1 == count_of(bag, BasicResourceType::Silicon) {
        assert(count_of(bag, BasicResourceType::Silicon) < t * basics_consumed(ComplexResourceType::AIPartner, BasicResourceType::Silicon));
    } else if t - 1 == count_of(bag, BasicResourceType::Hydrogen) {
        assert(count_of(bag, BasicResourceType::Hydrogen) < t * basics_consumed(ComplexResourceType::AIPartner, BasicResourceType::Hydrogen));
    } else {
        assert(count_of(bag, BasicResourceType::Oxygen) < t * basics_consumed(ComplexResourceType::AIPartner, BasicResourceType::Oxygen));
    }
}

/// The quotas as plain values.
pub open spec fn quota_views(q: Seq<(BasicResourceType, usize)>) -> Seq<(BasicResourceType, nat)> {
    q.map_values(|p: (BasicResourceType, usize)| (p.0, p.1 as nat))
}

/// The quotas of the set being gathered.
pub fn recipe_quotas(bag: &BagSnapshot) -> (q: Vec<(BasicResourceType, usize)>)
    requires
        count_of(*bag, BasicResourceType::Carbon) + 3 <= usize::MAX,
    ensures
        quota_views(q@) == spec_quotas(*bag),
{
    let c = bag.get_basic_count(BasicResourceType::Carbon);
    let si = bag.get_basic_count(BasicResourceType::Silicon);
    let h = bag.get_basic_count(BasicResourceType::Hydrogen);
    let o = bag.get_basic_count(BasicResourceType::Oxygen);
    let mut completed = c / 3;
    if si < completed { completed = si; }
    if h < completed { completed = h; }
    if o < completed { completed = o; }
    let t = completed + 1;
    proof {
        assert(t as nat == target_sets(*bag));
        assert(3 * t <= c + 3);
    }
    let q = vec![
        (BasicResourceType::Carbon, t * 3),
        (BasicResourceType::Silicon, t),
        (BasicResourceType::Hydrogen, t),
        (BasicResourceType::Oxygen, t),
    ];
    proof { assert(quota_views(q@) =~= spec_quotas(*bag)); }
    q
}

/// The kinds of `qs` still short of their quota, in order.
pub open spec fn short_kinds(qs: Seq<(BasicResourceType, nat)>, bag: BagSnapshot) -> Seq<BasicResourceType>
    decreases qs.len(),
{
    if qs.len() == 0 {
        Seq::empty()
    } else {
        short_kinds(qs.drop_last(), bag) + if count_of(bag, qs.last().0) < qs.last().1 {
            seq![qs.last().0]
        } else {
            Seq::<BasicResourceType>::empty()
        }
    }
}

/// The kinds of `qs` still short of their quota that the planet generates,
/// in order: what Amon asks the planet for, until one is granted.
pub open spec fn harvest_kinds(qs: Seq<(BasicResourceType, nat)>, bag: BagSnapshot, generates: Set<BasicResourceType>) -> Seq<BasicResourceType>
    decreases qs.len(),
{
    if qs.len() == 0 {
        Seq::empty()
    } else {
        harvest_kinds(qs.drop_last(), bag, generates) + if generates.contains(qs.last().0) && count_of(bag, qs.last().0) < qs.last().1 {
            seq![qs.last().0]
        } else {
            Seq::<BasicResourceType>::empty()
        }
    }
}

/// The kinds still short of their quota, in quota order.
pub fn needed_resources(quotas: &Vec<(BasicResourceType, usize)>, bag: &BagSnapshot) -> (v: Vec<BasicResourceType>)
    ensures
        v@ == short_kinds(quota_views(quotas@), *bag),
{
    let mut v: Vec<BasicResourceType> = Vec::new();
    let mut i: usize = 0;
    while i < quotas.len()
        invariant
            i <= quotas@.len(),
            v@ == short_kinds(quota_views(quotas@.take(i as int)), *bag),
        decreases quotas@.len() - i,
    {
        let (t, target) = quotas[i];
        proof {
            assert(quota_views(quotas@.take(i + 1)).drop_last() =~= quota_views(quotas@.take(i as int)));
            assert(quota_views(quotas@.take(i + 1)).last() == (t, target as nat));
        }
        if bag.get_basic_count(t) < target {
            v.push(t);
        }
        i = i + 1;
    }
    proof { assert(quotas@.take(i as int) =~= quotas@); }
    v
}

/// The kinds to ask the current planet for, in quota order: short of their
/// quota and generated here.
pub fn harvest_candidates(quotas: &Vec<(BasicResourceType, usize)>, bag: &BagSnapshot, generates: &BasicSet) -> (v: Vec<BasicResourceType>)
    ensures
        v@ == harvest_kinds(quota_views(quotas@), *bag, generates@),
{
    let mut v: Vec<BasicResourceType> = Vec::new();
    let mut i: usize = 0;
    while i < quotas.len()
        invariant
            i <= quotas@.len(),
            v@ == harvest_kinds(quota_views(quotas@.take(i as int)), *bag, generates@),
        decreases quotas@.len() - i,
    {
        let (t, target) = quotas[i];
        proof {
            assert(quota_views(quotas@.take(i + 1)).drop_last() =~= quota_views(quotas@.take(i as int)));
            assert(quota_views(quotas@.take(i + 1)).last() == (t, target as nat));
        }
        if generates.contains(t) && bag.get_basic_count(t) < target {
            v.push(t);
        }
        i = i + 1;
    }
    proof { assert(quotas@.take(i as int) =~= quotas@); }
    v
}

// =========================================================================
// SEARCHES OVER THE PLANETS AMON KNOWS, IN THE ORDER HE LEARNED THEM
// =========================================================================

/// `r` is the first planet of `order`, other than `current`, that generates
/// one of `needed`.
pub open spec fn first_supplier(map: Map<u32, AmonPlanetInfo>, order: Seq<u32>, current: u32, needed: Seq<BasicResourceType>, r: Option<u32>) -> bool {
    first_in(order, |id: u32| supplies(map, current, needed, id), r)
}

/// `r` is the first bunker of `order`, other than `except`.
pub open spec fn first_bunker(map: Map<u32, AmonPlanetInfo>, order: Seq<u32>, except: Option<u32>, r: Option<u32>) -> bool {
    first_in(order, |id: u32| Some(id) != except && spec_is_bunker(map[id]), r)
}

/// `r` is the first planet of `order` that combines `target`.
pub open spec fn first_workshop(map: Map<u32, AmonPlanetInfo>, order: Seq<u32>, target: ComplexResourceType, r: Option<u32>) -> bool {
    first_in(order, |id: u32| map[id].combines@.contains(target), r)
}

/// `r` is the first of `neighbors` not yet known.
pub open spec fn first_unknown(map: Map<u32, AmonPlanetInfo>, neighbors: Seq<u32>, r: Option<u32>) -> bool {
    first_in(neighbors, |n: u32| !map.contains_key(n), r)
}

/// A planet Amon knows, other than `current`, that generates one of `needed`.
pub open spec fn supplies(map: Map<u32, AmonPlanetInfo>, current: u32, needed: Seq<BasicResourceType>, id: u32) -> bool {
    id != current && exists|k: int| 0 <= k < needed.len() && map[id].generates@.contains(#[trigger] needed[k])
}

fn generates_any(info: &AmonPlanetInfo, needed: &Vec<BasicResourceType>) -> (b: bool)
    ensures
        b == exists|k: int| 0 <= k < needed@.len() && info.generates@.contains(#[trigger] needed@[k]),
{
    let mut i: usize = 0;
    while i < needed.len()
        invariant
            i <= needed@.len(),
            forall|k: int| 0 <= k < i ==> !info.generates@.contains(#[trigger] needed@[k]),
        decreases needed@.len() - i,
    {
        if info.generates.contains(needed[i]) {
            return true;
        }
        i = i + 1;
    }
    false
}

/// The first known planet, other than the current one, that generates a
/// needed kind.
pub fn supplier(galaxy_map: &IdMap<AmonPlanetInfo>, current: u32, needed: &Vec<BasicResourceType>) -> (r: Option<u32>)
    requires
        galaxy_map.wf(),
    ensures
        first_supplier(galaxy_map@, galaxy_map.order(), current, needed@, r),
{
    let ghost p = |id: u32| supplies(galaxy_map@, current, needed@, id);
    let mut i: usize = 0;
    while i < galaxy_map.len()
        invariant
            galaxy_map.wf(),
            p == (|id: u32| supplies(galaxy_map@, current, needed@, id)),
            i <= galaxy_map.order().len(),
            forall|j: int| 0 <= j < i ==> !p(#[trigger] galaxy_map.order()[j]),
        decreases galaxy_map.order().len() - i,
    {
        let id = galaxy_map.key_at(i);
        if id != current && generates_any(galaxy_map.value_at(i), needed) {
            proof { assert(galaxy_map.order()[i as int] == id && p(id)); }
            return Some(id);
        }
        i = i + 1;
    }
    None
}

/// The first known planet that is a bunker, other than `except` when it is
/// given.
pub fn bunker(galaxy_map: &IdMap<AmonPlanetInfo>, except: Option<u32>) -> (r: Option<u32>)
    requires
        galaxy_map.wf(),
    ensures
        first_bunker(galaxy_map@, galaxy_map.order(), except, r),
{
    let ghost p = |id: u32| Some(id) != except && spec_is_bunker(galaxy_map@[id]);
    let mut i: usize = 0;
    while i < galaxy_map.len()
        invariant
            galaxy_map.wf(),
            p == (|id: u32| Some(id) != except && spec_is_bunker(galaxy_map@[id])),
            i <= galaxy_map.order().len(),
            forall|j: int| 0 <= j < i ==> !p(#[trigger] galaxy_map.order()[j]),
        decreases galaxy_map.order().len() - i,
    {
        let id = galaxy_map.key_at(i);
        let excluded = match except {
            Some(e) => e == id,
            None => false,
        };
        if !excluded && galaxy_map.value_at(i).is_bunker() {
            proof { assert(galaxy_map.order()[i as int] == id && p(id)); }
            return Some(id);
        }
        i = i + 1;
    }
    None
}

/// The first known planet that combines `target`.
pub fn workshop(galaxy_map: &IdMap<AmonPlanetInfo>, target: ComplexResourceType) -> (r: Option<u32>)
    requires
        galaxy_map.wf(),
    ensures
        first_workshop(galaxy_map@, galaxy_map.order(), target, r),
{
    let ghost p = |id: u32| galaxy_map@[id].combines@.contains(target);
    let mut i: usize = 0;
    while i < galaxy_map.len()
        invariant
            galaxy_map.wf(),
            p == (|id: u32| galaxy_map@[id].combines@.contains(target)),
            i <= galaxy_map.order().len(),
            forall|j: int| 0 <= j < i ==> !p(#[trigger] galaxy_map.order()[j]),
        decreases galaxy_map.order().len() - i,
    {
        let id = galaxy_map.key_at(i);
        if galaxy_map.value_at(i).combines.contains(target) {
            proof { assert(galaxy_map.order()[i as int] == id && p(id)); }
            return Some(id);
        }
        i = i + 1;
    }
    None
}

/// The first neighbour Amon knows nothing of.
pub fn first_unexplored(neighbors: &Vec<u32>, galaxy_map: &IdMap<AmonPlanetInfo>) -> (r: Option<u32>)
    requires
        galaxy_map.wf(),
    ensures
        first_unknown(galaxy_map@, neighbors@, r),
{
    let ghost p = |n: u32| !galaxy_map@.contains_key(n);
    let mut i: usize = 0;
    while i < neighbors.len()
        invariant
            galaxy_map.wf(),
            p == (|n: u32| !galaxy_map@.contains_key(n)),
            i <= neighbors@.len(),
            forall|j: int| 0 <= j < i ==> !p(#[trigger] neighbors@[j]),
        decreases neighbors@.len() - i,
    {
        if !galaxy_map.contains_key(neighbors[i]) {
            proof { assert(p(neighbors@[i as int])); }
            return Some(neighbors[i]);
        }
        i = i + 1;
    }
    None
}

/// Where to go when nothing better is known: the first unexplored
/// neighbour, else the first neighbour, else the current planet.
pub open spec fn wander_target(neighbors: Seq<u32>, explored: Option<u32>, current: u32) -> u32 {
    match explored {
        Some(n) => n,
        None => if neighbors.len() > 0 { neighbors[0] } else { current },
    }
}

/// The planet Amon's move of a gold-rush step heads for, when he harvested
/// nothing: a known supplier of what he still needs by its first hop, else
/// somewhere new.
pub fn gold_rush_move(galaxy_map: &IdMap<AmonPlanetInfo>, current: u32, neighbors: &Vec<u32>, needed: &Vec<BasicResourceType>) -> (r: Option<u32>)
    requires
        galaxy_map.wf(),
    ensures
        exists|target: Option<u32>| #[trigger] first_supplier(galaxy_map@, galaxy_map.order(), current, needed@, target)
            && match target {
                Some(t) => {
                    &&& r is None <==> (current == t || !known_reachable(galaxy_map@, current, t))
                    &&& r matches Some(x) ==> known_first_hop(galaxy_map@, current, x, t)
                },
                None => exists|u: Option<u32>| #[trigger] first_unknown(galaxy_map@, neighbors@, u)
                    && r == Some(wander_target(neighbors@, u, current)),
            },
{
    let target = supplier(galaxy_map, current, needed);
    match target {
        Some(t) => get_next_hop(current, t, galaxy_map),
        None => {
            let u = first_unexplored(neighbors, galaxy_map);
            match u {
                Some(n) => Some(n),
                None => if neighbors.len() > 0 { Some(neighbors[0]) } else { Some(current) },
            }
        },
    }
}

/// The planet an evacuating Amon heads for: the first hop toward the first
/// known bunker, else somewhere new.
pub fn evacuation_move(galaxy_map: &IdMap<AmonPlanetInfo>, current: u32, neighbors: &Vec<u32>) -> (r: Option<u32>)
    requires
        galaxy_map.wf(),
    ensures
        exists|target: Option<u32>| #[trigger] first_bunker(galaxy_map@, galaxy_map.order(), None, target)
            && match target {
                Some(t) => {
                    &&& r is None <==> (current == t || !known_reachable(galaxy_map@, current, t))
                    &&& r matches Some(x) ==> known_first_hop(galaxy_map@, current, x, t)
                },
                None => exists|u: Option<u32>| #[trigger] first_unknown(galaxy_map@, neighbors@, u)
                    && r == Some(wander_target(neighbors@, u, current)),
            },
{
    let target = bunker(galaxy_map, None);
    match target {
        Some(t) => get_next_hop(current, t, galaxy_map),
        None => {
            let u = first_unexplored(neighbors, galaxy_map);
            match u {
                Some(n) => Some(n),
                None => if neighbors.len() > 0 { Some(neighbors[0]) } else { Some(current) },
            }
        },
    }
}

// =========================================================================
// THE BUNKER: CLIMBING THE RECIPE TREE
// =========================================================================

/// The combination to try here first: the most advanced one the planet
/// combines and the bag holds the ingredients for.
pub open spec fn spec_local_craft(combines: Set<ComplexResourceType>, bag: BagSnapshot) -> Option<ComplexResourceType> {
    if combines.contains(ComplexResourceType::AIPartner) && complex_count_of(bag, ComplexResourceType::Robot) > 0
        && complex_count_of(bag, ComplexResourceType::Diamond) > 0 {
        Some(ComplexResourceType::AIPartner)
    } else if combines.contains(ComplexResourceType::Robot) && complex_count_of(bag, ComplexResourceType::Life) > 0
        && count_of(bag, BasicResourceType::Silicon) > 0 {
        Some(ComplexResourceType::Robot)
    } else if combines.contains(ComplexResourceType::Diamond) && count_of(bag, BasicResourceType::Carbon) >= 2 {
        Some(ComplexResourceType::Diamond)
    } else if combines.contains(ComplexResourceType::Life) && complex_count_of(bag, ComplexResourceType::Water) > 0
        && count_of(bag, BasicResourceType::Carbon) > 0 {
        Some(ComplexResourceType::Life)
    } else if combines.contains(ComplexResourceType::Water) && count_of(bag, BasicResourceType::Hydrogen) > 0
        && count_of(bag, BasicResourceType::Oxygen) > 0 {
        Some(ComplexResourceType::Water)
    } else {
        None
    }
}

/// What Amon combines here, the planet combines and the bag holds every
/// ingredient for, as many times as the recipe takes; when he combines
/// nothing, no kind he makes (all but dolphins) is both combined here and
/// paid for by the bag.
pub proof fn lemma_local_craft_is_affordable(combines: Set<ComplexResourceType>, bag: BagSnapshot)
    ensures
        spec_local_craft(combines, bag) matches Some(k) ==> combines.contains(k)
            && forall|t: ResourceType| held_in(bag, t) >= #[trigger] uses(k, t),
        spec_local_craft(combines, bag) is None ==> forall|k: ComplexResourceType|
            k != ComplexResourceType::Dolphin && #[trigger] combines.contains(k)
            ==> exists|t: ResourceType| held_in(bag, t) < #[trigger] uses(k, t),
{
    if spec_local_craft(combines, bag) is None {
        assert forall|k: ComplexResourceType|
            k != ComplexResourceType::Dolphin && #[trigger] combines.contains(k)
            implies exists|t: ResourceType| held_in(bag, t) < #[trigger] uses(k, t) by {
            let (x, y) = recipe(k);
            if held_in(bag, x) < uses(k, x) {
            } else {
                assert(held_in(bag, y) < uses(k, y));
            }
        }
    }
}

pub fn local_craft(combines: &ComplexSet, bag: &BagSnapshot) -> (r: Option<ComplexResourceType>)
    ensures
        r == spec_local_craft(combines@, *bag),
{
    if combines.contains(ComplexResourceType::AIPartner) && bag.get_complex_count(ComplexResourceType::Robot) > 0
        && bag.get_complex_count(ComplexResourceType::Diamond) > 0 {
        Some(ComplexResourceType::AIPartner)
    } else if combines.contains(ComplexResourceType::Robot) && bag.get_complex_count(ComplexResourceType::Life) > 0
        && bag.get_basic_count(BasicResourceType::Silicon) > 0 {
        Some(ComplexResourceType::Robot)
    } else if combines.contains(ComplexResourceType::Diamond) && bag.get_basic_count(BasicResourceType::Carbon) >= 2 {
        Some(ComplexResourceType::Diamond)
    } else if combines.contains(ComplexResourceType::Life) && bag.get_complex_count(ComplexResourceType::Water) > 0
        && bag.get_basic_count(BasicResourceType::Carbon) > 0 {
        Some(ComplexResourceType::Life)
    } else if combines.contains(ComplexResourceType::Water) && bag.get_basic_count(BasicResourceType::Hydrogen) > 0
        && bag.get_basic_count(BasicResourceType::Oxygen) > 0 {
        Some(ComplexResourceType::Water)
    } else {
        None
    }
}

/// The most advanced combination the bag holds the ingredients for,
/// wherever it can be made.
pub open spec fn spec_next_global_target(bag: BagSnapshot) -> Option<ComplexResourceType> {
    if complex_count_of(bag, ComplexResourceType::Robot) > 0 && complex_count_of(bag, ComplexResourceType::Diamond) > 0 {
        Some(ComplexResourceType::AIPartner)
    } else if complex_count_of(bag, ComplexResourceType::Life) > 0 && count_of(bag, BasicResourceType::Silicon) > 0 {
        Some(ComplexResourceType::Robot)
    } else if count_of(bag, BasicResourceType::Carbon) >= 2 {
        Some(ComplexResourceType::Diamond)
    } else if complex_count_of(bag, ComplexResourceType::Water) > 0 && count_of(bag, BasicResourceType::Carbon) > 0 {
        Some(ComplexResourceType::Life)
    } else if count_of(bag, BasicResourceType::Hydrogen) > 0 && count_of(bag, BasicResourceType::Oxygen) > 0 {
        Some(ComplexResourceType::Water)
    } else {
        None
    }
}

pub fn next_global_target(bag: &BagSnapshot) -> (r: Option<ComplexResourceType>)
    ensures
        r == spec_next_global_target(*bag),
{
    if bag.get_complex_count(ComplexResourceType::Robot) > 0 && bag.get_complex_count(ComplexResourceType::Diamond) > 0 {
        Some(ComplexResourceType::AIPartner)
    } else if bag.get_complex_count(ComplexResourceType::Life) > 0 && bag.get_basic_count(BasicResourceType::Silicon) > 0 {
        Some(ComplexResourceType::Robot)
    } else if bag.get_basic_count(BasicResourceType::Carbon) >= 2 {
        Some(ComplexResourceType::Diamond)
    } else if bag.get_complex_count(ComplexResourceType::Water) > 0 && bag.get_basic_count(BasicResourceType::Carbon) > 0 {
        Some(ComplexResourceType::Life)
    } else if bag.get_basic_count(BasicResourceType::Hydrogen) > 0 && bag.get_basic_count(BasicResourceType::Oxygen) > 0 {
        Some(ComplexResourceType::Water)
    } else {
        None
    }
}

/// What Amon does in the bunker phase when nothing could be combined here.
pub enum BunkerPlan {
    /// Travel to this planet.
    Travel(u32),
    /// Stay this step: a destination is known but no known route leads there.
    Stay,
    /// Nothing more can be made: the run is over.
    Finish,
}

/// The outcome of heading for `t`: its first hop, or staying when no known
/// route leads there.
pub open spec fn heads_for(map: Map<u32, AmonPlanetInfo>, current: u32, t: u32, plan: BunkerPlan) -> bool {
    match plan {
        BunkerPlan::Travel(x) => current != t && known_first_hop(map, current, x, t),
        BunkerPlan::Stay => current == t || !known_reachable(map, current, t),
        BunkerPlan::Finish => false,
    }
}

fn head_for(galaxy_map: &IdMap<AmonPlanetInfo>, current: u32, t: u32) -> (plan: BunkerPlan)
    requires
        galaxy_map.wf(),
    ensures
        heads_for(galaxy_map@, current, t, plan),
{
    match get_next_hop(current, t, galaxy_map) {
        Some(x) => BunkerPlan::Travel(x),
        None => BunkerPlan::Stay,
    }
}

/// Where the bunker phase goes next: toward the first known workshop of
/// the most advanced combination the bag allows; when none is known, toward
/// another known bunker, else to an unexplored neighbour; finished when
/// there is nothing left to make or nowhere left to look.
pub fn bunker_plan(galaxy_map: &IdMap<AmonPlanetInfo>, current: u32, neighbors: &Vec<u32>, bag: &BagSnapshot) -> (plan: BunkerPlan)
    requires
        galaxy_map.wf(),
    ensures
        match spec_next_global_target(*bag) {
            None => plan is Finish,
            Some(tc) => exists|w: Option<u32>| #[trigger] first_workshop(galaxy_map@, galaxy_map.order(), tc, w)
                && match w {
                    Some(t) => heads_for(galaxy_map@, current, t, plan),
                    None => exists|b: Option<u32>| #[trigger] first_bunker(galaxy_map@, galaxy_map.order(), Some(current), b)
                        && match b {
                            Some(t) => heads_for(galaxy_map@, current, t, plan),
                            None => exists|u: Option<u32>| #[trigger] first_unknown(galaxy_map@, neighbors@, u)
                                && match u {
                                    Some(n) => plan == BunkerPlan::Travel(n),
                                    None => plan is Finish,
                                },
                        },
                },
        },
{
    match next_global_target(bag) {
        None => BunkerPlan::Finish,
        Some(tc) => {
            match workshop(galaxy_map, tc) {
                Some(t) => head_for(galaxy_map, current, t),
                None => {
                    match bunker(galaxy_map, Some(current)) {
                        Some(b) => head_for(galaxy_map, current, b),
                        None => match first_unexplored(neighbors, galaxy_map) {
                            Some(n) => BunkerPlan::Travel(n),
                            None => BunkerPlan::Finish,
                        },
                    }
                },
            }
        },
    }
}

/// The phase after an evacuation step that surveyed `current`: the bunker
/// phase once Amon stands on a known bunker, still evacuating otherwise.
pub fn after_evacuation_step(galaxy_map: &IdMap<AmonPlanetInfo>, current: u32) -> (s: AmonState)
    requires
        galaxy_map.wf(),
    ensures
        s == if galaxy_map@.contains_key(current) && spec_is_bunker(galaxy_map@[current]) {
            AmonState::BunkerCrafting
        } else {
            AmonState::Evacuating
        },
{
    match galaxy_map.get(current) {
        Some(info) => if info.is_bunker() { AmonState::BunkerCrafting } else { AmonState::Evacuating },
        None => AmonState::Evacuating,
    }
}

/// The phase after a bunker step that planned `plan`: the run is over on
/// `Finish`, the bunker phase goes on otherwise.
pub fn after_bunker_plan(plan: &BunkerPlan) -> (s: AmonState)
    ensures
        s == if *plan is Finish { AmonState::VictoryFlex } else { AmonState::BunkerCrafting },
{
    match plan {
        BunkerPlan::Finish => AmonState::VictoryFlex,
        _ => AmonState::BunkerCrafting,
    }
}

} // verus!
