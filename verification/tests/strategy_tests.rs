use common_game::components::resource::{BasicResourceType, ComplexResourceType};
use stargazers::amon::{
    after_alarm, after_bunker_plan, after_evacuation_step, bunker, first_unexplored, get_next_hop, local_craft, next_global_target, supplier, workshop,
    AmonPlanetInfo, AmonState, BunkerPlan,
};
use stargazers::bag::BagSnapshot;
use stargazers::behaviour::{give_up_target, roam_target, HarvestState};
use stargazers::eleanor::{Eleanor, EleanorReply, EleanorRequest, PlanetInfo};
use stargazers::idmap::IdMap;
use stargazers::resources::{BasicSet, ComplexSet};

fn info(generates: &[BasicResourceType], combines: &[ComplexResourceType], neighbors: Vec<u32>) -> AmonPlanetInfo {
    let mut g = BasicSet::empty();
    for &t in generates {
        g.insert(t);
    }
    let mut c = ComplexSet::empty();
    for &t in combines {
        c.insert(t);
    }
    AmonPlanetInfo { generates: g, combines: c, neighbors }
}

fn amon_map() -> IdMap<AmonPlanetInfo> {
    let mut m = IdMap::new();
    m.insert(1, info(&[BasicResourceType::Oxygen], &[], vec![2]));
    m.insert(2, info(&[], &[ComplexResourceType::Water], vec![1, 3]));
    m.insert(3, info(&[BasicResourceType::Carbon], &[ComplexResourceType::Diamond], vec![2]));
    m
}

#[test]
fn the_alarm_ends_the_gold_rush() {
    assert_eq!(after_alarm(AmonState::GoldRush, 23), AmonState::GoldRush);
    assert_eq!(after_alarm(AmonState::GoldRush, 24), AmonState::Evacuating);
    assert_eq!(after_alarm(AmonState::BunkerCrafting, 100), AmonState::BunkerCrafting);
}

#[test]
fn amon_routes_over_known_planets() {
    let m = amon_map();
    assert_eq!(get_next_hop(1, 3, &m), Some(2));
    assert_eq!(get_next_hop(3, 3, &m), None);
    assert_eq!(get_next_hop(1, 7, &m), None);
}

#[test]
fn amon_picks_planets_by_role() {
    let m = amon_map();
    assert!(m.get(2).unwrap().is_bunker());
    assert!(!m.get(3).unwrap().is_bunker());
    assert_eq!(bunker(&m, None), Some(2));
    assert_eq!(bunker(&m, Some(2)), None);
    assert_eq!(workshop(&m, ComplexResourceType::Diamond), Some(3));
    assert_eq!(workshop(&m, ComplexResourceType::Robot), None);
    assert_eq!(supplier(&m, 2, &vec![BasicResourceType::Carbon]), Some(3));
    assert_eq!(first_unexplored(&vec![2, 5, 6], &m), Some(5));
    assert_eq!(first_unexplored(&vec![1, 2], &m), None);
}

#[test]
fn nothing_to_craft_from_an_empty_bag() {
    let bag = BagSnapshot::empty();
    assert_eq!(next_global_target(&bag), None);
    let mut all = ComplexSet::empty();
    all.insert(ComplexResourceType::Water);
    assert_eq!(local_craft(&all, &bag), None);
}

#[test]
fn roamer_and_homebody() {
    assert_eq!(roam_target(&vec![]), None);
    let d = roam_target(&vec![4, 5]).unwrap();
    assert!(d == 4 || d == 5);
    assert_eq!(give_up_target(&vec![8, 2]), Some(8));
    assert_eq!(give_up_target(&vec![]), None);
    let mut h = HarvestState::new();
    for _ in 0..4 {
        assert!(!h.after_round(false));
    }
    assert_eq!(h.consecutive_failures, 4);
    assert!(h.after_round(false));
    assert_eq!(h.consecutive_failures, 0);
    assert!(!h.after_round(false));
    assert!(!h.after_round(true));
    assert_eq!(h.consecutive_failures, 0);
}

#[test]
fn eleanor_learns_the_planet_step_by_step() {
    let mut e = Eleanor::new(3, BagSnapshot::empty());
    assert!(!e.knows_current());
    assert_eq!(e.decide(), EleanorRequest::Nothing);
    assert!(e.knows_current());
    assert_eq!(e.decide(), EleanorRequest::Nothing);
    assert_eq!(e.decide(), EleanorRequest::DiscoverResources);
    let mut gen = BasicSet::empty();
    gen.insert(BasicResourceType::Oxygen);
    e.absorb(EleanorRequest::DiscoverResources, EleanorReply::Resources(Some(gen)));
    assert_eq!(e.decide(), EleanorRequest::Nothing);
    assert_eq!(e.decide(), EleanorRequest::DiscoverCombinations);
    e.absorb(EleanorRequest::DiscoverCombinations, EleanorReply::Combinations(Some(ComplexSet::empty())));
    assert_eq!(e.decide(), EleanorRequest::Nothing);
    assert_eq!(e.decide(), EleanorRequest::RequestNeighbours);
    e.absorb(EleanorRequest::RequestNeighbours, EleanorReply::Neighbours(Some(vec![4])));
    assert_eq!(e.find_planet_that_generates(BasicResourceType::Oxygen), Some(3));
    assert_eq!(e.find_planet_that_generates(BasicResourceType::Carbon), None);
    assert_eq!(e.pick_unexplored_neighbour(), Some(4));
}

#[test]
fn planet_info_knowledge() {
    let mut p = PlanetInfo::new();
    assert!(!p.is_fully_known());
    assert!(!p.can_generate(BasicResourceType::Oxygen));
    let mut g = BasicSet::empty();
    g.insert(BasicResourceType::Oxygen);
    p.gen_recipes = Some(g);
    assert!(p.can_generate(BasicResourceType::Oxygen));
    p.forget_fields(true, false, false);
    assert!(p.gen_recipes.is_none());
}

#[test]
fn idmap_keeps_insertion_order() {
    let mut m: IdMap<u32> = IdMap::new();
    m.insert(5, 50);
    m.insert(2, 20);
    m.insert(5, 55);
    assert_eq!(m.len(), 2);
    assert_eq!(m.key_at(0), 5);
    assert_eq!(m.key_at(1), 2);
    assert_eq!(m.get(5), Some(&55));
    assert_eq!(m.remove(5), Some(55));
    assert!(!m.contains_key(5));
    assert_eq!(m.get(2), Some(&20));
    let mut s: IdMap<u32> = IdMap::new();
    s.insert_sorted(9, 1);
    s.insert_sorted(3, 2);
    s.insert_sorted(6, 3);
    assert_eq!((s.key_at(0), s.key_at(1), s.key_at(2)), (3, 6, 9));
}

#[test]
fn planet_info_duplicate_keeps_every_fact() {
    let mut p = PlanetInfo::new();
    p.neighbours = Some(vec![3, 4]);
    let q = p.duplicate();
    assert_eq!(q.neighbours, Some(vec![3, 4]));
    assert!(q.gen_recipes.is_none());
}

#[test]
fn eleanor_forgets_only_the_facts_picked() {
    let mut e = Eleanor::new(3, BagSnapshot::empty());
    e.decide();
    e.decide();
    e.decide();
    let mut gen = BasicSet::empty();
    gen.insert(BasicResourceType::Oxygen);
    e.absorb(EleanorRequest::DiscoverResources, EleanorReply::Resources(Some(gen)));
    e.decide();
    e.decide();
    e.absorb(EleanorRequest::DiscoverCombinations, EleanorReply::Combinations(Some(ComplexSet::empty())));
    e.decide();
    e.decide();
    e.absorb(EleanorRequest::RequestNeighbours, EleanorReply::Neighbours(Some(vec![4])));
    assert_eq!(e.find_planet_that_generates(BasicResourceType::Oxygen), Some(3));
    e.forget_planet(0, true, false, false);
    assert!(e.knows_current());
    assert_eq!(e.find_planet_that_generates(BasicResourceType::Oxygen), None);
    assert_eq!(e.pick_unexplored_neighbour(), Some(4));
}

#[test]
fn eleanor_relearns_a_destroyed_current_planet() {
    let mut e = Eleanor::new(3, BagSnapshot::empty());
    e.decide();
    assert!(e.knows_current());
    e.on_planet_destroyed(3);
    assert!(!e.knows_current());
    e.decide();
    e.decide();
    assert!(e.knows_current());
}

#[test]
fn amon_phase_steps() {
    let mut m = amon_map();
    assert_eq!(after_evacuation_step(&m, 1), AmonState::Evacuating);
    m.insert(9, info(&[], &[ComplexResourceType::Robot], vec![1]));
    assert_eq!(after_evacuation_step(&m, 9), AmonState::BunkerCrafting);
    assert_eq!(after_evacuation_step(&m, 42), AmonState::Evacuating);
    assert_eq!(after_bunker_plan(&BunkerPlan::Finish), AmonState::VictoryFlex);
    assert_eq!(after_bunker_plan(&BunkerPlan::Stay), AmonState::BunkerCrafting);
    assert_eq!(after_bunker_plan(&BunkerPlan::Travel(2)), AmonState::BunkerCrafting);
}
