use common_game::components::energy_cell::EnergyCell;
use common_game::components::forge::Forge;
use common_game::components::planet::{DummyPlanetState, Planet, PlanetAI, PlanetState, PlanetType};
use common_game::components::resource::{
    BasicResource, BasicResourceType, Combinator, ComplexResourceRequest, ComplexResourceType, Generator,
};
use common_game::components::rocket::Rocket;
use common_game::components::sunray::Sunray;
use common_game::protocols::planet_explorer::{ExplorerToPlanet, PlanetToExplorer};
use crossbeam_channel::unbounded;
use stargazers::bag::Bag;
use stargazers::explorer::{prepare_combination, ExplorerState, ExplorerStep, OrchestratorCommand, PlanetAnswer};
use stargazers::orchestrator::{Effect, ExplorerNotice, OrchestratorState};
use stargazers::planet::PlanetKind;
use stargazers::report::GalaxyReport;

struct Idle;

impl PlanetAI for Idle {
    fn handle_sunray(&mut self, _state: &mut PlanetState, _generator: &Generator, _combinator: &Combinator, _sunray: Sunray) {}

    fn handle_asteroid(&mut self, _state: &mut PlanetState, _generator: &Generator, _combinator: &Combinator) -> Option<Rocket> {
        None
    }

    fn handle_internal_state_req(&mut self, state: &mut PlanetState, _generator: &Generator, _combinator: &Combinator) -> DummyPlanetState {
        state.to_dummy()
    }

    fn handle_explorer_msg(
        &mut self,
        _state: &mut PlanetState,
        _generator: &Generator,
        _combinator: &Combinator,
        _msg: ExplorerToPlanet,
    ) -> Option<PlanetToExplorer> {
        None
    }
}

fn farm() -> Planet {
    let (_tx_o, rx_o) = unbounded();
    let (tx_p, _rx_p) = unbounded();
    let (_tx_e, rx_e) = unbounded();
    Planet::new(
        1,
        PlanetType::D,
        Box::new(Idle),
        vec![BasicResourceType::Oxygen, BasicResourceType::Hydrogen, BasicResourceType::Carbon, BasicResourceType::Silicon],
        vec![],
        (rx_o, tx_p),
        rx_e,
    )
    .unwrap()
}

fn make(planet: &Planet, forge: &Forge, t: BasicResourceType) -> BasicResource {
    let mut cell = EnergyCell::new();
    cell.charge(forge.generate_sunray());
    let g = planet.generator();
    match t {
        BasicResourceType::Oxygen => BasicResource::Oxygen(g.make_oxygen(&mut cell).unwrap()),
        BasicResourceType::Hydrogen => BasicResource::Hydrogen(g.make_hydrogen(&mut cell).unwrap()),
        BasicResourceType::Carbon => BasicResource::Carbon(g.make_carbon(&mut cell).unwrap()),
        BasicResourceType::Silicon => BasicResource::Silicon(g.make_silicon(&mut cell).unwrap()),
    }
}

#[test]
fn a_resource_added_can_be_taken_back() {
    let forge = Forge::new().unwrap();
    let planet = farm();
    let mut bag = Bag::new();
    bag.add_basic(make(&planet, &forge, BasicResourceType::Oxygen));
    assert!(bag.contains_basic(BasicResourceType::Oxygen));
    assert!(!bag.contains_basic(BasicResourceType::Carbon));
    assert_eq!(bag.snapshot().get_basic_count(BasicResourceType::Oxygen), 1);
    let taken = bag.take_basic(BasicResourceType::Oxygen).unwrap();
    assert_eq!(taken.get_type(), BasicResourceType::Oxygen);
    assert!(bag.take_basic(BasicResourceType::Oxygen).is_none());
    assert_eq!(bag.snapshot().get_basic_count(BasicResourceType::Oxygen), 0);
}

#[test]
fn water_takes_hydrogen_and_oxygen() {
    let forge = Forge::new().unwrap();
    let planet = farm();
    let mut bag = Bag::new();
    bag.add_basic(make(&planet, &forge, BasicResourceType::Hydrogen));
    bag.add_basic(make(&planet, &forge, BasicResourceType::Oxygen));
    match prepare_combination(&mut bag, ComplexResourceType::Water) {
        Ok(ComplexResourceRequest::Water(_, _)) => {}
        _ => panic!("expected a water request"),
    }
    assert!(!bag.contains_basic(BasicResourceType::Hydrogen));
    assert!(!bag.contains_basic(BasicResourceType::Oxygen));
}

#[test]
fn a_missing_second_ingredient_puts_the_first_back() {
    let forge = Forge::new().unwrap();
    let planet = farm();
    let mut bag = Bag::new();
    bag.add_basic(make(&planet, &forge, BasicResourceType::Hydrogen));
    match prepare_combination(&mut bag, ComplexResourceType::Water) {
        Err(e) => assert_eq!(e, "Insufficient oxygen for water generation."),
        Ok(_) => panic!("oxygen is missing"),
    }
    assert_eq!(bag.snapshot().get_basic_count(BasicResourceType::Hydrogen), 1);
    bag.add_basic(make(&planet, &forge, BasicResourceType::Carbon));
    match prepare_combination(&mut bag, ComplexResourceType::Diamond) {
        Err(e) => assert_eq!(e, "Insufficient carbon for diamond generation."),
        Ok(_) => panic!("one carbon is not enough"),
    }
    assert_eq!(bag.snapshot().get_basic_count(BasicResourceType::Carbon), 1);
}

#[test]
fn generated_resources_land_in_the_bag_and_are_reported() {
    let forge = Forge::new().unwrap();
    let planet = farm();
    let mut e = ExplorerState::new(7, 1);
    let silicon = make(&planet, &forge, BasicResourceType::Silicon);
    assert!(e.absorb_generated(PlanetAnswer::Got(Some(silicon))).is_ok());
    assert_eq!(e.absorb_generated(PlanetAnswer::Got(None)), Err("Resource generation failed or timed out".to_string()));
    assert_eq!(e.absorb_generated(PlanetAnswer::TimedOut), Err("Timeout from Planet AI.".to_string()));
    let snap = match e.handle_orchestrator_msg(OrchestratorCommand::BagContentRequest) {
        ExplorerStep::ReportBag(snap) => snap,
        _ => panic!("expected the bag"),
    };
    assert_eq!(snap.get_basic_count(BasicResourceType::Silicon), 1);

    let planets = vec![(1u32, PlanetKind::D)];
    let explorers = vec![(7u32, 1u32)];
    let mut orch = OrchestratorState::new(&planets, &explorers, 3);
    let mut out = Vec::new();
    orch.handle_explorer_msg(ExplorerNotice::BagContentResponse { explorer_id: 7, bag_content: snap }, &mut out);
    match &out[..] {
        [Effect::Report(r @ GalaxyReport::Bag { .. })] => {
            assert_eq!(r.describe(), vec!["Explorer 7 bag:".to_string(), "  basic:   Silicon x1".to_string()]);
        }
        _ => panic!("expected one bag report"),
    }
}
