use common_game::components::forge::Forge;
use common_game::components::planet::{DummyPlanetState, Planet, PlanetAI, PlanetState, PlanetType};
use common_game::components::resource::{
    BasicResource, BasicResourceType, Carbon, Combinator, ComplexResourceRequest, ComplexResourceType, Generator,
};
use common_game::components::rocket::Rocket;
use common_game::components::sunray::Sunray;
use common_game::protocols::orchestrator_planet::{OrchestratorToPlanet, PlanetToOrchestrator};
use common_game::protocols::planet_explorer::{ExplorerToPlanet, PlanetToExplorer};
use crossbeam_channel::{unbounded, Receiver, Sender};
use stargazers::planet_ai::StargazersAI;

struct Hosted(StargazersAI);

impl PlanetAI for Hosted {
    fn handle_sunray(&mut self, state: &mut PlanetState, _g: &Generator, _c: &Combinator, sunray: Sunray) {
        self.0.handle_sunray(state, sunray);
    }

    fn handle_asteroid(&mut self, state: &mut PlanetState, _g: &Generator, _c: &Combinator) -> Option<Rocket> {
        self.0.handle_asteroid(state)
    }

    fn handle_internal_state_req(&mut self, state: &mut PlanetState, _g: &Generator, _c: &Combinator) -> DummyPlanetState {
        self.0.handle_internal_state_req(state)
    }

    fn handle_explorer_msg(
        &mut self,
        state: &mut PlanetState,
        generator: &Generator,
        combinator: &Combinator,
        msg: ExplorerToPlanet,
    ) -> Option<PlanetToExplorer> {
        self.0.handle_explorer_msg(state, generator, combinator, msg)
    }

    fn on_start(&mut self, _state: &PlanetState, _g: &Generator, _c: &Combinator) {
        self.0.on_start();
    }

    fn on_stop(&mut self, _state: &PlanetState, _g: &Generator, _c: &Combinator) {
        self.0.on_stop();
    }
}

/// A planet with its channels. Explorer 43 is registered with a channel
/// nobody reads: a request from it makes `run` return, once every message
/// queued before it has been handled.
struct Rig {
    planet: Planet,
    tx: Sender<OrchestratorToPlanet>,
    rx: Receiver<PlanetToOrchestrator>,
    tx_expl: Sender<ExplorerToPlanet>,
    stopper_registered: bool,
}

fn stargazers_rig() -> Rig {
    let (tx, rx_o) = unbounded();
    let (tx_p, rx) = unbounded();
    let (tx_expl, rx_e) = unbounded();
    let planet = Planet::new(
        1,
        PlanetType::B,
        Box::new(Hosted(StargazersAI::new())),
        vec![BasicResourceType::Oxygen, BasicResourceType::Carbon, BasicResourceType::Hydrogen, BasicResourceType::Silicon],
        vec![ComplexResourceType::Robot],
        (rx_o, tx_p),
        rx_e,
    )
    .unwrap();
    Rig { planet, tx, rx, tx_expl, stopper_registered: false }
}

const STOPPER: u32 = 43;

/// Starts the planet, hands it the orchestrator messages and then the
/// explorer messages, runs it until every one is handled, and returns the
/// planet's answers to the orchestrator (the start's answer first).
fn pump(r: &mut Rig, orch: Vec<OrchestratorToPlanet>, expl: Vec<ExplorerToPlanet>) -> Vec<PlanetToOrchestrator> {
    r.tx.send(OrchestratorToPlanet::StartPlanetAI).unwrap();
    if !r.stopper_registered {
        let (new_sender, dropped) = unbounded();
        drop(dropped);
        r.tx.send(OrchestratorToPlanet::IncomingExplorerRequest { explorer_id: STOPPER, new_sender }).unwrap();
    }
    for m in orch {
        r.tx.send(m).unwrap();
    }
    for m in expl {
        r.tx_expl.send(m).unwrap();
    }
    r.tx_expl.send(ExplorerToPlanet::AvailableEnergyCellRequest { explorer_id: STOPPER }).unwrap();
    assert!(r.planet.run().is_err());
    let mut out = Vec::new();
    while let Ok(m) = r.rx.try_recv() {
        out.push(m);
    }
    assert!(matches!(out[0], PlanetToOrchestrator::StartPlanetAIResult { .. }));
    if !r.stopper_registered {
        assert!(matches!(out[1], PlanetToOrchestrator::IncomingExplorerResponse { explorer_id: STOPPER, .. }));
        out.remove(1);
        r.stopper_registered = true;
    }
    out.remove(0);
    out
}

fn incoming(explorer_id: u32) -> (OrchestratorToPlanet, Receiver<PlanetToExplorer>) {
    let (new_sender, rx) = unbounded();
    (OrchestratorToPlanet::IncomingExplorerRequest { explorer_id, new_sender }, rx)
}

fn registered_ok(m: &PlanetToOrchestrator) -> bool {
    matches!(m, PlanetToOrchestrator::IncomingExplorerResponse { res: Ok(()), .. })
}

fn unregistered_ok(m: &PlanetToOrchestrator) -> bool {
    matches!(m, PlanetToOrchestrator::OutgoingExplorerResponse { res: Ok(()), .. })
}

#[test]
fn test_explorer_registration_lifecycle() {
    let mut r = stargazers_rig();
    let (m100, _r1) = incoming(100);
    let (m200, _r2) = incoming(200);
    let (m300, _r3) = incoming(300);
    let out = pump(&mut r, vec![m100, m200, m300, OrchestratorToPlanet::OutgoingExplorerRequest { explorer_id: 200 }], vec![]);
    assert!(registered_ok(&out[0]) && registered_ok(&out[1]) && registered_ok(&out[2]), "Explorer registration should succeed");
    assert!(unregistered_ok(&out[3]), "Explorer unregistration should succeed");
}

#[test]
fn test_explorer_supported_queries() {
    let mut r = stargazers_rig();
    let (m42, expl_rx) = incoming(42);
    pump(
        &mut r,
        vec![m42],
        vec![
            ExplorerToPlanet::SupportedResourceRequest { explorer_id: 42 },
            ExplorerToPlanet::SupportedCombinationRequest { explorer_id: 42 },
            ExplorerToPlanet::AvailableEnergyCellRequest { explorer_id: 42 },
        ],
    );
    match expl_rx.try_recv() {
        Ok(PlanetToExplorer::SupportedResourceResponse { resource_list }) => {
            assert!(resource_list.contains(&BasicResourceType::Oxygen));
            assert!(resource_list.contains(&BasicResourceType::Hydrogen));
            assert!(resource_list.contains(&BasicResourceType::Carbon));
            assert!(resource_list.contains(&BasicResourceType::Silicon));
            assert_eq!(resource_list.len(), 4);
        }
        _ => panic!("Expected SupportedResourceResponse"),
    }
    match expl_rx.try_recv() {
        Ok(PlanetToExplorer::SupportedCombinationResponse { combination_list }) => {
            assert!(combination_list.contains(&ComplexResourceType::Robot));
            assert_eq!(combination_list.len(), 1);
        }
        _ => panic!("Expected SupportedCombinationResponse"),
    }
    match expl_rx.try_recv() {
        Ok(PlanetToExplorer::AvailableEnergyCellResponse { available_cells }) => assert_eq!(available_cells, 1),
        _ => panic!("Expected AvailableEnergyCellResponse"),
    }
}

#[test]
fn test_explorer_generate_all_basic_resources() {
    let forge = Forge::new().unwrap();
    let mut r = stargazers_rig();
    let (m42, expl_rx) = incoming(42);
    let mut first = Some(m42);
    for (resource_type, name) in [
        (BasicResourceType::Oxygen, "Oxygen"),
        (BasicResourceType::Hydrogen, "Hydrogen"),
        (BasicResourceType::Carbon, "Carbon"),
        (BasicResourceType::Silicon, "Silicon"),
    ] {
        let mut orch: Vec<OrchestratorToPlanet> = first.take().into_iter().collect();
        orch.push(OrchestratorToPlanet::Sunray(forge.generate_sunray()));
        let out = pump(&mut r, orch, vec![ExplorerToPlanet::GenerateResourceRequest { explorer_id: 42, resource: resource_type }]);
        assert!(out.iter().any(|m| matches!(m, PlanetToOrchestrator::SunrayAck { .. })));
        match expl_rx.try_recv() {
            Ok(PlanetToExplorer::GenerateResourceResponse { resource }) => {
                assert!(resource.is_some(), "{} should be generated", name);
                let matches = match (&resource.unwrap(), resource_type) {
                    (BasicResource::Oxygen(_), BasicResourceType::Oxygen) => true,
                    (BasicResource::Hydrogen(_), BasicResourceType::Hydrogen) => true,
                    (BasicResource::Carbon(_), BasicResourceType::Carbon) => true,
                    (BasicResource::Silicon(_), BasicResourceType::Silicon) => true,
                    _ => false,
                };
                assert!(matches, "Generated resource type should match requested type");
            }
            _ => panic!("Expected GenerateResourceResponse for {}", name),
        }
    }
}

#[test]
fn test_explorer_generate_resource_no_charge() {
    let mut r = stargazers_rig();
    let (m42, expl_rx) = incoming(42);
    pump(&mut r, vec![m42], vec![ExplorerToPlanet::GenerateResourceRequest { explorer_id: 42, resource: BasicResourceType::Oxygen }]);
    assert!(expl_rx.try_recv().is_err(), "No answer when no cell is charged");
}

#[test]
fn test_explorer_isolation() {
    let mut r = stargazers_rig();
    let (m100, expl_rx_100) = incoming(100);
    let (m200, expl_rx_200) = incoming(200);
    pump(&mut r, vec![m100, m200], vec![ExplorerToPlanet::AvailableEnergyCellRequest { explorer_id: 100 }]);
    assert!(matches!(expl_rx_100.try_recv(), Ok(PlanetToExplorer::AvailableEnergyCellResponse { .. })));
    assert!(expl_rx_200.try_recv().is_err(), "Explorer 200 should not receive Explorer 100's response");
    let out = pump(
        &mut r,
        vec![OrchestratorToPlanet::OutgoingExplorerRequest { explorer_id: 100 }],
        vec![ExplorerToPlanet::AvailableEnergyCellRequest { explorer_id: 100 }],
    );
    assert!(unregistered_ok(&out[0]));
    assert!(expl_rx_100.try_recv().is_err(), "Unregistered explorer should get no response");
}

#[test]
fn test_full_lifecycle_scenario() {
    let forge = Forge::new().unwrap();
    let mut r = stargazers_rig();
    let (m42, expl_rx) = incoming(42);
    pump(&mut r, vec![m42], vec![ExplorerToPlanet::SupportedResourceRequest { explorer_id: 42 }]);
    assert!(matches!(expl_rx.try_recv(), Ok(PlanetToExplorer::SupportedResourceResponse { .. })));
    pump(
        &mut r,
        vec![OrchestratorToPlanet::Sunray(forge.generate_sunray())],
        vec![ExplorerToPlanet::GenerateResourceRequest { explorer_id: 42, resource: BasicResourceType::Silicon }],
    );
    match expl_rx.try_recv() {
        Ok(PlanetToExplorer::GenerateResourceResponse { resource }) => assert!(resource.is_some()),
        _ => panic!("Expected GenerateResourceResponse"),
    }
    let out = pump(
        &mut r,
        vec![OrchestratorToPlanet::InternalStateRequest, OrchestratorToPlanet::OutgoingExplorerRequest { explorer_id: 42 }],
        vec![],
    );
    match &out[0] {
        PlanetToOrchestrator::InternalStateResponse { planet_state, .. } => {
            assert_eq!(planet_state.charged_cells_count, 0, "Cell should be discharged");
        }
        _ => panic!("Expected InternalStateResponse"),
    }
    assert!(unregistered_ok(&out[1]));
    r.tx.send(OrchestratorToPlanet::StartPlanetAI).unwrap();
    r.tx.send(OrchestratorToPlanet::StopPlanetAI).unwrap();
    r.tx.send(OrchestratorToPlanet::KillPlanet).unwrap();
    assert!(r.planet.run().is_ok());
    assert!(matches!(r.rx.try_recv(), Ok(PlanetToOrchestrator::StartPlanetAIResult { .. })));
    assert!(matches!(r.rx.try_recv(), Ok(PlanetToOrchestrator::StopPlanetAIResult { .. })));
    assert!(matches!(r.rx.try_recv(), Ok(PlanetToOrchestrator::KillPlanetResult { .. })));
}

fn generated_carbon(r: &mut Rig, forge: &Forge, rx: &Receiver<PlanetToExplorer>) -> Carbon {
    pump(
        r,
        vec![OrchestratorToPlanet::Sunray(forge.generate_sunray())],
        vec![ExplorerToPlanet::GenerateResourceRequest { explorer_id: 42, resource: BasicResourceType::Carbon }],
    );
    match rx.try_recv() {
        Ok(PlanetToExplorer::GenerateResourceResponse { resource: Some(BasicResource::Carbon(c)) }) => c,
        _ => panic!("Expected a carbon"),
    }
}

#[test]
fn combination_without_recipe_keeps_the_cell_charged() {
    let forge = Forge::new().unwrap();
    let mut r = stargazers_rig();
    let (m42, expl_rx) = incoming(42);
    pump(&mut r, vec![m42], vec![]);
    let c1 = generated_carbon(&mut r, &forge, &expl_rx);
    let c2 = generated_carbon(&mut r, &forge, &expl_rx);
    pump(
        &mut r,
        vec![OrchestratorToPlanet::Sunray(forge.generate_sunray())],
        vec![ExplorerToPlanet::CombineResourceRequest { explorer_id: 42, msg: ComplexResourceRequest::Diamond(c1, c2) }],
    );
    match expl_rx.try_recv() {
        Ok(PlanetToExplorer::CombineResourceResponse { complex_response: Err((m, _, _)) }) => {
            assert_eq!(m, "Recipe not available, failed combination - returning [r1 : Carbon] and [r2 : Carbon]");
        }
        _ => panic!("Expected a refusal"),
    }
    let out = pump(&mut r, vec![OrchestratorToPlanet::InternalStateRequest], vec![]);
    match &out[0] {
        PlanetToOrchestrator::InternalStateResponse { planet_state, .. } => {
            assert_eq!(planet_state.charged_cells_count, 1, "The refused combination uses no cell");
            assert_eq!(planet_state.energy_cells, vec![true]);
        }
        _ => panic!("Expected InternalStateResponse"),
    }
}
