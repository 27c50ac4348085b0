use common_game::components::asteroid::Asteroid;
use common_game::components::forge::Forge;
use common_game::components::planet::{DummyPlanetState, Planet, PlanetAI, PlanetState, PlanetType};
use common_game::components::resource::{BasicResourceType, Combinator, ComplexResourceType, Generator};
use common_game::components::rocket::Rocket;
use common_game::components::sunray::Sunray;
use common_game::protocols::orchestrator_planet::{OrchestratorToPlanet, PlanetToOrchestrator};
use common_game::protocols::planet_explorer::{ExplorerToPlanet, PlanetToExplorer};
use crossbeam_channel::{unbounded, Receiver, Sender};
use stargazers::planet_ai::StargazersAI;

/// The library's planet AI behind the game's planet trait, for these tests.
struct Hosted(StargazersAI);

impl PlanetAI for Hosted {
    fn handle_sunray(&mut self, state: &mut PlanetState, _g: &Generator, _c: &Combinator, sunray: Sunray) {
        self.0.handle_sunray(state, sunray);
    }

    fn handle_asteroid(&mut self, state: &mut PlanetState, _g: &Generator, _c: &Combinator) -> Option<Rocket> {
        self.0.handle_asteroid(state)
    }

    fn handle_internal_state_req(&mut self, state: &mut PlanetState, _g: &Generator, _c: &Combinator) -> DummyPlanetState {
        self.0.handle_internal_state_req(state)
    }

    fn handle_explorer_msg(
        &mut self,
        state: &mut PlanetState,
        generator: &Generator,
        combinator: &Combinator,
        msg: ExplorerToPlanet,
    ) -> Option<PlanetToExplorer> {
        self.0.handle_explorer_msg(state, generator, combinator, msg)
    }

    fn on_start(&mut self, _state: &PlanetState, _g: &Generator, _c: &Combinator) {
        self.0.on_start();
    }

    fn on_stop(&mut self, _state: &PlanetState, _g: &Generator, _c: &Combinator) {
        self.0.on_stop();
    }
}

struct Rig {
    planet: Planet,
    tx: Sender<OrchestratorToPlanet>,
    rx: Receiver<PlanetToOrchestrator>,
}

fn rig(id: u32, t: PlanetType, gen: Vec<BasicResourceType>, comb: Vec<ComplexResourceType>) -> Rig {
    let (tx, rx_o) = unbounded();
    let (tx_p, rx) = unbounded();
    let (_tx_e, rx_e) = unbounded();
    let planet = Planet::new(id, t, Box::new(Hosted(StargazersAI::new())), gen, comb, (rx_o, tx_p), rx_e).unwrap();
    Rig { planet, tx, rx }
}

/// The Stargazers planet: id 1, type B, the four basic recipes and robots.
fn stargazers_rig() -> Rig {
    rig(
        1,
        PlanetType::B,
        vec![BasicResourceType::Oxygen, BasicResourceType::Carbon, BasicResourceType::Hydrogen, BasicResourceType::Silicon],
        vec![ComplexResourceType::Robot],
    )
}

/// Queues the messages, runs the planet until it is killed, and returns its answers.
fn replay(mut r: Rig, msgs: Vec<OrchestratorToPlanet>) -> Vec<PlanetToOrchestrator> {
    for m in msgs {
        r.tx.send(m).unwrap();
    }
    r.planet.run().unwrap();
    let mut out = Vec::new();
    while let Ok(m) = r.rx.try_recv() {
        out.push(m);
    }
    out
}

#[test]
fn test_create_planet_properties() {
    let r = stargazers_rig();
    let planet = &r.planet;
    assert_eq!(planet.id(), 1, "Planet ID should be 1");
    assert!(matches!(planet.planet_type(), PlanetType::B), "Planet should be Type B");
    assert_eq!(planet.state().cells_count(), 1, "Type B should have 1 energy cell");
    assert!(!planet.state().can_have_rocket(), "Type B cannot have rockets");
    assert!(!planet.state().has_rocket(), "Planet should start without rocket");
    let generator = planet.generator();
    assert!(generator.contains(BasicResourceType::Oxygen), "Should have Oxygen recipe");
    assert!(generator.contains(BasicResourceType::Hydrogen), "Should have Hydrogen recipe");
    assert!(generator.contains(BasicResourceType::Carbon), "Should have Carbon recipe");
    assert!(generator.contains(BasicResourceType::Silicon), "Should have Silicon recipe");
    let comb = planet.combinator();
    assert!(comb.contains(ComplexResourceType::Robot), "Should have Robot recipe");
    assert!(!comb.contains(ComplexResourceType::Water), "Should NOT have Water recipe");
    assert!(!comb.contains(ComplexResourceType::Diamond), "Should NOT have Diamond recipe");
    assert!(!comb.contains(ComplexResourceType::Life), "Should NOT have Life recipe");
    assert!(!comb.contains(ComplexResourceType::Dolphin), "Should NOT have Dolphin recipe");
    assert!(!comb.contains(ComplexResourceType::AIPartner), "Should NOT have AIPartner recipe");
}

#[test]
fn test_planet_starts_in_stopped_state() {
    let out = replay(stargazers_rig(), vec![OrchestratorToPlanet::InternalStateRequest, OrchestratorToPlanet::KillPlanet]);
    assert!(matches!(out[0], PlanetToOrchestrator::Stopped { planet_id: 1 }));
    assert!(matches!(out[1], PlanetToOrchestrator::KillPlanetResult { .. }));
}

#[test]
fn test_planet_start_stop_restart_cycle() {
    let out = replay(
        stargazers_rig(),
        vec![
            OrchestratorToPlanet::StartPlanetAI,
            OrchestratorToPlanet::InternalStateRequest,
            OrchestratorToPlanet::StopPlanetAI,
            OrchestratorToPlanet::InternalStateRequest,
            OrchestratorToPlanet::StartPlanetAI,
            OrchestratorToPlanet::InternalStateRequest,
            OrchestratorToPlanet::KillPlanet,
        ],
    );
    assert!(matches!(out[0], PlanetToOrchestrator::StartPlanetAIResult { .. }));
    assert!(matches!(out[1], PlanetToOrchestrator::InternalStateResponse { .. }), "Expected InternalStateResponse while running");
    assert!(matches!(out[2], PlanetToOrchestrator::StopPlanetAIResult { .. }));
    assert!(matches!(out[3], PlanetToOrchestrator::Stopped { .. }), "Expected Stopped after stopping");
    assert!(matches!(out[4], PlanetToOrchestrator::StartPlanetAIResult { .. }));
    assert!(matches!(out[5], PlanetToOrchestrator::InternalStateResponse { .. }), "Expected InternalStateResponse after restart");
    assert!(matches!(out[6], PlanetToOrchestrator::KillPlanetResult { .. }));
}

#[test]
fn test_planet_kill_from_any_state() {
    let out = replay(stargazers_rig(), vec![OrchestratorToPlanet::KillPlanet]);
    assert!(matches!(out[0], PlanetToOrchestrator::KillPlanetResult { planet_id: 1 }));
    let out = replay(stargazers_rig(), vec![OrchestratorToPlanet::StartPlanetAI, OrchestratorToPlanet::KillPlanet]);
    assert!(matches!(out[0], PlanetToOrchestrator::StartPlanetAIResult { .. }));
    assert!(matches!(out[1], PlanetToOrchestrator::KillPlanetResult { planet_id: 1 }));
}

#[test]
fn test_sunray_handling() {
    let forge = Forge::new().unwrap();
    let mut msgs = vec![
        OrchestratorToPlanet::StartPlanetAI,
        OrchestratorToPlanet::Sunray(forge.generate_sunray()),
        OrchestratorToPlanet::InternalStateRequest,
    ];
    for _ in 0..3 {
        msgs.push(OrchestratorToPlanet::Sunray(forge.generate_sunray()));
    }
    msgs.push(OrchestratorToPlanet::KillPlanet);
    let out = replay(stargazers_rig(), msgs);
    assert!(matches!(out[1], PlanetToOrchestrator::SunrayAck { .. }));
    match &out[2] {
        PlanetToOrchestrator::InternalStateResponse { planet_state, .. } => {
            assert_eq!(planet_state.charged_cells_count, 1, "Cell should be charged");
        }
        _ => panic!("Expected InternalStateResponse"),
    }
    for m in &out[3..6] {
        assert!(matches!(m, PlanetToOrchestrator::SunrayAck { .. }), "Expected SunrayAck");
    }
}

#[test]
fn test_asteroid_handling_type_b() {
    let forge = Forge::new().unwrap();
    let out = replay(
        stargazers_rig(),
        vec![
            OrchestratorToPlanet::StartPlanetAI,
            OrchestratorToPlanet::Asteroid(forge.generate_asteroid()),
            OrchestratorToPlanet::Sunray(forge.generate_sunray()),
            OrchestratorToPlanet::Asteroid(forge.generate_asteroid()),
            OrchestratorToPlanet::KillPlanet,
        ],
    );
    match &out[1] {
        PlanetToOrchestrator::AsteroidAck { planet_id, rocket } => {
            assert_eq!(*planet_id, 1);
            assert!(rocket.is_none(), "No rocket without charged cell");
        }
        _ => panic!("Expected AsteroidAck"),
    }
    match &out[3] {
        PlanetToOrchestrator::AsteroidAck { planet_id, rocket } => {
            assert_eq!(*planet_id, 1);
            assert!(rocket.is_none(), "Type B cannot build rockets");
        }
        _ => panic!("Expected AsteroidAck"),
    }
}

#[test]
fn test_asteroid_handling_type_a() {
    let forge = Forge::new().unwrap();
    let r = rig(99, PlanetType::A, vec![BasicResourceType::Oxygen], vec![]);
    let out = replay(
        r,
        vec![
            OrchestratorToPlanet::StartPlanetAI,
            OrchestratorToPlanet::Sunray(forge.generate_sunray()),
            OrchestratorToPlanet::Asteroid(forge.generate_asteroid()),
            OrchestratorToPlanet::KillPlanet,
        ],
    );
    match &out[2] {
        PlanetToOrchestrator::AsteroidAck { planet_id, rocket } => {
            assert_eq!(*planet_id, 99);
            assert!(rocket.is_some(), "Type A should build rocket and survive");
        }
        _ => panic!("Expected AsteroidAck"),
    }
}

#[test]
fn test_messages_when_stopped() {
    let forge = Forge::new().unwrap();
    let out = replay(
        stargazers_rig(),
        vec![
            OrchestratorToPlanet::Sunray(forge.generate_sunray()),
            OrchestratorToPlanet::Asteroid(forge.generate_asteroid()),
            OrchestratorToPlanet::StopPlanetAI,
            OrchestratorToPlanet::KillPlanet,
        ],
    );
    for m in &out[0..3] {
        assert!(matches!(m, PlanetToOrchestrator::Stopped { planet_id: 1 }));
    }
    assert!(matches!(out[3], PlanetToOrchestrator::KillPlanetResult { .. }));
}

#[test]
fn test_duplicate_start_ignored() {
    let out = replay(
        stargazers_rig(),
        vec![
            OrchestratorToPlanet::StartPlanetAI,
            OrchestratorToPlanet::StartPlanetAI,
            OrchestratorToPlanet::InternalStateRequest,
            OrchestratorToPlanet::KillPlanet,
        ],
    );
    assert!(matches!(out[0], PlanetToOrchestrator::StartPlanetAIResult { .. }));
    assert!(matches!(out[1], PlanetToOrchestrator::InternalStateResponse { .. }), "Planet still running after duplicate Start");
    assert!(matches!(out[2], PlanetToOrchestrator::KillPlanetResult { .. }));
}

#[test]
fn test_orchestrator_disconnect_handling() {
    let Rig { mut planet, tx, rx: _rx } = stargazers_rig();
    drop(tx);
    // The planet returns instead of panicking when its orchestrator is gone.
    assert!(planet.run().is_err());
}
