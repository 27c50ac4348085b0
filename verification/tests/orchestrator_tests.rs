use common_game::components::resource::BasicResourceType;
use stargazers::command::GalaxyCommand;
use stargazers::orchestrator::{Effect, ExplorerNotice, ExplorerOrder, OrchestratorState, PlanetNotice, PlanetOrder};
use stargazers::planet::PlanetKind;
use stargazers::report::GalaxyReport;

fn two_planets() -> OrchestratorState {
    let planets = vec![(1u32, PlanetKind::A), (2u32, PlanetKind::B)];
    let explorers = vec![(99u32, 1u32)];
    OrchestratorState::new(&planets, &explorers, 42)
}

#[test]
fn travel_request_walks_the_explorer_to_its_destination() {
    let mut orch = two_planets();
    let mut out = Vec::new();
    orch.handle_explorer_msg(
        ExplorerNotice::TravelToPlanetRequest { explorer_id: 99, current_planet_id: 1, dst_planet_id: 2 },
        &mut out,
    );
    assert!(out.iter().any(|e| matches!(e, Effect::ToPlanet(1, PlanetOrder::OutgoingExplorerRequest { explorer_id: 99 }))));
    out.clear();
    orch.advance_journeys(&mut out);
    assert!(out.iter().any(|e| matches!(e, Effect::ToPlanet(2, PlanetOrder::IncomingExplorerRequest { explorer_id: 99 }))));
    out.clear();
    orch.handle_planet_msg(PlanetNotice::IncomingExplorerResponse { planet_id: 2, explorer_id: 99 }, &mut out);
    assert!(out
        .iter()
        .any(|e| matches!(e, Effect::ToExplorer(99, ExplorerOrder::MoveToPlanet { granted: true, planet_id: 2 }))));
}

#[test]
fn neighbours_request_is_answered_with_the_galaxy_neighbours() {
    let mut orch = two_planets();
    let mut out = Vec::new();
    orch.handle_explorer_msg(ExplorerNotice::NeighborsRequest { explorer_id: 99, current_planet_id: 1 }, &mut out);
    assert!(out.iter().any(|e| match e {
        Effect::ToExplorer(99, ExplorerOrder::NeighborsResponse { neighbors }) => neighbors == &vec![2],
        _ => false,
    }));
}

#[test]
fn bootstrap_starts_everyone() {
    let mut orch = two_planets();
    let mut out = Vec::new();
    orch.bootstrap(&mut out);
    assert!(out.iter().any(|e| matches!(e, Effect::ToPlanet(1, PlanetOrder::StartPlanetAI))));
    assert!(out.iter().any(|e| matches!(e, Effect::ToPlanet(2, PlanetOrder::StartPlanetAI))));
    assert!(out.iter().any(|e| matches!(e, Effect::ToExplorer(99, ExplorerOrder::StartExplorerAI))));
}

#[test]
fn commands_reach_the_named_planet_or_explorer() {
    let mut orch = two_planets();
    let mut out = Vec::new();
    orch.handle_command(GalaxyCommand::Sunray { planet_id: 2 }, &mut out);
    assert!(out.iter().any(|e| matches!(e, Effect::ToPlanet(2, PlanetOrder::Sunray))));
    out.clear();
    orch.handle_command(GalaxyCommand::Generate { explorer_id: 99, resource: BasicResourceType::Carbon }, &mut out);
    assert!(out.iter().any(|e| matches!(
        e,
        Effect::ToExplorer(99, ExplorerOrder::GenerateResourceRequest { to_generate: BasicResourceType::Carbon })
    )));
}

#[test]
fn the_snapshot_shows_the_registered_planets() {
    let orch = two_planets();
    let snap = orch.viz().snapshot();
    assert_eq!(snap.planets.len(), 2);
    assert_eq!(snap.planets[0].id, 1);
    assert_eq!(snap.planets[0].kind, PlanetKind::A);
    assert_eq!(snap.planets[1].kind, PlanetKind::B);
    assert!(snap.planets.iter().all(|p| p.alive));
}

#[test]
fn a_killed_explorer_is_the_last_one() {
    let mut orch = two_planets();
    let mut out = Vec::new();
    let all_dead = orch.handle_explorer_msg(ExplorerNotice::KillExplorerResult { explorer_id: 99 }, &mut out);
    assert!(all_dead);
    assert!(orch.all_explorers_dead());
}

#[test]
fn generate_outcomes_become_reports() {
    let mut orch = two_planets();
    let mut out = Vec::new();
    orch.handle_explorer_msg(
        ExplorerNotice::GenerateResourceResponse { explorer_id: 99, generated: Err("no".to_string()) },
        &mut out,
    );
    assert!(out.iter().any(|e| matches!(e, Effect::Report(GalaxyReport::Generated { explorer_id: 99, outcome: Err(_) }))));
}
