use common_game::components::resource::{BasicResourceType, ComplexResourceType, ResourceType};
use stargazers::bag::Bag;
use stargazers::explorer::{
    cells_from_answer, prepare_combination, start_wait_outcome, ExplorerState, ExplorerStep, OrchestratorCommand,
    PlanetAnswer,
};
use stargazers::resources::BasicSet;

#[test]
fn test_handle_orchestrator_msg_neighbors_response() {
    let mut explorer = ExplorerState::new(14, 5);
    explorer.awaiting_neighbors = true;
    let msg = OrchestratorCommand::NeighborsResponse { neighbors: vec![99, 100] };
    let res = explorer.handle_orchestrator_msg(msg);
    assert!(!matches!(res, ExplorerStep::Fail(_)));
    assert_eq!(explorer.neighbors, vec![99, 100]);
    assert!(!explorer.awaiting_neighbors);
}

#[test]
fn test_handle_orchestrator_msg_reset() {
    let mut explorer = ExplorerState::new(15, 6);
    explorer.neighbors = vec![1, 2, 3];
    explorer.generation_rules.insert(BasicResourceType::Oxygen);
    let res = explorer.handle_orchestrator_msg(OrchestratorCommand::ResetExplorerAI);
    assert!(matches!(res, ExplorerStep::ReportReset));
    assert!(explorer.neighbors.is_empty());
    assert!(explorer.generation_rules.is_empty());
    assert_eq!(explorer.explorer_id, 15);
}

#[test]
fn new_explorer_knows_nothing_yet() {
    let e = ExplorerState::new(3, 7);
    assert_eq!(e.explorer_id, 3);
    assert_eq!(e.current_planet_id, 7);
    assert!(e.neighbors.is_empty());
    assert!(e.generation_rules.is_empty());
    assert!(e.combination_cookbook.is_empty());
    assert!(!e.awaiting_move && !e.awaiting_neighbors && !e.killed && !e.stopped);
}

#[test]
fn move_to_planet_with_channel_relocates_and_forgets() {
    let mut e = ExplorerState::new(1, 1);
    e.generation_rules.insert(BasicResourceType::Carbon);
    e.neighbors = vec![2];
    e.awaiting_move = true;
    let step = e.handle_orchestrator_msg(OrchestratorCommand::MoveToPlanet { sender_to_new_planet: true, planet_id: 4 });
    assert!(matches!(step, ExplorerStep::ReportMoved(4)));
    assert_eq!(e.current_planet_id, 4);
    assert!(e.generation_rules.is_empty());
    assert!(e.neighbors.is_empty());
    assert!(!e.awaiting_move);
}

#[test]
fn move_to_planet_without_channel_fails() {
    let mut e = ExplorerState::new(1, 1);
    e.awaiting_move = true;
    let step = e.handle_orchestrator_msg(OrchestratorCommand::MoveToPlanet { sender_to_new_planet: false, planet_id: 4 });
    match step {
        ExplorerStep::Fail(msg) => assert_eq!(msg, "Failed to intercept Sender<ExplorerToPlanet> during space travel."),
        _ => panic!("expected a failure"),
    }
    assert_eq!(e.current_planet_id, 1);
    assert!(!e.awaiting_move);
}

#[test]
fn kill_stop_and_queries() {
    let mut e = ExplorerState::new(2, 9);
    assert!(matches!(e.handle_orchestrator_msg(OrchestratorCommand::CurrentPlanetRequest), ExplorerStep::ReportPlanet(9)));
    assert!(matches!(e.handle_orchestrator_msg(OrchestratorCommand::SupportedResourceRequest), ExplorerStep::QueryResources));
    assert!(matches!(e.handle_orchestrator_msg(OrchestratorCommand::SupportedCombinationRequest), ExplorerStep::QueryCombinations));
    assert!(matches!(
        e.handle_orchestrator_msg(OrchestratorCommand::GenerateResourceRequest { to_generate: BasicResourceType::Silicon }),
        ExplorerStep::Generate(BasicResourceType::Silicon)
    ));
    assert!(matches!(
        e.handle_orchestrator_msg(OrchestratorCommand::CombineResourceRequest { to_generate: ComplexResourceType::Water }),
        ExplorerStep::Combine(ComplexResourceType::Water)
    ));
    match e.handle_orchestrator_msg(OrchestratorCommand::StartExplorerAI) {
        ExplorerStep::Fail(msg) => assert_eq!(msg, "Unexpected message received."),
        _ => panic!("a start while running is unexpected"),
    }
    assert!(matches!(e.handle_orchestrator_msg(OrchestratorCommand::StopExplorerAI), ExplorerStep::ReportStopped));
    assert!(e.stopped);
    assert!(matches!(e.handle_orchestrator_msg(OrchestratorCommand::KillExplorer), ExplorerStep::ReportKilled));
    assert!(e.killed);
}

#[test]
fn bag_content_reports_an_empty_bag() {
    let mut e = ExplorerState::new(2, 9);
    match e.handle_orchestrator_msg(OrchestratorCommand::BagContentRequest) {
        ExplorerStep::ReportBag(snap) => {
            assert_eq!(snap.get_basic_count(BasicResourceType::Oxygen), 0);
            assert_eq!(snap.get_complex_count(ComplexResourceType::Diamond), 0);
        },
        _ => panic!("expected the bag"),
    }
}

#[test]
fn waiting_for_start() {
    assert_eq!(start_wait_outcome(&OrchestratorCommand::StartExplorerAI), Some(false));
    assert_eq!(start_wait_outcome(&OrchestratorCommand::KillExplorer), Some(true));
    assert_eq!(start_wait_outcome(&OrchestratorCommand::BagContentRequest), None);
}

#[test]
fn energy_cell_answers() {
    assert_eq!(cells_from_answer(PlanetAnswer::Got(42)), 42);
    assert_eq!(cells_from_answer(PlanetAnswer::Unexpected), 0);
    assert_eq!(cells_from_answer(PlanetAnswer::TimedOut), 0);
}

#[test]
fn supported_resources_are_stored_and_refusals_reported() {
    let mut e = ExplorerState::new(1, 1);
    let mut set = BasicSet::empty();
    set.insert(BasicResourceType::Hydrogen);
    assert!(e.store_supported_resources(PlanetAnswer::Got(set)).is_ok());
    assert!(e.generation_rules.contains(BasicResourceType::Hydrogen));
    assert!(!e.generation_rules.contains(BasicResourceType::Oxygen));
    assert_eq!(e.store_supported_resources(PlanetAnswer::TimedOut), Err("Timeout from Planet AI.".to_string()));
    assert_eq!(e.store_supported_resources(PlanetAnswer::Unexpected), Err("Unexpected msg from planet.".to_string()));
}

#[test]
fn neighbour_and_travel_requests() {
    let mut e = ExplorerState::new(1, 1);
    assert!(e.note_neighbors_request(true).is_ok());
    assert!(e.awaiting_neighbors);
    assert!(e.note_travel_request(true).is_ok());
    assert!(e.awaiting_move);
    let mut f = ExplorerState::new(1, 1);
    assert!(f.note_neighbors_request(false).is_err());
    assert!(f.note_travel_request(false).is_err());
}

#[test]
fn combination_needs_its_ingredients() {
    let mut bag = Bag::new();
    for (kind, msg) in [
        (ComplexResourceType::Water, "Insufficient hydrogen for water generation."),
        (ComplexResourceType::Diamond, "Insufficient carbon for diamond generation."),
        (ComplexResourceType::Life, "Insufficient water for life generation."),
        (ComplexResourceType::Robot, "Insufficient silicon for robot generation."),
        (ComplexResourceType::Dolphin, "Insufficient water for dolphin generation."),
        (ComplexResourceType::AIPartner, "Insufficient robot for AI-partner generation."),
    ] {
        match prepare_combination(&mut bag, kind) {
            Err(e) => assert_eq!(e, msg),
            Ok(_) => panic!("an empty bag cannot prepare {kind:?}"),
        }
    }
    let snap = bag.snapshot();
    assert_eq!(snap.get_basic_count(BasicResourceType::Hydrogen), 0);
}

#[test]
fn an_empty_bag_holds_nothing() {
    let mut bag = Bag::new();
    assert!(!bag.contains_basic(BasicResourceType::Oxygen));
    assert!(!bag.contains_complex(ComplexResourceType::Robot));
    assert!(bag.take_basic(BasicResourceType::Carbon).is_none());
    assert!(bag.take_complex(ComplexResourceType::Water).is_none());
    assert!(bag.take_generic(ResourceType::Basic(BasicResourceType::Silicon)).is_none());
}
