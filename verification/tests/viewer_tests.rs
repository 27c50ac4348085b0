use common_game::components::resource::{BasicResourceType, ComplexResourceType};
use stargazers::command::GalaxyCommand;
use stargazers::hud::{hud_panel, hud_title};
use stargazers::viewer::{
    cycle_selected_explorer, dispatch, key_to_action, selected_explorer, Action, GameState, Key, Mode, ViewEffect,
};
use stargazers::planet::{Element, PlanetType};

fn scene(n: usize) -> GameState {
    let mut s = GameState::new();
    s.planet_count = n;
    s.planet_ids = (0..n as u32).map(|i| 10 + i).collect();
    s.edges = (0..n).map(|i| (i, (i + 1) % n)).collect();
    s
}

#[test]
fn every_key_of_the_bar_maps_to_its_action() {
    assert_eq!(key_to_action(Key::KeyS), Some(Action::Sunray));
    assert_eq!(key_to_action(Key::KeyE), Some(Action::Move));
    assert_eq!(key_to_action(Key::Space), Some(Action::Pause));
    assert_eq!(key_to_action(Key::Digit2), Some(Action::Combinations));
    assert_eq!(key_to_action(Key::Other), None);
    assert_eq!(Action::bar().len(), 21);
    assert_eq!(Action::Sunray.label(), "Sun ray [S]");
}

#[test]
fn focus_wraps_both_ways() {
    let mut s = scene(3);
    let none = vec![];
    assert!(matches!(dispatch(Action::Prev, &mut s, &none, true), ViewEffect::Nothing));
    assert_eq!(s.focus, 2);
    dispatch(Action::Next, &mut s, &none, true);
    assert_eq!(s.focus, 0);
    dispatch(Action::Next, &mut s, &none, true);
    assert_eq!(s.focus, 1);
}

#[test]
fn view_controls_stay_local() {
    let mut s = scene(3);
    let none = vec![];
    assert!(matches!(dispatch(Action::Mode, &mut s, &none, true), ViewEffect::Nothing));
    assert_eq!(s.mode, Mode::Planet);
    assert!(matches!(dispatch(Action::ZoomIn, &mut s, &none, true), ViewEffect::Zoom { closer: true }));
    assert!(matches!(dispatch(Action::ZoomOut, &mut s, &none, true), ViewEffect::Zoom { closer: false }));
    assert!(matches!(dispatch(Action::Pause, &mut s, &none, true), ViewEffect::Nothing));
    assert!(s.paused);
}

#[test]
fn planet_operations_target_the_focused_planet() {
    let mut s = scene(3);
    s.focus = 1;
    let none = vec![];
    assert!(matches!(dispatch(Action::Sunray, &mut s, &none, true), ViewEffect::Command(GalaxyCommand::Sunray { planet_id: 11 })));
    assert!(matches!(dispatch(Action::Asteroid, &mut s, &none, true), ViewEffect::Command(GalaxyCommand::Asteroid { planet_id: 11 })));
    assert!(matches!(dispatch(Action::KillPlanet, &mut s, &none, true), ViewEffect::Command(GalaxyCommand::Kill { planet_id: 11 })));
    // Without a simulation a sun ray charges locally and the rest do nothing.
    assert!(matches!(dispatch(Action::Sunray, &mut s, &none, false), ViewEffect::ChargeFocusedCell));
    assert!(matches!(dispatch(Action::Asteroid, &mut s, &none, false), ViewEffect::Nothing));
}

#[test]
fn toggle_ai_reports_and_commands() {
    let mut s = scene(2);
    let none = vec![];
    let e = dispatch(Action::ToggleAi, &mut s, &none, true);
    assert!(matches!(e, ViewEffect::Command(GalaxyCommand::SetAi { planet_id: 10, running: false })));
    assert!(s.ai_paused);
    assert_eq!(s.reports, vec!["AI paused".to_string()]);
    let e = dispatch(Action::ToggleAi, &mut s, &none, true);
    assert!(matches!(e, ViewEffect::Command(GalaxyCommand::SetAi { planet_id: 10, running: true })));
    assert_eq!(s.reports, vec!["AI running".to_string()]);
}

#[test]
fn choices_cycle_with_a_report() {
    let mut s = scene(1);
    let none = vec![];
    dispatch(Action::CycleBasic, &mut s, &none, true);
    assert_eq!(s.basic_choice, 1);
    assert_eq!(s.reports, vec!["Next Generate: Hydrogen".to_string()]);
    for _ in 0..5 {
        dispatch(Action::CycleComplex, &mut s, &none, true);
    }
    assert_eq!(s.complex_choice, 5);
    dispatch(Action::CycleComplex, &mut s, &none, true);
    assert_eq!(s.complex_choice, 0);
    assert_eq!(s.reports, vec!["Next Combine: Water".to_string()]);
}

#[test]
fn explorer_operations_target_the_selected_explorer() {
    let mut s = scene(3);
    let explorers = vec![(7u32, 0usize), (4u32, 2usize)];
    // Nothing selected yet: the smallest id is picked.
    let e = dispatch(Action::Bag, &mut s, &explorers, true);
    assert!(matches!(e, ViewEffect::Command(GalaxyCommand::BagContent { explorer_id: 4 })));
    assert_eq!(s.selected_explorer, Some(4));
    let e = dispatch(Action::Generate, &mut s, &explorers, true);
    assert!(matches!(e, ViewEffect::Command(GalaxyCommand::Generate { explorer_id: 4, resource: BasicResourceType::Oxygen })));
    let e = dispatch(Action::Combine, &mut s, &explorers, true);
    assert!(matches!(e, ViewEffect::Command(GalaxyCommand::Combine { explorer_id: 4, resource: ComplexResourceType::Water })));
    let e = dispatch(Action::KillExplorer, &mut s, &explorers, false);
    assert!(matches!(e, ViewEffect::Nothing));
    let e = dispatch(Action::ResetExplorer, &mut s, &vec![], true);
    assert!(matches!(e, ViewEffect::Nothing));
}

#[test]
fn selection_cycles_in_id_order() {
    let mut s = scene(2);
    let ids = vec![9u32, 3, 5];
    cycle_selected_explorer(&mut s, &ids);
    assert_eq!(s.selected_explorer, Some(3));
    assert_eq!(s.reports, vec!["Selected explorer 3".to_string()]);
    cycle_selected_explorer(&mut s, &ids);
    assert_eq!(s.selected_explorer, Some(5));
    cycle_selected_explorer(&mut s, &ids);
    assert_eq!(s.selected_explorer, Some(9));
    cycle_selected_explorer(&mut s, &ids);
    assert_eq!(s.selected_explorer, Some(3));
    cycle_selected_explorer(&mut s, &vec![]);
    assert_eq!(s.selected_explorer, None);
    assert_eq!(s.reports, vec!["No explorers to select".to_string()]);
}

#[test]
fn selected_explorer_keeps_a_live_choice() {
    let mut s = scene(2);
    s.selected_explorer = Some(5);
    assert_eq!(selected_explorer(&mut s, &vec![3, 5]), Some(5));
    assert_eq!(selected_explorer(&mut s, &vec![8, 6]), Some(6));
    assert_eq!(s.selected_explorer, Some(6));
    assert_eq!(selected_explorer(&mut s, &vec![]), None);
}

#[test]
fn move_sends_the_selected_explorer_to_a_neighbour() {
    let mut s = scene(3);
    let explorers = vec![(1u32, 0usize)];
    match dispatch(Action::Move, &mut s, &explorers, true) {
        ViewEffect::Command(GalaxyCommand::MoveExplorer { explorer_id: 1, to_planet }) => {
            assert!(to_planet == 11 || to_planet == 12);
        },
        _ => panic!("expected a move"),
    }
    assert!(matches!(dispatch(Action::Move, &mut s, &explorers, false), ViewEffect::WalkRandomExplorer));
    let mut lonely = GameState::new();
    lonely.planet_count = 1;
    lonely.planet_ids = vec![10];
    assert!(matches!(dispatch(Action::Move, &mut lonely, &explorers, true), ViewEffect::Nothing));
    assert_eq!(lonely.reports, vec!["Explorer 1 has no reachable neighbour".to_string()]);
    let mut empty = scene(2);
    assert!(matches!(dispatch(Action::Move, &mut empty, &vec![], true), ViewEffect::Nothing));
    assert_eq!(empty.reports, vec!["No explorer to move".to_string()]);
}

#[test]
fn reports_keep_the_newest_lines() {
    let mut s = GameState::new();
    let lines: Vec<String> = (0..10).map(|i| format!("line {i}")).collect();
    s.set_report(lines);
    assert_eq!(s.reports.len(), 8);
    assert_eq!(s.reports[0], "line 2");
    assert_eq!(s.reports[7], "line 9");
}

#[test]
fn neighbours_and_index_lookup() {
    let s = scene(4);
    assert_eq!(s.neighbors(0), vec![1, 3]);
    assert_eq!(s.index_of(12), Some(2));
    assert_eq!(s.index_of(99), None);
    assert_eq!(s.focused_planet_id(), Some(10));
    assert_eq!(s.planet_count(), 4);
}

#[test]
fn hud_title_lines() {
    assert_eq!(hud_title(false, true, Mode::Galaxy, 0, None), "Waiting for galaxy data\n");
    assert_eq!(hud_title(true, true, Mode::Galaxy, 0, None), "Stargazers Galaxy  -  live\n");
    assert_eq!(hud_title(true, false, Mode::Galaxy, 0, None), "Stargazers Galaxy  -  demo\n");
    assert_eq!(hud_title(true, false, Mode::Planet, 12, Some(PlanetType::C)), "Selected planet 12  -  Type C\n");
}

#[test]
fn hud_panel_text() {
    let mut s = scene(2);
    s.selected_explorer = Some(4);
    s.paused = true;
    let text = hud_panel(PlanetType::A, &vec![true, false, true, false, false], true, Element::Oxygen, true, &vec![9, 2], &s);
    assert_eq!(
        text,
        "5 cells | 1 recipe | rockets | no combine\n\nEnergy   2/5\nRocket   yes\nElement  O\nVisitors 2, 9\n\nExplorer 4\nAI       running\nGenerate > Oxygen\nCombine  > Water\nStatus  animation paused"
    );
    s.set_report(vec!["a".to_string(), "b".to_string()]);
    s.paused = false;
    let text = hud_panel(PlanetType::B, &vec![false], false, Element::Silicon, false, &vec![], &s);
    assert_eq!(
        text,
        "1 cell | unlimited | no rockets | 1 combine\n\nEnergy   0/1\nRocket   no\nElement  Si\nVisitors none\n\nExplorer 4\nAI       running\nGenerate > Oxygen\nCombine  > Water\nStatus  destroyed\n\nReport\na\nb"
    );
}

#[test]
fn hud_waiting_text() {
    assert_eq!(stargazers::hud::hud_waiting_panel(), "The map will appear as soon as the first snapshot arrives.");
}
