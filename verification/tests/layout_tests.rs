use stargazers::layout::GalaxyLayout;
use stargazers::planet::{Element, ExplorerSnapshot, GalaxySnapshot, PlanetKind, PlanetSnapshot, PlanetType};
use stargazers::sync::{charge_first_empty_cell, ingest_snapshot, walk_idle_explorer, SceneExplorer, ScenePlanet};
use stargazers::viewer::GameState;

fn planet(id: u32, kind: PlanetKind, cells: Vec<bool>) -> PlanetSnapshot {
    PlanetSnapshot { id, kind, cells, has_rocket: false, alive: true }
}

#[test]
fn from_snapshot_without_edges_uses_a_ring() {
    let snap = GalaxySnapshot {
        planets: vec![planet(5, PlanetKind::A, vec![true]), planet(6, PlanetKind::B, vec![true, true]), planet(7, PlanetKind::C, vec![])],
        explorers: vec![ExplorerSnapshot { id: 1, at_planet: 6 }, ExplorerSnapshot { id: 2, at_planet: 42 }],
        edges: vec![],
    };
    let layout = GalaxyLayout::from_snapshot(&snap);
    assert_eq!(layout.edges, vec![(0, 1), (1, 2), (2, 0)]);
    assert_eq!(layout.planets.len(), 3);
    assert_eq!(layout.planets[0].kind, PlanetType::A);
    assert_eq!(layout.planets[0].cells, vec![true, false, false, false, false]);
    assert_eq!(layout.planets[1].cells, vec![true]);
    assert_eq!(layout.planets[2].cells, vec![false]);
    // The badge follows the planet id.
    assert_eq!(layout.planets[0].element, Element::Oxygen);
    assert_eq!(layout.planets[1].element, Element::Carbon);
    assert_eq!(layout.explorers.len(), 1);
    assert_eq!((layout.explorers[0].id, layout.explorers[0].at), (1, 1));
}

#[test]
fn from_snapshot_maps_edges_and_drops_unknown_ends() {
    let snap = GalaxySnapshot {
        planets: vec![planet(5, PlanetKind::D, vec![]), planet(6, PlanetKind::B, vec![])],
        explorers: vec![],
        edges: vec![(5, 6), (6, 99), (6, 5)],
    };
    let layout = GalaxyLayout::from_snapshot(&snap);
    assert_eq!(layout.edges, vec![(0, 1), (1, 0)]);
}

#[test]
fn from_an_empty_snapshot() {
    let layout = GalaxyLayout::from_snapshot(&GalaxySnapshot::empty());
    assert!(layout.planets.is_empty() && layout.edges.is_empty() && layout.explorers.is_empty());
}

#[test]
fn demo_galaxy_shape() {
    let layout = GalaxyLayout::demo();
    assert_eq!(layout.planets.len(), 5);
    let kinds: Vec<PlanetType> = layout.planets.iter().map(|p| p.kind).collect();
    assert_eq!(kinds, vec![PlanetType::A, PlanetType::B, PlanetType::C, PlanetType::D, PlanetType::A]);
    for (i, p) in layout.planets.iter().enumerate() {
        assert_eq!(p.id, i as u32);
        assert_eq!(p.cells.len(), p.kind.cell_count());
        assert!(!p.has_rocket || p.kind.can_have_rocket());
        assert!(p.alive);
    }
    assert_eq!(layout.edges, vec![(0, 1), (1, 2), (2, 3), (3, 4), (4, 0), (0, 2), (1, 3)]);
    assert_eq!(layout.explorers.len(), 2);
    assert!(layout.explorers.iter().all(|e| e.at < 5));
}

fn built_scene() -> (GameState, Vec<ScenePlanet>, Vec<SceneExplorer>) {
    let mut state = GameState::new();
    state.planet_count = 3;
    state.planet_ids = vec![5, 6, 7];
    state.edges = vec![(0, 1), (1, 2)];
    let planets = vec![
        ScenePlanet { kind: PlanetType::A, cells: vec![false; 5], has_rocket: false, alive: true },
        ScenePlanet { kind: PlanetType::B, cells: vec![false], has_rocket: false, alive: true },
        ScenePlanet { kind: PlanetType::C, cells: vec![false], has_rocket: false, alive: true },
    ];
    let explorers = vec![
        SceneExplorer { id: 1, at: 0, target: None },
        SceneExplorer { id: 2, at: 1, target: None },
    ];
    (state, planets, explorers)
}

#[test]
fn later_snapshots_update_the_dynamic_state() {
    let (mut state, mut planets, mut explorers) = built_scene();
    state.selected_explorer = Some(2);
    let snap = GalaxySnapshot {
        planets: vec![
            PlanetSnapshot { id: 6, kind: PlanetKind::D, cells: vec![true, true], has_rocket: true, alive: false },
            planet(5, PlanetKind::A, vec![true]),
        ],
        explorers: vec![ExplorerSnapshot { id: 1, at_planet: 7 }, ExplorerSnapshot { id: 3, at_planet: 6 }],
        edges: vec![],
    };
    let changes = ingest_snapshot(&mut state, &mut planets, &mut explorers, &snap);
    // The kind stays what the first snapshot fixed; cells follow the kind.
    assert_eq!(planets[1].kind, PlanetType::B);
    assert_eq!(planets[1].cells, vec![true]);
    assert!(planets[1].has_rocket && !planets[1].alive);
    assert_eq!(planets[0].cells, vec![true, false, false, false, false]);
    assert_eq!(planets[2].cells, vec![false]);
    assert_eq!(explorers[0].target, Some(2));
    assert_eq!(explorers[1].target, None);
    assert_eq!(changes.spawned, vec![(3, 1)]);
    assert_eq!(changes.despawned, vec![2]);
    assert_eq!(state.selected_explorer, None);
}

#[test]
fn the_last_explorer_leaves_too() {
    let (mut state, mut planets, mut explorers) = built_scene();
    state.selected_explorer = Some(1);
    let snap = GalaxySnapshot { planets: vec![], explorers: vec![], edges: vec![] };
    let changes = ingest_snapshot(&mut state, &mut planets, &mut explorers, &snap);
    assert_eq!(changes.despawned, vec![1, 2]);
    assert!(changes.spawned.is_empty());
    assert_eq!(state.selected_explorer, None);
}

#[test]
fn sunray_without_simulation_charges_first_empty_cell() {
    let mut cells = vec![true, false, false];
    charge_first_empty_cell(&mut cells);
    assert_eq!(cells, vec![true, true, false]);
    let mut full = vec![true];
    charge_first_empty_cell(&mut full);
    assert_eq!(full, vec![true]);
}

#[test]
fn idle_explorer_walks_to_a_neighbour() {
    let (state, _planets, mut explorers) = built_scene();
    let (k, t) = walk_idle_explorer(&state, &explorers).unwrap();
    assert_eq!((k, t), (0, 1));
    explorers[0].target = Some(1);
    let (k, t) = walk_idle_explorer(&state, &explorers).unwrap();
    assert_eq!(k, 1);
    assert!(t == 0 || t == 2);
    explorers[1].target = Some(2);
    assert_eq!(walk_idle_explorer(&state, &explorers), None);
}
