use stargazers::galaxy::build_galaxy;
use stargazers::route::next_hop;

#[test]
fn ring_is_always_present() {
    let layout = build_galaxy(7, 42);
    for i in 1u32..=7 {
        let next = if i == 7 { 1 } else { i + 1 };
        assert!(
            layout.neighbors_of(i).contains(&next),
            "planet {i} should connect to {next} via the ring"
        );
    }
}

#[test]
fn no_self_loops() {
    let layout = build_galaxy(7, 99);
    for i in 1u32..=7 {
        assert!(
            !layout.neighbors_of(i).contains(&i),
            "planet {i} must not be its own neighbour"
        );
    }
}

#[test]
fn graph_is_symmetric() {
    let layout = build_galaxy(7, 777);
    for i in 1u32..=7 {
        for &j in layout.neighbors_of(i).iter() {
            assert!(
                layout.neighbors_of(j).contains(&i),
                "edge ({i},{j}) is not symmetric"
            );
        }
    }
}

#[test]
fn all_planets_have_at_least_two_neighbours() {
    for seed in [1, 42, 99, 777, 12345] {
        let layout = build_galaxy(7, seed);
        for i in 1u32..=7 {
            assert!(
                layout.neighbors_of(i).len() >= 2,
                "planet {i} has fewer than 2 neighbours (seed {seed})"
            );
        }
    }
}

#[test]
fn build_galaxy_is_deterministic_per_seed() {
    let a = build_galaxy(7, 42);
    let b = build_galaxy(7, 42);
    assert_eq!(a.edge_list(), b.edge_list());
    for i in 1u32..=7 {
        assert_eq!(a.neighbors_of(i), b.neighbors_of(i));
    }
}

#[test]
fn edges_are_sorted_pairs_matching_adjacency() {
    let layout = build_galaxy(7, 12345);
    let edges = layout.edge_list();
    for w in edges.windows(2) {
        assert!(w[0] < w[1]);
    }
    for &(a, b) in edges.iter() {
        assert!(a < b);
        assert!(layout.neighbors_of(a).contains(&b));
        assert!(layout.neighbors_of(b).contains(&a));
    }
    assert_eq!(layout.planet_total(), 7);
}

#[test]
fn small_galaxies() {
    let one = build_galaxy(1, 5);
    assert_eq!(one.planet_total(), 1);
    // The ring of a single planet closes on itself.
    assert_eq!(one.neighbors_of(1), vec![1, 1]);
    assert_eq!(one.edge_list(), &vec![(1, 1)]);
    let two = build_galaxy(2, 42);
    assert_eq!(two.neighbors_of(1), vec![2]);
    assert_eq!(two.neighbors_of(2), vec![1]);
    let none = build_galaxy(0, 1);
    assert_eq!(none.planet_total(), 0);
    assert!(none.edge_list().is_empty());
}

#[test]
fn unknown_planets_have_no_neighbours() {
    let layout = build_galaxy(7, 42);
    assert!(layout.neighbors_of(0).is_empty());
    assert!(layout.neighbors_of(8).is_empty());
}

fn line_graph() -> Vec<(u32, Vec<u32>)> {
    vec![(1, vec![2]), (2, vec![1, 3]), (3, vec![2, 4]), (4, vec![3]), (9, vec![])]
}

#[test]
fn next_hop_walks_towards_the_target() {
    let g = line_graph();
    assert_eq!(next_hop(&g, 1, 4), Some(2));
    assert_eq!(next_hop(&g, 4, 1), Some(3));
    assert_eq!(next_hop(&g, 2, 3), Some(3));
}

#[test]
fn next_hop_is_none_at_the_target_or_when_unreachable() {
    let g = line_graph();
    assert_eq!(next_hop(&g, 3, 3), None);
    assert_eq!(next_hop(&g, 1, 9), None);
    assert_eq!(next_hop(&g, 9, 1), None);
    assert_eq!(next_hop(&g, 1, 42), None);
}

#[test]
fn next_hop_prefers_a_shortest_route() {
    // 1 - 2 - 3 - 5 and 1 - 4 - 5: the short way goes through 4.
    let g = vec![(1, vec![2, 4]), (2, vec![1, 3]), (3, vec![2, 5]), (4, vec![1, 5]), (5, vec![3, 4])];
    assert_eq!(next_hop(&g, 1, 5), Some(4));
}

#[test]
fn edge_count_stays_within_ring_and_budgets() {
    for n in 3u32..=7 {
        for seed in 0u64..200 {
            let layout = build_galaxy(n, seed);
            let len = layout.edge_list().len() as u32;
            assert!(n <= len && len <= n + 11, "n = {n}, seed = {seed}: {len} links");
        }
    }
}
