//! What the viewer is shown: the galaxy state accumulated from the
//! simulation's polls, turned into snapshots for the viewer.

use vstd::prelude::*;
use common_game::components::planet::PlanetType as GamePlanetType;
use crate::idmap::{IdMap, increasing};
use crate::planet::{ExplorerSnapshot, GalaxySnapshot, PlanetKind, PlanetSnapshot};

verus! {

#[verifier::external_type_specification]
pub struct ExGamePlanetType(GamePlanetType);

/// Maps a game planet type to the viewer's neutral kind.
pub fn kind_of(planet_type: GamePlanetType) -> (kind: PlanetKind)
    ensures
        kind == match planet_type {
            GamePlanetType::A => PlanetKind::A,
            GamePlanetType::B => PlanetKind::B,
            GamePlanetType::C => PlanetKind::C,
            GamePlanetType::D => PlanetKind::D,
        },
{
    match planet_type {
        GamePlanetType::A => PlanetKind::A,
        GamePlanetType::B => PlanetKind::B,
        GamePlanetType::C => PlanetKind::C,
        GamePlanetType::D => PlanetKind::D,
    }
}

/// What the viewer shows of one planet.
pub struct PlanetView {
    pub kind: PlanetKind,
    pub cells: Vec<bool>,
    pub has_rocket: bool,
    pub alive: bool,
}

/// A planet just registered: no cells known, no rocket, alive.
pub open spec fn fresh_view(kind: PlanetKind) -> (PlanetKind, Seq<bool>, bool, bool) {
    (kind, Seq::empty(), false, true)
}

/// The views after a poll of planet `id` reported `cells` and `has_rocket`:
/// a planet never registered gets a kind guessed from its cell count.
pub open spec fn refreshed(
    views: Map<u32, (PlanetKind, Seq<bool>, bool, bool)>,
    id: u32,
    cells: Seq<bool>,
    has_rocket: bool,
) -> Map<u32, (PlanetKind, Seq<bool>, bool, bool)> {
    views.insert(id, if views.contains_key(id) {
        (views[id].0, cells, has_rocket, views[id].3)
    } else {
        (if cells.len() >= 5 { PlanetKind::A } else { PlanetKind::B }, cells, has_rocket, true)
    })
}

/// The views after planet `id` is marked alive or destroyed: an unknown
/// planet is ignored.
pub open spec fn marked(
    views: Map<u32, (PlanetKind, Seq<bool>, bool, bool)>,
    id: u32,
    alive: bool,
) -> Map<u32, (PlanetKind, Seq<bool>, bool, bool)> {
    if views.contains_key(id) {
        views.insert(id, (views[id].0, views[id].1, views[id].2, alive))
    } else {
        views
    }
}

/// A planet's view as plain values: kind, cells, rocket, alive.
pub open spec fn view_of(v: PlanetView) -> (PlanetKind, Seq<bool>, bool, bool) {
    (v.kind, v.cells@, v.has_rocket, v.alive)
}

fn copy_cells(cells: &Vec<bool>) -> (out: Vec<bool>)
    ensures
        out@ == cells@,
{
    let mut out: Vec<bool> = Vec::new();
    let mut i: usize = 0;
    while i < cells.len()
        invariant
            i <= cells@.len(),
            out@ == cells@.take(i as int),
        decreases cells@.len() - i,
    {
        proof { assert(cells@.take(i + 1) =~= cells@.take(i as int).push(cells@[i as int])); }
        out.push(cells[i]);
        i = i + 1;
    }
    proof { assert(cells@.take(i as int) =~= cells@); }
    out
}

/// Accumulates the current galaxy state for the viewer.
///
/// Planets and explorers are kept sorted by id, so snapshots list them in
/// id order.
pub struct VizBridge {
    planets: IdMap<PlanetView>,
    explorers: IdMap<u32>,
    edges: Vec<(u32, u32)>,
}

impl VizBridge {
    pub closed spec fn wf(self) -> bool {
        &&& self.planets.wf()
        &&& self.explorers.wf()
        &&& increasing(self.planets.order())
        &&& increasing(self.explorers.order())
    }

    /// The planets known to the viewer, by id.
    pub closed spec fn planet_views(self) -> Map<u32, (PlanetKind, Seq<bool>, bool, bool)> {
        self.planets@.map_values(|v: PlanetView| view_of(v))
    }

    /// Where each explorer is shown, by explorer id.
    pub closed spec fn explorer_views(self) -> Map<u32, u32> {
        self.explorers@
    }

    /// The connections drawn between planets.
    pub closed spec fn edge_list(self) -> Seq<(u32, u32)> {
        self.edges@
    }

    pub fn new() -> (b: VizBridge)
        ensures
            b.wf(),
            b.planet_views() == Map::<u32, (PlanetKind, Seq<bool>, bool, bool)>::empty(),
            b.explorer_views() == Map::<u32, u32>::empty(),
            b.edge_list() == Seq::<(u32, u32)>::empty(),
    {
        let b = VizBridge { planets: IdMap::new(), explorers: IdMap::new(), edges: Vec::new() };
        assert(b.planet_views() =~= Map::<u32, (PlanetKind, Seq<bool>, bool, bool)>::empty());
        b
    }

    /// Registers a planet with its kind; registering it again just updates
    /// the kind.
    pub fn register_planet(&mut self, id: u32, kind: PlanetKind)
        requires
            old(self).wf(),
        ensures
            final(self).wf(),
            final(self).planet_views() == old(self).planet_views().insert(id,
                if old(self).planet_views().contains_key(id) {
                    (kind, old(self).planet_views()[id].1, old(self).planet_views()[id].2, old(self).planet_views()[id].3)
                } else {
                    fresh_view(kind)
                }),
            final(self).explorer_views() == old(self).explorer_views(),
            final(self).edge_list() == old(self).edge_list(),
    {
        proof { self.lemma_sizes(); }
        let view = match self.planets.get(id) {
            Some(v) => PlanetView { kind, cells: copy_cells(&v.cells), has_rocket: v.has_rocket, alive: v.alive },
            None => PlanetView { kind, cells: Vec::new(), has_rocket: false, alive: true },
        };
        self.planets.insert_sorted(id, view);
        proof {
            self.lemma_sizes();
            assert(self.planet_views() =~= old(self).planet_views().insert(id,
                if old(self).planet_views().contains_key(id) {
                    (kind, old(self).planet_views()[id].1, old(self).planet_views()[id].2, old(self).planet_views()[id].3)
                } else {
                    fresh_view(kind)
                }));
        }
    }

    proof fn lemma_sizes(self)
        requires
            self.planets.wf(),
        ensures
            self.planet_views().len() == self.planets.order().len(),
            self.planet_views().dom() == self.planets@.dom(),
    {
        self.planets.lemma_order_is_domain();
        assert(self.planet_views().dom() =~= self.planets@.dom());
        assert(self.planets@.dom() =~= self.planets.order().to_set());
        self.planets.order().unique_seq_to_set();
    }

    /// Updates a planet from a polled state: its cells and whether it holds
    /// a rocket. A planet never registered gets a kind guessed from its cell
    /// count.
    pub fn update_planet(&mut self, id: u32, cells: Vec<bool>, has_rocket: bool)
        requires
            old(self).wf(),
        ensures
            final(self).wf(),
            final(self).planet_views() == refreshed(old(self).planet_views(), id, cells@, has_rocket),
            final(self).explorer_views() == old(self).explorer_views(),
            final(self).edge_list() == old(self).edge_list(),
    {
        proof { self.lemma_sizes(); }
        let (kind, alive) = match self.planets.get(id) {
            Some(v) => (v.kind, v.alive),
            None => (PlanetKind::from_cell_count(cells.len()), true),
        };
        self.planets.insert_sorted(id, PlanetView { kind, cells, has_rocket, alive });
        proof {
            self.lemma_sizes();
            assert(self.planet_views() =~= refreshed(old(self).planet_views(), id, cells@, has_rocket));
        }
    }

    /// Marks a known planet alive or destroyed; an unknown id is ignored.
    pub fn set_alive(&mut self, id: u32, alive: bool)
        requires
            old(self).wf(),
        ensures
            final(self).wf(),
            final(self).planet_views() == marked(old(self).planet_views(), id, alive),
            final(self).explorer_views() == old(self).explorer_views(),
            final(self).edge_list() == old(self).edge_list(),
    {
        proof { self.lemma_sizes(); }
        let updated = match self.planets.get(id) {
            Some(v) => Some(PlanetView { kind: v.kind, cells: copy_cells(&v.cells), has_rocket: v.has_rocket, alive }),
            None => None,
        };
        if let Some(view) = updated {
            self.planets.insert_sorted(id, view);
            proof { self.lemma_sizes(); }
        }
        proof {
            assert(self.planet_views() =~= marked(old(self).planet_views(), id, alive));
        }
    }

    /// Records that an explorer is visiting a planet.
    pub fn set_explorer(&mut self, explorer_id: u32, at_planet: u32)
        requires
            old(self).wf(),
        ensures
            final(self).wf(),
            final(self).explorer_views() == old(self).explorer_views().insert(explorer_id, at_planet),
            final(self).planet_views() == old(self).planet_views(),
            final(self).edge_list() == old(self).edge_list(),
    {
        proof { self.lemma_explorer_sizes(); }
        self.explorers.insert_sorted(explorer_id, at_planet);
        proof { self.lemma_explorer_sizes(); }
    }

    proof fn lemma_explorer_sizes(self)
        requires
            self.explorers.wf(),
        ensures
            self.explorer_views().len() == self.explorers.order().len(),
    {
        self.explorers.lemma_order_is_domain();
        assert(self.explorers@.dom() =~= self.explorers.order().to_set());
        self.explorers.order().unique_seq_to_set();
    }

    /// Stops showing an explorer.
    pub fn remove_explorer(&mut self, explorer_id: u32)
        requires
            old(self).wf(),
        ensures
            final(self).wf(),
            final(self).explorer_views() == old(self).explorer_views().remove(explorer_id),
            final(self).planet_views() == old(self).planet_views(),
            final(self).edge_list() == old(self).edge_list(),
    {
        let _ = self.explorers.remove(explorer_id);
        proof {
            let o = old(self).explorers.order();
            if old(self).explorers@.contains_key(explorer_id) {
                let i = choose|i: int| 0 <= i < o.len() && o[i] == explorer_id && self.explorers.order() == o.remove(i);
                assert forall|a: int, b: int| 0 <= a < b < self.explorers.order().len() implies
                    #[trigger] self.explorers.order()[a] < #[trigger] self.explorers.order()[b] by {
                    let a2 = if a < i { a } else { a + 1 };
                    let b2 = if b < i { b } else { b + 1 };
                    assert(self.explorers.order()[a] == o[a2] && self.explorers.order()[b] == o[b2]);
                }
            }
        }
    }

    /// Sets the connections drawn between planets.
    pub fn set_edges(&mut self, edges: Vec<(u32, u32)>)
        requires
            old(self).wf(),
        ensures
            final(self).wf(),
            final(self).edge_list() == edges@,
            final(self).planet_views() == old(self).planet_views(),
            final(self).explorer_views() == old(self).explorer_views(),
    {
        self.edges = edges;
    }

    /// The snapshot the viewer is sent: every known planet and explorer, in
    /// increasing id order, and the connections.
    pub fn snapshot(&self) -> (s: GalaxySnapshot)
        requires
            self.wf(),
        ensures
            s.planets@.len() == self.planet_views().len(),
            forall|i: int| 0 <= i < s.planets@.len() ==> {
                let p = #[trigger] s.planets@[i];
                &&& self.planet_views().contains_key(p.id)
                &&& self.planet_views()[p.id] == (p.kind, p.cells@, p.has_rocket, p.alive)
            },
            forall|i: int, j: int| 0 <= i < j < s.planets@.len() ==> #[trigger] s.planets@[i].id < #[trigger] s.planets@[j].id,
            s.explorers@.len() == self.explorer_views().len(),
            forall|i: int| 0 <= i < s.explorers@.len() ==> {
                let e = #[trigger] s.explorers@[i];
                &&& self.explorer_views().contains_key(e.id)
                &&& self.explorer_views()[e.id] == e.at_planet
            },
            forall|i: int, j: int| 0 <= i < j < s.explorers@.len() ==> #[trigger] s.explorers@[i].id < #[trigger] s.explorers@[j].id,
            s.edges@ == self.edge_list(),
    {
        proof {
            self.lemma_sizes();
            self.lemma_explorer_sizes();
        }
        let mut planets: Vec<PlanetSnapshot> = Vec::new();
        let mut i: usize = 0;
        while i < self.planets.len()
            invariant
                self.wf(),
                i <= self.planets.order().len(),
                planets@.len() == i,
                forall|k: int| 0 <= k < i ==> {
                    let p = #[trigger] planets@[k];
                    &&& p.id == self.planets.order()[k]
                    &&& self.planet_views().contains_key(p.id)
                    &&& self.planet_views()[p.id] == (p.kind, p.cells@, p.has_rocket, p.alive)
                },
            decreases self.planets.order().len() - i,
        {
            let id = self.planets.key_at(i);
            let v = self.planets.value_at(i);
            planets.push(PlanetSnapshot { id, kind: v.kind, cells: copy_cells(&v.cells), has_rocket: v.has_rocket, alive: v.alive });
            i = i + 1;
        }
        let mut explorers: Vec<ExplorerSnapshot> = Vec::new();
        let mut j: usize = 0;
        while j < self.explorers.len()
            invariant
                self.wf(),
                j <= self.explorers.order().len(),
                explorers@.len() == j,
                forall|k: int| 0 <= k < j ==> {
                    let e = #[trigger] explorers@[k];
                    &&& e.id == self.explorers.order()[k]
                    &&& self.explorer_views().contains_key(e.id)
                    &&& self.explorer_views()[e.id] == e.at_planet
                },
            decreases self.explorers.order().len() - j,
        {
            let id = self.explorers.key_at(j);
            let at = *self.explorers.value_at(j);
            explorers.push(ExplorerSnapshot { id, at_planet: at });
            j = j + 1;
        }
        let mut edges: Vec<(u32, u32)> = Vec::new();
        let mut k: usize = 0;
        while k < self.edges.len()
            invariant
                k <= self.edges@.len(),
                edges@ == self.edges@.take(k as int),
            decreases self.edges@.len() - k,
        {
            proof { assert(self.edges@.take(k + 1) =~= self.edges@.take(k as int).push(self.edges@[k as int])); }
            edges.push(self.edges[k]);
            k = k + 1;
        }
        proof {
            assert(self.edges@.take(k as int) =~= self.edges@);
            assert forall|a: int, b: int| 0 <= a < b < planets@.len() implies #[trigger] planets@[a].id < #[trigger] planets@[b].id by {
                assert(planets@[a].id == self.planets.order()[a]);
                assert(planets@[b].id == self.planets.order()[b]);
            }
            assert forall|a: int, b: int| 0 <= a < b < explorers@.len() implies #[trigger] explorers@[a].id < #[trigger] explorers@[b].id by {
                assert(explorers@[a].id == self.explorers.order()[a]);
                assert(explorers@[b].id == self.explorers.order()[b]);
            }
        }
        GalaxySnapshot { planets, explorers, edges }
    }
}

} // verus!
