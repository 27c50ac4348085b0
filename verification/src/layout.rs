//! The galaxy a viewer scene is built from: planets, links and explorers by
//! scene index. Where each planet is drawn is left to the renderer, which
//! places planet `i` of `n` on a ring.

use vstd::prelude::*;
use crate::chance::{gen_index, gen_ratio};
use crate::planet::{
    Element, ExplorerSnapshot, GalaxySnapshot, PlanetKind, PlanetSnapshot, PlanetType, spec_can_have_rocket,
    spec_cell_count, spec_type_of_kind,
};

verus! {

/// One planet's starting description, before it becomes a scene object.
pub struct PlanetInit {
    pub id: u32,
    pub kind: PlanetType,
    pub element: Element,
    pub cells: Vec<bool>,
    pub has_rocket: bool,
    pub alive: bool,
}

/// An explorer and the scene index of the planet it starts on.
pub struct ExplorerInit {
    pub id: u32,
    pub at: usize,
}

/// A complete galaxy ready to be shown.
pub struct GalaxyLayout {
    pub planets: Vec<PlanetInit>,
    pub edges: Vec<(usize, usize)>,
    pub explorers: Vec<ExplorerInit>,
}

/// The element badge at position `k` of the badge list, wrapping around.
pub open spec fn spec_element(k: int) -> Element {
    let r = k % 4;
    if r == 0 {
        Element::Hydrogen
    } else if r == 1 {
        Element::Oxygen
    } else if r == 2 {
        Element::Carbon
    } else {
        Element::Silicon
    }
}

fn element_at(k: usize) -> (e: Element)
    ensures
        e == spec_element(k as int),
{
    let r = k % 4;
    if r == 0 {
        Element::Hydrogen
    } else if r == 1 {
        Element::Oxygen
    } else if r == 2 {
        Element::Carbon
    } else {
        Element::Silicon
    }
}

/// `cells` cut or padded with uncharged cells to exactly `n` entries.
pub open spec fn resized(cells: Seq<bool>, n: nat) -> Seq<bool> {
    if cells.len() >= n {
        cells.take(n as int)
    } else {
        cells + Seq::new((n - cells.len()) as nat, |i: int| false)
    }
}

pub(crate) fn resize_cells(cells: &Vec<bool>, n: usize) -> (out: Vec<bool>)
    ensures
        out@ == resized(cells@, n as nat),
{
    let mut out: Vec<bool> = Vec::new();
    let mut i: usize = 0;
    while i < n
        invariant
            i <= n,
            out@.len() == i,
            forall|j: int| 0 <= j < i ==> out@[j] == (if j < cells@.len() { cells@[j] } else { false }),
        decreases n - i,
    {
        if i < cells.len() {
            out.push(cells[i]);
        } else {
            out.push(false);
        }
        i = i + 1;
    }
    assert(out@ =~= resized(cells@, n as nat));
    out
}

/// The scene index a planet id maps to: its last position among `ids`,
/// since a later entry for the same id replaces an earlier one.
pub open spec fn last_index(ids: Seq<u32>, id: u32) -> Option<usize>
    decreases ids.len(),
{
    if ids.len() == 0 {
        None
    } else if ids.last() == id {
        Some((ids.len() - 1) as usize)
    } else {
        last_index(ids.drop_last(), id)
    }
}

fn index_in(ids: &Vec<u32>, id: u32) -> (r: Option<usize>)
    ensures
        r == last_index(ids@, id),
{
    let mut i: usize = ids.len();
    assert(ids@.take(i as int) =~= ids@);
    while i > 0
        invariant
            i <= ids@.len(),
            last_index(ids@, id) == last_index(ids@.take(i as int), id),
        decreases i,
    {
        assert(ids@.take(i as int).drop_last() =~= ids@.take(i - 1));
        if ids[i - 1] == id {
            return Some(i - 1);
        }
        i = i - 1;
    }
    None
}

/// The ids of the snapshot's planets, in order.
pub open spec fn planet_ids(planets: Seq<PlanetSnapshot>) -> Seq<u32> {
    planets.map_values(|p: PlanetSnapshot| p.id)
}

/// A ring through `count` planets in index order.
pub open spec fn ring_edges(count: nat) -> Seq<(usize, usize)> {
    Seq::new(count, |i: int| (i as usize, ((i + 1) % (count as int)) as usize))
}

/// The snapshot's links by scene index, dropping those with an unknown end.
pub open spec fn mapped_edges(edges: Seq<(u32, u32)>, ids: Seq<u32>) -> Seq<(usize, usize)>
    decreases edges.len(),
{
    if edges.len() == 0 {
        Seq::empty()
    } else {
        let rest = mapped_edges(edges.drop_last(), ids);
        match (last_index(ids, edges.last().0), last_index(ids, edges.last().1)) {
            (Some(a), Some(b)) => rest.push((a, b)),
            _ => rest,
        }
    }
}

/// The snapshot's explorers by scene index, dropping those on an unknown planet.
pub open spec fn placed_explorers(explorers: Seq<ExplorerSnapshot>, ids: Seq<u32>) -> Seq<(u32, usize)>
    decreases explorers.len(),
{
    if explorers.len() == 0 {
        Seq::empty()
    } else {
        let rest = placed_explorers(explorers.drop_last(), ids);
        match last_index(ids, explorers.last().at_planet) {
            Some(at) => rest.push((explorers.last().id, at)),
            None => rest,
        }
    }
}

/// The explorers of a layout, as `(id, scene index)` pairs.
pub open spec fn explorer_pairs(explorers: Seq<ExplorerInit>) -> Seq<(u32, usize)> {
    explorers.map_values(|e: ExplorerInit| (e.id, e.at))
}

/// `init` shows planet snapshot `p` with scene index `i`.
pub open spec fn shows(init: PlanetInit, p: PlanetSnapshot) -> bool {
    let kind = spec_type_of_kind(p.kind);
    &&& init.id == p.id
    &&& init.kind == kind
    &&& init.element == spec_element(p.id as int)
    &&& init.cells@ == resized(p.cells@, spec_cell_count(kind))
    &&& init.has_rocket == p.has_rocket
    &&& init.alive == p.alive
}

fn type_of(kind: PlanetKind) -> (t: PlanetType)
    ensures
        t == spec_type_of_kind(kind),
{
    match kind {
        PlanetKind::A => PlanetType::A,
        PlanetKind::B => PlanetType::B,
        PlanetKind::C => PlanetType::C,
        PlanetKind::D => PlanetType::D,
    }
}

/// The planet types of the demo galaxy, by index.
pub open spec fn demo_kind(i: int) -> PlanetType {
    if i == 1 {
        PlanetType::B
    } else if i == 2 {
        PlanetType::C
    } else if i == 3 {
        PlanetType::D
    } else {
        PlanetType::A
    }
}

/// The size of the demo galaxy.
pub const DEMO_PLANETS: usize = 5;

/// What every demo galaxy looks like, whatever the random draws gave.
pub open spec fn demo_shape(layout: GalaxyLayout) -> bool {
    &&& layout.planets@.len() == DEMO_PLANETS
    &&& forall|i: int| 0 <= i < DEMO_PLANETS ==> {
        let p = #[trigger] layout.planets@[i];
        &&& p.id == i
        &&& p.kind == demo_kind(i)
        &&& p.cells@.len() == spec_cell_count(p.kind)
        &&& p.has_rocket ==> spec_can_have_rocket(p.kind)
        &&& p.alive
    }
    &&& layout.edges@ == ring_edges(DEMO_PLANETS as nat) + seq![(0usize, 2usize), (1usize, 3usize)]
    &&& layout.explorers@.len() == 2
    &&& forall|j: int| 0 <= j < 2 ==> (#[trigger] layout.explorers@[j]).id == j
        && layout.explorers@[j].at < DEMO_PLANETS
}

impl GalaxyLayout {
    /// A random self-contained galaxy, used when no simulation is connected:
    /// five planets on a ring with two chords, random badges, charges and
    /// rockets, and two explorers on random planets.
    pub fn demo() -> (layout: GalaxyLayout)
        ensures
            demo_shape(layout),
    {
        let mut planets: Vec<PlanetInit> = Vec::new();
        let mut i: usize = 0;
        while i < DEMO_PLANETS
            invariant
                i <= DEMO_PLANETS,
                planets@.len() == i,
                forall|k: int| 0 <= k < i ==> {
                    let p = #[trigger] planets@[k];
                    &&& p.id == k
                    &&& p.kind == demo_kind(k)
                    &&& p.cells@.len() == spec_cell_count(p.kind)
                    &&& p.has_rocket ==> spec_can_have_rocket(p.kind)
                    &&& p.alive
                },
            decreases DEMO_PLANETS - i,
        {
            let kind = if i == 1 {
                PlanetType::B
            } else if i == 2 {
                PlanetType::C
            } else if i == 3 {
                PlanetType::D
            } else {
                PlanetType::A
            };
            let element = element_at(gen_index(4));
            let n = kind.cell_count();
            let mut cells: Vec<bool> = Vec::new();
            let mut c: usize = 0;
            while c < n
                invariant
                    c <= n,
                    cells@.len() == c,
                decreases n - c,
            {
                cells.push(gen_ratio(1, 2));
                c = c + 1;
            }
            let has_rocket = kind.can_have_rocket() && gen_ratio(7, 10);
            planets.push(PlanetInit { id: i as u32, kind, element, cells, has_rocket, alive: true });
            i = i + 1;
        }
        let mut edges: Vec<(usize, usize)> = Vec::new();
        let mut e: usize = 0;
        while e < DEMO_PLANETS
            invariant
                e <= DEMO_PLANETS,
                edges@ == ring_edges(DEMO_PLANETS as nat).take(e as int),
            decreases DEMO_PLANETS - e,
        {
            edges.push((e, (e + 1) % DEMO_PLANETS));
            proof {
                assert(ring_edges(DEMO_PLANETS as nat).take(e + 1) =~= ring_edges(DEMO_PLANETS as nat).take(e as int).push((e, ((e + 1) % (DEMO_PLANETS as int)) as usize)));
            }
            e = e + 1;
        }
        proof { assert(ring_edges(DEMO_PLANETS as nat).take(DEMO_PLANETS as int) =~= ring_edges(DEMO_PLANETS as nat)); }
        edges.push((0, 2));
        edges.push((1, 3));
        let explorers = vec![
            ExplorerInit { id: 0, at: gen_index(DEMO_PLANETS) },
            ExplorerInit { id: 1, at: gen_index(DEMO_PLANETS) },
        ];
        let layout = GalaxyLayout { planets, edges, explorers };
        proof {
            assert(layout.edges@ =~= ring_edges(DEMO_PLANETS as nat) + seq![(0usize, 2usize), (1usize, 3usize)]);
        }
        layout
    }

    /// Builds a layout from the first snapshot of a simulation: planet `i` of
    /// the snapshot becomes scene index `i`, with its cells cut or padded to its
    /// type's count and a badge picked by its id; links and explorers are
    /// mapped to scene indices (a repeated planet id maps to its last entry),
    /// dropping those that name an unknown planet. Without links, the planets
    /// are joined in a ring.
    pub fn from_snapshot(snapshot: &GalaxySnapshot) -> (layout: GalaxyLayout)
        ensures
            layout.planets@.len() == snapshot.planets@.len(),
            forall|i: int| 0 <= i < snapshot.planets@.len() ==> shows(#[trigger] layout.planets@[i], snapshot.planets@[i]),
            layout.edges@ == if snapshot.edges@.len() == 0 {
                ring_edges(snapshot.planets@.len())
            } else {
                mapped_edges(snapshot.edges@, planet_ids(snapshot.planets@))
            },
            explorer_pairs(layout.explorers@) == placed_explorers(snapshot.explorers@, planet_ids(snapshot.planets@)),
    {
        let count = snapshot.planets.len();
        let ghost ids = planet_ids(snapshot.planets@);
        let mut planets: Vec<PlanetInit> = Vec::new();
        let mut id_list: Vec<u32> = Vec::new();
        let mut i: usize = 0;
        while i < count
            invariant
                count == snapshot.planets@.len(),
                ids == planet_ids(snapshot.planets@),
                i <= count,
                planets@.len() == i,
                id_list@ == ids.take(i as int),
                forall|k: int| 0 <= k < i ==> shows(#[trigger] planets@[k], snapshot.planets@[k]),
            decreases count - i,
        {
            let p = &snapshot.planets[i];
            let kind = type_of(p.kind);
            let cells = resize_cells(&p.cells, kind.cell_count());
            let element = element_at(p.id as usize);
            planets.push(PlanetInit { id: p.id, kind, element, cells, has_rocket: p.has_rocket, alive: p.alive });
            id_list.push(p.id);
            proof { assert(ids.take(i + 1) =~= ids.take(i as int).push(p.id)); }
            i = i + 1;
        }
        proof { assert(ids.take(count as int) =~= ids); }
        let mut edges: Vec<(usize, usize)> = Vec::new();
        if snapshot.edges.len() == 0 {
            let mut e: usize = 0;
            while e < count
                invariant
                    e <= count,
                    edges@ == ring_edges(count as nat).take(e as int),
                decreases count - e,
            {
                edges.push((e, (e + 1) % count));
                proof {
                    assert(ring_edges(count as nat).take(e + 1) =~= ring_edges(count as nat).take(e as int).push((e, ((e + 1) % (count as int)) as usize)));
                }
                e = e + 1;
            }
            proof { assert(ring_edges(count as nat).take(count as int) =~= ring_edges(count as nat)); }
        } else {
            let mut e: usize = 0;
            while e < snapshot.edges.len()
                invariant
                    e <= snapshot.edges@.len(),
                    id_list@ == ids,
                    edges@ == mapped_edges(snapshot.edges@.take(e as int), ids),
                decreases snapshot.edges@.len() - e,
            {
                let (a, b) = snapshot.edges[e];
                proof { assert(snapshot.edges@.take(e + 1).drop_last() =~= snapshot.edges@.take(e as int)); }
                match (index_in(&id_list, a), index_in(&id_list, b)) {
                    (Some(ia), Some(ib)) => edges.push((ia, ib)),
                    _ => {},
                }
                e = e + 1;
            }
            proof { assert(snapshot.edges@.take(e as int) =~= snapshot.edges@); }
        }
        let mut explorers: Vec<ExplorerInit> = Vec::new();
        let mut x: usize = 0;
        while x < snapshot.explorers.len()
            invariant
                x <= snapshot.explorers@.len(),
                id_list@ == ids,
                explorer_pairs(explorers@) == placed_explorers(snapshot.explorers@.take(x as int), ids),
            decreases snapshot.explorers@.len() - x,
        {
            let r = &snapshot.explorers[x];
            proof { assert(snapshot.explorers@.take(x + 1).drop_last() =~= snapshot.explorers@.take(x as int)); }
            match index_in(&id_list, r.at_planet) {
                Some(at) => {
                    let ghost before = explorers@;
                    explorers.push(ExplorerInit { id: r.id, at });
                    proof { assert(explorer_pairs(explorers@) =~= explorer_pairs(before).push((r.id, at))); }
                },
                None => {},
            }
            x = x + 1;
        }
        proof { assert(snapshot.explorers@.take(x as int) =~= snapshot.explorers@); }
        GalaxyLayout { planets, edges, explorers }
    }
}

} // verus!
