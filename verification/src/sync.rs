//! Bringing a built scene up to date with a new snapshot of the simulation:
//! planets take their reported cells, rocket and life; explorers are sent
//! towards their reported planets; new explorers appear and the ones no
//! longer reported leave.

use vstd::prelude::*;
use crate::layout::{resize_cells, resized};
use crate::planet::{ExplorerSnapshot, GalaxySnapshot, PlanetSnapshot, PlanetType, spec_cell_count};
use crate::chance::gen_index;
use crate::viewer::{GameState, first_index, lemma_first_index, linked};

verus! {

/// A planet as the scene shows it.
pub struct ScenePlanet {
    pub kind: PlanetType,
    pub cells: Vec<bool>,
    pub has_rocket: bool,
    pub alive: bool,
}

/// An explorer as the scene shows it: where it is, and where it is flying
/// to, by scene index.
pub struct SceneExplorer {
    pub id: u32,
    pub at: usize,
    pub target: Option<usize>,
}

/// What the scene must add and remove after a snapshot.
pub struct FeedChanges {
    /// Explorers to create, with the scene index they appear at.
    pub spawned: Vec<(u32, usize)>,
    /// Explorers to remove: those the snapshot no longer reports.
    pub despawned: Vec<u32>,
}

/// The scene index of a planet id: its first position.
pub open spec fn found_index(ids: Seq<u32>, id: u32) -> Option<usize> {
    if ids.contains(id) { Some(first_index(ids, id) as usize) } else { None }
}

/// The first reported planet with this id.
pub open spec fn first_report(planets: Seq<PlanetSnapshot>, id: u32) -> Option<PlanetSnapshot>
    decreases planets.len(),
{
    if planets.len() == 0 {
        None
    } else {
        let prev = first_report(planets.drop_last(), id);
        if prev is Some {
            prev
        } else if planets.last().id == id {
            Some(planets.last())
        } else {
            None
        }
    }
}

/// A scene planet after a snapshot: a reported planet takes the reported
/// state, its cells cut or padded to its type's count; others stay.
pub open spec fn refreshed(before: ScenePlanet, after: ScenePlanet, report: Option<PlanetSnapshot>) -> bool {
    &&& after.kind == before.kind
    &&& match report {
        Some(p) => {
            &&& after.cells@ == resized(p.cells@, spec_cell_count(before.kind))
            &&& after.has_rocket == p.has_rocket
            &&& after.alive == p.alive
        },
        None => {
            &&& after.cells@ == before.cells@
            &&& after.has_rocket == before.has_rocket
            &&& after.alive == before.alive
        },
    }
}

/// The first planet an explorer standing at `at` is reported away on.
pub open spec fn first_move(reports: Seq<ExplorerSnapshot>, ids: Seq<u32>, id: u32, at: usize) -> Option<usize>
    decreases reports.len(),
{
    if reports.len() == 0 {
        None
    } else {
        let prev = first_move(reports.drop_last(), ids, id, at);
        if prev is Some {
            prev
        } else {
            let r = reports.last();
            match found_index(ids, r.at_planet) {
                Some(t) => if r.id == id && t != at { Some(t) } else { None },
                None => None,
            }
        }
    }
}

/// Reported explorers on known planets that the scene does not show yet.
pub open spec fn spawns(reports: Seq<ExplorerSnapshot>, ids: Seq<u32>, shown: Seq<u32>) -> Seq<(u32, usize)>
    decreases reports.len(),
{
    if reports.len() == 0 {
        Seq::empty()
    } else {
        let rest = spawns(reports.drop_last(), ids, shown);
        let r = reports.last();
        match found_index(ids, r.at_planet) {
            Some(t) => if !shown.contains(r.id) { rest.push((r.id, t)) } else { rest },
            None => rest,
        }
    }
}

/// The shown explorers that are no longer reported, in scene order.
pub open spec fn departed(shown: Seq<u32>, reported: Seq<u32>) -> Seq<u32>
    decreases shown.len(),
{
    if shown.len() == 0 {
        Seq::empty()
    } else {
        let rest = departed(shown.drop_last(), reported);
        if reported.contains(shown.last()) { rest } else { rest.push(shown.last()) }
    }
}

/// An explorer leaves the scene exactly when it is shown and no longer
/// reported.
pub proof fn lemma_departed_exactly(shown: Seq<u32>, reported: Seq<u32>, id: u32)
    ensures
        departed(shown, reported).contains(id) <==> (shown.contains(id) && !reported.contains(id)),
    decreases shown.len(),
{
    if shown.len() > 0 {
        let init = shown.drop_last();
        lemma_departed_exactly(init, reported, id);
        assert(shown =~= init.push(shown.last()));
        let rest = departed(init, reported);
        if shown.contains(id) && !init.contains(id) {
            let k = choose|k: int| 0 <= k < shown.len() && shown[k] == id;
            if k < init.len() {
                assert(init[k] == id);
            }
        }
        if init.contains(id) {
            let k = choose|k: int| 0 <= k < init.len() && init[k] == id;
            assert(shown[k] == id);
        }
        if !reported.contains(shown.last()) {
            let pushed = rest.push(shown.last());
            if rest.contains(id) {
                let k = choose|k: int| 0 <= k < rest.len() && rest[k] == id;
                assert(pushed[k] == id);
            }
            if pushed.contains(id) && !rest.contains(id) {
                let k = choose|k: int| 0 <= k < pushed.len() && pushed[k] == id;
                if k < rest.len() {
                    assert(rest[k] == id);
                }
            }
            assert(pushed[rest.len() as int] == shown.last());
        }
    }
}

/// An explorer appears only when it is reported on a planet of the scene
/// and not shown yet.
pub proof fn lemma_spawned_are_new(reports: Seq<ExplorerSnapshot>, ids: Seq<u32>, shown: Seq<u32>, id: u32, at: usize)
    requires
        spawns(reports, ids, shown).contains((id, at)),
    ensures
        !shown.contains(id),
        exists|k: int| 0 <= k < reports.len() && (#[trigger] reports[k]).id == id
            && found_index(ids, reports[k].at_planet) == Some(at),
    decreases reports.len(),
{
    let init = reports.drop_last();
    let rest = spawns(init, ids, shown);
    let r = reports.last();
    if rest.contains((id, at)) {
        lemma_spawned_are_new(init, ids, shown, id, at);
        let k = choose|k: int| 0 <= k < init.len() && (#[trigger] init[k]).id == id
            && found_index(ids, init[k].at_planet) == Some(at);
        assert(reports[k] == init[k]);
    } else {
        let s = spawns(reports, ids, shown);
        let k = choose|k: int| 0 <= k < s.len() && s[k] == (id, at);
        match found_index(ids, r.at_planet) {
            Some(t) => {
                if !shown.contains(r.id) {
                    assert(s == rest.push((r.id, t)));
                    if k < rest.len() {
                        assert(rest[k] == (id, at));
                    }
                    assert(reports[reports.len() - 1] == r);
                }
            },
            None => {},
        }
    }
}

pub open spec fn shown_ids(explorers: Seq<SceneExplorer>) -> Seq<u32> {
    explorers.map_values(|e: SceneExplorer| e.id)
}

pub open spec fn reported_ids(reports: Seq<ExplorerSnapshot>) -> Seq<u32> {
    reports.map_values(|r: ExplorerSnapshot| r.id)
}

fn find_index(state: &GameState, id: u32) -> (r: Option<usize>)
    ensures
        r == found_index(state.planet_ids@, id),
{
    let r = state.index_of(id);
    proof {
        match r {
            Some(i) => lemma_first_index(state.planet_ids@, id, i as int),
            None => {},
        }
    }
    r
}

fn first_planet_report(planets: &Vec<PlanetSnapshot>, id: u32) -> (r: Option<usize>)
    ensures
        match r {
            Some(k) => k < planets@.len() && first_report(planets@, id) == Some(planets@[k as int]),
            None => first_report(planets@, id) is None,
        },
{
    let mut k: usize = 0;
    while k < planets.len()
        invariant
            k <= planets@.len(),
            first_report(planets@.take(k as int), id) is None,
        decreases planets@.len() - k,
    {
        proof { assert(planets@.take(k + 1).drop_last() =~= planets@.take(k as int)); }
        if planets[k].id == id {
            proof { lemma_first_report_prefix(planets@, id, k + 1); }
            return Some(k);
        }
        k = k + 1;
    }
    proof { assert(planets@.take(k as int) =~= planets@); }
    None
}

/// A report found in a prefix is the report of the whole list.
proof fn lemma_first_report_prefix(planets: Seq<PlanetSnapshot>, id: u32, n: int)
    requires
        0 <= n <= planets.len(),
        first_report(planets.take(n), id) is Some,
    ensures
        first_report(planets, id) == first_report(planets.take(n), id),
    decreases planets.len() - n,
{
    if n < planets.len() {
        assert(planets.take(n + 1).drop_last() =~= planets.take(n));
        lemma_first_report_prefix(planets, id, n + 1);
    } else {
        assert(planets.take(n) =~= planets);
    }
}

fn contains_id(ids: &Vec<u32>, id: u32) -> (b: bool)
    ensures
        b == ids@.contains(id),
{
    let mut i: usize = 0;
    while i < ids.len()
        invariant
            i <= ids@.len(),
            forall|j: int| 0 <= j < i ==> ids@[j] != id,
        decreases ids@.len() - i,
    {
        if ids[i] == id {
            return true;
        }
        i = i + 1;
    }
    false
}

/// Brings the scene up to date with `snapshot`. Scene planet `i` shows the
/// simulation planet `state.planet_ids[i]`.
pub fn ingest_snapshot(
    state: &mut GameState,
    planets: &mut Vec<ScenePlanet>,
    explorers: &mut Vec<SceneExplorer>,
    snapshot: &GalaxySnapshot,
) -> (changes: FeedChanges)
    requires
        old(planets)@.len() <= old(state).planet_ids@.len(),
    ensures
        final(planets)@.len() == old(planets)@.len(),
        forall|i: int| 0 <= i < old(planets)@.len() ==> refreshed(
            old(planets)@[i],
            #[trigger] final(planets)@[i],
            first_report(snapshot.planets@, old(state).planet_ids@[i]),
        ),
        final(explorers)@.len() == old(explorers)@.len(),
        forall|k: int| 0 <= k < old(explorers)@.len() ==> {
            let e = old(explorers)@[k];
            &&& (#[trigger] final(explorers)@[k]).id == e.id
            &&& final(explorers)@[k].at == e.at
            &&& final(explorers)@[k].target == if e.target is Some {
                e.target
            } else {
                first_move(snapshot.explorers@, old(state).planet_ids@, e.id, e.at)
            }
        },
        changes.spawned@ == spawns(snapshot.explorers@, old(state).planet_ids@, shown_ids(old(explorers)@)),
        changes.despawned@ == departed(shown_ids(old(explorers)@), reported_ids(snapshot.explorers@)),
        *final(state) == (GameState {
            selected_explorer: match old(state).selected_explorer {
                Some(id) => if changes.despawned@.contains(id) { None } else { Some(id) },
                None => None,
            },
            ..*old(state)
        }),
{
    let ghost ids = state.planet_ids@;
    let ghost old_planets = planets@;
    let ghost old_explorers = explorers@;
    // Planets take their reported state.
    let mut i: usize = 0;
    while i < planets.len()
        invariant
            ids == state.planet_ids@,
            planets@.len() == old_planets.len(),
            old_planets.len() <= ids.len(),
            i <= planets@.len(),
            forall|j: int| 0 <= j < i ==> refreshed(old_planets[j], #[trigger] planets@[j], first_report(snapshot.planets@, ids[j])),
            forall|j: int| i <= j < planets@.len() ==> #[trigger] planets@[j] == old_planets[j],
        decreases planets@.len() - i,
    {
        let ext_id = state.planet_ids[i];
        match first_planet_report(&snapshot.planets, ext_id) {
            Some(k) => {
                let p = &snapshot.planets[k];
                let n = planets[i].kind.cell_count();
                let cells = resize_cells(&p.cells, n);
                planets[i].cells = cells;
                planets[i].has_rocket = p.has_rocket;
                planets[i].alive = p.alive;
            },
            None => {},
        }
        i = i + 1;
    }
    // Explorers fly towards their reported planets; unknown ones appear.
    let mut shown: Vec<u32> = Vec::new();
    let mut s: usize = 0;
    while s < explorers.len()
        invariant
            s <= explorers@.len(),
            explorers@ == old_explorers,
            shown@ == shown_ids(old_explorers).take(s as int),
        decreases explorers@.len() - s,
    {
        shown.push(explorers[s].id);
        proof { assert(shown_ids(old_explorers).take(s + 1) =~= shown_ids(old_explorers).take(s as int).push(old_explorers[s as int].id)); }
        s = s + 1;
    }
    proof { assert(shown_ids(old_explorers).take(s as int) =~= shown_ids(old_explorers)); }
    let mut spawned: Vec<(u32, usize)> = Vec::new();
    let mut r: usize = 0;
    while r < snapshot.explorers.len()
        invariant
            ids == state.planet_ids@,
            r <= snapshot.explorers@.len(),
            shown@ == shown_ids(old_explorers),
            explorers@.len() == old_explorers.len(),
            spawned@ == spawns(snapshot.explorers@.take(r as int), ids, shown@),
            forall|k: int| 0 <= k < old_explorers.len() ==> {
                let e = old_explorers[k];
                &&& (#[trigger] explorers@[k]).id == e.id
                &&& explorers@[k].at == e.at
                &&& explorers@[k].target == if e.target is Some {
                    e.target
                } else {
                    first_move(snapshot.explorers@.take(r as int), ids, e.id, e.at)
                }
            },
        decreases snapshot.explorers@.len() - r,
    {
        let reported_id = snapshot.explorers[r].id;
        let at_planet = snapshot.explorers[r].at_planet;
        proof { assert(snapshot.explorers@.take(r + 1).drop_last() =~= snapshot.explorers@.take(r as int)); }
        match find_index(state, at_planet) {
            Some(target) => {
                let mut k: usize = 0;
                while k < explorers.len()
                    invariant
                        ids == state.planet_ids@,
                        r < snapshot.explorers@.len(),
                        reported_id == snapshot.explorers@[r as int].id,
                        found_index(ids, snapshot.explorers@[r as int].at_planet) == Some(target),
                        k <= explorers@.len(),
                        explorers@.len() == old_explorers.len(),
                        forall|j: int| 0 <= j < old_explorers.len() ==> {
                            let e = old_explorers[j];
                            let n = if j < k { r + 1 } else { r as int };
                            &&& (#[trigger] explorers@[j]).id == e.id
                            &&& explorers@[j].at == e.at
                            &&& explorers@[j].target == if e.target is Some {
                                e.target
                            } else {
                                first_move(snapshot.explorers@.take(n), ids, e.id, e.at)
                            }
                        },
                    decreases explorers@.len() - k,
                {
                    proof {
                        assert(snapshot.explorers@.take(r + 1).drop_last() =~= snapshot.explorers@.take(r as int));
                        assert(snapshot.explorers@.take(r + 1).last() == snapshot.explorers@[r as int]);
                    }
                    if explorers[k].id == reported_id && explorers[k].at != target && explorers[k].target.is_none() {
                        explorers[k].target = Some(target);
                    }
                    k = k + 1;
                }
                if !contains_id(&shown, reported_id) {
                    spawned.push((reported_id, target));
                }
            },
            None => {},
        }
        r = r + 1;
    }
    proof { assert(snapshot.explorers@.take(r as int) =~= snapshot.explorers@); }
    // Explorers no longer reported leave the scene.
    let mut reported: Vec<u32> = Vec::new();
    let mut q: usize = 0;
    while q < snapshot.explorers.len()
        invariant
            q <= snapshot.explorers@.len(),
            reported@ == reported_ids(snapshot.explorers@).take(q as int),
        decreases snapshot.explorers@.len() - q,
    {
        reported.push(snapshot.explorers[q].id);
        proof { assert(reported_ids(snapshot.explorers@).take(q + 1) =~= reported_ids(snapshot.explorers@).take(q as int).push(snapshot.explorers@[q as int].id)); }
        q = q + 1;
    }
    proof { assert(reported_ids(snapshot.explorers@).take(q as int) =~= reported_ids(snapshot.explorers@)); }
    let mut despawned: Vec<u32> = Vec::new();
    let mut d: usize = 0;
    while d < shown.len()
        invariant
            d <= shown@.len(),
            reported@ == reported_ids(snapshot.explorers@),
            despawned@ == departed(shown@.take(d as int), reported@),
        decreases shown@.len() - d,
    {
        proof { assert(shown@.take(d + 1).drop_last() =~= shown@.take(d as int)); }
        if !contains_id(&reported, shown[d]) {
            despawned.push(shown[d]);
        }
        d = d + 1;
    }
    proof { assert(shown@.take(d as int) =~= shown@); }
    match state.selected_explorer {
        Some(id) => {
            if contains_id(&despawned, id) {
                state.selected_explorer = None;
            }
        },
        None => {},
    }
    FeedChanges { spawned, despawned }
}

/// Without a simulation, a sunray charges the first empty cell of the
/// focused planet, if it has one.
pub fn charge_first_empty_cell(cells: &mut Vec<bool>)
    ensures
        (forall|j: int| 0 <= j < old(cells)@.len() ==> old(cells)@[j]) ==> final(cells)@ == old(cells)@,
        (exists|j: int| 0 <= j < old(cells)@.len() && !old(cells)@[j]) ==> exists|i: int| 0 <= i < old(cells)@.len()
            && !old(cells)@[i] && (forall|j: int| 0 <= j < i ==> old(cells)@[j])
            && final(cells)@ == old(cells)@.update(i, true),
{
    let mut i: usize = 0;
    while i < cells.len()
        invariant
            i <= cells@.len(),
            cells@ == old(cells)@,
            forall|j: int| 0 <= j < i ==> cells@[j],
        decreases cells@.len() - i,
    {
        if !cells[i] {
            cells[i] = true;
            return;
        }
        i = i + 1;
    }
}

/// Without a simulation, moving picks the first explorer in scene order that
/// is not flying and has a neighbour, and a random neighbour for it to fly
/// to: `(explorer position, planet index)`. `None` when no explorer can move.
pub fn walk_idle_explorer(state: &GameState, explorers: &Vec<SceneExplorer>) -> (r: Option<(usize, usize)>)
    ensures
        match r {
            Some((k, t)) => {
                &&& k < explorers@.len()
                &&& explorers@[k as int].target is None
                &&& linked(state.edges@, explorers@[k as int].at).contains(t)
                &&& forall|j: int| 0 <= j < k ==> (#[trigger] explorers@[j]).target is Some
                    || linked(state.edges@, explorers@[j].at).len() == 0
            },
            None => forall|j: int| 0 <= j < explorers@.len() ==> (#[trigger] explorers@[j]).target is Some
                || linked(state.edges@, explorers@[j].at).len() == 0,
        },
{
    let mut k: usize = 0;
    while k < explorers.len()
        invariant
            k <= explorers@.len(),
            forall|j: int| 0 <= j < k ==> (#[trigger] explorers@[j]).target is Some
                || linked(state.edges@, explorers@[j].at).len() == 0,
        decreases explorers@.len() - k,
    {
        if explorers[k].target.is_none() {
            let neighbors = state.neighbors(explorers[k].at);
            if neighbors.len() > 0 {
                let i = gen_index(neighbors.len());
                let t = neighbors[i];
                assert(neighbors@[i as int] == t);
                return Some((k, t));
            }
        }
        k = k + 1;
    }
    None
}

} // verus!
