//! The orchestrator's decisions: who is alive, who travels where, which
//! messages go out in answer to each message that comes in, and what the
//! viewer is shown. The caller owns the channels and the clock; every
//! decision taken here comes back as a list of effects to carry out.

use vstd::prelude::*;
use common_game::components::resource::{BasicResourceType, ComplexResourceType};
use crate::bag::BagSnapshot;
use crate::galaxy::{build_galaxy, built_from, GalaxyLayout, xorshift};
use crate::idmap::IdMap;
use crate::planet::PlanetKind;
use crate::report::{GalaxyReport, resource_names, combination_names, bag_entries, views, pair_views, listed_resources, listed_combinations, listed_basic, listed_complex};
use crate::resources::{BasicSet, ComplexSet};
use crate::route::{next_hop, step, keys_unique, reachable_by, lemma_reachable_by_lists, lemma_shortest_by_lists, shortest_via_by};
use crate::visualizer::{VizBridge, marked, refreshed, fresh_view};
use crate::command::GalaxyCommand;
use crate::text::decimal;

verus! {

// =========================================================================
// MESSAGES
// =========================================================================

/// A message for a planet. Sun rays and asteroids are minted by the caller
/// when it carries the order out; an incoming-explorer request carries the
/// explorer's reply channel, which the caller looks up by explorer id.
#[derive(Clone, Copy, PartialEq, Eq, Structural)]
pub enum PlanetOrder {
    StartPlanetAI,
    StopPlanetAI,
    KillPlanet,
    Sunray,
    Asteroid,
    InternalStateRequest,
    IncomingExplorerRequest { explorer_id: u32 },
    OutgoingExplorerRequest { explorer_id: u32 },
}

/// A message for an explorer. A granted move carries the destination
/// planet's channel, which the caller looks up by planet id; a move that is
/// not granted carries no channel.
pub enum ExplorerOrder {
    StartExplorerAI,
    StopExplorerAI,
    KillExplorer,
    ResetExplorerAI,
    CurrentPlanetRequest,
    SupportedResourceRequest,
    SupportedCombinationRequest,
    GenerateResourceRequest { to_generate: BasicResourceType },
    CombineResourceRequest { to_generate: ComplexResourceType },
    BagContentRequest,
    NeighborsResponse { neighbors: Vec<u32> },
    MoveToPlanet { granted: bool, planet_id: u32 },
}

/// Something the caller must do on the orchestrator's behalf, in order.
pub enum Effect {
    ToPlanet(u32, PlanetOrder),
    ToExplorer(u32, ExplorerOrder),
    Report(GalaxyReport),
}

/// A message from a planet, with what the orchestrator reads of it.
pub enum PlanetNotice {
    SunrayAck { planet_id: u32 },
    /// `rocket` tells whether the planet answered with a rocket.
    AsteroidAck { planet_id: u32, rocket: bool },
    StartPlanetAIResult { planet_id: u32 },
    StopPlanetAIResult { planet_id: u32 },
    KillPlanetResult { planet_id: u32 },
    /// The planet's energy cells (`true` when charged) and whether it holds a rocket.
    InternalStateResponse { planet_id: u32, cells: Vec<bool>, has_rocket: bool },
    IncomingExplorerResponse { planet_id: u32, explorer_id: u32 },
    OutgoingExplorerResponse { planet_id: u32, explorer_id: u32 },
    Stopped { planet_id: u32 },
}

/// A message from an explorer, with what the orchestrator reads of it.
pub enum ExplorerNotice {
    StartExplorerAIResult { explorer_id: u32 },
    KillExplorerResult { explorer_id: u32 },
    ResetExplorerAIResult { explorer_id: u32 },
    StopExplorerAIResult { explorer_id: u32 },
    MovedToPlanetResult { explorer_id: u32, planet_id: u32 },
    CurrentPlanetResult { explorer_id: u32, planet_id: u32 },
    SupportedResourceResult { explorer_id: u32, supported_resources: BasicSet },
    SupportedCombinationResult { explorer_id: u32, combination_list: ComplexSet },
    GenerateResourceResponse { explorer_id: u32, generated: Result<(), String> },
    CombineResourceResponse { explorer_id: u32, generated: Result<(), String> },
    BagContentResponse { explorer_id: u32, bag_content: BagSnapshot },
    NeighborsRequest { explorer_id: u32, current_planet_id: u32 },
    TravelToPlanetRequest { explorer_id: u32, current_planet_id: u32, dst_planet_id: u32 },
}

// =========================================================================
// STATE
// =========================================================================

/// What the orchestrator keeps of an explorer.
#[derive(Clone, Copy, PartialEq, Eq, Structural)]
pub struct ExplorerRecord {
    pub start_planet: u32,
    /// Best-known planet of the explorer.
    pub current_planet: u32,
    pub alive: bool,
}

/// The orchestrator's bookkeeping.
pub struct OrchestratorState {
    /// Whether each planet is alive, by planet id.
    planets: IdMap<bool>,
    explorers: IdMap<ExplorerRecord>,
    /// Final destination of each explorer whose travel is under way.
    pending_travels: IdMap<u32>,
    /// Where each walking explorer's marker currently stands.
    transit_at: IdMap<u32>,
    viz: VizBridge,
    rng: u64,
    tick_count: u32,
    paused: bool,
    galaxy: GalaxyLayout,
}

impl OrchestratorState {
    pub closed spec fn wf(self) -> bool {
        &&& self.planets.wf()
        &&& self.explorers.wf()
        &&& self.pending_travels.wf()
        &&& self.transit_at.wf()
        &&& self.viz.wf()
        &&& self.galaxy.planet_count() <= 7
    }

    /// Planet id to whether it is alive.
    pub closed spec fn planet_map(self) -> Map<u32, bool> {
        self.planets@
    }

    /// The planet ids, in the order they were added.
    pub closed spec fn planet_order(self) -> Seq<u32> {
        self.planets.order()
    }

    pub closed spec fn explorer_map(self) -> Map<u32, ExplorerRecord> {
        self.explorers@
    }

    pub closed spec fn explorer_order(self) -> Seq<u32> {
        self.explorers.order()
    }

    /// Explorer id to the destination of its travel under way.
    pub closed spec fn pending(self) -> Map<u32, u32> {
        self.pending_travels@
    }

    pub closed spec fn pending_order(self) -> Seq<u32> {
        self.pending_travels.order()
    }

    /// Explorer id to where its walking marker stands.
    pub closed spec fn transit(self) -> Map<u32, u32> {
        self.transit_at@
    }

    pub closed spec fn transit_order(self) -> Seq<u32> {
        self.transit_at.order()
    }

    /// What the viewer is being shown.
    pub closed spec fn view(self) -> VizBridge {
        self.viz
    }

    pub closed spec fn layout(self) -> GalaxyLayout {
        self.galaxy
    }

    pub closed spec fn spec_rng(self) -> u64 {
        self.rng
    }

    pub closed spec fn spec_tick_count(self) -> u32 {
        self.tick_count
    }

    pub closed spec fn spec_paused(self) -> bool {
        self.paused
    }

    /// The planet is known and alive.
    pub open spec fn planet_alive(self, id: u32) -> bool {
        self.planet_map().contains_key(id) && self.planet_map()[id]
    }

    /// The planet is known and destroyed.
    pub open spec fn planet_dead(self, id: u32) -> bool {
        self.planet_map().contains_key(id) && !self.planet_map()[id]
    }

    pub open spec fn explorer_alive(self, id: u32) -> bool {
        self.explorer_map().contains_key(id) && self.explorer_map()[id].alive
    }

    /// `y` is an alive neighbour of `x`.
    pub open spec fn alive_step(self, x: u32, y: u32) -> bool {
        self.planet_alive(y) && self.layout().spec_neighbors(x).contains(y)
    }

    /// An explorer may walk from `a` to `b` over alive planets.
    pub open spec fn travel_reachable(self, a: u32, b: u32) -> bool {
        reachable_by(|x: u32, y: u32| self.alive_step(x, y), a, b)
    }

    /// Everything but the travel bookkeeping is unchanged.
    pub open spec fn same_actors(self, other: Self) -> bool {
        &&& self.planet_map() == other.planet_map()
        &&& self.planet_order() == other.planet_order()
        &&& self.layout() == other.layout()
        &&& self.spec_rng() == other.spec_rng()
        &&& self.spec_tick_count() == other.spec_tick_count()
        &&& self.spec_paused() == other.spec_paused()
    }
}

/// What sending `order` to planet `id` queues: nothing unless the planet is
/// alive.
pub open spec fn to_planet(s: OrchestratorState, id: u32, order: PlanetOrder) -> Seq<Effect> {
    if s.planet_alive(id) { seq![Effect::ToPlanet(id, order)] } else { Seq::empty() }
}

/// What sending `order` to explorer `id` queues: nothing unless the
/// explorer is alive.
pub open spec fn to_explorer(s: OrchestratorState, id: u32, order: ExplorerOrder) -> Seq<Effect> {
    if s.explorer_alive(id) { seq![Effect::ToExplorer(id, order)] } else { Seq::empty() }
}

/// An order that goes to every explorer alike.
#[derive(Clone, Copy)]
pub enum Signal {
    Start,
    Stop,
    Kill,
    CurrentPlanet,
}

pub open spec fn signal_order(sig: Signal) -> ExplorerOrder {
    match sig {
        Signal::Start => ExplorerOrder::StartExplorerAI,
        Signal::Stop => ExplorerOrder::StopExplorerAI,
        Signal::Kill => ExplorerOrder::KillExplorer,
        Signal::CurrentPlanet => ExplorerOrder::CurrentPlanetRequest,
    }
}

/// `order` for each planet of `ks` in turn; with `only_alive`, for the
/// alive ones only.
pub open spec fn planet_broadcast(m: Map<u32, bool>, ks: Seq<u32>, only_alive: bool, order: PlanetOrder) -> Seq<Effect>
    decreases ks.len(),
{
    if ks.len() == 0 {
        Seq::empty()
    } else {
        planet_broadcast(m, ks.drop_last(), only_alive, order)
            + if !only_alive || m[ks.last()] { seq![Effect::ToPlanet(ks.last(), order)] } else { Seq::<Effect>::empty() }
    }
}

/// The signal for each explorer of `ks` in turn; with `only_alive`, for the
/// alive ones only.
pub open spec fn explorer_broadcast(m: Map<u32, ExplorerRecord>, ks: Seq<u32>, only_alive: bool, sig: Signal) -> Seq<Effect>
    decreases ks.len(),
{
    if ks.len() == 0 {
        Seq::empty()
    } else {
        explorer_broadcast(m, ks.drop_last(), only_alive, sig)
            + if !only_alive || m[ks.last()].alive { seq![Effect::ToExplorer(ks.last(), signal_order(sig))] } else { Seq::<Effect>::empty() }
    }
}

/// A broadcast to the alive planets of `ks` reaches exactly those planets,
/// each with the same order, and holds nothing else.
pub proof fn lemma_planet_broadcast_reaches(m: Map<u32, bool>, ks: Seq<u32>, order: PlanetOrder, e: Effect)
    ensures
        planet_broadcast(m, ks, true, order).contains(e) <==> (e matches Effect::ToPlanet(p, o) && ks.contains(p) && m[p] && o == order),
    decreases ks.len(),
{
    broadcast use vstd::seq_lib::lemma_seq_concat_contains_all_elements;
    if ks.len() == 0 {
        assert(!planet_broadcast(m, ks, true, order).contains(e));
    } else {
        lemma_planet_broadcast_reaches(m, ks.drop_last(), order, e);
        let tail = if m[ks.last()] { seq![Effect::ToPlanet(ks.last(), order)] } else { Seq::<Effect>::empty() };
        assert(tail.contains(e) <==> (m[ks.last()] && e == Effect::ToPlanet(ks.last(), order))) by {
            if m[ks.last()] && e == Effect::ToPlanet(ks.last(), order) {
                assert(tail[0] == e);
            }
        }
        assert(planet_broadcast(m, ks, true, order) == planet_broadcast(m, ks.drop_last(), true, order) + tail);
        if let Effect::ToPlanet(p, o) = e {
            if ks.contains(p) && p != ks.last() {
                let k = choose|k: int| 0 <= k < ks.len() && ks[k] == p;
                assert(ks.drop_last()[k] == p);
            }
            if ks.drop_last().contains(p) {
                let k = choose|k: int| 0 <= k < ks.drop_last().len() && ks.drop_last()[k] == p;
                assert(ks[k] == p);
            }
            assert(ks[ks.len() - 1] == ks.last());
        }
    }
}

/// A broadcast of `sig` to the alive explorers of `ks` reaches exactly
/// those explorers, each with the order for `sig`, and holds nothing else.
pub proof fn lemma_explorer_broadcast_reaches(m: Map<u32, ExplorerRecord>, ks: Seq<u32>, sig: Signal, e: Effect)
    ensures
        explorer_broadcast(m, ks, true, sig).contains(e)
            <==> (e matches Effect::ToExplorer(x, o) && ks.contains(x) && m[x].alive && o == signal_order(sig)),
    decreases ks.len(),
{
    broadcast use vstd::seq_lib::lemma_seq_concat_contains_all_elements;
    if ks.len() == 0 {
        assert(!explorer_broadcast(m, ks, true, sig).contains(e));
    } else {
        lemma_explorer_broadcast_reaches(m, ks.drop_last(), sig, e);
        let tail = if m[ks.last()].alive { seq![Effect::ToExplorer(ks.last(), signal_order(sig))] } else { Seq::<Effect>::empty() };
        assert(tail.contains(e) <==> (m[ks.last()].alive && e == Effect::ToExplorer(ks.last(), signal_order(sig)))) by {
            if m[ks.last()].alive && e == Effect::ToExplorer(ks.last(), signal_order(sig)) {
                assert(tail[0] == e);
            }
        }
        assert(explorer_broadcast(m, ks, true, sig) == explorer_broadcast(m, ks.drop_last(), true, sig) + tail);
        if let Effect::ToExplorer(x, o) = e {
            if ks.contains(x) && x != ks.last() {
                let k = choose|k: int| 0 <= k < ks.len() && ks[k] == x;
                assert(ks.drop_last()[k] == x);
            }
            if ks.drop_last().contains(x) {
                let k = choose|k: int| 0 <= k < ks.drop_last().len() && ks.drop_last()[k] == x;
                assert(ks[k] == x);
            }
            assert(ks[ks.len() - 1] == ks.last());
        }
    }
}

/// Pausing the galaxy stops every alive explorer and resuming starts it:
/// the run toggle's orders give each alive explorer the matching order and
/// never the opposite one.
pub proof fn lemma_run_toggle_orders(pm: Map<u32, bool>, pks: Seq<u32>, porder: PlanetOrder,
    m: Map<u32, ExplorerRecord>, ks: Seq<u32>, running: bool, k: u32)
    requires
        ks.contains(k),
        m[k].alive,
    ensures
        (planet_broadcast(pm, pks, true, porder) + explorer_broadcast(m, ks, true, if running { Signal::Start } else { Signal::Stop }))
            .contains(Effect::ToExplorer(k, if running { ExplorerOrder::StartExplorerAI } else { ExplorerOrder::StopExplorerAI })),
        !(planet_broadcast(pm, pks, true, porder) + explorer_broadcast(m, ks, true, if running { Signal::Start } else { Signal::Stop }))
            .contains(Effect::ToExplorer(k, if running { ExplorerOrder::StopExplorerAI } else { ExplorerOrder::StartExplorerAI })),
{
    broadcast use vstd::seq_lib::lemma_seq_concat_contains_all_elements;
    let sig = if running { Signal::Start } else { Signal::Stop };
    let on = Effect::ToExplorer(k, if running { ExplorerOrder::StartExplorerAI } else { ExplorerOrder::StopExplorerAI });
    let off = Effect::ToExplorer(k, if running { ExplorerOrder::StopExplorerAI } else { ExplorerOrder::StartExplorerAI });
    lemma_explorer_broadcast_reaches(m, ks, sig, on);
    lemma_explorer_broadcast_reaches(m, ks, sig, off);
    lemma_planet_broadcast_reaches(pm, pks, porder, on);
    lemma_planet_broadcast_reaches(pm, pks, porder, off);
}

/// The order of a map's ids after storing `k`: unchanged when `k` was
/// present, `k` last otherwise.
pub open spec fn inserted(order: Seq<u32>, m: Map<u32, u32>, k: u32) -> Seq<u32> {
    if m.contains_key(k) { order } else { order.push(k) }
}

/// The refusals sent to the explorers of `ks` whose travel was headed for
/// planet `id`.
pub open spec fn stranded_effects(s: OrchestratorState, ks: Seq<u32>, id: u32) -> Seq<Effect>
    decreases ks.len(),
{
    if ks.len() == 0 {
        Seq::empty()
    } else {
        let k = ks.last();
        stranded_effects(s, ks.drop_last(), id)
            + if s.pending().contains_key(k) && s.pending()[k] == id && s.explorer_alive(k) {
                seq![Effect::ToExplorer(k, ExplorerOrder::MoveToPlanet { granted: false, planet_id: id })]
            } else {
                Seq::<Effect>::empty()
            }
    }
}

/// The travel of explorer `k` in state `s` is headed for planet `id`.
pub open spec fn headed_for(s: OrchestratorState, k: u32, id: u32) -> bool {
    s.pending().contains_key(k) && s.pending()[k] == id
}

/// The outcome of planet `id`'s death being confirmed, from state `s` with
/// effects `o` to state `t` with effects `p`: a planet already dead or
/// unknown changes nothing; otherwise it is marked dead and shown so, the
/// travels headed for it are refused, and every alive explorer is asked
/// where it is.
pub open spec fn planet_death_done(s: OrchestratorState, t: OrchestratorState, o: Seq<Effect>, p: Seq<Effect>, id: u32) -> bool {
    if !s.planet_alive(id) {
        t == s && p == o
    } else {
        &&& t.wf()
        &&& t.planet_map() == s.planet_map().insert(id, false)
        &&& t.planet_order() == s.planet_order()
        &&& t.layout() == s.layout()
        &&& t.spec_rng() == s.spec_rng()
        &&& t.spec_tick_count() == s.spec_tick_count()
        &&& t.spec_paused() == s.spec_paused()
        &&& t.explorer_map() == s.explorer_map()
        &&& t.explorer_order() == s.explorer_order()
        &&& t.view().planet_views() == marked(s.view().planet_views(), id, false)
        &&& t.view().explorer_views() == s.view().explorer_views()
        &&& t.view().edge_list() == s.view().edge_list()
        &&& forall|k: u32| #[trigger] headed_for(s, k, id) ==> !t.pending().contains_key(k) && !t.transit().contains_key(k)
        &&& forall|k: u32| !headed_for(s, k, id) ==> #[trigger] same_at(t.pending(), s.pending(), k)
            && same_at(t.transit(), s.transit(), k)
        &&& p == o + stranded_effects(s, s.pending_order(), id)
            + explorer_broadcast(s.explorer_map(), s.explorer_order(), true, Signal::CurrentPlanet)
    }
}

/// The outcome of answering explorer `eid`'s travel to `pid`, granted or
/// not, from state `s` with effects `o` to state `t` with effects `p`,
/// when its pending travel is `pending` afterwards.
pub open spec fn travel_answered(s: OrchestratorState, t: OrchestratorState, o: Seq<Effect>, p: Seq<Effect>,
    eid: u32, granted: bool, pid: u32, pending: Map<u32, u32>) -> bool
{
    &&& t.wf()
    &&& t.same_actors(s)
    &&& t.explorer_map() == if granted && s.explorer_map().contains_key(eid) {
        s.explorer_map().insert(eid, ExplorerRecord { current_planet: pid, ..s.explorer_map()[eid] })
    } else {
        s.explorer_map()
    }
    &&& t.explorer_order() == s.explorer_order()
    &&& t.pending() == pending
    &&& t.transit() == s.transit()
    &&& t.transit_order() == s.transit_order()
    &&& t.view() == s.view()
    &&& p == o + to_explorer(s, eid, ExplorerOrder::MoveToPlanet { granted, planet_id: pid })
}

/// Only the effects changed.
pub open spec fn quiet(s: OrchestratorState, t: OrchestratorState, o: Seq<Effect>, p: Seq<Effect>) -> bool {
    t == s && p == o
}

/// The registrations of the explorers `ks` on their start planets, for the
/// start planets that are known.
pub open spec fn registrations(s: OrchestratorState, ks: Seq<u32>) -> Seq<Effect>
    decreases ks.len(),
{
    if ks.len() == 0 {
        Seq::empty()
    } else {
        let k = ks.last();
        let start = s.explorer_map()[k].start_planet;
        registrations(s, ks.drop_last()) + if s.planet_map().contains_key(start) {
            seq![Effect::ToPlanet(start, PlanetOrder::IncomingExplorerRequest { explorer_id: k })]
        } else {
            Seq::<Effect>::empty()
        }
    }
}

/// The viewer's explorer positions after showing each explorer of `ks` on
/// its start planet.
pub open spec fn shown_at_start(views: Map<u32, u32>, m: Map<u32, ExplorerRecord>, ks: Seq<u32>) -> Map<u32, u32>
    decreases ks.len(),
{
    if ks.len() == 0 {
        views
    } else {
        shown_at_start(views, m, ks.drop_last()).insert(ks.last(), m[ks.last()].start_planet)
    }
}

/// Everything but the pause flag is unchanged.
pub open spec fn same_but_paused(s: OrchestratorState, t: OrchestratorState) -> bool {
    &&& t.planet_map() == s.planet_map()
    &&& t.planet_order() == s.planet_order()
    &&& t.layout() == s.layout()
    &&& t.spec_rng() == s.spec_rng()
    &&& t.spec_tick_count() == s.spec_tick_count()
    &&& t.explorer_map() == s.explorer_map()
    &&& t.explorer_order() == s.explorer_order()
    &&& t.pending() == s.pending()
    &&& t.pending_order() == s.pending_order()
    &&& t.transit() == s.transit()
    &&& t.transit_order() == s.transit_order()
    &&& t.view() == s.view()
}

/// The notice that an explorer's reset was requested.
pub open spec fn reset_notice(id: u32) -> Seq<char> {
    "Explorer "@ + decimal(id as nat) + ": reset requested"@
}

/// A walking explorer that is dead: its walk is dropped.
pub open spec fn journey_abandoned(s: OrchestratorState, k: u32) -> bool {
    !s.explorer_alive(k)
}

/// A walking explorer whose travel was already dropped: its marker is cleared.
pub open spec fn journey_cleared(s: OrchestratorState, k: u32) -> bool {
    s.explorer_alive(k) && !s.pending().contains_key(k)
}

/// The marker and destination of a walking explorer with a travel under way.
pub open spec fn journey_ends(s: OrchestratorState, k: u32) -> (u32, u32) {
    (s.transit()[k], s.pending()[k])
}

/// A walking explorer whose destination can no longer be reached: it is
/// stranded and its travel refused.
pub open spec fn journey_stranded(s: OrchestratorState, k: u32) -> bool {
    let (at, dst) = journey_ends(s, k);
    &&& s.explorer_alive(k)
    &&& s.pending().contains_key(k)
    &&& !(at != dst && s.travel_reachable(at, dst))
}

/// A walking explorer next to its destination: this step arrives.
pub open spec fn journey_arrives(s: OrchestratorState, k: u32) -> bool {
    let (at, dst) = journey_ends(s, k);
    &&& s.explorer_alive(k)
    &&& s.pending().contains_key(k)
    &&& at != dst
    &&& s.travel_reachable(at, dst)
    &&& s.alive_step(at, dst)
}

/// A walking explorer that takes one more hop and keeps walking.
pub open spec fn journey_walks(s: OrchestratorState, k: u32) -> bool {
    let (at, dst) = journey_ends(s, k);
    &&& s.explorer_alive(k)
    &&& s.pending().contains_key(k)
    &&& at != dst
    &&& s.travel_reachable(at, dst)
    &&& !s.alive_step(at, dst)
}

/// What one walking explorer's step sends out.
pub open spec fn journey_effect(s: OrchestratorState, k: u32) -> Seq<Effect> {
    let (at, dst) = journey_ends(s, k);
    if journey_stranded(s, k) {
        seq![Effect::ToExplorer(k, ExplorerOrder::MoveToPlanet { granted: false, planet_id: dst })]
    } else if journey_arrives(s, k) {
        seq![Effect::ToPlanet(dst, PlanetOrder::IncomingExplorerRequest { explorer_id: k })]
    } else {
        Seq::empty()
    }
}

/// What the steps of the walking explorers `ks` send out, in order.
pub open spec fn journey_effects(s: OrchestratorState, ks: Seq<u32>) -> Seq<Effect>
    decreases ks.len(),
{
    if ks.len() == 0 {
        Seq::empty()
    } else {
        journey_effects(s, ks.drop_last()) + journey_effect(s, ks.last())
    }
}

/// `a` and `b` agree at `k`.
pub open spec fn same_at(a: Map<u32, u32>, b: Map<u32, u32>, k: u32) -> bool {
    a.contains_key(k) == b.contains_key(k) && (a.contains_key(k) ==> a[k] == b[k])
}

/// After one step of walking explorer `k` from state `s`, state `t` holds
/// for `k`: the travel dropped or kept, the marker cleared or moved one hop
/// closer, and the viewer showing the hop.
pub open spec fn journey_done(s: OrchestratorState, t: OrchestratorState, k: u32) -> bool {
    let (at, dst) = journey_ends(s, k);
    &&& if journey_abandoned(s, k) || journey_stranded(s, k) {
        !t.pending().contains_key(k)
    } else {
        same_at(t.pending(), s.pending(), k)
    }
    &&& if journey_walks(s, k) {
        &&& t.transit().contains_key(k)
        &&& s.alive_step(at, t.transit()[k])
        &&& s.travel_reachable(t.transit()[k], dst)
        &&& shortest_via_by(|a: u32, b: u32| s.alive_step(a, b), at, t.transit()[k], dst)
        &&& t.transit()[k] != dst
        &&& t.view().explorer_views().contains_key(k)
        &&& t.view().explorer_views()[k] == t.transit()[k]
    } else if journey_arrives(s, k) {
        &&& !t.transit().contains_key(k)
        &&& t.view().explorer_views().contains_key(k)
        &&& t.view().explorer_views()[k] == dst
    } else {
        &&& !t.transit().contains_key(k)
        &&& same_at(t.view().explorer_views(), s.view().explorer_views(), k)
    }
}

/// The outcome of a travel request from `cur` to `dst` by explorer `eid`,
/// taking state `s` with effects `o` to state `t` with effects `p`.
pub open spec fn travel_handled(s: OrchestratorState, t: OrchestratorState, o: Seq<Effect>, p: Seq<Effect>, eid: u32, cur: u32, dst: u32) -> bool {
    &&& t.wf()
    &&& t.same_actors(s)
    &&& t.explorer_map() == s.explorer_map()
    &&& t.explorer_order() == s.explorer_order()
    &&& t.view() == s.view()
    &&& if !s.planet_alive(dst) || (cur != dst
        && !s.travel_reachable(cur, dst)) {
        // refused
        &&& t.pending() == s.pending()
        &&& t.pending_order() == s.pending_order()
        &&& t.transit() == s.transit()
        &&& t.transit_order() == s.transit_order()
        &&& s.explorer_alive(eid) ==> p == o.push(
            Effect::ToExplorer(eid, ExplorerOrder::MoveToPlanet { granted: false, planet_id: dst }))
        &&& !s.explorer_alive(eid) ==> p == o
    } else if cur == dst {
        // already there: the planet is asked to take the explorer in
        &&& t.transit() == s.transit()
        &&& t.transit_order() == s.transit_order()
        &&& if s.explorer_map().contains_key(eid) {
            &&& t.pending() == s.pending().insert(eid, dst)
            &&& t.pending_order() == inserted(s.pending_order(), s.pending(), eid)
            &&& p == o.push(Effect::ToPlanet(dst, PlanetOrder::IncomingExplorerRequest { explorer_id: eid }))
        } else {
            &&& t.pending() == s.pending().remove(eid)
            &&& p == o
        }
    } else {
        // the walk begins
        &&& t.pending() == s.pending().insert(eid, dst)
        &&& t.pending_order() == inserted(s.pending_order(), s.pending(), eid)
        &&& t.transit() == s.transit().insert(eid, cur)
        &&& t.transit_order() == inserted(s.transit_order(), s.transit(), eid)
        &&& p == o + if s.planet_map().contains_key(cur) {
            seq![Effect::ToPlanet(cur, PlanetOrder::OutgoingExplorerRequest { explorer_id: eid })]
        } else {
            Seq::<Effect>::empty()
        }
    }
}

fn copy_edges(edges: &Vec<(u32, u32)>) -> (out: Vec<(u32, u32)>)
    ensures
        out@ == edges@,
{
    let mut out: Vec<(u32, u32)> = Vec::new();
    let mut k: usize = 0;
    while k < edges.len()
        invariant
            k <= edges@.len(),
            out@ == edges@.take(k as int),
        decreases edges@.len() - k,
    {
        proof { assert(edges@.take(k + 1) =~= edges@.take(k as int).push(edges@[k as int])); }
        out.push(edges[k]);
        k = k + 1;
    }
    proof { assert(edges@.take(k as int) =~= edges@); }
    out
}

impl OrchestratorState {
    /// What the viewer is being shown, to publish.
    pub fn viz(&self) -> (v: &VizBridge)
        ensures
            *v == self.view(),
    {
        &self.viz
    }

    // =====================================================================
    // SENDING
    // =====================================================================

    /// Queues `order` for a planet when it is known and alive.
    pub fn send_to_planet(&self, planet_id: u32, order: PlanetOrder, out: &mut Vec<Effect>)
        requires
            self.wf(),
        ensures
            final(out)@ == old(out)@ + to_planet(*self, planet_id, order),
    {
        let ghost o = out@;
        match self.planets.get(planet_id) {
            Some(alive) => {
                if *alive {
                    out.push(Effect::ToPlanet(planet_id, order));
                }
            },
            None => {},
        }
        proof {
            assert(out@ =~= o + to_planet(*self, planet_id, order));
        }
    }

    /// Queues `order` for an explorer when it is known and alive.
    pub fn send_to_explorer(&self, explorer_id: u32, order: ExplorerOrder, out: &mut Vec<Effect>)
        requires
            self.wf(),
        ensures
            self.explorer_alive(explorer_id) ==> final(out)@ == old(out)@.push(Effect::ToExplorer(explorer_id, order)),
            !self.explorer_alive(explorer_id) ==> final(out)@ == old(out)@,
    {
        match self.explorers.get(explorer_id) {
            Some(rec) => {
                if rec.alive {
                    out.push(Effect::ToExplorer(explorer_id, order));
                }
            },
            None => {},
        }
    }

    // =====================================================================
    // TRAVEL
    // =====================================================================

    /// Answers an explorer's travel: a granted move also becomes its known
    /// location. The answer goes out only to an alive explorer.
    pub fn grant_travel(&mut self, explorer_id: u32, granted: bool, planet_id: u32, out: &mut Vec<Effect>)
        requires
            old(self).wf(),
        ensures
            final(self).wf(),
            final(self).same_actors(*old(self)),
            final(self).explorer_map() == if granted && old(self).explorer_map().contains_key(explorer_id) {
                old(self).explorer_map().insert(explorer_id,
                    ExplorerRecord { current_planet: planet_id, ..old(self).explorer_map()[explorer_id] })
            } else {
                old(self).explorer_map()
            },
            final(self).explorer_order() == old(self).explorer_order(),
            final(self).pending() == old(self).pending(),
            final(self).pending_order() == old(self).pending_order(),
            final(self).transit() == old(self).transit(),
            final(self).transit_order() == old(self).transit_order(),
            final(self).view() == old(self).view(),
            old(self).explorer_alive(explorer_id) ==> final(out)@ == old(out)@.push(
                Effect::ToExplorer(explorer_id, ExplorerOrder::MoveToPlanet { granted, planet_id })),
            !old(self).explorer_alive(explorer_id) ==> final(out)@ == old(out)@,
    {
        if granted {
            match self.explorers.get(explorer_id) {
                Some(rec) => {
                    let updated = ExplorerRecord { current_planet: planet_id, ..*rec };
                    self.explorers.insert(explorer_id, updated);
                },
                None => {},
            }
        }
        self.send_to_explorer(explorer_id, ExplorerOrder::MoveToPlanet { granted, planet_id }, out);
    }

    /// The explorer has reached `dst_planet_id`: the destination is asked to
    /// take it in, and its answer completes the move. When the planet or the
    /// explorer is unknown, the travel is dropped and refused.
    pub fn finalize_arrival(&mut self, explorer_id: u32, dst_planet_id: u32, out: &mut Vec<Effect>)
        requires
            old(self).wf(),
        ensures
            final(self).wf(),
            final(self).same_actors(*old(self)),
            final(self).explorer_map() == old(self).explorer_map(),
            final(self).explorer_order() == old(self).explorer_order(),
            final(self).transit() == old(self).transit(),
            final(self).transit_order() == old(self).transit_order(),
            final(self).view() == old(self).view(),
            if old(self).planet_map().contains_key(dst_planet_id) && old(self).explorer_map().contains_key(explorer_id) {
                &&& final(self).pending() == old(self).pending()
                &&& final(self).pending_order() == old(self).pending_order()
                &&& final(out)@ == old(out)@.push(Effect::ToPlanet(dst_planet_id, PlanetOrder::IncomingExplorerRequest { explorer_id }))
            } else {
                &&& final(self).pending() == old(self).pending().remove(explorer_id)
                &&& old(self).explorer_alive(explorer_id) ==> final(out)@ == old(out)@.push(
                    Effect::ToExplorer(explorer_id, ExplorerOrder::MoveToPlanet { granted: false, planet_id: dst_planet_id }))
                &&& !old(self).explorer_alive(explorer_id) ==> final(out)@ == old(out)@
            },
    {
        if self.planets.contains_key(dst_planet_id) && self.explorers.contains_key(explorer_id) {
            out.push(Effect::ToPlanet(dst_planet_id, PlanetOrder::IncomingExplorerRequest { explorer_id }));
        } else {
            let _ = self.pending_travels.remove(explorer_id);
            self.grant_travel(explorer_id, false, dst_planet_id, out);
        }
    }

    /// The alive neighbours of a planet, in the layout's order.
    pub fn neighbors_of(&self, planet_id: u32) -> (ns: Vec<u32>)
        requires
            self.wf(),
        ensures
            ns@ == self.layout().spec_neighbors(planet_id).filter(|y: u32| self.planet_alive(y)),
    {
        let all = self.galaxy.neighbors_of(planet_id);
        let ghost f = |y: u32| self.planet_alive(y);
        let mut ns: Vec<u32> = Vec::new();
        let mut i: usize = 0;
        while i < all.len()
            invariant
                self.wf(),
                f == (|y: u32| self.planet_alive(y)),
                i <= all@.len(),
                ns@ == all@.take(i as int).filter(f),
            decreases all@.len() - i,
        {
            proof {
                let t = all@.take(i + 1);
                assert(t.drop_last() =~= all@.take(i as int));
                assert(t.last() == all@[i as int]);
                all@.take(i as int).lemma_filter_push(all@[i as int], f);
                assert(t =~= all@.take(i as int).push(all@[i as int]));
            }
            let y = all[i];
            let alive = match self.planets.get(y) {
                Some(a) => *a,
                None => false,
            };
            if alive {
                ns.push(y);
            }
            i = i + 1;
        }
        proof { assert(all@.take(i as int) =~= all@); }
        ns
    }

    /// The next planet on a shortest alive route from `from` toward `to`, or
    /// `None` when already there or when `to` cannot be reached over alive
    /// planets.
    pub fn path_next_hop(&self, from: u32, to: u32) -> (h: Option<u32>)
        requires
            self.wf(),
        ensures
            h is None <==> (from == to || !self.travel_reachable(from, to)),
            h matches Some(x) ==> self.alive_step(from, x) && self.travel_reachable(x, to),
            from != to && self.alive_step(from, to) ==> h == Some(to),
            h matches Some(x) ==> shortest_via_by(|a: u32, b: u32| self.alive_step(a, b), from, x, to),
    {
        let n = self.galaxy.planet_total();
        let mut graph: Vec<(u32, Vec<u32>)> = Vec::new();
        let mut i: usize = 1;
        while i <= n
            invariant
                self.wf(),
                n == self.layout().planet_count(),
                1 <= i,
                graph@.len() == i - 1,
                forall|k: int| 0 <= k < graph@.len() ==> (#[trigger] graph@[k]).0 == k + 1
                    && graph@[k].1@ == self.layout().spec_neighbors((k + 1) as u32).filter(|y: u32| self.planet_alive(y)),
            decreases n + 1 - i,
        {
            let id = i as u32;
            let ns = self.neighbors_of(id);
            graph.push((id, ns));
            i = i + 1;
        }
        proof {
            assert(keys_unique(graph@));
            assert forall|x: u32, y: u32| #[trigger] step(graph@, x, y) == self.alive_step(x, y) by {
                let f = |y: u32| self.planet_alive(y);
                let nx = self.layout().spec_neighbors(x);
                if step(graph@, x, y) {
                    let k = choose|k: int| 0 <= k < graph@.len() && graph@[k].0 == x && (#[trigger] graph@[k].1@).contains(y);
                    assert(graph@[k].1@ == nx.filter(f));
                    nx.lemma_filter_contains_rev(f, y);
                    let j = choose|j: int| 0 <= j < nx.filter(f).len() && nx.filter(f)[j] == y;
                    nx.lemma_filter_pred(f, j);
                }
                if self.alive_step(x, y) {
                    self.galaxy.lemma_neighbors_known(x);
                    let k = x - 1;
                    let j = choose|j: int| 0 <= j < nx.len() && nx[j] == y;
                    nx.lemma_filter_contains(f, j);
                    assert(graph@[k].0 == x && graph@[k].1@.contains(y));
                }
            }
        }
        let h = next_hop(&graph, from, to);
        proof {
            lemma_reachable_by_lists(graph@, |x: u32, y: u32| self.alive_step(x, y), from, to);
            if let Some(x) = h {
                lemma_reachable_by_lists(graph@, |x: u32, y: u32| self.alive_step(x, y), x, to);
                lemma_shortest_by_lists(graph@, |a: u32, b: u32| self.alive_step(a, b), from, x, to);
            }
        }
        h
    }

    /// Handles a request to travel from `current_planet_id` to
    /// `dst_planet_id`: refused when the destination is not alive or cannot
    /// be reached over alive planets; immediate when already there;
    /// otherwise the explorer leaves its planet and walks one hop per tick.
    pub fn handle_travel_request(&mut self, explorer_id: u32, current_planet_id: u32, dst_planet_id: u32, out: &mut Vec<Effect>)
        requires
            old(self).wf(),
        ensures
            final(self).wf(),
            final(self).same_actors(*old(self)),
            final(self).explorer_map() == old(self).explorer_map(),
            final(self).explorer_order() == old(self).explorer_order(),
            final(self).view() == old(self).view(),
            travel_handled(*old(self), *final(self), old(out)@, final(out)@, explorer_id, current_planet_id, dst_planet_id),
    {
        let dst_alive = match self.planets.get(dst_planet_id) {
            Some(a) => *a,
            None => false,
        };
        if !dst_alive {
            self.grant_travel(explorer_id, false, dst_planet_id, out);
            return;
        }
        if current_planet_id == dst_planet_id {
            self.pending_travels.insert(explorer_id, dst_planet_id);
            self.finalize_arrival(explorer_id, dst_planet_id, out);
            proof {
                if !old(self).explorer_map().contains_key(explorer_id) {
                    assert(self.pending() =~= old(self).pending().remove(explorer_id));
                }
            }
            return;
        }
        if self.path_next_hop(current_planet_id, dst_planet_id).is_none() {
            self.grant_travel(explorer_id, false, dst_planet_id, out);
            return;
        }
        let ghost o = out@;
        if self.planets.contains_key(current_planet_id) {
            out.push(Effect::ToPlanet(current_planet_id, PlanetOrder::OutgoingExplorerRequest { explorer_id }));
        }
        self.pending_travels.insert(explorer_id, dst_planet_id);
        self.transit_at.insert(explorer_id, current_planet_id);
        proof {
            assert(out@ =~= o + if old(self).planet_map().contains_key(current_planet_id) {
                seq![Effect::ToPlanet(current_planet_id, PlanetOrder::OutgoingExplorerRequest { explorer_id })]
            } else {
                Seq::<Effect>::empty()
            });
        }
    }

    /// Moves one walking explorer one hop along its route: dropped when it is
    /// dead or its travel was dropped, stranded when its destination cannot
    /// be reached any more, registered on the destination when it arrives.
    pub fn advance_journey(&mut self, explorer_id: u32, out: &mut Vec<Effect>)
        requires
            old(self).wf(),
            old(self).transit().contains_key(explorer_id),
        ensures
            final(self).wf(),
            final(self).same_actors(*old(self)),
            final(self).explorer_map() == old(self).explorer_map(),
            final(self).explorer_order() == old(self).explorer_order(),
            final(self).view().planet_views() == old(self).view().planet_views(),
            final(self).view().edge_list() == old(self).view().edge_list(),
            journey_done(*old(self), *final(self), explorer_id),
            forall|k: u32| k != explorer_id ==> {
                &&& #[trigger] same_at(final(self).pending(), old(self).pending(), k)
                &&& same_at(final(self).transit(), old(self).transit(), k)
                &&& same_at(final(self).view().explorer_views(), old(self).view().explorer_views(), k)
            },
            final(out)@ == old(out)@ + journey_effect(*old(self), explorer_id),
    {
        let ghost o = out@;
        let alive = match self.explorers.get(explorer_id) {
            Some(rec) => rec.alive,
            None => false,
        };
        if !alive {
            let _ = self.transit_at.remove(explorer_id);
            let _ = self.pending_travels.remove(explorer_id);
            proof { assert(out@ =~= o + journey_effect(*old(self), explorer_id)); }
            return;
        }
        let at = match self.transit_at.get(explorer_id) {
            Some(a) => *a,
            None => { return; },
        };
        let dst = match self.pending_travels.get(explorer_id) {
            Some(d) => *d,
            None => {
                let _ = self.transit_at.remove(explorer_id);
                proof { assert(out@ =~= o + journey_effect(*old(self), explorer_id)); }
                return;
            },
        };
        match self.path_next_hop(at, dst) {
            Some(next) => {
                self.transit_at.insert(explorer_id, next);
                self.viz.set_explorer(explorer_id, next);
                if next == dst {
                    let _ = self.transit_at.remove(explorer_id);
                    self.finalize_arrival(explorer_id, dst, out);
                }
                proof { assert(out@ =~= o + journey_effect(*old(self), explorer_id)); }
            },
            None => {
                let _ = self.transit_at.remove(explorer_id);
                let _ = self.pending_travels.remove(explorer_id);
                self.grant_travel(explorer_id, false, dst, out);
                proof { assert(out@ =~= o + journey_effect(*old(self), explorer_id)); }
            },
        }
    }

    /// Two states with the same planets and layout agree on every route.
    proof fn lemma_same_routes(s: Self, t: Self)
        requires
            s.planet_map() == t.planet_map(),
            s.layout() == t.layout(),
        ensures
            forall|a: u32, b: u32| #[trigger] s.travel_reachable(a, b) == t.travel_reachable(a, b),
            forall|a: u32, b: u32| #[trigger] s.alive_step(a, b) == t.alive_step(a, b),
            (|a: u32, b: u32| s.alive_step(a, b)) == (|a: u32, b: u32| t.alive_step(a, b)),
    {
        let f = |x: u32, y: u32| s.alive_step(x, y);
        let g = |x: u32, y: u32| t.alive_step(x, y);
        assert(f =~= g);
    }

    /// The ids of the walking explorers, in order.
    fn walking_explorers(&self) -> (ks: Vec<u32>)
        requires
            self.wf(),
        ensures
            ks@ == self.transit_order(),
    {
        let mut ks: Vec<u32> = Vec::new();
        let mut i: usize = 0;
        while i < self.transit_at.len()
            invariant
                self.wf(),
                i <= self.transit_order().len(),
                ks@ == self.transit_order().take(i as int),
            decreases self.transit_order().len() - i,
        {
            proof { assert(self.transit_order().take(i + 1) =~= self.transit_order().take(i as int).push(self.transit_order()[i as int])); }
            ks.push(self.transit_at.key_at(i));
            i = i + 1;
        }
        proof { assert(self.transit_order().take(i as int) =~= self.transit_order()); }
        ks
    }

    /// Moves every walking explorer one hop, in the order they started
    /// walking.
    pub fn advance_journeys(&mut self, out: &mut Vec<Effect>)
        requires
            old(self).wf(),
        ensures
            final(self).wf(),
            final(self).same_actors(*old(self)),
            final(self).explorer_map() == old(self).explorer_map(),
            final(self).explorer_order() == old(self).explorer_order(),
            final(self).view().planet_views() == old(self).view().planet_views(),
            final(self).view().edge_list() == old(self).view().edge_list(),
            forall|k: u32| #[trigger] old(self).transit().contains_key(k) ==> journey_done(*old(self), *final(self), k),
            forall|k: u32| #![trigger old(self).transit().contains_key(k)] !old(self).transit().contains_key(k) ==> {
                &&& same_at(final(self).pending(), old(self).pending(), k)
                &&& same_at(final(self).transit(), old(self).transit(), k)
                &&& same_at(final(self).view().explorer_views(), old(self).view().explorer_views(), k)
            },
            final(out)@ == old(out)@ + journey_effects(*old(self), old(self).transit_order()),
    {
        let ghost s0 = *self;
        let ghost o = out@;
        let travelers = self.walking_explorers();
        proof { s0.transit_at.lemma_order_is_domain(); }
        let mut idx: usize = 0;
        while idx < travelers.len()
            invariant
                self.wf(),
                s0.wf(),
                travelers@ == s0.transit_order(),
                travelers@.no_duplicates(),
                forall|k: u32| #[trigger] s0.transit().contains_key(k) <==> travelers@.contains(k),
                idx <= travelers@.len(),
                self.same_actors(s0),
                self.explorer_map() == s0.explorer_map(),
                self.explorer_order() == s0.explorer_order(),
                self.view().planet_views() == s0.view().planet_views(),
                self.view().edge_list() == s0.view().edge_list(),
                forall|m: int| 0 <= m < idx ==> journey_done(s0, *self, #[trigger] travelers@[m]),
                forall|k: u32| !travelers@.take(idx as int).contains(k) ==> {
                    &&& #[trigger] same_at(self.pending(), s0.pending(), k)
                    &&& same_at(self.transit(), s0.transit(), k)
                    &&& same_at(self.view().explorer_views(), s0.view().explorer_views(), k)
                },
                out@ == o + journey_effects(s0, travelers@.take(idx as int)),
            decreases travelers@.len() - idx,
        {
            let k = travelers[idx];
            let ghost mid = *self;
            proof {
                assert(!travelers@.take(idx as int).contains(k)) by {
                    if travelers@.take(idx as int).contains(k) {
                        let m = choose|m: int| 0 <= m < idx && travelers@.take(idx as int)[m] == k;
                        assert(travelers@[m] == travelers@[idx as int]);
                    }
                }
                assert(s0.transit().contains_key(k));
                Self::lemma_same_routes(s0, mid);
                assert(same_at(mid.pending(), s0.pending(), k));
                assert(same_at(mid.transit(), s0.transit(), k));
                assert(same_at(mid.view().explorer_views(), s0.view().explorer_views(), k));
                assert(journey_abandoned(mid, k) == journey_abandoned(s0, k));
                assert(journey_cleared(mid, k) == journey_cleared(s0, k));
                assert(journey_stranded(mid, k) == journey_stranded(s0, k));
                assert(journey_arrives(mid, k) == journey_arrives(s0, k));
                assert(journey_walks(mid, k) == journey_walks(s0, k));
            }
            self.advance_journey(k, out);
            proof {
                Self::lemma_same_routes(s0, *self);
                assert(journey_effect(mid, k) == journey_effect(s0, k));
                assert(journey_done(s0, *self, k));
                let t = travelers@.take(idx + 1);
                assert(t.drop_last() =~= travelers@.take(idx as int));
                assert(out@ =~= o + journey_effects(s0, t));
                assert forall|m: int| 0 <= m < idx + 1 implies journey_done(s0, *self, #[trigger] travelers@[m]) by {
                    if m < idx {
                        let x = travelers@[m];
                        assert(x != k);
                        assert(journey_done(s0, mid, x));
                        assert(same_at(self.pending(), mid.pending(), x));
                        assert(same_at(self.transit(), mid.transit(), x));
                        assert(same_at(self.view().explorer_views(), mid.view().explorer_views(), x));
                    }
                }
                assert forall|x: u32| !travelers@.take(idx + 1).contains(x) implies {
                    &&& #[trigger] same_at(self.pending(), s0.pending(), x)
                    &&& same_at(self.transit(), s0.transit(), x)
                    &&& same_at(self.view().explorer_views(), s0.view().explorer_views(), x)
                } by {
                    assert(travelers@.take(idx + 1)[idx as int] == k);
                    assert(x != k);
                    assert(same_at(self.pending(), mid.pending(), x));
                    assert(same_at(self.transit(), mid.transit(), x));
                    assert(same_at(self.view().explorer_views(), mid.view().explorer_views(), x));
                    if !travelers@.take(idx as int).contains(x) {
                        assert(same_at(mid.pending(), s0.pending(), x));
                        assert(same_at(mid.transit(), s0.transit(), x));
                        assert(same_at(mid.view().explorer_views(), s0.view().explorer_views(), x));
                    } else {
                        let m = choose|m: int| 0 <= m < idx && travelers@.take(idx as int)[m] == x;
                        assert(travelers@.take(idx + 1)[m] == x);
                    }
                }
            }
            idx = idx + 1;
        }
        proof {
            assert(travelers@.take(idx as int) =~= travelers@);
            assert forall|k: u32| #[trigger] s0.transit().contains_key(k) implies journey_done(s0, *self, k) by {
                let m = choose|m: int| 0 <= m < travelers@.len() && travelers@[m] == k;
            }
            assert forall|k: u32| #![trigger s0.transit().contains_key(k)] !s0.transit().contains_key(k) implies {
                &&& same_at(self.pending(), s0.pending(), k)
                &&& same_at(self.transit(), s0.transit(), k)
                &&& same_at(self.view().explorer_views(), s0.view().explorer_views(), k)
            } by {
                assert(!travelers@.take(idx as int).contains(k));
                assert(same_at(self.pending(), s0.pending(), k));
                assert(same_at(self.transit(), s0.transit(), k));
                assert(same_at(self.view().explorer_views(), s0.view().explorer_views(), k));
            }
            assert(s0 == *old(self));
        }
    }

    // =====================================================================
    // BROADCASTS
    // =====================================================================

    /// Sends `order` to each planet in turn; with `only_alive`, to the alive
    /// ones only.
    pub fn broadcast_planets(&self, only_alive: bool, order: PlanetOrder, out: &mut Vec<Effect>)
        requires
            self.wf(),
        ensures
            final(out)@ == old(out)@ + planet_broadcast(self.planet_map(), self.planet_order(), only_alive, order),
    {
        let ghost o = out@;
        let mut i: usize = 0;
        while i < self.planets.len()
            invariant
                self.wf(),
                i <= self.planet_order().len(),
                out@ == o + planet_broadcast(self.planet_map(), self.planet_order().take(i as int), only_alive, order),
            decreases self.planet_order().len() - i,
        {
            let id = self.planets.key_at(i);
            let alive = *self.planets.value_at(i);
            if !only_alive || alive {
                out.push(Effect::ToPlanet(id, order));
            }
            proof {
                let t = self.planet_order().take(i + 1);
                assert(t.drop_last() =~= self.planet_order().take(i as int));
                assert(out@ =~= o + planet_broadcast(self.planet_map(), t, only_alive, order));
            }
            i = i + 1;
        }
        proof { assert(self.planet_order().take(i as int) =~= self.planet_order()); }
    }

    /// The order a signal stands for.
    pub fn signal(sig: Signal) -> (o: ExplorerOrder)
        ensures
            o == signal_order(sig),
            sig == Signal::Start <==> o == ExplorerOrder::StartExplorerAI,
            sig == Signal::Stop <==> o == ExplorerOrder::StopExplorerAI,
            sig == Signal::Kill <==> o == ExplorerOrder::KillExplorer,
    {
        match sig {
            Signal::Start => ExplorerOrder::StartExplorerAI,
            Signal::Stop => ExplorerOrder::StopExplorerAI,
            Signal::Kill => ExplorerOrder::KillExplorer,
            Signal::CurrentPlanet => ExplorerOrder::CurrentPlanetRequest,
        }
    }

    /// Sends a signal to each explorer in turn; with `only_alive`, to the
    /// alive ones only.
    pub fn broadcast_explorers(&self, only_alive: bool, sig: Signal, out: &mut Vec<Effect>)
        requires
            self.wf(),
        ensures
            final(out)@ == old(out)@ + explorer_broadcast(self.explorer_map(), self.explorer_order(), only_alive, sig),
    {
        let ghost o = out@;
        let mut i: usize = 0;
        while i < self.explorers.len()
            invariant
                self.wf(),
                i <= self.explorer_order().len(),
                out@ == o + explorer_broadcast(self.explorer_map(), self.explorer_order().take(i as int), only_alive, sig),
            decreases self.explorer_order().len() - i,
        {
            let id = self.explorers.key_at(i);
            let rec = *self.explorers.value_at(i);
            if !only_alive || rec.alive {
                out.push(Effect::ToExplorer(id, Self::signal(sig)));
            }
            proof {
                let t = self.explorer_order().take(i + 1);
                assert(t.drop_last() =~= self.explorer_order().take(i as int));
                assert(out@ =~= o + explorer_broadcast(self.explorer_map(), t, only_alive, sig));
            }
            i = i + 1;
        }
        proof { assert(self.explorer_order().take(i as int) =~= self.explorer_order()); }
    }

    // =====================================================================
    // DEATHS
    // =====================================================================

    /// Asks an alive planet to die; its death is finalized when it answers.
    pub fn begin_planet_destruction(&self, planet_id: u32, out: &mut Vec<Effect>)
        requires
            self.wf(),
        ensures
            final(out)@ == old(out)@ + to_planet(*self, planet_id, PlanetOrder::KillPlanet),
    {
        self.send_to_planet(planet_id, PlanetOrder::KillPlanet, out);
    }

    /// Asks an alive explorer to die.
    pub fn begin_explorer_kill(&self, explorer_id: u32, out: &mut Vec<Effect>)
        requires
            self.wf(),
        ensures
            final(out)@ == old(out)@ + to_explorer(*self, explorer_id, ExplorerOrder::KillExplorer),
    {
        let ghost o = out@;
        self.send_to_explorer(explorer_id, ExplorerOrder::KillExplorer, out);
        proof { assert(out@ =~= o + to_explorer(*self, explorer_id, ExplorerOrder::KillExplorer)); }
    }

    /// A planet confirmed its death.
    pub fn finalize_planet_death(&mut self, planet_id: u32, out: &mut Vec<Effect>)
        requires
            old(self).wf(),
        ensures
            planet_death_done(*old(self), *final(self), old(out)@, final(out)@, planet_id),
    {
        let still_alive = match self.planets.get(planet_id) {
            Some(a) => *a,
            None => false,
        };
        if !still_alive {
            return;
        }
        let ghost s0 = *self;
        let ghost o = out@;
        self.planets.insert(planet_id, false);
        self.viz.set_alive(planet_id, false);
        let ghost s1 = *self;
        proof {
            Self::lemma_same_routes(s0, s0);
            s0.pending_travels.lemma_order_is_domain();
        }
        // every travel headed for the dead planet is refused
        let mut ks: Vec<u32> = Vec::new();
        let mut i: usize = 0;
        while i < self.pending_travels.len()
            invariant
                self.wf(),
                *self == s1,
                i <= s1.pending_order().len(),
                ks@ == s1.pending_order().take(i as int),
            decreases s1.pending_order().len() - i,
        {
            proof { assert(s1.pending_order().take(i + 1) =~= s1.pending_order().take(i as int).push(s1.pending_order()[i as int])); }
            ks.push(self.pending_travels.key_at(i));
            i = i + 1;
        }
        proof { assert(s1.pending_order().take(i as int) =~= s1.pending_order()); }
        let mut idx: usize = 0;
        while idx < ks.len()
            invariant
                self.wf(),
                ks@ == s0.pending_order(),
                ks@.no_duplicates(),
                forall|k: u32| #[trigger] s0.pending().contains_key(k) <==> ks@.contains(k),
                idx <= ks@.len(),
                self.planet_map() == s1.planet_map(),
                self.planet_order() == s1.planet_order(),
                self.same_actors(s1),
                self.explorer_map() == s0.explorer_map(),
                self.explorer_order() == s0.explorer_order(),
                self.view() == s1.view(),
                forall|m: int| 0 <= m < idx && headed_for(s0, #[trigger] ks@[m], planet_id) ==>
                    !self.pending().contains_key(ks@[m]) && !self.transit().contains_key(ks@[m]),
                forall|k: u32| #![trigger ks@.take(idx as int).contains(k)]
                    !ks@.take(idx as int).contains(k) ==>
                    same_at(self.pending(), s0.pending(), k) && same_at(self.transit(), s0.transit(), k),
                forall|k: u32| #![trigger headed_for(s0, k, planet_id)]
                    !headed_for(s0, k, planet_id) ==>
                    same_at(self.pending(), s0.pending(), k) && same_at(self.transit(), s0.transit(), k),
                out@ == o + stranded_effects(s0, ks@.take(idx as int), planet_id),
            decreases ks@.len() - idx,
        {
            let k = ks[idx];
            let ghost mid = *self;
            proof {
                assert(!ks@.take(idx as int).contains(k)) by {
                    if ks@.take(idx as int).contains(k) {
                        let m = choose|m: int| 0 <= m < idx && ks@.take(idx as int)[m] == k;
                        assert(ks@[m] == ks@[idx as int]);
                    }
                }
                assert(same_at(mid.pending(), s0.pending(), k));
                assert(same_at(mid.transit(), s0.transit(), k));
            }
            let dst = match self.pending_travels.get(k) {
                Some(d) => *d,
                None => planet_id,
            };
            let headed = self.pending_travels.contains_key(k) && dst == planet_id;
            if headed {
                let _ = self.pending_travels.remove(k);
                let _ = self.transit_at.remove(k);
                self.grant_travel(k, false, planet_id, out);
            }
            proof {
                let t = ks@.take(idx + 1);
                assert(t.drop_last() =~= ks@.take(idx as int));
                assert(t.last() == k);
                assert(headed == headed_for(s0, k, planet_id));
                assert(mid.explorer_alive(k) == s0.explorer_alive(k));
                assert(out@ =~= o + stranded_effects(s0, t, planet_id));
                assert forall|m: int| 0 <= m < idx + 1 && headed_for(s0, #[trigger] ks@[m], planet_id) implies
                    !self.pending().contains_key(ks@[m]) && !self.transit().contains_key(ks@[m]) by {
                    if m < idx {
                        assert(ks@[m] != k);
                    }
                }
                assert forall|x: u32| #![trigger t.contains(x)]
                    !t.contains(x) implies
                    same_at(self.pending(), s0.pending(), x) && same_at(self.transit(), s0.transit(), x) by {
                    assert(t[idx as int] == k);
                    assert(x != k);
                    assert(same_at(self.pending(), mid.pending(), x));
                    assert(same_at(self.transit(), mid.transit(), x));
                    if ks@.take(idx as int).contains(x) {
                        let m = choose|m: int| 0 <= m < idx && ks@.take(idx as int)[m] == x;
                        assert(t[m] == x);
                    }
                }
                assert forall|x: u32| #![trigger headed_for(s0, x, planet_id)]
                    !headed_for(s0, x, planet_id) implies
                    same_at(self.pending(), s0.pending(), x) && same_at(self.transit(), s0.transit(), x) by {
                    if x != k {
                        assert(same_at(self.pending(), mid.pending(), x));
                        assert(same_at(self.transit(), mid.transit(), x));
                    }
                }
            }
            idx = idx + 1;
        }
        proof {
            assert(ks@.take(idx as int) =~= ks@);
        }
        // every alive explorer is asked where it is
        self.broadcast_explorers(true, Signal::CurrentPlanet, out);
        proof {
            assert forall|k: u32| #[trigger] headed_for(s0, k, planet_id) implies
                !self.pending().contains_key(k) && !self.transit().contains_key(k) by {
                assert(ks@.contains(k));
                let m = choose|m: int| 0 <= m < ks@.len() && ks@[m] == k;
            }
            assert forall|k: u32| !headed_for(s0, k, planet_id) implies #[trigger] same_at(self.pending(), s0.pending(), k)
                && same_at(self.transit(), s0.transit(), k) by {
            }
        }
    }

    /// An explorer confirmed its death: it is marked dead and no longer
    /// shown. An explorer already dead changes nothing; an unknown one is
    /// only taken off the view.
    pub fn finalize_explorer_death(&mut self, explorer_id: u32)
        requires
            old(self).wf(),
        ensures
            final(self).wf(),
            final(self).same_actors(*old(self)),
            final(self).explorer_order() == old(self).explorer_order(),
            final(self).pending() == old(self).pending(),
            final(self).pending_order() == old(self).pending_order(),
            final(self).transit() == old(self).transit(),
            final(self).transit_order() == old(self).transit_order(),
            final(self).view().planet_views() == old(self).view().planet_views(),
            final(self).view().edge_list() == old(self).view().edge_list(),
            if old(self).explorer_map().contains_key(explorer_id) && !old(self).explorer_map()[explorer_id].alive {
                *final(self) == *old(self)
            } else {
                &&& final(self).explorer_map() == if old(self).explorer_map().contains_key(explorer_id) {
                    old(self).explorer_map().insert(explorer_id, ExplorerRecord { alive: false, ..old(self).explorer_map()[explorer_id] })
                } else {
                    old(self).explorer_map()
                }
                &&& final(self).view().explorer_views() == old(self).view().explorer_views().remove(explorer_id)
            },
    {
        match self.explorers.get(explorer_id) {
            Some(rec) => {
                if !rec.alive {
                    return;
                }
                let updated = ExplorerRecord { alive: false, ..*rec };
                self.explorers.insert(explorer_id, updated);
            },
            None => {},
        }
        self.viz.remove_explorer(explorer_id);
    }

    /// Every explorer is dead.
    pub fn all_explorers_dead(&self) -> (b: bool)
        requires
            self.wf(),
        ensures
            b == forall|k: u32| #[trigger] self.explorer_map().contains_key(k) ==> !self.explorer_map()[k].alive,
    {
        proof { self.explorers.lemma_order_is_domain(); }
        let mut i: usize = 0;
        while i < self.explorers.len()
            invariant
                self.wf(),
                i <= self.explorer_order().len(),
                forall|m: int| 0 <= m < i ==> !self.explorer_map()[#[trigger] self.explorer_order()[m]].alive,
            decreases self.explorer_order().len() - i,
        {
            let k = self.explorers.key_at(i);
            if self.explorers.value_at(i).alive {
                proof { assert(self.explorer_map().contains_key(k)); }
                return false;
            }
            i = i + 1;
        }
        proof {
            assert forall|k: u32| #[trigger] self.explorer_map().contains_key(k) implies !self.explorer_map()[k].alive by {
                let m = choose|m: int| 0 <= m < self.explorer_order().len() && self.explorer_order()[m] == k;
                assert(!self.explorer_map()[self.explorer_order()[m]].alive);
            }
        }
        true
    }

    // =====================================================================
    // PLANET MESSAGES
    // =====================================================================

    /// Handles a message from a planet.
    pub fn handle_planet_msg(&mut self, msg: PlanetNotice, out: &mut Vec<Effect>)
        requires
            old(self).wf(),
        ensures
            final(self).wf(),
            match msg {
                PlanetNotice::AsteroidAck { planet_id, rocket } => *final(self) == *old(self)
                    && final(out)@ == old(out)@ + if rocket { Seq::<Effect>::empty() } else {
                        to_planet(*old(self), planet_id, PlanetOrder::KillPlanet)
                    },
                PlanetNotice::KillPlanetResult { planet_id } =>
                    planet_death_done(*old(self), *final(self), old(out)@, final(out)@, planet_id),
                PlanetNotice::InternalStateResponse { planet_id, cells, has_rocket } => {
                    &&& final(out)@ == old(out)@
                    &&& final(self).same_actors(*old(self))
                    &&& final(self).explorer_map() == old(self).explorer_map()
                    &&& final(self).explorer_order() == old(self).explorer_order()
                    &&& final(self).pending() == old(self).pending()
                    &&& final(self).pending_order() == old(self).pending_order()
                    &&& final(self).transit() == old(self).transit()
                    &&& final(self).transit_order() == old(self).transit_order()
                    &&& final(self).view().planet_views() == refreshed(old(self).view().planet_views(), planet_id, cells@, has_rocket)
                    &&& final(self).view().explorer_views() == old(self).view().explorer_views()
                    &&& final(self).view().edge_list() == old(self).view().edge_list()
                },
                PlanetNotice::IncomingExplorerResponse { planet_id, explorer_id } =>
                    travel_answered(*old(self), *final(self), old(out)@, final(out)@, explorer_id,
                        old(self).planet_alive(planet_id), planet_id, old(self).pending().remove(explorer_id)),
                _ => quiet(*old(self), *final(self), old(out)@, final(out)@),
            },
    {
        let ghost o = out@;
        match msg {
            PlanetNotice::AsteroidAck { planet_id, rocket } => {
                if !rocket {
                    self.begin_planet_destruction(planet_id, out);
                }
                proof {
                    if rocket {
                        assert(out@ =~= o + Seq::<Effect>::empty());
                    }
                }
            },
            PlanetNotice::KillPlanetResult { planet_id } => {
                self.finalize_planet_death(planet_id, out);
            },
            PlanetNotice::InternalStateResponse { planet_id, cells, has_rocket } => {
                self.viz.update_planet(planet_id, cells, has_rocket);
            },
            PlanetNotice::IncomingExplorerResponse { planet_id, explorer_id } => {
                let _ = self.pending_travels.remove(explorer_id);
                let granted = match self.planets.get(planet_id) {
                    Some(alive) => *alive,
                    None => false,
                };
                let ghost mid = *self;
                self.grant_travel(explorer_id, granted, planet_id, out);
                proof {
                    assert(out@ =~= o + to_explorer(mid, explorer_id, ExplorerOrder::MoveToPlanet { granted, planet_id }));
                }
            },
            _ => {},
        }
    }

    // =====================================================================
    // EXPLORER MESSAGES
    // =====================================================================

    /// Handles a message from an explorer; answers whether every explorer is
    /// now dead.
    pub fn handle_explorer_msg(&mut self, msg: ExplorerNotice, out: &mut Vec<Effect>) -> (all_dead: bool)
        requires
            old(self).wf(),
        ensures
            final(self).wf(),
            all_dead == forall|k: u32| #[trigger] final(self).explorer_map().contains_key(k) ==> !final(self).explorer_map()[k].alive,
            match msg {
                ExplorerNotice::CurrentPlanetResult { explorer_id, planet_id } => {
                    &&& final(self).same_actors(*old(self))
                    &&& final(self).explorer_map() == if old(self).explorer_map().contains_key(explorer_id) {
                        old(self).explorer_map().insert(explorer_id,
                            ExplorerRecord { current_planet: planet_id, ..old(self).explorer_map()[explorer_id] })
                    } else {
                        old(self).explorer_map()
                    }
                    &&& final(self).explorer_order() == old(self).explorer_order()
                    &&& final(self).pending() == old(self).pending()
                    &&& final(self).pending_order() == old(self).pending_order()
                    &&& final(self).transit() == old(self).transit()
                    &&& final(self).transit_order() == old(self).transit_order()
                    &&& final(self).view().planet_views() == old(self).view().planet_views()
                    &&& final(self).view().edge_list() == old(self).view().edge_list()
                    &&& final(self).view().explorer_views() ==
                        if !old(self).transit().contains_key(explorer_id) && old(self).explorer_alive(explorer_id) {
                            old(self).view().explorer_views().insert(explorer_id, planet_id)
                        } else {
                            old(self).view().explorer_views()
                        }
                    &&& final(out)@ == old(out)@ + if old(self).planet_dead(planet_id) {
                        to_explorer(*old(self), explorer_id, ExplorerOrder::KillExplorer)
                    } else {
                        Seq::<Effect>::empty()
                    }
                },
                ExplorerNotice::KillExplorerResult { explorer_id } => {
                    &&& final(out)@ == old(out)@
                    &&& final(self).same_actors(*old(self))
                    &&& final(self).explorer_order() == old(self).explorer_order()
                    &&& final(self).pending() == old(self).pending()
                    &&& final(self).transit() == old(self).transit()
                    &&& final(self).view().planet_views() == old(self).view().planet_views()
                    &&& if old(self).explorer_map().contains_key(explorer_id) && !old(self).explorer_map()[explorer_id].alive {
                        *final(self) == *old(self)
                    } else {
                        &&& final(self).explorer_map() == if old(self).explorer_map().contains_key(explorer_id) {
                            old(self).explorer_map().insert(explorer_id, ExplorerRecord { alive: false, ..old(self).explorer_map()[explorer_id] })
                        } else {
                            old(self).explorer_map()
                        }
                        &&& final(self).view().explorer_views() == old(self).view().explorer_views().remove(explorer_id)
                    }
                },
                ExplorerNotice::NeighborsRequest { explorer_id, current_planet_id } => {
                    &&& *final(self) == *old(self)
                    &&& old(self).explorer_alive(explorer_id) ==> final(out)@.len() == old(out)@.len() + 1
                        && final(out)@.take(old(out)@.len() as int) == old(out)@
                        && (final(out)@.last() matches Effect::ToExplorer(e, ExplorerOrder::NeighborsResponse { neighbors })
                            && e == explorer_id
                            && neighbors@ == old(self).layout().spec_neighbors(current_planet_id).filter(|y: u32| old(self).planet_alive(y)))
                    &&& !old(self).explorer_alive(explorer_id) ==> final(out)@ == old(out)@
                },
                ExplorerNotice::TravelToPlanetRequest { explorer_id, current_planet_id, dst_planet_id } =>
                    travel_handled(*old(self), *final(self), old(out)@, final(out)@, explorer_id, current_planet_id, dst_planet_id),
                ExplorerNotice::SupportedResourceResult { explorer_id, supported_resources } => {
                    &&& *final(self) == *old(self)
                    &&& final(out)@.len() == old(out)@.len() + 1
                    &&& final(out)@.take(old(out)@.len() as int) == old(out)@
                    &&& final(out)@.last() matches Effect::Report(GalaxyReport::SupportedResources { explorer_id: e, resources })
                        && e == explorer_id && views(resources@) == listed_resources(supported_resources@)
                },
                ExplorerNotice::SupportedCombinationResult { explorer_id, combination_list } => {
                    &&& *final(self) == *old(self)
                    &&& final(out)@.len() == old(out)@.len() + 1
                    &&& final(out)@.take(old(out)@.len() as int) == old(out)@
                    &&& final(out)@.last() matches Effect::Report(GalaxyReport::SupportedCombinations { explorer_id: e, combinations })
                        && e == explorer_id && views(combinations@) == listed_combinations(combination_list@)
                },
                ExplorerNotice::GenerateResourceResponse { explorer_id, generated } => {
                    &&& *final(self) == *old(self)
                    &&& final(out)@ == old(out)@.push(Effect::Report(GalaxyReport::Generated { explorer_id, outcome: generated }))
                },
                ExplorerNotice::CombineResourceResponse { explorer_id, generated } => {
                    &&& *final(self) == *old(self)
                    &&& final(out)@ == old(out)@.push(Effect::Report(GalaxyReport::Combined { explorer_id, outcome: generated }))
                },
                ExplorerNotice::BagContentResponse { explorer_id, bag_content } => {
                    &&& *final(self) == *old(self)
                    &&& final(out)@.len() == old(out)@.len() + 1
                    &&& final(out)@.take(old(out)@.len() as int) == old(out)@
                    &&& final(out)@.last() matches Effect::Report(GalaxyReport::Bag { explorer_id: e, basic, complex })
                        && e == explorer_id && pair_views(basic@) == listed_basic(bag_content)
                        && pair_views(complex@) == listed_complex(bag_content)
                },
                _ => quiet(*old(self), *final(self), old(out)@, final(out)@),
            },
    {
        let ghost o = out@;
        match msg {
            ExplorerNotice::CurrentPlanetResult { explorer_id, planet_id } => {
                let ghost s0 = *self;
                match self.explorers.get(explorer_id) {
                    Some(rec) => {
                        let updated = ExplorerRecord { current_planet: planet_id, ..*rec };
                        self.explorers.insert(explorer_id, updated);
                    },
                    None => {},
                }
                let walking = self.transit_at.contains_key(explorer_id);
                let alive = match self.explorers.get(explorer_id) {
                    Some(rec) => rec.alive,
                    None => false,
                };
                if !walking && alive {
                    self.viz.set_explorer(explorer_id, planet_id);
                }
                let dead_planet = match self.planets.get(planet_id) {
                    Some(a) => !*a,
                    None => false,
                };
                if dead_planet {
                    self.begin_explorer_kill(explorer_id, out);
                }
                proof {
                    assert(self.explorer_alive(explorer_id) == s0.explorer_alive(explorer_id));
                    assert(out@ =~= o + if s0.planet_dead(planet_id) {
                        to_explorer(s0, explorer_id, ExplorerOrder::KillExplorer)
                    } else {
                        Seq::<Effect>::empty()
                    });
                }
            },
            ExplorerNotice::KillExplorerResult { explorer_id } => {
                self.finalize_explorer_death(explorer_id);
            },
            ExplorerNotice::NeighborsRequest { explorer_id, current_planet_id } => {
                let neighbors = self.neighbors_of(current_planet_id);
                self.send_to_explorer(explorer_id, ExplorerOrder::NeighborsResponse { neighbors }, out);
                proof {
                    if self.explorer_alive(explorer_id) {
                        assert(out@.take(o.len() as int) =~= o);
                    }
                }
            },
            ExplorerNotice::TravelToPlanetRequest { explorer_id, current_planet_id, dst_planet_id } => {
                self.handle_travel_request(explorer_id, current_planet_id, dst_planet_id, out);
            },
            ExplorerNotice::SupportedResourceResult { explorer_id, supported_resources } => {
                let resources = resource_names(&supported_resources);
                out.push(Effect::Report(GalaxyReport::SupportedResources { explorer_id, resources }));
                proof { assert(out@.take(o.len() as int) =~= o); }
            },
            ExplorerNotice::SupportedCombinationResult { explorer_id, combination_list } => {
                let combinations = combination_names(&combination_list);
                out.push(Effect::Report(GalaxyReport::SupportedCombinations { explorer_id, combinations }));
                proof { assert(out@.take(o.len() as int) =~= o); }
            },
            ExplorerNotice::GenerateResourceResponse { explorer_id, generated } => {
                out.push(Effect::Report(GalaxyReport::Generated { explorer_id, outcome: generated }));
            },
            ExplorerNotice::CombineResourceResponse { explorer_id, generated } => {
                out.push(Effect::Report(GalaxyReport::Combined { explorer_id, outcome: generated }));
            },
            ExplorerNotice::BagContentResponse { explorer_id, bag_content } => {
                let (basic, complex) = bag_entries(&bag_content);
                out.push(Effect::Report(GalaxyReport::Bag { explorer_id, basic, complex }));
                proof { assert(out@.take(o.len() as int) =~= o); }
            },
            _ => {},
        }
        self.all_explorers_dead()
    }

    // =====================================================================
    // VIEWER COMMANDS
    // =====================================================================

    /// Carries out a manual operation asked for from the viewer, through the
    /// same paths the automatic actors use.
    pub fn handle_command(&mut self, cmd: GalaxyCommand, out: &mut Vec<Effect>)
        requires
            old(self).wf(),
        ensures
            final(self).wf(),
            match cmd {
                GalaxyCommand::Sunray { planet_id } => *final(self) == *old(self)
                    && final(out)@ == old(out)@ + to_planet(*old(self), planet_id, PlanetOrder::Sunray),
                GalaxyCommand::Asteroid { planet_id } => *final(self) == *old(self)
                    && final(out)@ == old(out)@ + to_planet(*old(self), planet_id, PlanetOrder::Asteroid),
                GalaxyCommand::SetAi { planet_id, running } => {
                    &&& same_but_paused(*old(self), *final(self))
                    &&& final(self).spec_paused() == !running
                    &&& final(out)@ == old(out)@
                        + planet_broadcast(old(self).planet_map(), old(self).planet_order(), true,
                            if running { PlanetOrder::StartPlanetAI } else { PlanetOrder::StopPlanetAI })
                        + explorer_broadcast(old(self).explorer_map(), old(self).explorer_order(), true,
                            if running { Signal::Start } else { Signal::Stop })
                    &&& forall|k: u32| #[trigger] old(self).explorer_order().contains(k) && old(self).explorer_map()[k].alive ==> {
                        &&& final(out)@.contains(Effect::ToExplorer(k,
                            if running { ExplorerOrder::StartExplorerAI } else { ExplorerOrder::StopExplorerAI }))
                        &&& !final(out)@.skip(old(out)@.len() as int).contains(Effect::ToExplorer(k,
                            if running { ExplorerOrder::StopExplorerAI } else { ExplorerOrder::StartExplorerAI }))
                    }
                },
                GalaxyCommand::Kill { planet_id } => *final(self) == *old(self)
                    && final(out)@ == old(out)@ + to_planet(*old(self), planet_id, PlanetOrder::KillPlanet),
                GalaxyCommand::MoveExplorer { explorer_id, to_planet } =>
                    if old(self).explorer_map().contains_key(explorer_id) {
                        travel_handled(*old(self), *final(self), old(out)@, final(out)@, explorer_id,
                            old(self).explorer_map()[explorer_id].current_planet, to_planet)
                    } else {
                        travel_answered(*old(self), *final(self), old(out)@, final(out)@, explorer_id, false, to_planet,
                            old(self).pending())
                    },
                GalaxyCommand::KillExplorer { explorer_id } => *final(self) == *old(self)
                    && final(out)@ == old(out)@ + to_explorer(*old(self), explorer_id, ExplorerOrder::KillExplorer),
                GalaxyCommand::ResetExplorer { explorer_id } => {
                    &&& *final(self) == *old(self)
                    &&& final(out)@.len() == old(out)@.len() + to_explorer(*old(self), explorer_id, ExplorerOrder::ResetExplorerAI).len() + 1
                    &&& final(out)@.take(final(out)@.len() - 1)
                        == old(out)@ + to_explorer(*old(self), explorer_id, ExplorerOrder::ResetExplorerAI)
                    &&& final(out)@.last() matches Effect::Report(GalaxyReport::Notice { text }) && text@ == reset_notice(explorer_id)
                },
                GalaxyCommand::SupportedResources { explorer_id } => *final(self) == *old(self)
                    && final(out)@ == old(out)@ + to_explorer(*old(self), explorer_id, ExplorerOrder::SupportedResourceRequest),
                GalaxyCommand::SupportedCombinations { explorer_id } => *final(self) == *old(self)
                    && final(out)@ == old(out)@ + to_explorer(*old(self), explorer_id, ExplorerOrder::SupportedCombinationRequest),
                GalaxyCommand::Generate { explorer_id, resource } => *final(self) == *old(self)
                    && final(out)@ == old(out)@ + to_explorer(*old(self), explorer_id,
                        ExplorerOrder::GenerateResourceRequest { to_generate: resource }),
                GalaxyCommand::Combine { explorer_id, resource } => *final(self) == *old(self)
                    && final(out)@ == old(out)@ + to_explorer(*old(self), explorer_id,
                        ExplorerOrder::CombineResourceRequest { to_generate: resource }),
                GalaxyCommand::BagContent { explorer_id } => *final(self) == *old(self)
                    && final(out)@ == old(out)@ + to_explorer(*old(self), explorer_id, ExplorerOrder::BagContentRequest),
            },
    {
        let ghost o = out@;
        match cmd {
            GalaxyCommand::Sunray { planet_id } => self.send_to_planet(planet_id, PlanetOrder::Sunray, out),
            GalaxyCommand::Asteroid { planet_id } => self.send_to_planet(planet_id, PlanetOrder::Asteroid, out),
            GalaxyCommand::SetAi { planet_id: _, running } => {
                self.paused = !running;
                let order = if running { PlanetOrder::StartPlanetAI } else { PlanetOrder::StopPlanetAI };
                self.broadcast_planets(true, order, out);
                let sig = if running { Signal::Start } else { Signal::Stop };
                self.broadcast_explorers(true, sig, out);
                proof {
                    let pb = planet_broadcast(old(self).planet_map(), old(self).planet_order(), true, order);
                    let eb = explorer_broadcast(old(self).explorer_map(), old(self).explorer_order(), true, sig);
                    assert forall|k: u32| #[trigger] old(self).explorer_order().contains(k) && old(self).explorer_map()[k].alive implies {
                        &&& out@.contains(Effect::ToExplorer(k,
                            if running { ExplorerOrder::StartExplorerAI } else { ExplorerOrder::StopExplorerAI }))
                        &&& !out@.skip(o.len() as int).contains(Effect::ToExplorer(k,
                            if running { ExplorerOrder::StopExplorerAI } else { ExplorerOrder::StartExplorerAI }))
                    } by {
                        lemma_run_toggle_orders(old(self).planet_map(), old(self).planet_order(), order,
                            old(self).explorer_map(), old(self).explorer_order(), running, k);
                        assert(out@.skip(o.len() as int) =~= pb + eb);
                        assert(out@ =~= o + (pb + eb));
                        vstd::seq_lib::lemma_seq_concat_contains_all_elements(o, pb + eb,
                            Effect::ToExplorer(k, if running { ExplorerOrder::StartExplorerAI } else { ExplorerOrder::StopExplorerAI }));
                    }
                }
            },
            GalaxyCommand::Kill { planet_id } => self.begin_planet_destruction(planet_id, out),
            GalaxyCommand::MoveExplorer { explorer_id, to_planet } => {
                match self.explorers.get(explorer_id) {
                    Some(rec) => {
                        let current = rec.current_planet;
                        self.handle_travel_request(explorer_id, current, to_planet, out);
                    },
                    None => {
                        self.grant_travel(explorer_id, false, to_planet, out);
                        proof {
                            assert(out@ =~= o + to_explorer(*old(self), explorer_id,
                                ExplorerOrder::MoveToPlanet { granted: false, planet_id: to_planet }));
                        }
                    },
                }
            },
            GalaxyCommand::KillExplorer { explorer_id } => self.begin_explorer_kill(explorer_id, out),
            GalaxyCommand::ResetExplorer { explorer_id } => {
                self.send_to_explorer(explorer_id, ExplorerOrder::ResetExplorerAI, out);
                let ghost sent = out@;
                let mut text = String::from_str("Explorer ");
                crate::text::push_decimal(&mut text, explorer_id as u64);
                text.append(": reset requested");
                out.push(Effect::Report(GalaxyReport::Notice { text }));
                proof {
                    assert(sent =~= o + to_explorer(*old(self), explorer_id, ExplorerOrder::ResetExplorerAI));
                    assert(out@.take(out@.len() - 1) =~= sent);
                }
            },
            GalaxyCommand::SupportedResources { explorer_id } => {
                self.send_to_explorer(explorer_id, ExplorerOrder::SupportedResourceRequest, out);
                proof { assert(out@ =~= o + to_explorer(*old(self), explorer_id, ExplorerOrder::SupportedResourceRequest)); }
            },
            GalaxyCommand::SupportedCombinations { explorer_id } => {
                self.send_to_explorer(explorer_id, ExplorerOrder::SupportedCombinationRequest, out);
                proof { assert(out@ =~= o + to_explorer(*old(self), explorer_id, ExplorerOrder::SupportedCombinationRequest)); }
            },
            GalaxyCommand::Generate { explorer_id, resource } => {
                self.send_to_explorer(explorer_id, ExplorerOrder::GenerateResourceRequest { to_generate: resource }, out);
                proof { assert(out@ =~= o + to_explorer(*old(self), explorer_id, ExplorerOrder::GenerateResourceRequest { to_generate: resource })); }
            },
            GalaxyCommand::Combine { explorer_id, resource } => {
                self.send_to_explorer(explorer_id, ExplorerOrder::CombineResourceRequest { to_generate: resource }, out);
                proof { assert(out@ =~= o + to_explorer(*old(self), explorer_id, ExplorerOrder::CombineResourceRequest { to_generate: resource })); }
            },
            GalaxyCommand::BagContent { explorer_id } => {
                self.send_to_explorer(explorer_id, ExplorerOrder::BagContentRequest, out);
                proof { assert(out@ =~= o + to_explorer(*old(self), explorer_id, ExplorerOrder::BagContentRequest)); }
            },
        }
    }

    // =====================================================================
    // START, STOP, TICK
    // =====================================================================

    /// Starts every planet and explorer, registers each explorer on its start
    /// planet, and shows the galaxy's connections and the explorers' start
    /// planets.
    pub fn bootstrap(&mut self, out: &mut Vec<Effect>)
        requires
            old(self).wf(),
        ensures
            final(self).wf(),
            final(self).same_actors(*old(self)),
            final(self).explorer_map() == old(self).explorer_map(),
            final(self).explorer_order() == old(self).explorer_order(),
            final(self).pending() == old(self).pending(),
            final(self).pending_order() == old(self).pending_order(),
            final(self).transit() == old(self).transit(),
            final(self).transit_order() == old(self).transit_order(),
            final(self).view().planet_views() == old(self).view().planet_views(),
            final(self).view().edge_list() == old(self).layout().spec_edges(),
            final(self).view().explorer_views() == shown_at_start(old(self).view().explorer_views(),
                old(self).explorer_map(), old(self).explorer_order()),
            final(out)@ == old(out)@
                + planet_broadcast(old(self).planet_map(), old(self).planet_order(), false, PlanetOrder::StartPlanetAI)
                + explorer_broadcast(old(self).explorer_map(), old(self).explorer_order(), false, Signal::Start)
                + registrations(*old(self), old(self).explorer_order()),
    {
        let ghost s0 = *self;
        self.broadcast_planets(false, PlanetOrder::StartPlanetAI, out);
        self.broadcast_explorers(false, Signal::Start, out);
        let ghost o = out@;
        let mut i: usize = 0;
        while i < self.explorers.len()
            invariant
                self.wf(),
                *self == s0,
                i <= s0.explorer_order().len(),
                out@ == o + registrations(s0, s0.explorer_order().take(i as int)),
            decreases s0.explorer_order().len() - i,
        {
            let id = self.explorers.key_at(i);
            let start = self.explorers.value_at(i).start_planet;
            if self.planets.contains_key(start) {
                out.push(Effect::ToPlanet(start, PlanetOrder::IncomingExplorerRequest { explorer_id: id }));
            }
            proof {
                let t = s0.explorer_order().take(i + 1);
                assert(t.drop_last() =~= s0.explorer_order().take(i as int));
                assert(out@ =~= o + registrations(s0, t));
            }
            i = i + 1;
        }
        proof { assert(s0.explorer_order().take(i as int) =~= s0.explorer_order()); }
        let edges = copy_edges(self.galaxy.edge_list());
        self.viz.set_edges(edges);
        let mut j: usize = 0;
        while j < self.explorers.len()
            invariant
                self.wf(),
                self.same_actors(s0),
                self.planets == s0.planets,
                self.explorers == s0.explorers,
                self.pending_travels == s0.pending_travels,
                self.transit_at == s0.transit_at,
                j <= s0.explorer_order().len(),
                self.view().planet_views() == s0.view().planet_views(),
                self.view().edge_list() == s0.layout().spec_edges(),
                self.view().explorer_views() == shown_at_start(s0.view().explorer_views(), s0.explorer_map(),
                    s0.explorer_order().take(j as int)),
            decreases s0.explorer_order().len() - j,
        {
            let id = self.explorers.key_at(j);
            let start = self.explorers.value_at(j).start_planet;
            self.viz.set_explorer(id, start);
            proof {
                let t = s0.explorer_order().take(j + 1);
                assert(t.drop_last() =~= s0.explorer_order().take(j as int));
            }
            j = j + 1;
        }
        proof { assert(s0.explorer_order().take(j as int) =~= s0.explorer_order()); }
    }

    /// Kills every alive planet and explorer.
    pub fn shutdown(&self, out: &mut Vec<Effect>)
        requires
            self.wf(),
        ensures
            final(out)@ == old(out)@
                + planet_broadcast(self.planet_map(), self.planet_order(), true, PlanetOrder::KillPlanet)
                + explorer_broadcast(self.explorer_map(), self.explorer_order(), true, Signal::Kill),
    {
        self.broadcast_planets(true, PlanetOrder::KillPlanet, out);
        self.broadcast_explorers(true, Signal::Kill, out);
    }

    /// How many ticks have run.
    pub fn tick_count(&self) -> (n: u32)
        ensures
            n == self.spec_tick_count(),
    {
        self.tick_count
    }

    /// The next 53 random bits of the weather generator.
    pub fn next_roll_bits(&mut self) -> (r: u64)
        ensures
            final(self).spec_rng() == xorshift(old(self).spec_rng()),
            r == xorshift(old(self).spec_rng()) >> 11u64,
            final(self).spec_tick_count() == old(self).spec_tick_count(),
            final(self).spec_paused() == old(self).spec_paused(),
            final(self).planet_map() == old(self).planet_map(),
            final(self).planet_order() == old(self).planet_order(),
            final(self).layout() == old(self).layout(),
            final(self).explorer_map() == old(self).explorer_map(),
            final(self).explorer_order() == old(self).explorer_order(),
            final(self).pending() == old(self).pending(),
            final(self).pending_order() == old(self).pending_order(),
            final(self).transit() == old(self).transit(),
            final(self).transit_order() == old(self).transit_order(),
            final(self).view() == old(self).view(),
            old(self).wf() ==> final(self).wf(),
    {
        let mut x = self.rng;
        x = x ^ (x << 13u64);
        x = x ^ (x >> 7u64);
        x = x ^ (x << 17u64);
        self.rng = x;
        x >> 11u64
    }

    /// Starts a tick: nothing happens while paused; otherwise the tick is
    /// counted and the alive planets that get weather this tick are listed,
    /// in order.
    pub fn start_tick(&mut self) -> (ids: Option<Vec<u32>>)
        requires
            old(self).wf(),
            !old(self).spec_paused() ==> old(self).spec_tick_count() < u32::MAX,
        ensures
            final(self).wf(),
            old(self).spec_paused() ==> ids is None && *final(self) == *old(self),
            !old(self).spec_paused() ==> {
                &&& ids matches Some(v) && v@ == old(self).planet_order().filter(|k: u32| old(self).planet_map()[k])
                &&& final(self).spec_tick_count() == old(self).spec_tick_count() + 1
                &&& final(self).spec_paused() == old(self).spec_paused()
                &&& final(self).spec_rng() == old(self).spec_rng()
                &&& final(self).planet_map() == old(self).planet_map()
                &&& final(self).planet_order() == old(self).planet_order()
                &&& final(self).layout() == old(self).layout()
                &&& final(self).explorer_map() == old(self).explorer_map()
                &&& final(self).explorer_order() == old(self).explorer_order()
                &&& final(self).pending() == old(self).pending()
                &&& final(self).pending_order() == old(self).pending_order()
                &&& final(self).transit() == old(self).transit()
                &&& final(self).transit_order() == old(self).transit_order()
                &&& final(self).view() == old(self).view()
            },
    {
        if self.paused {
            return None;
        }
        self.tick_count = self.tick_count + 1;
        let ghost f = |k: u32| self.planet_map()[k];
        let mut ids: Vec<u32> = Vec::new();
        let mut i: usize = 0;
        while i < self.planets.len()
            invariant
                self.wf(),
                f == (|k: u32| self.planet_map()[k]),
                i <= self.planet_order().len(),
                ids@ == self.planet_order().take(i as int).filter(f),
            decreases self.planet_order().len() - i,
        {
            let id = self.planets.key_at(i);
            let alive = *self.planets.value_at(i);
            proof {
                let t = self.planet_order().take(i + 1);
                assert(t =~= self.planet_order().take(i as int).push(id));
                self.planet_order().take(i as int).lemma_filter_push(id, f);
            }
            if alive {
                ids.push(id);
            }
            i = i + 1;
        }
        proof { assert(self.planet_order().take(i as int) =~= self.planet_order()); }
        Some(ids)
    }

    /// Ends a tick: every alive planet is asked for its state, every alive
    /// explorer for its planet, and every walking explorer moves one hop.
    pub fn finish_tick(&mut self, out: &mut Vec<Effect>)
        requires
            old(self).wf(),
        ensures
            final(self).wf(),
            final(self).same_actors(*old(self)),
            final(self).explorer_map() == old(self).explorer_map(),
            final(self).explorer_order() == old(self).explorer_order(),
            final(self).view().planet_views() == old(self).view().planet_views(),
            final(self).view().edge_list() == old(self).view().edge_list(),
            forall|k: u32| #[trigger] old(self).transit().contains_key(k) ==> journey_done(*old(self), *final(self), k),
            forall|k: u32| #![trigger old(self).transit().contains_key(k)] !old(self).transit().contains_key(k) ==> {
                &&& same_at(final(self).pending(), old(self).pending(), k)
                &&& same_at(final(self).transit(), old(self).transit(), k)
                &&& same_at(final(self).view().explorer_views(), old(self).view().explorer_views(), k)
            },
            final(out)@ == old(out)@
                + planet_broadcast(old(self).planet_map(), old(self).planet_order(), true, PlanetOrder::InternalStateRequest)
                + explorer_broadcast(old(self).explorer_map(), old(self).explorer_order(), true, Signal::CurrentPlanet)
                + journey_effects(*old(self), old(self).transit_order()),
    {
        self.broadcast_planets(true, PlanetOrder::InternalStateRequest, out);
        self.broadcast_explorers(true, Signal::CurrentPlanet, out);
        self.advance_journeys(out);
    }

    /// The orchestrator's state at start: the given planets, all alive and
    /// shown with their kinds; the given explorers, alive on their start
    /// planets; no travel under way; a galaxy built from `seed` over planets
    /// `1..=n` for `n` planets; the weather generator seeded with `seed`.
    pub fn new(planets: &Vec<(u32, PlanetKind)>, explorers: &Vec<(u32, u32)>, seed: u64) -> (s: OrchestratorState)
        requires
            planets@.len() <= 7,
            forall|a: int, b: int| 0 <= a < b < planets@.len() ==> planets@[a].0 != planets@[b].0,
            forall|a: int, b: int| 0 <= a < b < explorers@.len() ==> explorers@[a].0 != explorers@[b].0,
        ensures
            s.wf(),
            s.planet_order() == planets@.map_values(|p: (u32, PlanetKind)| p.0),
            forall|k: u32| #[trigger] s.planet_map().contains_key(k) ==> s.planet_map()[k],
            s.view().planet_views().dom() == s.planet_map().dom(),
            forall|i: int| 0 <= i < planets@.len() ==>
                s.view().planet_views()[#[trigger] planets@[i].0] == fresh_view(planets@[i].1),
            s.explorer_order() == explorers@.map_values(|e: (u32, u32)| e.0),
            forall|i: int| 0 <= i < explorers@.len() ==> s.explorer_map()[#[trigger] explorers@[i].0]
                == (ExplorerRecord { start_planet: explorers@[i].1, current_planet: explorers@[i].1, alive: true }),
            s.pending() == Map::<u32, u32>::empty(),
            s.transit() == Map::<u32, u32>::empty(),
            s.view().explorer_views() == Map::<u32, u32>::empty(),
            s.view().edge_list() == Seq::<(u32, u32)>::empty(),
            built_from(s.layout(), planets@.len() as u32, seed),
            s.spec_rng() == seed,
            s.spec_tick_count() == 0,
            !s.spec_paused(),
    {
        let mut planet_map: IdMap<bool> = IdMap::new();
        let mut viz = VizBridge::new();
        let mut i: usize = 0;
        while i < planets.len()
            invariant
                i <= planets@.len(),
                forall|a: int, b: int| 0 <= a < b < planets@.len() ==> planets@[a].0 != planets@[b].0,
                planet_map.wf(),
                viz.wf(),
                planet_map.order() == planets@.take(i as int).map_values(|p: (u32, PlanetKind)| p.0),
                forall|k: u32| #[trigger] planet_map@.contains_key(k) ==> planet_map@[k],
                viz.planet_views().dom() == planet_map@.dom(),
                forall|m: int| 0 <= m < i ==> viz.planet_views()[#[trigger] planets@[m].0] == fresh_view(planets@[m].1),
                viz.explorer_views() == Map::<u32, u32>::empty(),
                viz.edge_list() == Seq::<(u32, u32)>::empty(),
            decreases planets@.len() - i,
        {
            let (id, kind) = planets[i];
            proof {
                planet_map.lemma_order_is_domain();
                assert(!planet_map@.contains_key(id)) by {
                    if planet_map@.contains_key(id) {
                        let m = choose|m: int| 0 <= m < planet_map.order().len() && planet_map.order()[m] == id;
                        assert(planets@.take(i as int).map_values(|p: (u32, PlanetKind)| p.0)[m] == planets@[m].0);
                    }
                }
            }
            planet_map.insert(id, true);
            viz.register_planet(id, kind);
            proof {
                assert(planets@.take(i + 1).map_values(|p: (u32, PlanetKind)| p.0)
                    =~= planets@.take(i as int).map_values(|p: (u32, PlanetKind)| p.0).push(id));
                assert(viz.planet_views().dom() =~= planet_map@.dom());
                assert forall|m: int| 0 <= m < i + 1 implies viz.planet_views()[#[trigger] planets@[m].0] == fresh_view(planets@[m].1) by {
                    if m < i {
                        assert(planets@[m].0 != id);
                    }
                }
            }
            i = i + 1;
        }
        proof { assert(planets@.take(i as int) =~= planets@); }
        let mut explorer_map: IdMap<ExplorerRecord> = IdMap::new();
        let mut j: usize = 0;
        while j < explorers.len()
            invariant
                j <= explorers@.len(),
                forall|a: int, b: int| 0 <= a < b < explorers@.len() ==> explorers@[a].0 != explorers@[b].0,
                explorer_map.wf(),
                explorer_map.order() == explorers@.take(j as int).map_values(|e: (u32, u32)| e.0),
                forall|m: int| 0 <= m < j ==> explorer_map@[#[trigger] explorers@[m].0]
                    == (ExplorerRecord { start_planet: explorers@[m].1, current_planet: explorers@[m].1, alive: true }),
            decreases explorers@.len() - j,
        {
            let (id, start) = explorers[j];
            proof {
                explorer_map.lemma_order_is_domain();
                assert(!explorer_map@.contains_key(id)) by {
                    if explorer_map@.contains_key(id) {
                        let m = choose|m: int| 0 <= m < explorer_map.order().len() && explorer_map.order()[m] == id;
                        assert(explorers@.take(j as int).map_values(|e: (u32, u32)| e.0)[m] == explorers@[m].0);
                    }
                }
            }
            explorer_map.insert(id, ExplorerRecord { start_planet: start, current_planet: start, alive: true });
            proof {
                assert(explorers@.take(j + 1).map_values(|e: (u32, u32)| e.0)
                    =~= explorers@.take(j as int).map_values(|e: (u32, u32)| e.0).push(id));
                assert forall|m: int| 0 <= m < j + 1 implies explorer_map@[#[trigger] explorers@[m].0]
                    == (ExplorerRecord { start_planet: explorers@[m].1, current_planet: explorers@[m].1, alive: true }) by {
                    if m < j {
                        assert(explorers@[m].0 != id);
                    }
                }
            }
            j = j + 1;
        }
        proof { assert(explorers@.take(j as int) =~= explorers@); }
        let galaxy = build_galaxy(planets.len() as u32, seed);
        OrchestratorState {
            planets: planet_map,
            explorers: explorer_map,
            pending_travels: IdMap::new(),
            transit_at: IdMap::new(),
            viz,
            rng: seed,
            tick_count: 0,
            paused: false,
            galaxy,
        }
    }
}

} // verus!
