//! An explorer's own state and the decisions it takes on the replies it gets:
//! packing combination requests out of its bag, storing what planets hand
//! back, moving, and resetting.

use vstd::prelude::*;
use common_game::components::resource::{
    BasicResource, BasicResourceType, ComplexResource, ComplexResourceRequest, ComplexResourceType,
    GenericResource, ResourceType,
};
use crate::bag::{Bag, BagSnapshot, generic_is};
use crate::resources::{BasicSet, ComplexSet};
use crate::text::{decimal, push_decimal};

verus! {

// =========================================================================
// RECIPES
// =========================================================================

/// The two ingredients of a complex resource, in request order.
pub open spec fn recipe(kind: ComplexResourceType) -> (ResourceType, ResourceType) {
    match kind {
        ComplexResourceType::Water => (ResourceType::Basic(BasicResourceType::Hydrogen), ResourceType::Basic(BasicResourceType::Oxygen)),
        ComplexResourceType::Diamond => (ResourceType::Basic(BasicResourceType::Carbon), ResourceType::Basic(BasicResourceType::Carbon)),
        ComplexResourceType::Life => (ResourceType::Complex(ComplexResourceType::Water), ResourceType::Basic(BasicResourceType::Carbon)),
        ComplexResourceType::Robot => (ResourceType::Basic(BasicResourceType::Silicon), ResourceType::Complex(ComplexResourceType::Life)),
        ComplexResourceType::Dolphin => (ResourceType::Complex(ComplexResourceType::Water), ResourceType::Complex(ComplexResourceType::Life)),
        ComplexResourceType::AIPartner => (ResourceType::Complex(ComplexResourceType::Robot), ResourceType::Complex(ComplexResourceType::Diamond)),
    }
}

/// How many times the recipe of `kind` uses kind `t`.
pub open spec fn uses(kind: ComplexResourceType, t: ResourceType) -> nat {
    (if recipe(kind).0 == t { 1nat } else { 0nat }) + (if recipe(kind).1 == t { 1nat } else { 0nat })
}

/// The bag holds both ingredients of `kind`.
pub open spec fn can_prepare(bag: Bag, kind: ComplexResourceType) -> bool {
    let (a, b) = recipe(kind);
    bag.held(a) >= 1 && bag.held(b) >= uses(kind, b)
}

/// The message when the first ingredient is missing.
pub open spec fn first_missing(kind: ComplexResourceType) -> Seq<char> {
    match kind {
        ComplexResourceType::Diamond => "Insufficient carbon for diamond generation."@,
        ComplexResourceType::Water => "Insufficient hydrogen for water generation."@,
        ComplexResourceType::Life => "Insufficient water for life generation."@,
        ComplexResourceType::Robot => "Insufficient silicon for robot generation."@,
        ComplexResourceType::Dolphin => "Insufficient water for dolphin generation."@,
        ComplexResourceType::AIPartner => "Insufficient robot for AI-partner generation."@,
    }
}

/// The message when the second ingredient is missing.
pub open spec fn second_missing(kind: ComplexResourceType) -> Seq<char> {
    match kind {
        ComplexResourceType::Diamond => "Insufficient carbon for diamond generation."@,
        ComplexResourceType::Water => "Insufficient oxygen for water generation."@,
        ComplexResourceType::Life => "Insufficient carbon for life generation."@,
        ComplexResourceType::Robot => "Insufficient life for robot generation."@,
        ComplexResourceType::Dolphin => "Insufficient life for dolphin generation."@,
        ComplexResourceType::AIPartner => "Insufficient diamond for AI-partner generation."@,
    }
}

/// The complex resource a request asks for.
pub open spec fn request_kind(req: ComplexResourceRequest) -> ComplexResourceType {
    match req {
        ComplexResourceRequest::Water(_, _) => ComplexResourceType::Water,
        ComplexResourceRequest::Diamond(_, _) => ComplexResourceType::Diamond,
        ComplexResourceRequest::Life(_, _) => ComplexResourceType::Life,
        ComplexResourceRequest::Robot(_, _) => ComplexResourceType::Robot,
        ComplexResourceRequest::Dolphin(_, _) => ComplexResourceType::Dolphin,
        ComplexResourceRequest::AIPartner(_, _) => ComplexResourceType::AIPartner,
    }
}

/// Every kind's count in `after` is its count in `before`, less what the
/// recipe of `kind` uses when `taken` holds.
pub open spec fn counts_less(after: Bag, before: Bag, kind: ComplexResourceType, taken: bool) -> bool {
    forall|t: ResourceType| #[trigger] after.held(t) + (if taken { uses(kind, t) } else { 0 }) == before.held(t)
}

/// Takes the two ingredients of `kind` out of the bag and packs them into a
/// combination request. When the second ingredient is missing, the first one
/// goes back into the bag and nothing is lost.
pub fn prepare_combination(bag: &mut Bag, kind: ComplexResourceType) -> (r: Result<ComplexResourceRequest, String>)
    requires
        old(bag).wf(),
        old(bag).basics().len() < usize::MAX,
        old(bag).complexes().len() < usize::MAX,
    ensures
        final(bag).wf(),
        final(bag).basics().len() <= old(bag).basics().len(),
        final(bag).complexes().len() <= old(bag).complexes().len(),
        r is Ok <==> can_prepare(*old(bag), kind),
        r matches Ok(req) ==> request_kind(req) == kind && counts_less(*final(bag), *old(bag), kind, true),
        r matches Err(e) ==> {
            &&& counts_less(*final(bag), *old(bag), kind, false)
            &&& old(bag).held(recipe(kind).0) == 0 ==> e@ == first_missing(kind) && *final(bag) == *old(bag)
            &&& old(bag).held(recipe(kind).0) > 0 ==> e@ == second_missing(kind)
        },
{
    let ghost before = *bag;
    match kind {
        ComplexResourceType::Diamond => {
            let carbon_1 = match bag.take_basic(BasicResourceType::Carbon) {
                Some(BasicResource::Carbon(c)) => c,
                Some(_) => { return Err(String::from_str("Different type found")); },
                None => { return Err(String::from_str("Insufficient carbon for diamond generation.")); },
            };
            let ghost mid = *bag;
            assert(mid.held(recipe(kind).1) + uses(kind, recipe(kind).1) == before.held(recipe(kind).1) + 1);
            let carbon_2 = match bag.take_basic(BasicResourceType::Carbon) {
                Some(BasicResource::Carbon(c)) => c,
                Some(_) => { return Err(String::from_str("Different type found")); },
                None => {
                    bag.add_basic(BasicResource::Carbon(carbon_1));
                    return Err(String::from_str("Insufficient carbon for diamond generation."));
                },
            };
            Ok(ComplexResourceRequest::Diamond(carbon_1, carbon_2))
        },
        ComplexResourceType::Water => {
            let hydrogen = match bag.take_basic(BasicResourceType::Hydrogen) {
                Some(BasicResource::Hydrogen(h)) => h,
                Some(_) => { return Err(String::from_str("Different type found")); },
                None => { return Err(String::from_str("Insufficient hydrogen for water generation.")); },
            };
            let ghost mid = *bag;
            assert(mid.held(recipe(kind).1) + uses(kind, recipe(kind).1) == before.held(recipe(kind).1) + 1);
            let oxygen = match bag.take_basic(BasicResourceType::Oxygen) {
                Some(BasicResource::Oxygen(o)) => o,
                Some(_) => { return Err(String::from_str("Different type found")); },
                None => {
                    bag.add_basic(BasicResource::Hydrogen(hydrogen));
                    return Err(String::from_str("Insufficient oxygen for water generation."));
                },
            };
            Ok(ComplexResourceRequest::Water(hydrogen, oxygen))
        },
        ComplexResourceType::Life => {
            let water = match bag.take_complex(ComplexResourceType::Water) {
                Some(ComplexResource::Water(w)) => w,
                Some(_) => { return Err(String::from_str("Different type found")); },
                None => { return Err(String::from_str("Insufficient water for life generation.")); },
            };
            let ghost mid = *bag;
            assert(mid.held(recipe(kind).1) + uses(kind, recipe(kind).1) == before.held(recipe(kind).1) + 1);
            let carbon = match bag.take_basic(BasicResourceType::Carbon) {
                Some(BasicResource::Carbon(c)) => c,
                Some(_) => { return Err(String::from_str("Different type found")); },
                None => {
                    bag.add_complex(ComplexResource::Water(water));
                    return Err(String::from_str("Insufficient carbon for life generation."));
                },
            };
            Ok(ComplexResourceRequest::Life(water, carbon))
        },
        ComplexResourceType::Robot => {
            let silicon = match bag.take_basic(BasicResourceType::Silicon) {
                Some(BasicResource::Silicon(s)) => s,
                Some(_) => { return Err(String::from_str("Different type found")); },
                None => { return Err(String::from_str("Insufficient silicon for robot generation.")); },
            };
            let ghost mid = *bag;
            assert(mid.held(recipe(kind).1) + uses(kind, recipe(kind).1) == before.held(recipe(kind).1) + 1);
            let life = match bag.take_complex(ComplexResourceType::Life) {
                Some(ComplexResource::Life(l)) => l,
                Some(_) => { return Err(String::from_str("Different type found")); },
                None => {
                    bag.add_basic(BasicResource::Silicon(silicon));
                    return Err(String::from_str("Insufficient life for robot generation."));
                },
            };
            Ok(ComplexResourceRequest::Robot(silicon, life))
        },
        ComplexResourceType::Dolphin => {
            let water = match bag.take_complex(ComplexResourceType::Water) {
                Some(ComplexResource::Water(w)) => w,
                Some(_) => { return Err(String::from_str("Different type found")); },
                None => { return Err(String::from_str("Insufficient water for dolphin generation.")); },
            };
            let ghost mid = *bag;
            assert(mid.held(recipe(kind).1) + uses(kind, recipe(kind).1) == before.held(recipe(kind).1) + 1);
            let life = match bag.take_complex(ComplexResourceType::Life) {
                Some(ComplexResource::Life(l)) => l,
                Some(_) => { return Err(String::from_str("Different type found")); },
                None => {
                    bag.add_complex(ComplexResource::Water(water));
                    return Err(String::from_str("Insufficient life for dolphin generation."));
                },
            };
            Ok(ComplexResourceRequest::Dolphin(water, life))
        },
        ComplexResourceType::AIPartner => {
            let robot = match bag.take_complex(ComplexResourceType::Robot) {
                Some(ComplexResource::Robot(r)) => r,
                Some(_) => { return Err(String::from_str("Different type found")); },
                None => { return Err(String::from_str("Insufficient robot for AI-partner generation.")); },
            };
            let ghost mid = *bag;
            assert(mid.held(recipe(kind).1) + uses(kind, recipe(kind).1) == before.held(recipe(kind).1) + 1);
            let diamond = match bag.take_complex(ComplexResourceType::Diamond) {
                Some(ComplexResource::Diamond(d)) => d,
                Some(_) => { return Err(String::from_str("Different type found")); },
                None => {
                    bag.add_complex(ComplexResource::Robot(robot));
                    return Err(String::from_str("Insufficient diamond for AI-partner generation."));
                },
            };
            Ok(ComplexResourceRequest::AIPartner(robot, diamond))
        },
    }
}


// =========================================================================
// REPLIES FROM THE PLANET
// =========================================================================

/// What came back on the planet channel while the explorer waited for one
/// particular answer.
pub enum PlanetAnswer<T> {
    /// The expected answer.
    Got(T),
    /// Some other message arrived instead.
    Unexpected,
    /// Nothing arrived in time.
    TimedOut,
}

/// The error for an answer that never came as expected.
pub open spec fn answer_error<T>(a: PlanetAnswer<T>) -> Seq<char> {
    match a {
        PlanetAnswer::Got(_) => Seq::empty(),
        PlanetAnswer::Unexpected => "Unexpected msg from planet."@,
        PlanetAnswer::TimedOut => "Timeout from Planet AI."@,
    }
}

fn answer_error_text<T>(a: &PlanetAnswer<T>) -> (e: String)
    requires
        !(a is Got),
    ensures
        e@ == answer_error(*a),
{
    match a {
        PlanetAnswer::Got(_) => String::new(),
        PlanetAnswer::Unexpected => String::from_str("Unexpected msg from planet."),
        PlanetAnswer::TimedOut => String::from_str("Timeout from Planet AI."),
    }
}

/// The number of energy cells a planet reported: zero when no report came.
pub fn cells_from_answer(answer: PlanetAnswer<u32>) -> (n: usize)
    ensures
        n == match answer { PlanetAnswer::Got(c) => c as int, _ => 0 },
{
    match answer {
        PlanetAnswer::Got(c) => c as usize,
        _ => 0,
    }
}

// =========================================================================
// MESSAGES FROM THE ORCHESTRATOR
// =========================================================================

/// A message from the orchestrator, with what the explorer's decisions read
/// of it.
pub enum OrchestratorCommand {
    StartExplorerAI,
    ResetExplorerAI,
    KillExplorer,
    StopExplorerAI,
    /// A move to `planet_id`; `sender_to_new_planet` tells whether a channel
    /// to the new planet came with it.
    MoveToPlanet { sender_to_new_planet: bool, planet_id: u32 },
    CurrentPlanetRequest,
    SupportedResourceRequest,
    SupportedCombinationRequest,
    GenerateResourceRequest { to_generate: BasicResourceType },
    CombineResourceRequest { to_generate: ComplexResourceType },
    BagContentRequest,
    NeighborsResponse { neighbors: Vec<u32> },
}

/// What the explorer does next after a message from the orchestrator.
pub enum ExplorerStep {
    /// Ask the planet which basic resources it generates, store the answer
    /// and report it.
    QueryResources,
    /// Ask the planet which complex resources it combines, store the answer
    /// and report it.
    QueryCombinations,
    /// Ask the planet to generate this resource and report the outcome.
    Generate(BasicResourceType),
    /// Ask the planet to combine this resource and report the outcome.
    Combine(ComplexResourceType),
    /// Report the bag's summary.
    ReportBag(BagSnapshot),
    /// Report that the reset is done.
    ReportReset,
    /// Report that the explorer is killed, then stop listening.
    ReportKilled,
    /// Report that the explorer stopped, then wait for a start (or a kill).
    ReportStopped,
    /// Report the planet the explorer is on.
    ReportPlanet(u32),
    /// Take the new planet's channel and report the arrival on this planet.
    ReportMoved(u32),
    /// Nothing to send.
    Idle,
    /// The message could not be handled.
    Fail(String),
}

// =========================================================================
// THE EXPLORER'S STATE
// =========================================================================

/// What an explorer knows and holds, without its channels.
pub struct ExplorerState {
    pub explorer_id: u32,
    pub current_planet_id: u32,
    pub bag: Bag,
    pub generation_rules: BasicSet,
    pub combination_cookbook: ComplexSet,
    pub neighbors: Vec<u32>,
    pub awaiting_move: bool,
    pub awaiting_neighbors: bool,
    pub killed: bool,
    pub stopped: bool,
}

impl ExplorerState {
    /// The bag keeps its tallies, and has room for two more of each family.
    pub open spec fn wf(self) -> bool {
        &&& self.bag.wf()
        &&& self.bag.basics().len() + 2 <= usize::MAX
        &&& self.bag.complexes().len() + 2 <= usize::MAX
    }

    /// A fresh explorer on `current_planet_id`: empty bag, nothing learned,
    /// nothing awaited, neither stopped nor killed.
    pub fn new(explorer_id: u32, current_planet_id: u32) -> (e: ExplorerState)
        ensures
            e.wf(),
            e.explorer_id == explorer_id,
            e.current_planet_id == current_planet_id,
            e.bag.basics().len() == 0,
            e.bag.complexes().len() == 0,
            e.generation_rules@ == Set::<BasicResourceType>::empty(),
            e.combination_cookbook@ == Set::<ComplexResourceType>::empty(),
            e.neighbors@ == Seq::<u32>::empty(),
            !e.awaiting_move,
            !e.awaiting_neighbors,
            !e.killed,
            !e.stopped,
    {
        ExplorerState {
            explorer_id,
            current_planet_id,
            bag: Bag::new(),
            generation_rules: BasicSet::empty(),
            combination_cookbook: ComplexSet::empty(),
            neighbors: Vec::new(),
            awaiting_move: false,
            awaiting_neighbors: false,
            killed: false,
            stopped: false,
        }
    }

    /// Wipes the bag and everything learned on the current planet.
    pub fn reset_routine(&mut self)
        ensures
            final(self).wf(),
            final(self).bag.basics().len() == 0,
            final(self).bag.complexes().len() == 0,
            final(self).generation_rules@ == Set::<BasicResourceType>::empty(),
            final(self).combination_cookbook@ == Set::<ComplexResourceType>::empty(),
            final(self).neighbors@ == Seq::<u32>::empty(),
            final(self).explorer_id == old(self).explorer_id,
            final(self).current_planet_id == old(self).current_planet_id,
            final(self).awaiting_move == old(self).awaiting_move,
            final(self).awaiting_neighbors == old(self).awaiting_neighbors,
            final(self).killed == old(self).killed,
            final(self).stopped == old(self).stopped,
    {
        self.bag = Bag::new();
        self.generation_rules = BasicSet::empty();
        self.combination_cookbook = ComplexSet::empty();
        self.neighbors = Vec::new();
    }

    pub fn on_stop(&mut self)
        ensures
            *final(self) == (ExplorerState { stopped: true, ..*old(self) }),
    {
        self.stopped = true;
    }

    pub fn on_start(&mut self)
        ensures
            *final(self) == (ExplorerState { stopped: false, ..*old(self) }),
    {
        self.stopped = false;
    }

    /// Marks the explorer killed and releases anything it was waiting for.
    pub fn on_kill(&mut self)
        ensures
            *final(self) == (ExplorerState { killed: true, awaiting_move: false, awaiting_neighbors: false, ..*old(self) }),
    {
        self.killed = true;
        self.awaiting_move = false;
        self.awaiting_neighbors = false;
    }

    /// Records the outcome of sending a neighbours request: the explorer waits
    /// for the reply only when the request went out.
    pub fn note_neighbors_request(&mut self, sent: bool) -> (r: Result<(), String>)
        ensures
            sent ==> r is Ok && *final(self) == (ExplorerState { awaiting_neighbors: true, ..*old(self) }),
            !sent ==> (r matches Err(e) && e@ == "Orchestrator disconnected."@) && *final(self) == *old(self),
    {
        if sent {
            self.awaiting_neighbors = true;
            Ok(())
        } else {
            Err(String::from_str("Orchestrator disconnected."))
        }
    }

    /// Records the outcome of sending a travel request: the explorer waits for
    /// the move only when the request went out.
    pub fn note_travel_request(&mut self, sent: bool) -> (r: Result<(), String>)
        ensures
            sent ==> r is Ok && *final(self) == (ExplorerState { awaiting_move: true, ..*old(self) }),
            !sent ==> (r matches Err(e) && e@ == "Orchestrator disconnected."@) && *final(self) == *old(self),
    {
        if sent {
            self.awaiting_move = true;
            Ok(())
        } else {
            Err(String::from_str("Orchestrator disconnected."))
        }
    }

    /// Whether a finished wait for a move ended on the planet asked for.
    pub fn travel_outcome(&self, dst_planet_id: u32) -> (r: Result<(), String>)
        ensures
            r is Ok <==> self.current_planet_id == dst_planet_id,
            r matches Err(e) ==> e@ == "Travel to planet "@ + decimal(dst_planet_id as nat) + " failed."@,
    {
        if self.current_planet_id == dst_planet_id {
            Ok(())
        } else {
            let mut e = String::from_str("Travel to planet ");
            push_decimal(&mut e, dst_planet_id as u64);
            e.append(" failed.");
            Err(e)
        }
    }

    /// Stores the planet's list of generated resources.
    pub fn store_supported_resources(&mut self, answer: PlanetAnswer<BasicSet>) -> (r: Result<(), String>)
        ensures
            match answer {
                PlanetAnswer::Got(set) => r is Ok && *final(self) == (ExplorerState { generation_rules: set, ..*old(self) }),
                _ => r matches Err(e) && e@ == answer_error(answer) && *final(self) == *old(self),
            },
    {
        match answer {
            PlanetAnswer::Got(set) => {
                self.generation_rules = set;
                Ok(())
            },
            _ => Err(answer_error_text(&answer)),
        }
    }

    /// Stores the planet's list of combined resources.
    pub fn store_supported_combinations(&mut self, answer: PlanetAnswer<ComplexSet>) -> (r: Result<(), String>)
        ensures
            match answer {
                PlanetAnswer::Got(set) => r is Ok && *final(self) == (ExplorerState { combination_cookbook: set, ..*old(self) }),
                _ => r matches Err(e) && e@ == answer_error(answer) && *final(self) == *old(self),
            },
    {
        match answer {
            PlanetAnswer::Got(set) => {
                self.combination_cookbook = set;
                Ok(())
            },
            _ => Err(answer_error_text(&answer)),
        }
    }

    /// Stores what a generation request brought back.
    pub fn absorb_generated(&mut self, answer: PlanetAnswer<Option<BasicResource>>) -> (r: Result<(), String>)
        requires
            old(self).wf(),
        ensures
            match answer {
                PlanetAnswer::Got(Some(res)) => {
                    &&& r is Ok
                    &&& final(self).bag.basics() == old(self).bag.basics().push(res)
                    &&& final(self).bag.complexes() == old(self).bag.complexes()
                },
                PlanetAnswer::Got(None) => r matches Err(e) && e@ == "Resource generation failed or timed out"@
                    && *final(self) == *old(self),
                _ => r matches Err(e) && e@ == answer_error(answer) && *final(self) == *old(self),
            },
            final(self).bag.wf(),
            final(self).explorer_id == old(self).explorer_id,
            final(self).current_planet_id == old(self).current_planet_id,
    {
        match answer {
            PlanetAnswer::Got(Some(res)) => {
                self.bag.add_basic(res);
                Ok(())
            },
            PlanetAnswer::Got(None) => Err(String::from_str("Resource generation failed or timed out")),
            _ => Err(answer_error_text(&answer)),
        }
    }

    /// Stores what a combination request brought back: the new resource, or
    /// the two ingredients the planet handed back with its refusal.
    pub fn absorb_combination(
        &mut self,
        answer: PlanetAnswer<Result<ComplexResource, (String, GenericResource, GenericResource)>>,
    ) -> (r: Result<(), String>)
        requires
            old(self).wf(),
        ensures
            final(self).bag.wf(),
            final(self).explorer_id == old(self).explorer_id,
            final(self).current_planet_id == old(self).current_planet_id,
            match answer {
                PlanetAnswer::Got(Ok(c)) => {
                    &&& r is Ok
                    &&& final(self).bag.complexes() == old(self).bag.complexes().push(c)
                    &&& final(self).bag.basics() == old(self).bag.basics()
                },
                PlanetAnswer::Got(Err((msg, g1, g2))) => {
                    &&& r matches Err(e) && e@ == msg@
                    &&& forall|t: ResourceType| #[trigger] final(self).bag.held(t)
                        == old(self).bag.held(t) + generic_is(g1, t) + generic_is(g2, t)
                },
                _ => r matches Err(e) && e@ == answer_error(answer) && *final(self) == *old(self),
            },
    {
        match answer {
            PlanetAnswer::Got(Ok(c)) => {
                self.bag.add_complex(c);
                Ok(())
            },
            PlanetAnswer::Got(Err((msg, g1, g2))) => {
                self.bag.add_generic(g1);
                self.bag.add_generic(g2);
                Err(msg)
            },
            _ => Err(answer_error_text(&answer)),
        }
    }
}


impl ExplorerState {
    /// Applies a message from the orchestrator to the state and says what to
    /// do next.
    pub fn handle_orchestrator_msg(&mut self, msg: OrchestratorCommand) -> (step: ExplorerStep)
        requires
            old(self).wf(),
        ensures
            final(self).wf(),
            match msg {
                OrchestratorCommand::SupportedResourceRequest => step is QueryResources && *final(self) == *old(self),
                OrchestratorCommand::SupportedCombinationRequest => step is QueryCombinations && *final(self) == *old(self),
                OrchestratorCommand::GenerateResourceRequest { to_generate } =>
                    step == ExplorerStep::Generate(to_generate) && *final(self) == *old(self),
                OrchestratorCommand::CombineResourceRequest { to_generate } =>
                    step == ExplorerStep::Combine(to_generate) && *final(self) == *old(self),
                OrchestratorCommand::BagContentRequest => {
                    &&& step matches ExplorerStep::ReportBag(snap)
                        && (forall|t: BasicResourceType| #[trigger] snap.basic_entry(t) == old(self).bag.basic_tally(t))
                        && (forall|t: ComplexResourceType| #[trigger] snap.complex_entry(t) == old(self).bag.complex_tally(t))
                    &&& *final(self) == *old(self)
                },
                OrchestratorCommand::ResetExplorerAI => {
                    &&& step is ReportReset
                    &&& final(self).bag.basics().len() == 0
                    &&& final(self).bag.complexes().len() == 0
                    &&& final(self).generation_rules@ == Set::<BasicResourceType>::empty()
                    &&& final(self).combination_cookbook@ == Set::<ComplexResourceType>::empty()
                    &&& final(self).neighbors@ == Seq::<u32>::empty()
                    &&& final(self).explorer_id == old(self).explorer_id
                    &&& final(self).current_planet_id == old(self).current_planet_id
                    &&& final(self).awaiting_move == old(self).awaiting_move
                    &&& final(self).awaiting_neighbors == old(self).awaiting_neighbors
                    &&& final(self).killed == old(self).killed
                    &&& final(self).stopped == old(self).stopped
                },
                OrchestratorCommand::KillExplorer => step is ReportKilled
                    && *final(self) == (ExplorerState { killed: true, awaiting_move: false, awaiting_neighbors: false, ..*old(self) }),
                OrchestratorCommand::StopExplorerAI => step is ReportStopped
                    && *final(self) == (ExplorerState { stopped: true, ..*old(self) }),
                OrchestratorCommand::CurrentPlanetRequest => step == ExplorerStep::ReportPlanet(old(self).current_planet_id)
                    && *final(self) == *old(self),
                OrchestratorCommand::MoveToPlanet { sender_to_new_planet, planet_id } => if sender_to_new_planet {
                    &&& step == ExplorerStep::ReportMoved(planet_id)
                    &&& final(self).current_planet_id == planet_id
                    &&& final(self).generation_rules@ == Set::<BasicResourceType>::empty()
                    &&& final(self).combination_cookbook@ == Set::<ComplexResourceType>::empty()
                    &&& final(self).neighbors@ == Seq::<u32>::empty()
                    &&& !final(self).awaiting_move
                    &&& final(self).bag == old(self).bag
                    &&& final(self).explorer_id == old(self).explorer_id
                    &&& final(self).awaiting_neighbors == old(self).awaiting_neighbors
                    &&& final(self).killed == old(self).killed
                    &&& final(self).stopped == old(self).stopped
                } else {
                    &&& step matches ExplorerStep::Fail(e) && e@ == "Failed to intercept Sender<ExplorerToPlanet> during space travel."@
                    &&& *final(self) == (ExplorerState { awaiting_move: false, ..*old(self) })
                },
                OrchestratorCommand::NeighborsResponse { neighbors } => step is Idle
                    && *final(self) == (ExplorerState { neighbors: neighbors, awaiting_neighbors: false, ..*old(self) }),
                OrchestratorCommand::StartExplorerAI => (step matches ExplorerStep::Fail(e) && e@ == "Unexpected message received."@)
                    && *final(self) == *old(self),
            },
    {
        match msg {
            OrchestratorCommand::SupportedResourceRequest => ExplorerStep::QueryResources,
            OrchestratorCommand::SupportedCombinationRequest => ExplorerStep::QueryCombinations,
            OrchestratorCommand::GenerateResourceRequest { to_generate } => ExplorerStep::Generate(to_generate),
            OrchestratorCommand::CombineResourceRequest { to_generate } => ExplorerStep::Combine(to_generate),
            OrchestratorCommand::BagContentRequest => ExplorerStep::ReportBag(self.bag.snapshot()),
            OrchestratorCommand::ResetExplorerAI => {
                self.reset_routine();
                ExplorerStep::ReportReset
            },
            OrchestratorCommand::KillExplorer => {
                self.on_kill();
                ExplorerStep::ReportKilled
            },
            OrchestratorCommand::StopExplorerAI => {
                self.on_stop();
                ExplorerStep::ReportStopped
            },
            OrchestratorCommand::CurrentPlanetRequest => ExplorerStep::ReportPlanet(self.current_planet_id),
            OrchestratorCommand::MoveToPlanet { sender_to_new_planet, planet_id } => {
                if !sender_to_new_planet {
                    self.awaiting_move = false;
                    return ExplorerStep::Fail(String::from_str("Failed to intercept Sender<ExplorerToPlanet> during space travel."));
                }
                self.current_planet_id = planet_id;
                self.generation_rules = BasicSet::empty();
                self.combination_cookbook = ComplexSet::empty();
                self.neighbors = Vec::new();
                self.awaiting_move = false;
                ExplorerStep::ReportMoved(planet_id)
            },
            OrchestratorCommand::NeighborsResponse { neighbors } => {
                self.neighbors = neighbors;
                self.awaiting_neighbors = false;
                ExplorerStep::Idle
            },
            OrchestratorCommand::StartExplorerAI => ExplorerStep::Fail(String::from_str("Unexpected message received.")),
        }
    }
}

/// What a message means to an explorer waiting to be started: `Some(false)`
/// for a start, `Some(true)` for a kill, `None` for anything else, which is
/// ignored.
pub fn start_wait_outcome(msg: &OrchestratorCommand) -> (r: Option<bool>)
    ensures
        r == match *msg {
            OrchestratorCommand::StartExplorerAI => Some(false),
            OrchestratorCommand::KillExplorer => Some(true),
            _ => None::<bool>,
        },
{
    match msg {
        OrchestratorCommand::StartExplorerAI => Some(false),
        OrchestratorCommand::KillExplorer => Some(true),
        _ => None,
    }
}

} // verus!
