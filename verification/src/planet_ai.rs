//! The Stargazers planet's AI: a type-B planet that generates every basic
//! resource and combines only robots, and builds a rocket from a charged
//! cell when an asteroid comes.

use vstd::prelude::*;
use std::collections::HashSet;
use common_game::components::energy_cell::EnergyCell;
use common_game::components::planet::{DummyPlanetState, PlanetState};
use common_game::components::resource::{
    BasicResource, BasicResourceType, Carbon, Combinator, ComplexResource, ComplexResourceRequest,
    ComplexResourceType, Generator, GenericResource, ResourceType, Hydrogen, Life, Oxygen, Robot, Silicon,
};
use common_game::components::rocket::Rocket;
use common_game::components::sunray::Sunray;
use common_game::protocols::planet_explorer::{ExplorerToPlanet, PlanetToExplorer};
use crate::resources::{basic_kind, complex_kind};
use crate::explorer::recipe;

verus! {

#[verifier::external_type_specification]
#[verifier::external_body]
pub struct ExPlanetState(PlanetState);

#[verifier::external_type_specification]
pub struct ExDummyPlanetState(DummyPlanetState);

#[verifier::external_type_specification]
#[verifier::external_body]
pub struct ExGenerator(Generator);

#[verifier::external_type_specification]
#[verifier::external_body]
pub struct ExCombinator(Combinator);

#[verifier::external_type_specification]
#[verifier::external_body]
pub struct ExEnergyCell(EnergyCell);

#[verifier::external_type_specification]
#[verifier::external_body]
pub struct ExRocket(Rocket);

#[verifier::external_type_specification]
#[verifier::external_body]
pub struct ExSunray(Sunray);

#[verifier::external_type_specification]
pub struct ExExplorerToPlanet(ExplorerToPlanet);

#[verifier::external_type_specification]
pub struct ExPlanetToExplorer(PlanetToExplorer);

// =========================================================================
// WHAT A PLANET STATE HOLDS
// =========================================================================

/// What the energy cells of a planet state hold: whether each is charged,
/// in the order the state keeps them.
pub uninterp spec fn planet_cells(state: PlanetState) -> Seq<bool>;

/// Whether a planet state holds a built rocket.
pub uninterp spec fn planet_has_rocket(state: PlanetState) -> bool;

/// Whether the planet state may hold a rocket at all; fixed when the state
/// is made, from the planet's type.
pub uninterp spec fn planet_rocket_allowed(state: PlanetState) -> bool;

/// Whether an energy cell is charged.
pub uninterp spec fn cell_charged(cell: EnergyCell) -> bool;

/// The basic resources a generator holds a recipe for.
pub uninterp spec fn generator_set(generator: Generator) -> Set<BasicResourceType>;

/// The complex resources a combinator holds a recipe for.
pub uninterp spec fn combinator_set(combinator: Combinator) -> Set<ComplexResourceType>;

/// Cell `i` is the first one whose charge is `charged`.
pub open spec fn first_at(cells: Seq<bool>, charged: bool, i: int) -> bool {
    &&& 0 <= i < cells.len()
    &&& cells[i] == charged
    &&& forall|j: int| 0 <= j < i ==> cells[j] != charged
}

/// Some cell's charge is `charged`.
pub open spec fn has_cell(cells: Seq<bool>, charged: bool) -> bool {
    exists|i: int| #[trigger] first_at(cells, charged, i)
}

/// The first cell whose charge is `charged`.
pub open spec fn first_cell(cells: Seq<bool>, charged: bool) -> int {
    choose|i: int| #[trigger] first_at(cells, charged, i)
}

/// The cells after a sun ray: the first empty one is charged, if any is.
pub open spec fn after_sunray(cells: Seq<bool>) -> Seq<bool> {
    if has_cell(cells, false) { cells.update(first_cell(cells, false), true) } else { cells }
}

/// How many cells are charged.
pub open spec fn count_charged(cells: Seq<bool>) -> nat {
    cells.filter(|b: bool| b).len()
}

/// Only one cell is the first with a given charge.
pub proof fn lemma_first_at_unique(cells: Seq<bool>, charged: bool, i: int, j: int)
    requires
        first_at(cells, charged, i),
        first_at(cells, charged, j),
    ensures
        i == j,
{
    if i < j {
        assert(cells[i] != charged);
    } else if j < i {
        assert(cells[j] != charged);
    }
}

/// Against an asteroid a rocket is launched: some cell is charged, the
/// planet may hold a rocket and holds none yet.
pub open spec fn asteroid_launches(state: PlanetState) -> bool {
    &&& has_cell(planet_cells(state), true)
    &&& planet_rocket_allowed(state)
    &&& !planet_has_rocket(state)
}

// =========================================================================
// CALLS INTO THE PLANET'S STATE, GENERATOR AND COMBINATOR
// =========================================================================

/// Calls `PlanetState::full_cell`: the first charged cell, to use in place,
/// and its index, or `None` when no cell is charged. The call itself
/// changes nothing; what becomes of the borrowed cell's charge becomes the
/// charge of that cell of the state.
#[verifier::external_body]
fn full_cell(state: &mut PlanetState) -> (r: Option<(&mut EnergyCell, usize)>)
    ensures
        r is None <==> !has_cell(planet_cells(*old(state)), true),
        r is None ==> *final(state) == *old(state),
        r is Some ==> first_at(planet_cells(*old(state)), true, r.unwrap().1 as int),
        r is Some ==> cell_charged(*r.unwrap().0),
        r is Some ==> planet_cells(*final(state))
            == planet_cells(*old(state)).update(r.unwrap().1 as int, cell_charged(*final(r.unwrap().0))),
        r is Some ==> (*final(r.unwrap().0) == *r.unwrap().0 ==> *final(state) == *old(state)),
        planet_has_rocket(*final(state)) == planet_has_rocket(*old(state)),
        planet_rocket_allowed(*final(state)) == planet_rocket_allowed(*old(state)),
{
    state.full_cell()
}

/// Calls `PlanetState::cells_count`: the number of energy cells.
#[verifier::external_body]
fn cells_count(state: &PlanetState) -> (n: usize)
    ensures
        n == planet_cells(*state).len(),
{
    state.cells_count()
}

/// Calls `PlanetState::charge_cell`: charges the first empty cell with the
/// sun ray, or hands the sun ray back when every cell is charged.
#[verifier::external_body]
fn charge_cell(state: &mut PlanetState, sunray: Sunray) -> (r: Option<Sunray>)
    ensures
        r is Some <==> !has_cell(planet_cells(*old(state)), false),
        planet_cells(*final(state)) == after_sunray(planet_cells(*old(state))),
        planet_has_rocket(*final(state)) == planet_has_rocket(*old(state)),
        planet_rocket_allowed(*final(state)) == planet_rocket_allowed(*old(state)),
{
    state.charge_cell(sunray)
}

/// Calls `PlanetState::build_rocket`: builds a rocket from cell `i`, which
/// it discharges, and keeps it; fails, changing nothing, when the planet
/// cannot hold a rocket, already holds one, or the cell is not charged. An
/// index past the cells panics, so it is ruled out.
#[verifier::external_body]
fn build_rocket(state: &mut PlanetState, i: usize) -> (r: Result<(), String>)
    requires
        i < planet_cells(*old(state)).len(),
    ensures
        r is Ok <==> planet_rocket_allowed(*old(state)) && !planet_has_rocket(*old(state))
            && planet_cells(*old(state))[i as int],
        r is Ok ==> planet_cells(*final(state)) == planet_cells(*old(state)).update(i as int, false)
            && planet_has_rocket(*final(state)),
        r is Err ==> *final(state) == *old(state),
        planet_rocket_allowed(*final(state)) == planet_rocket_allowed(*old(state)),
{
    state.build_rocket(i)
}

/// Calls `PlanetState::take_rocket`: the rocket held, if any, leaving none.
#[verifier::external_body]
fn take_rocket(state: &mut PlanetState) -> (r: Option<Rocket>)
    ensures
        r is Some <==> planet_has_rocket(*old(state)),
        !planet_has_rocket(*final(state)),
        planet_cells(*final(state)) == planet_cells(*old(state)),
        planet_rocket_allowed(*final(state)) == planet_rocket_allowed(*old(state)),
{
    state.take_rocket()
}

/// Calls `PlanetState::to_dummy`: a plain copy of the state for the
/// orchestrator: each cell's charge, how many are charged, whether a rocket
/// is held.
#[verifier::external_body]
fn to_dummy(state: &PlanetState) -> (d: DummyPlanetState)
    ensures
        d.energy_cells@ == planet_cells(*state),
        d.charged_cells_count == count_charged(planet_cells(*state)),
        d.has_rocket == planet_has_rocket(*state),
{
    state.to_dummy()
}

/// Calls `Generator::all_available_recipes`: the basic resources the planet
/// generates, as a fresh set.
#[verifier::external_body]
fn generator_recipes(generator: &Generator) -> (s: HashSet<BasicResourceType>)
    ensures
        s@ == generator_set(*generator),
{
    generator.all_available_recipes()
}

/// Calls `Combinator::all_available_recipes`: the complex resources the
/// planet combines, as a fresh set.
#[verifier::external_body]
fn combinator_recipes(combinator: &Combinator) -> (s: HashSet<ComplexResourceType>)
    ensures
        s@ == combinator_set(*combinator),
{
    combinator.all_available_recipes()
}

/// Calls `Generator::make_oxygen`: with the recipe and a charged cell, the
/// cell is discharged into an oxygen; otherwise it fails and the cell is
/// left as it was.
#[verifier::external_body]
fn make_oxygen(generator: &Generator, cell: &mut EnergyCell) -> (r: Result<Oxygen, String>)
    ensures
        r is Ok <==> generator_set(*generator).contains(BasicResourceType::Oxygen) && cell_charged(*old(cell)),
        r is Ok ==> !cell_charged(*final(cell)),
        r is Err ==> *final(cell) == *old(cell),
{
    generator.make_oxygen(cell)
}

/// Calls `Generator::make_hydrogen`, as `make_oxygen` does for oxygen.
#[verifier::external_body]
fn make_hydrogen(generator: &Generator, cell: &mut EnergyCell) -> (r: Result<Hydrogen, String>)
    ensures
        r is Ok <==> generator_set(*generator).contains(BasicResourceType::Hydrogen) && cell_charged(*old(cell)),
        r is Ok ==> !cell_charged(*final(cell)),
        r is Err ==> *final(cell) == *old(cell),
{
    generator.make_hydrogen(cell)
}

/// Calls `Generator::make_carbon`, as `make_oxygen` does for oxygen.
#[verifier::external_body]
fn make_carbon(generator: &Generator, cell: &mut EnergyCell) -> (r: Result<Carbon, String>)
    ensures
        r is Ok <==> generator_set(*generator).contains(BasicResourceType::Carbon) && cell_charged(*old(cell)),
        r is Ok ==> !cell_charged(*final(cell)),
        r is Err ==> *final(cell) == *old(cell),
{
    generator.make_carbon(cell)
}

/// Calls `Generator::make_silicon`, as `make_oxygen` does for oxygen.
#[verifier::external_body]
fn make_silicon(generator: &Generator, cell: &mut EnergyCell) -> (r: Result<Silicon, String>)
    ensures
        r is Ok <==> generator_set(*generator).contains(BasicResourceType::Silicon) && cell_charged(*old(cell)),
        r is Ok ==> !cell_charged(*final(cell)),
        r is Err ==> *final(cell) == *old(cell),
{
    generator.make_silicon(cell)
}

/// Calls `Combinator::make_robot`: with the recipe and a charged cell, the
/// cell is discharged and a silicon and a life become a robot; otherwise
/// the two ingredients come back unchanged with the error and the cell is
/// left as it was. The error says the recipe is missing, or else that the
/// cell is not charged.
#[verifier::external_body]
fn make_robot(combinator: &Combinator, silicon: Silicon, life: Life, cell: &mut EnergyCell)
    -> (r: Result<Robot, (String, Silicon, Life)>)
    ensures
        r is Ok <==> combinator_set(*combinator).contains(ComplexResourceType::Robot) && cell_charged(*old(cell)),
        r is Ok ==> !cell_charged(*final(cell)),
        r is Err ==> *final(cell) == *old(cell),
        r matches Err((_, s, l)) ==> s == silicon && l == life,
        r matches Err((m, _, _)) ==> m@ == if combinator_set(*combinator).contains(ComplexResourceType::Robot) {
            cell_not_charged_message()
        } else {
            no_robot_recipe_message()
        },
{
    combinator.make_robot(silicon, life, cell)
}

// =========================================================================
// DECISIONS
// =========================================================================

/// The complex resource a request asks for and its two ingredients, as
/// generic resources.
pub open spec fn request_parts(req: ComplexResourceRequest) -> (ComplexResourceType, GenericResource, GenericResource) {
    match req {
        ComplexResourceRequest::Robot(a, b) => (ComplexResourceType::Robot,
            GenericResource::BasicResources(BasicResource::Silicon(a)), GenericResource::ComplexResources(ComplexResource::Life(b))),
        ComplexResourceRequest::Water(a, b) => (ComplexResourceType::Water,
            GenericResource::BasicResources(BasicResource::Hydrogen(a)), GenericResource::BasicResources(BasicResource::Oxygen(b))),
        ComplexResourceRequest::Diamond(a, b) => (ComplexResourceType::Diamond,
            GenericResource::BasicResources(BasicResource::Carbon(a)), GenericResource::BasicResources(BasicResource::Carbon(b))),
        ComplexResourceRequest::Life(a, b) => (ComplexResourceType::Life,
            GenericResource::ComplexResources(ComplexResource::Water(a)), GenericResource::BasicResources(BasicResource::Carbon(b))),
        ComplexResourceRequest::Dolphin(a, b) => (ComplexResourceType::Dolphin,
            GenericResource::ComplexResources(ComplexResource::Water(a)), GenericResource::ComplexResources(ComplexResource::Life(b))),
        ComplexResourceRequest::AIPartner(a, b) => (ComplexResourceType::AIPartner,
            GenericResource::ComplexResources(ComplexResource::Robot(a)), GenericResource::ComplexResources(ComplexResource::Diamond(b))),
    }
}

/// Splits a combination request into its kind and its two ingredients.
pub fn combine_parts(req: ComplexResourceRequest) -> (r: (ComplexResourceType, GenericResource, GenericResource))
    ensures
        r == request_parts(req),
{
    match req {
        ComplexResourceRequest::Robot(a, b) => (ComplexResourceType::Robot,
            GenericResource::BasicResources(BasicResource::Silicon(a)), GenericResource::ComplexResources(ComplexResource::Life(b))),
        ComplexResourceRequest::Water(a, b) => (ComplexResourceType::Water,
            GenericResource::BasicResources(BasicResource::Hydrogen(a)), GenericResource::BasicResources(BasicResource::Oxygen(b))),
        ComplexResourceRequest::Diamond(a, b) => (ComplexResourceType::Diamond,
            GenericResource::BasicResources(BasicResource::Carbon(a)), GenericResource::BasicResources(BasicResource::Carbon(b))),
        ComplexResourceRequest::Life(a, b) => (ComplexResourceType::Life,
            GenericResource::ComplexResources(ComplexResource::Water(a)), GenericResource::BasicResources(BasicResource::Carbon(b))),
        ComplexResourceRequest::Dolphin(a, b) => (ComplexResourceType::Dolphin,
            GenericResource::ComplexResources(ComplexResource::Water(a)), GenericResource::ComplexResources(ComplexResource::Life(b))),
        ComplexResourceRequest::AIPartner(a, b) => (ComplexResourceType::AIPartner,
            GenericResource::ComplexResources(ComplexResource::Robot(a)), GenericResource::ComplexResources(ComplexResource::Diamond(b))),
    }
}

/// The kind of a generic resource.
pub open spec fn generic_kind(g: GenericResource) -> ResourceType {
    match g {
        GenericResource::BasicResources(b) => ResourceType::Basic(basic_kind(b)),
        GenericResource::ComplexResources(c) => ResourceType::Complex(complex_kind(c)),
    }
}

/// Every combination request carries, in order, the two ingredients of the
/// recipe of the kind it asks for: the recipes are those the requests are
/// built from.
pub proof fn lemma_requests_follow_recipes(req: ComplexResourceRequest)
    ensures
        recipe(request_parts(req).0) == (generic_kind(request_parts(req).1), generic_kind(request_parts(req).2)),
{
}

/// The refusal when the planet has no recipe for `kind`.
pub open spec fn no_recipe_message(kind: ComplexResourceType) -> Seq<char> {
    match kind {
        ComplexResourceType::Diamond => "Recipe not available, failed combination - returning [r1 : Carbon] and [r2 : Carbon]"@,
        ComplexResourceType::Water => "Recipe not available, failed combination - returning [r1 : Hydrogen] and [r2 : Oxygen]"@,
        ComplexResourceType::Life => "Recipe not available, failed combination - returning [r1 : Water] and [r2 : Carbon]"@,
        ComplexResourceType::Dolphin => "Recipe not available, failed combination - returning [r1 : Water] and [r2 : Life]"@,
        ComplexResourceType::AIPartner => "Recipe not available, failed combination - returning [r1 : Robot] and [r2 : Diamond]"@,
        ComplexResourceType::Robot => "Pretty strange behaviour... Shouldn't be possible to be here, but here we are..."@,
    }
}

/// The combinator's error when it has no robot recipe.
pub open spec fn no_robot_recipe_message() -> Seq<char> {
    "there isn't a recipe for Robot"@
}

/// The energy cell's error when it is discharged while empty.
pub open spec fn cell_not_charged_message() -> Seq<char> {
    "EnergyCell not charged!"@
}

/// The refusal when no cell is charged.
pub open spec fn no_charge_message(kind: ComplexResourceType) -> Seq<char> {
    match kind {
        ComplexResourceType::Diamond => "No charged cell, failed combination - returning [r1 : Carbon] and [r2 : Carbon]"@,
        ComplexResourceType::Water => "No charged cell, failed combination - returning [r1 : Hydrogen] and [r2 : Oxygen]"@,
        ComplexResourceType::Life => "No charged cell, failed combination - returning [r1 : Water] and [r2 : Carbon]"@,
        ComplexResourceType::Robot => "No charged cell, failed combination - returning [r1 : Silicon] and [r2 : Life]"@,
        ComplexResourceType::Dolphin => "No charged cell, failed combination - returning [r1 : Water] and [r2 : Life]"@,
        ComplexResourceType::AIPartner => "No charged cell, failed combination - returning [r1 : Robot] and [r2 : Diamond]"@,
    }
}

pub fn no_recipe_refusal(kind: ComplexResourceType) -> (s: String)
    ensures
        s@ == no_recipe_message(kind),
{
    match kind {
        ComplexResourceType::Diamond => String::from_str("Recipe not available, failed combination - returning [r1 : Carbon] and [r2 : Carbon]"),
        ComplexResourceType::Water => String::from_str("Recipe not available, failed combination - returning [r1 : Hydrogen] and [r2 : Oxygen]"),
        ComplexResourceType::Life => String::from_str("Recipe not available, failed combination - returning [r1 : Water] and [r2 : Carbon]"),
        ComplexResourceType::Dolphin => String::from_str("Recipe not available, failed combination - returning [r1 : Water] and [r2 : Life]"),
        ComplexResourceType::AIPartner => String::from_str("Recipe not available, failed combination - returning [r1 : Robot] and [r2 : Diamond]"),
        ComplexResourceType::Robot => String::from_str("Pretty strange behaviour... Shouldn't be possible to be here, but here we are..."),
    }
}

pub fn no_charge_refusal(kind: ComplexResourceType) -> (s: String)
    ensures
        s@ == no_charge_message(kind),
{
    match kind {
        ComplexResourceType::Diamond => String::from_str("No charged cell, failed combination - returning [r1 : Carbon] and [r2 : Carbon]"),
        ComplexResourceType::Water => String::from_str("No charged cell, failed combination - returning [r1 : Hydrogen] and [r2 : Oxygen]"),
        ComplexResourceType::Life => String::from_str("No charged cell, failed combination - returning [r1 : Water] and [r2 : Carbon]"),
        ComplexResourceType::Robot => String::from_str("No charged cell, failed combination - returning [r1 : Silicon] and [r2 : Life]"),
        ComplexResourceType::Dolphin => String::from_str("No charged cell, failed combination - returning [r1 : Water] and [r2 : Life]"),
        ComplexResourceType::AIPartner => String::from_str("No charged cell, failed combination - returning [r1 : Robot] and [r2 : Diamond]"),
    }
}

/// The reply to a combination refused with `message`, handing both
/// ingredients back.
pub open spec fn refusal(message: Seq<char>, parts: (ComplexResourceType, GenericResource, GenericResource), reply: Option<PlanetToExplorer>) -> bool {
    reply matches Some(PlanetToExplorer::CombineResourceResponse { complex_response: Err((m, a, b)) })
        && m@ == message && a == parts.1 && b == parts.2
}

/// The state after a cell at index `i` was used up: that cell is
/// discharged, the rocket is as it was.
pub open spec fn used_cell(before: PlanetState, after: PlanetState, i: int) -> bool {
    &&& planet_cells(after) == planet_cells(before).update(i, false)
    &&& planet_has_rocket(after) == planet_has_rocket(before)
    &&& planet_rocket_allowed(after) == planet_rocket_allowed(before)
}

/// The answer to a generation of `resource` by a planet with these
/// recipes, and the state after it: no answer without a charged cell; the
/// resource, for the first charged cell, with the recipe; an empty answer
/// without the recipe.
pub open spec fn generation_answered(before: PlanetState, after: PlanetState, recipes: Set<BasicResourceType>,
    resource: BasicResourceType, reply: Option<PlanetToExplorer>) -> bool {
    let cells = planet_cells(before);
    if !has_cell(cells, true) {
        reply is None && after == before
    } else if recipes.contains(resource) {
        &&& reply matches Some(PlanetToExplorer::GenerateResourceResponse { resource: Some(r) })
        &&& basic_kind(r) == resource
        &&& used_cell(before, after, first_cell(cells, true))
    } else {
        reply matches Some(PlanetToExplorer::GenerateResourceResponse { resource: None }) && after == before
    }
}

/// The answer to a combination request by a planet with these recipes, and
/// the state after it: the no-charge refusal without a charged cell; the
/// no-recipe refusal for all but robots; a robot, for the first charged
/// cell, with the robot recipe; the ingredients back, with the
/// combinator's missing-recipe error, without it.
pub open spec fn combination_answered(before: PlanetState, after: PlanetState, recipes: Set<ComplexResourceType>,
    req: ComplexResourceRequest, reply: Option<PlanetToExplorer>) -> bool {
    let cells = planet_cells(before);
    let parts = request_parts(req);
    if !has_cell(cells, true) {
        refusal(no_charge_message(parts.0), parts, reply) && after == before
    } else if parts.0 != ComplexResourceType::Robot {
        refusal(no_recipe_message(parts.0), parts, reply) && after == before
    } else if recipes.contains(ComplexResourceType::Robot) {
        &&& reply matches Some(PlanetToExplorer::CombineResourceResponse { complex_response: Ok(c) })
        &&& complex_kind(c) == ComplexResourceType::Robot
        &&& used_cell(before, after, first_cell(cells, true))
    } else {
        &&& reply matches Some(PlanetToExplorer::CombineResourceResponse { complex_response: Err((m, a, b)) })
        &&& m@ == no_robot_recipe_message()
        &&& a == parts.1 && b == parts.2
        &&& after == before
    }
}

/// The planet's AI: whether it has been started or stopped.
pub struct StargazersAI {
    pub started: bool,
    pub stopped: bool,
}

impl StargazersAI {
    /// A planet AI not yet started.
    pub fn new() -> (ai: StargazersAI)
        ensures
            !ai.started,
            !ai.stopped,
    {
        StargazersAI { started: false, stopped: false }
    }

    pub fn on_start(&mut self)
        ensures
            final(self).started,
            !final(self).stopped,
    {
        self.started = true;
        self.stopped = false;
    }

    pub fn on_stop(&mut self)
        ensures
            !final(self).started,
            final(self).stopped,
    {
        self.stopped = true;
        self.started = false;
    }

    /// A sun ray charges the first empty cell; with every cell charged it is
    /// lost.
    pub fn handle_sunray(&mut self, state: &mut PlanetState, sunray: Sunray)
        ensures
            *final(self) == *old(self),
            planet_cells(*final(state)) == after_sunray(planet_cells(*old(state))),
            planet_has_rocket(*final(state)) == planet_has_rocket(*old(state)),
            planet_rocket_allowed(*final(state)) == planet_rocket_allowed(*old(state)),
    {
        let _ = charge_cell(state, sunray);
    }

    /// The state for the orchestrator: each cell's charge, how many are
    /// charged, whether a rocket is held.
    pub fn handle_internal_state_req(&mut self, state: &PlanetState) -> (d: DummyPlanetState)
        ensures
            *final(self) == *old(self),
            d.energy_cells@ == planet_cells(*state),
            d.charged_cells_count == count_charged(planet_cells(*state)),
            d.has_rocket == planet_has_rocket(*state),
    {
        to_dummy(state)
    }

    /// Against an asteroid the planet builds a rocket from its first charged
    /// cell, which is discharged, and launches it; with no charged cell, or
    /// when the rocket cannot be built, it has no defence and its state is
    /// left as it was.
    pub fn handle_asteroid(&mut self, state: &mut PlanetState) -> (r: Option<Rocket>)
        ensures
            *final(self) == *old(self),
            r is Some <==> asteroid_launches(*old(state)),
            asteroid_launches(*old(state)) ==> planet_cells(*final(state))
                == planet_cells(*old(state)).update(first_cell(planet_cells(*old(state)), true), false),
            asteroid_launches(*old(state)) ==> !planet_has_rocket(*final(state)),
            asteroid_launches(*old(state)) ==> planet_rocket_allowed(*final(state)) == planet_rocket_allowed(*old(state)),
            !asteroid_launches(*old(state)) ==> *final(state) == *old(state),
    {
        let ghost before = *state;
        match full_cell(state) {
            None => None,
            Some((_cell, idx)) => {
                proof {
                    lemma_first_at_unique(planet_cells(before), true, idx as int, first_cell(planet_cells(before), true));
                }
                match build_rocket(state, idx) {
                    Ok(()) => take_rocket(state),
                    Err(_) => None,
                }
            },
        }
    }

    /// Answers an explorer: the recipe lists, a generated resource, a
    /// combined robot or a refusal that hands the ingredients back, the
    /// number of energy cells. A generation with no charged cell gets no
    /// answer; only a generation or a combination that succeeds uses a cell.
    pub fn handle_explorer_msg(&mut self, state: &mut PlanetState, generator: &Generator, combinator: &Combinator, msg: ExplorerToPlanet)
        -> (reply: Option<PlanetToExplorer>)
        ensures
            *final(self) == *old(self),
            reply is None <==> (msg is GenerateResourceRequest && !has_cell(planet_cells(*old(state)), true)),
            match msg {
                ExplorerToPlanet::SupportedResourceRequest { .. } => {
                    &&& reply matches Some(PlanetToExplorer::SupportedResourceResponse { resource_list })
                    &&& resource_list@ == generator_set(*generator)
                    &&& *final(state) == *old(state)
                },
                ExplorerToPlanet::SupportedCombinationRequest { .. } => {
                    &&& reply matches Some(PlanetToExplorer::SupportedCombinationResponse { combination_list })
                    &&& combination_list@ == combinator_set(*combinator)
                    &&& *final(state) == *old(state)
                },
                ExplorerToPlanet::GenerateResourceRequest { resource, .. } =>
                    generation_answered(*old(state), *final(state), generator_set(*generator), resource, reply),
                ExplorerToPlanet::CombineResourceRequest { msg: req, .. } =>
                    combination_answered(*old(state), *final(state), combinator_set(*combinator), req, reply),
                ExplorerToPlanet::AvailableEnergyCellRequest { .. } => {
                    &&& reply matches Some(PlanetToExplorer::AvailableEnergyCellResponse { available_cells })
                    &&& available_cells == planet_cells(*old(state)).len() as u32
                    &&& *final(state) == *old(state)
                },
            },
    {
        match msg {
            ExplorerToPlanet::SupportedResourceRequest { .. } => {
                Some(PlanetToExplorer::SupportedResourceResponse { resource_list: generator_recipes(generator) })
            },
            ExplorerToPlanet::SupportedCombinationRequest { .. } => {
                Some(PlanetToExplorer::SupportedCombinationResponse { combination_list: combinator_recipes(combinator) })
            },
            ExplorerToPlanet::GenerateResourceRequest { resource, .. } => {
                match full_cell(state) {
                    None => None,
                    Some((cell, _)) => {
                        let made = match resource {
                            BasicResourceType::Oxygen => match make_oxygen(generator, cell) {
                                Ok(o) => Some(BasicResource::Oxygen(o)),
                                Err(_) => None,
                            },
                            BasicResourceType::Carbon => match make_carbon(generator, cell) {
                                Ok(c) => Some(BasicResource::Carbon(c)),
                                Err(_) => None,
                            },
                            BasicResourceType::Hydrogen => match make_hydrogen(generator, cell) {
                                Ok(h) => Some(BasicResource::Hydrogen(h)),
                                Err(_) => None,
                            },
                            BasicResourceType::Silicon => match make_silicon(generator, cell) {
                                Ok(s) => Some(BasicResource::Silicon(s)),
                                Err(_) => None,
                            },
                        };
                        Some(PlanetToExplorer::GenerateResourceResponse { resource: made })
                    },
                }
            },
            ExplorerToPlanet::CombineResourceRequest { msg: req, .. } => {
                let ghost parts = request_parts(req);
                match full_cell(state) {
                    None => {
                        let (kind, r1, r2) = combine_parts(req);
                        Some(PlanetToExplorer::CombineResourceResponse { complex_response: Err((no_charge_refusal(kind), r1, r2)) })
                    },
                    Some((cell, _)) => {
                        match req {
                            ComplexResourceRequest::Robot(silicon, life) => {
                                match make_robot(combinator, silicon, life, cell) {
                                    Ok(robot) => Some(PlanetToExplorer::CombineResourceResponse {
                                        complex_response: Ok(ComplexResource::Robot(robot)),
                                    }),
                                    Err((m, s, l)) => Some(PlanetToExplorer::CombineResourceResponse {
                                        complex_response: Err((m,
                                            GenericResource::BasicResources(BasicResource::Silicon(s)),
                                            GenericResource::ComplexResources(ComplexResource::Life(l)))),
                                    }),
                                }
                            },
                            _ => {
                                let (kind, r1, r2) = combine_parts(req);
                                Some(PlanetToExplorer::CombineResourceResponse { complex_response: Err((no_recipe_refusal(kind), r1, r2)) })
                            },
                        }
                    },
                }
            },
            ExplorerToPlanet::AvailableEnergyCellRequest { .. } => {
                let n = cells_count(state);
                Some(PlanetToExplorer::AvailableEnergyCellResponse { available_cells: n as u32 })
            },
        }
    }
}

} // verus!
