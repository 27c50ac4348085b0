//! Manual operations requested from the viewer: the viewer only emits an
//! intent, the simulation decides whether and how to carry it out.

use vstd::prelude::*;
use common_game::components::resource::{BasicResourceType, ComplexResourceType};

verus! {

/// A manual operation the viewer asked for. Ids refer to the same
/// planet/explorer ids carried in the galaxy snapshots.
#[derive(Clone, Copy, Debug, PartialEq, Eq)]
pub enum GalaxyCommand {
    /// Charge a cell on this planet (the manual equivalent of an automatic sun ray).
    Sunray { planet_id: u32 },
    /// Throw an asteroid at this planet.
    Asteroid { planet_id: u32 },
    /// Start (`true`) or stop (`false`) the AIs.
    SetAi { planet_id: u32, running: bool },
    /// Destroy this planet.
    Kill { planet_id: u32 },
    /// Send an explorer to a planet.
    MoveExplorer { explorer_id: u32, to_planet: u32 },
    /// Kill an explorer.
    KillExplorer { explorer_id: u32 },
    /// Reset an explorer's AI (wipes its learned knowledge).
    ResetExplorer { explorer_id: u32 },
    /// Ask what basic resources the explorer's current planet supports.
    SupportedResources { explorer_id: u32 },
    /// Ask what combination recipes the explorer's current planet supports.
    SupportedCombinations { explorer_id: u32 },
    /// Ask the explorer's current planet to generate a basic resource.
    Generate { explorer_id: u32, resource: BasicResourceType },
    /// Ask the explorer's current planet to combine a complex resource.
    Combine { explorer_id: u32, resource: ComplexResourceType },
    /// Ask the explorer to report its bag contents.
    BagContent { explorer_id: u32 },
}

/// The basic resources a user can pick for a generate command, in the order
/// the interface cycles through them.
pub open spec fn spec_basic_choices() -> Seq<BasicResourceType> {
    seq![BasicResourceType::Oxygen, BasicResourceType::Hydrogen, BasicResourceType::Carbon, BasicResourceType::Silicon]
}

/// The complex resources a user can pick for a combine command, in the order
/// the interface cycles through them.
pub open spec fn spec_complex_choices() -> Seq<ComplexResourceType> {
    seq![
        ComplexResourceType::Water,
        ComplexResourceType::Diamond,
        ComplexResourceType::Life,
        ComplexResourceType::Robot,
        ComplexResourceType::Dolphin,
        ComplexResourceType::AIPartner,
    ]
}

pub fn basic_choices() -> (c: [BasicResourceType; 4])
    ensures
        c@ == spec_basic_choices(),
{
    let c = [BasicResourceType::Oxygen, BasicResourceType::Hydrogen, BasicResourceType::Carbon, BasicResourceType::Silicon];
    assert(c@ =~= spec_basic_choices());
    c
}

pub fn complex_choices() -> (c: [ComplexResourceType; 6])
    ensures
        c@ == spec_complex_choices(),
{
    let c = [
        ComplexResourceType::Water,
        ComplexResourceType::Diamond,
        ComplexResourceType::Life,
        ComplexResourceType::Robot,
        ComplexResourceType::Dolphin,
        ComplexResourceType::AIPartner,
    ];
    assert(c@ =~= spec_complex_choices());
    c
}

} // verus!
