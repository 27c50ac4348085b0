//! Planet families as the viewer sees them, and the snapshot data contract
//! a simulation hands to the viewer.

use vstd::prelude::*;

verus! {

/// The four planet families from the game, as sent over the snapshot feed.
#[derive(Clone, Copy, Debug, PartialEq, Eq, Structural)]
pub enum PlanetKind {
    A,
    B,
    C,
    D,
}

impl PlanetKind {
    /// Best-effort guess of the kind from the number of energy cells.
    ///
    /// Types A and D have five cells, B and C have one. This cannot tell A from D
    /// or B from C, so prefer passing the real kind when you know it.
    pub fn from_cell_count(cells: usize) -> (kind: PlanetKind)
        ensures
            kind == (if cells >= 5 { PlanetKind::A } else { PlanetKind::B }),
    {
        if cells >= 5 {
            PlanetKind::A
        } else {
            PlanetKind::B
        }
    }
}

/// The four planet families, with the facets the viewer cares about.
#[derive(Clone, Copy, Debug, PartialEq, Eq, Structural)]
pub enum PlanetType {
    A,
    B,
    C,
    D,
}

/// Number of energy cells a planet of type `t` owns.
pub open spec fn spec_cell_count(t: PlanetType) -> nat {
    match t {
        PlanetType::A | PlanetType::D => 5,
        PlanetType::B | PlanetType::C => 1,
    }
}

/// Whether a planet of type `t` may hold a rocket.
pub open spec fn spec_can_have_rocket(t: PlanetType) -> bool {
    t == PlanetType::A || t == PlanetType::C
}

/// The one-line description of a planet type shown in the HUD.
pub open spec fn spec_info(t: PlanetType) -> Seq<char> {
    match t {
        PlanetType::A => "5 cells | 1 recipe | rockets | no combine"@,
        PlanetType::B => "1 cell | unlimited | no rockets | 1 combine"@,
        PlanetType::C => "1 cell | 1 recipe | rockets | 6 combines"@,
        PlanetType::D => "5 cells | unlimited | no rockets | no combine"@,
    }
}

/// The viewer type that a feed kind is drawn as.
pub open spec fn spec_type_of_kind(kind: PlanetKind) -> PlanetType {
    match kind {
        PlanetKind::A => PlanetType::A,
        PlanetKind::B => PlanetType::B,
        PlanetKind::C => PlanetType::C,
        PlanetKind::D => PlanetType::D,
    }
}

impl PlanetType {
    pub fn cell_count(self) -> (n: usize)
        ensures
            n == spec_cell_count(self),
    {
        match self {
            PlanetType::A | PlanetType::D => 5,
            PlanetType::B | PlanetType::C => 1,
        }
    }

    pub fn can_have_rocket(self) -> (b: bool)
        ensures
            b == spec_can_have_rocket(self),
    {
        matches!(self, PlanetType::A | PlanetType::C)
    }

    pub fn info(self) -> (text: &'static str)
        ensures
            text@ == spec_info(self),
    {
        match self {
            PlanetType::A => "5 cells | 1 recipe | rockets | no combine",
            PlanetType::B => "1 cell | unlimited | no rockets | 1 combine",
            PlanetType::C => "1 cell | 1 recipe | rockets | 6 combines",
            PlanetType::D => "5 cells | unlimited | no rockets | no combine",
        }
    }
}

impl From<PlanetKind> for PlanetType {
    fn from(kind: PlanetKind) -> (t: PlanetType) {
        match kind {
            PlanetKind::A => PlanetType::A,
            PlanetKind::B => PlanetType::B,
            PlanetKind::C => PlanetType::C,
            PlanetKind::D => PlanetType::D,
        }
    }
}

impl vstd::std_specs::convert::FromSpecImpl<PlanetKind> for PlanetType {
    open spec fn obeys_from_spec() -> bool {
        true
    }

    open spec fn from_spec(kind: PlanetKind) -> PlanetType {
        spec_type_of_kind(kind)
    }
}

/// A cosmetic element badge shown for each planet in the HUD.
#[derive(Clone, Copy, Debug, PartialEq, Eq, Structural)]
pub enum Element {
    Hydrogen,
    Oxygen,
    Carbon,
    Silicon,
}

/// The chemical symbol printed for an element badge.
pub open spec fn spec_symbol(e: Element) -> Seq<char> {
    match e {
        Element::Hydrogen => "H"@,
        Element::Oxygen => "O"@,
        Element::Carbon => "C"@,
        Element::Silicon => "Si"@,
    }
}

impl Element {
    pub const ALL: [Element; 4] = [Element::Hydrogen, Element::Oxygen, Element::Carbon, Element::Silicon];

    pub fn symbol(self) -> (s: &'static str)
        ensures
            s@ == spec_symbol(self),
    {
        match self {
            Element::Hydrogen => "H",
            Element::Oxygen => "O",
            Element::Carbon => "C",
            Element::Silicon => "Si",
        }
    }
}

/// State of a single planet at one instant.
#[derive(Clone, Debug)]
pub struct PlanetSnapshot {
    pub id: u32,
    pub kind: PlanetKind,
    /// One entry per energy cell, `true` when charged.
    pub cells: Vec<bool>,
    pub has_rocket: bool,
    /// `false` once the planet has been destroyed.
    pub alive: bool,
}

/// Where an explorer currently is.
#[derive(Clone, Debug)]
pub struct ExplorerSnapshot {
    pub id: u32,
    /// Id of the planet the explorer is visiting.
    pub at_planet: u32,
}

/// A full picture of the galaxy at one instant.
#[derive(Clone, Debug)]
pub struct GalaxySnapshot {
    pub planets: Vec<PlanetSnapshot>,
    pub explorers: Vec<ExplorerSnapshot>,
    /// Connections drawn between planets, as pairs of planet ids. Leave empty to
    /// let the viewer lay out a default ring.
    pub edges: Vec<(u32, u32)>,
}

impl GalaxySnapshot {
    /// An empty galaxy: no planets, no explorers, no edges.
    pub fn empty() -> (s: GalaxySnapshot)
        ensures
            s.planets@.len() == 0,
            s.explorers@.len() == 0,
            s.edges@.len() == 0,
    {
        GalaxySnapshot { planets: Vec::new(), explorers: Vec::new(), edges: Vec::new() }
    }
}

} // verus!
