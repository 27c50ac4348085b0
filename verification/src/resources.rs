//! Resources of the game: kinds, recipe ingredients, and sets of kinds.
//!
//! The resource values themselves come from `common_game`. Their enums are
//! declared here with their variants visible, so the kind of a value can be
//! read by matching; the payload structs stay opaque.

use vstd::prelude::*;
use common_game::components::resource::{
    AIPartner, BasicResource, BasicResourceType, Carbon, ComplexResource, ComplexResourceRequest,
    ComplexResourceType, Diamond, Dolphin, GenericResource, Hydrogen, Life, Oxygen, Robot,
    ResourceType, Silicon, Water,
};

verus! {

broadcast use vstd::seq_lib::lemma_seq_contains_after_push;

#[verifier::external_type_specification]
pub struct ExBasicResourceType(BasicResourceType);

#[verifier::external_type_specification]
pub struct ExComplexResourceType(ComplexResourceType);

#[verifier::external_type_specification]
pub struct ExResourceType(ResourceType);

#[verifier::external_type_specification]
#[verifier::external_body]
pub struct ExOxygen(Oxygen);

#[verifier::external_type_specification]
#[verifier::external_body]
pub struct ExHydrogen(Hydrogen);

#[verifier::external_type_specification]
#[verifier::external_body]
pub struct ExCarbon(Carbon);

#[verifier::external_type_specification]
#[verifier::external_body]
pub struct ExSilicon(Silicon);

#[verifier::external_type_specification]
#[verifier::external_body]
pub struct ExDiamond(Diamond);

#[verifier::external_type_specification]
#[verifier::external_body]
pub struct ExWater(Water);

#[verifier::external_type_specification]
#[verifier::external_body]
pub struct ExLife(Life);

#[verifier::external_type_specification]
#[verifier::external_body]
pub struct ExRobot(Robot);

#[verifier::external_type_specification]
#[verifier::external_body]
pub struct ExDolphin(Dolphin);

#[verifier::external_type_specification]
#[verifier::external_body]
pub struct ExAIPartner(AIPartner);

#[verifier::external_type_specification]
pub struct ExBasicResource(BasicResource);

#[verifier::external_type_specification]
pub struct ExComplexResource(ComplexResource);

#[verifier::external_type_specification]
pub struct ExGenericResource(GenericResource);

#[verifier::external_type_specification]
pub struct ExComplexResourceRequest(ComplexResourceRequest);

// =========================================================================
// KINDS OF VALUES
// =========================================================================

/// The kind of a basic resource value.
pub open spec fn basic_kind(r: BasicResource) -> BasicResourceType {
    match r {
        BasicResource::Oxygen(_) => BasicResourceType::Oxygen,
        BasicResource::Hydrogen(_) => BasicResourceType::Hydrogen,
        BasicResource::Carbon(_) => BasicResourceType::Carbon,
        BasicResource::Silicon(_) => BasicResourceType::Silicon,
    }
}

/// The kind of a complex resource value.
pub open spec fn complex_kind(r: ComplexResource) -> ComplexResourceType {
    match r {
        ComplexResource::Diamond(_) => ComplexResourceType::Diamond,
        ComplexResource::Water(_) => ComplexResourceType::Water,
        ComplexResource::Life(_) => ComplexResourceType::Life,
        ComplexResource::Robot(_) => ComplexResourceType::Robot,
        ComplexResource::Dolphin(_) => ComplexResourceType::Dolphin,
        ComplexResource::AIPartner(_) => ComplexResourceType::AIPartner,
    }
}

/// The kind of a basic resource value (`BasicResource::get_type`).
pub fn basic_type_of(r: &BasicResource) -> (k: BasicResourceType)
    ensures
        k == basic_kind(*r),
{
    match r {
        BasicResource::Oxygen(_) => BasicResourceType::Oxygen,
        BasicResource::Hydrogen(_) => BasicResourceType::Hydrogen,
        BasicResource::Carbon(_) => BasicResourceType::Carbon,
        BasicResource::Silicon(_) => BasicResourceType::Silicon,
    }
}

/// The kind of a complex resource value (`ComplexResource::get_type`).
pub fn complex_type_of(r: &ComplexResource) -> (k: ComplexResourceType)
    ensures
        k == complex_kind(*r),
{
    match r {
        ComplexResource::Diamond(_) => ComplexResourceType::Diamond,
        ComplexResource::Water(_) => ComplexResourceType::Water,
        ComplexResource::Life(_) => ComplexResourceType::Life,
        ComplexResource::Robot(_) => ComplexResourceType::Robot,
        ComplexResource::Dolphin(_) => ComplexResourceType::Dolphin,
        ComplexResource::AIPartner(_) => ComplexResourceType::AIPartner,
    }
}

// =========================================================================
// KIND INDICES AND NAMES
// =========================================================================

/// Position of a basic kind in declaration order.
pub open spec fn basic_index(t: BasicResourceType) -> int {
    match t {
        BasicResourceType::Oxygen => 0,
        BasicResourceType::Hydrogen => 1,
        BasicResourceType::Carbon => 2,
        BasicResourceType::Silicon => 3,
    }
}

/// Position of a complex kind in declaration order.
pub open spec fn complex_index(t: ComplexResourceType) -> int {
    match t {
        ComplexResourceType::Diamond => 0,
        ComplexResourceType::Water => 1,
        ComplexResourceType::Life => 2,
        ComplexResourceType::Robot => 3,
        ComplexResourceType::Dolphin => 4,
        ComplexResourceType::AIPartner => 5,
    }
}

pub fn basic_index_of(t: BasicResourceType) -> (i: usize)
    ensures
        i == basic_index(t),
        i < 4,
{
    match t {
        BasicResourceType::Oxygen => 0,
        BasicResourceType::Hydrogen => 1,
        BasicResourceType::Carbon => 2,
        BasicResourceType::Silicon => 3,
    }
}

pub fn complex_index_of(t: ComplexResourceType) -> (i: usize)
    ensures
        i == complex_index(t),
        i < 6,
{
    match t {
        ComplexResourceType::Diamond => 0,
        ComplexResourceType::Water => 1,
        ComplexResourceType::Life => 2,
        ComplexResourceType::Robot => 3,
        ComplexResourceType::Dolphin => 4,
        ComplexResourceType::AIPartner => 5,
    }
}

/// The basic kind at a declaration-order position.
pub open spec fn basic_at(i: int) -> BasicResourceType {
    if i == 0 { BasicResourceType::Oxygen }
    else if i == 1 { BasicResourceType::Hydrogen }
    else if i == 2 { BasicResourceType::Carbon }
    else { BasicResourceType::Silicon }
}

/// The complex kind at a declaration-order position.
pub open spec fn complex_at(i: int) -> ComplexResourceType {
    if i == 0 { ComplexResourceType::Diamond }
    else if i == 1 { ComplexResourceType::Water }
    else if i == 2 { ComplexResourceType::Life }
    else if i == 3 { ComplexResourceType::Robot }
    else if i == 4 { ComplexResourceType::Dolphin }
    else { ComplexResourceType::AIPartner }
}

pub fn basic_at_index(i: usize) -> (t: BasicResourceType)
    requires
        i < 4,
    ensures
        t == basic_at(i as int),
        basic_index(t) == i,
{
    if i == 0 { BasicResourceType::Oxygen }
    else if i == 1 { BasicResourceType::Hydrogen }
    else if i == 2 { BasicResourceType::Carbon }
    else { BasicResourceType::Silicon }
}

pub fn complex_at_index(i: usize) -> (t: ComplexResourceType)
    requires
        i < 6,
    ensures
        t == complex_at(i as int),
        complex_index(t) == i,
{
    if i == 0 { ComplexResourceType::Diamond }
    else if i == 1 { ComplexResourceType::Water }
    else if i == 2 { ComplexResourceType::Life }
    else if i == 3 { ComplexResourceType::Robot }
    else if i == 4 { ComplexResourceType::Dolphin }
    else { ComplexResourceType::AIPartner }
}

/// The printed name of a basic kind.
pub open spec fn basic_name(t: BasicResourceType) -> Seq<char> {
    match t {
        BasicResourceType::Oxygen => "Oxygen"@,
        BasicResourceType::Hydrogen => "Hydrogen"@,
        BasicResourceType::Carbon => "Carbon"@,
        BasicResourceType::Silicon => "Silicon"@,
    }
}

/// The printed name of a complex kind.
pub open spec fn complex_name(t: ComplexResourceType) -> Seq<char> {
    match t {
        ComplexResourceType::Diamond => "Diamond"@,
        ComplexResourceType::Water => "Water"@,
        ComplexResourceType::Life => "Life"@,
        ComplexResourceType::Robot => "Robot"@,
        ComplexResourceType::Dolphin => "Dolphin"@,
        ComplexResourceType::AIPartner => "AIPartner"@,
    }
}

pub fn basic_name_of(t: BasicResourceType) -> (s: &'static str)
    ensures
        s@ == basic_name(t),
{
    match t {
        BasicResourceType::Oxygen => "Oxygen",
        BasicResourceType::Hydrogen => "Hydrogen",
        BasicResourceType::Carbon => "Carbon",
        BasicResourceType::Silicon => "Silicon",
    }
}

pub fn complex_name_of(t: ComplexResourceType) -> (s: &'static str)
    ensures
        s@ == complex_name(t),
{
    match t {
        ComplexResourceType::Diamond => "Diamond",
        ComplexResourceType::Water => "Water",
        ComplexResourceType::Life => "Life",
        ComplexResourceType::Robot => "Robot",
        ComplexResourceType::Dolphin => "Dolphin",
        ComplexResourceType::AIPartner => "AIPartner",
    }
}

pub fn same_basic(a: BasicResourceType, b: BasicResourceType) -> (r: bool)
    ensures
        r == (a == b),
{
    basic_index_of(a) == basic_index_of(b)
}

pub fn same_complex(a: ComplexResourceType, b: ComplexResourceType) -> (r: bool)
    ensures
        r == (a == b),
{
    complex_index_of(a) == complex_index_of(b)
}

// =========================================================================
// SETS OF KINDS
// =========================================================================

/// A set of basic kinds (what a planet can generate).
#[derive(Clone, Copy, Debug)]
pub struct BasicSet {
    has: [bool; 4],
}

/// A set of complex kinds (what a planet can combine).
#[derive(Clone, Copy, Debug)]
pub struct ComplexSet {
    has: [bool; 6],
}

impl View for BasicSet {
    type V = Set<BasicResourceType>;

    closed spec fn view(&self) -> Set<BasicResourceType> {
        Set::new(|t: BasicResourceType| 0 <= basic_index(t) < self.has@.len() && self.has@[basic_index(t)])
    }
}

impl View for ComplexSet {
    type V = Set<ComplexResourceType>;

    closed spec fn view(&self) -> Set<ComplexResourceType> {
        Set::new(|t: ComplexResourceType| 0 <= complex_index(t) < self.has@.len() && self.has@[complex_index(t)])
    }
}

impl BasicSet {
    pub fn empty() -> (s: BasicSet)
        ensures
            s@ == Set::<BasicResourceType>::empty(),
    {
        let s = BasicSet { has: [false, false, false, false] };
        assert(s@ =~= Set::<BasicResourceType>::empty());
        s
    }

    pub fn insert(&mut self, t: BasicResourceType)
        ensures
            final(self)@ == old(self)@.insert(t),
    {
        let i = basic_index_of(t);
        self.has.set(i, true);
        assert(self@ =~= old(self)@.insert(t));
    }

    pub fn contains(&self, t: BasicResourceType) -> (b: bool)
        ensures
            b == self@.contains(t),
    {
        self.has[basic_index_of(t)]
    }

    pub fn is_empty(&self) -> (b: bool)
        ensures
            b == (self@.len() == 0),
    {
        proof {
            lemma_basic_set_len(self@);
        }
        !(self.has[0] || self.has[1] || self.has[2] || self.has[3])
    }

    /// Number of kinds in the set.
    pub fn len(&self) -> (n: usize)
        ensures
            n == self@.len(),
    {
        proof {
            lemma_basic_set_len(self@);
        }
        let mut n: usize = 0;
        if self.has[0] { n = n + 1; }
        if self.has[1] { n = n + 1; }
        if self.has[2] { n = n + 1; }
        if self.has[3] { n = n + 1; }
        n
    }

    /// The kinds in the set, in declaration order.
    pub fn to_vec(&self) -> (v: Vec<BasicResourceType>)
        ensures
            forall|t: BasicResourceType| v@.contains(t) <==> self@.contains(t),
            forall|i: int, j: int| 0 <= i < j < v@.len() ==> basic_index(v@[i]) < basic_index(v@[j]),
    {
        let mut v: Vec<BasicResourceType> = Vec::new();
        let mut i: usize = 0;
        while i < 4
            invariant
                i <= 4,
                self.has@.len() == 4,
                forall|k: int| 0 <= k < v@.len() ==> basic_index(#[trigger] v@[k]) < i,
                forall|t: BasicResourceType| basic_index(t) < i ==> (v@.contains(t) <==> self@.contains(t)),
                forall|a: int, b: int| 0 <= a < b < v@.len() ==> basic_index(v@[a]) < basic_index(v@[b]),
            decreases 4 - i,
        {
            let t = basic_at_index(i);
            let ghost v_before = v@;
            if self.has[i] {
                v.push(t);
            }
            proof {
                assert forall|u: BasicResourceType| basic_index(u) < i + 1 implies (v@.contains(u) <==> self@.contains(u)) by {
                    if basic_index(u) == i {
                        assert(u == t);
                        if v@.contains(u) && !self.has@[i as int] {
                            let k = choose|k: int| 0 <= k < v@.len() && v@[k] == u;
                            assert(basic_index(v@[k]) < i);
                        }
                    } else {
                        assert(u != t);
                        assert(v_before.contains(u) <==> self@.contains(u));
                    }
                }
            }
            i = i + 1;
        }
        v
    }
}

impl ComplexSet {
    pub fn empty() -> (s: ComplexSet)
        ensures
            s@ == Set::<ComplexResourceType>::empty(),
    {
        let s = ComplexSet { has: [false, false, false, false, false, false] };
        assert(s@ =~= Set::<ComplexResourceType>::empty());
        s
    }

    pub fn insert(&mut self, t: ComplexResourceType)
        ensures
            final(self)@ == old(self)@.insert(t),
    {
        let i = complex_index_of(t);
        self.has.set(i, true);
        assert(self@ =~= old(self)@.insert(t));
    }

    pub fn contains(&self, t: ComplexResourceType) -> (b: bool)
        ensures
            b == self@.contains(t),
    {
        self.has[complex_index_of(t)]
    }

    pub fn is_empty(&self) -> (b: bool)
        ensures
            b == (self@.len() == 0),
    {
        proof {
            lemma_complex_set_len(self@);
        }
        !(self.has[0] || self.has[1] || self.has[2] || self.has[3] || self.has[4] || self.has[5])
    }

    /// Number of kinds in the set.
    pub fn len(&self) -> (n: usize)
        ensures
            n == self@.len(),
    {
        proof {
            lemma_complex_set_len(self@);
        }
        let mut n: usize = 0;
        if self.has[0] { n = n + 1; }
        if self.has[1] { n = n + 1; }
        if self.has[2] { n = n + 1; }
        if self.has[3] { n = n + 1; }
        if self.has[4] { n = n + 1; }
        if self.has[5] { n = n + 1; }
        n
    }

    /// The kinds in the set, in declaration order.
    pub fn to_vec(&self) -> (v: Vec<ComplexResourceType>)
        ensures
            forall|t: ComplexResourceType| v@.contains(t) <==> self@.contains(t),
            forall|i: int, j: int| 0 <= i < j < v@.len() ==> complex_index(v@[i]) < complex_index(v@[j]),
    {
        let mut v: Vec<ComplexResourceType> = Vec::new();
        let mut i: usize = 0;
        while i < 6
            invariant
                i <= 6,
                self.has@.len() == 6,
                forall|k: int| 0 <= k < v@.len() ==> complex_index(#[trigger] v@[k]) < i,
                forall|t: ComplexResourceType| complex_index(t) < i ==> (v@.contains(t) <==> self@.contains(t)),
                forall|a: int, b: int| 0 <= a < b < v@.len() ==> complex_index(v@[a]) < complex_index(v@[b]),
            decreases 6 - i,
        {
            let t = complex_at_index(i);
            let ghost v_before = v@;
            if self.has[i] {
                v.push(t);
            }
            proof {
                assert forall|u: ComplexResourceType| complex_index(u) < i + 1 implies (v@.contains(u) <==> self@.contains(u)) by {
                    if complex_index(u) == i {
                        assert(u == t);
                        if v@.contains(u) && !self.has@[i as int] {
                            let k = choose|k: int| 0 <= k < v@.len() && v@[k] == u;
                            assert(complex_index(v@[k]) < i);
                        }
                    } else {
                        assert(u != t);
                        assert(v_before.contains(u) <==> self@.contains(u));
                    }
                }
            }
            i = i + 1;
        }
        v
    }
}

/// The size of a set of basic kinds, counted by membership.
pub open spec fn basic_set_size(s: Set<BasicResourceType>) -> nat {
    (if s.contains(BasicResourceType::Oxygen) { 1nat } else { 0nat })
    + (if s.contains(BasicResourceType::Hydrogen) { 1nat } else { 0nat })
    + (if s.contains(BasicResourceType::Carbon) { 1nat } else { 0nat })
    + (if s.contains(BasicResourceType::Silicon) { 1nat } else { 0nat })
}

/// The size of a set of complex kinds, counted by membership.
pub open spec fn complex_set_size(s: Set<ComplexResourceType>) -> nat {
    (if s.contains(ComplexResourceType::Diamond) { 1nat } else { 0nat })
    + (if s.contains(ComplexResourceType::Water) { 1nat } else { 0nat })
    + (if s.contains(ComplexResourceType::Life) { 1nat } else { 0nat })
    + (if s.contains(ComplexResourceType::Robot) { 1nat } else { 0nat })
    + (if s.contains(ComplexResourceType::Dolphin) { 1nat } else { 0nat })
    + (if s.contains(ComplexResourceType::AIPartner) { 1nat } else { 0nat })
}

proof fn lemma_basic_set_len(s: Set<BasicResourceType>)
    ensures
        s.finite(),
        s.len() == basic_set_size(s),
{
    let all = set![BasicResourceType::Oxygen, BasicResourceType::Hydrogen, BasicResourceType::Carbon, BasicResourceType::Silicon];
    assert(s.subset_of(all)) by {
        assert forall|t: BasicResourceType| s.contains(t) implies all.contains(t) by {
            match t {
                BasicResourceType::Oxygen => {},
                BasicResourceType::Hydrogen => {},
                BasicResourceType::Carbon => {},
                BasicResourceType::Silicon => {},
            }
        }
    }
    vstd::set_lib::lemma_len_subset(s, all);
    let s0 = Set::<BasicResourceType>::empty();
    let s1 = if s.contains(BasicResourceType::Oxygen) { s0.insert(BasicResourceType::Oxygen) } else { s0 };
    let s2 = if s.contains(BasicResourceType::Hydrogen) { s1.insert(BasicResourceType::Hydrogen) } else { s1 };
    let s3 = if s.contains(BasicResourceType::Carbon) { s2.insert(BasicResourceType::Carbon) } else { s2 };
    let s4 = if s.contains(BasicResourceType::Silicon) { s3.insert(BasicResourceType::Silicon) } else { s3 };
    assert(s4 =~= s) by {
        assert forall|t: BasicResourceType| s.contains(t) <==> s4.contains(t) by {
            match t {
                BasicResourceType::Oxygen => {},
                BasicResourceType::Hydrogen => {},
                BasicResourceType::Carbon => {},
                BasicResourceType::Silicon => {},
            }
        }
    }
}

proof fn lemma_complex_set_len(s: Set<ComplexResourceType>)
    ensures
        s.finite(),
        s.len() == complex_set_size(s),
{
    let all = set![ComplexResourceType::Diamond, ComplexResourceType::Water, ComplexResourceType::Life,
        ComplexResourceType::Robot, ComplexResourceType::Dolphin, ComplexResourceType::AIPartner];
    assert(s.subset_of(all)) by {
        assert forall|t: ComplexResourceType| s.contains(t) implies all.contains(t) by {
            match t {
                ComplexResourceType::Diamond => {},
                ComplexResourceType::Water => {},
                ComplexResourceType::Life => {},
                ComplexResourceType::Robot => {},
                ComplexResourceType::Dolphin => {},
                ComplexResourceType::AIPartner => {},
            }
        }
    }
    vstd::set_lib::lemma_len_subset(s, all);
    let s0 = Set::<ComplexResourceType>::empty();
    let s1 = if s.contains(ComplexResourceType::Diamond) { s0.insert(ComplexResourceType::Diamond) } else { s0 };
    let s2 = if s.contains(ComplexResourceType::Water) { s1.insert(ComplexResourceType::Water) } else { s1 };
    let s3 = if s.contains(ComplexResourceType::Life) { s2.insert(ComplexResourceType::Life) } else { s2 };
    let s4 = if s.contains(ComplexResourceType::Robot) { s3.insert(ComplexResourceType::Robot) } else { s3 };
    let s5 = if s.contains(ComplexResourceType::Dolphin) { s4.insert(ComplexResourceType::Dolphin) } else { s4 };
    let s6 = if s.contains(ComplexResourceType::AIPartner) { s5.insert(ComplexResourceType::AIPartner) } else { s5 };
    assert(s6 =~= s) by {
        assert forall|t: ComplexResourceType| s.contains(t) <==> s6.contains(t) by {
            match t {
                ComplexResourceType::Diamond => {},
                ComplexResourceType::Water => {},
                ComplexResourceType::Life => {},
                ComplexResourceType::Robot => {},
                ComplexResourceType::Dolphin => {},
                ComplexResourceType::AIPartner => {},
            }
        }
    }
}

} // verus!
