//! An explorer's bag: the resources it carries, with a running tally per kind.

use vstd::prelude::*;
use common_game::components::resource::{
    BasicResource, BasicResourceType, ComplexResource, ComplexResourceType, GenericResource,
    ResourceType,
};
use crate::resources::{basic_kind, complex_kind, basic_index, complex_index, basic_type_of, complex_type_of, basic_index_of, complex_index_of, same_basic, same_complex};

verus! {

/// How many times `x` occurs in `s`.
pub open spec fn occurrences<A>(s: Seq<A>, x: A) -> nat
    decreases s.len(),
{
    if s.len() == 0 {
        0
    } else {
        occurrences(s.drop_last(), x) + if s.last() == x { 1nat } else { 0nat }
    }
}

pub proof fn lemma_occurrences_push<A>(s: Seq<A>, a: A, x: A)
    ensures
        occurrences(s.push(a), x) == occurrences(s, x) + if a == x { 1nat } else { 0nat },
{
    assert(s.push(a).drop_last() =~= s);
}

proof fn lemma_occurrences_le_len<A>(s: Seq<A>, x: A)
    ensures
        occurrences(s, x) <= s.len(),
    decreases s.len(),
{
    if s.len() > 0 {
        lemma_occurrences_le_len(s.drop_last(), x);
    }
}

proof fn lemma_occurrences_contains<A>(s: Seq<A>, x: A)
    ensures
        occurrences(s, x) > 0 <==> s.contains(x),
    decreases s.len(),
{
    if s.len() > 0 {
        lemma_occurrences_contains(s.drop_last(), x);
        if s.drop_last().contains(x) {
            let k = choose|k: int| 0 <= k < s.drop_last().len() && s.drop_last()[k] == x;
            assert(s[k] == x);
        }
        if s.contains(x) && s.last() != x {
            let k = choose|k: int| 0 <= k < s.len() && s[k] == x;
            assert(s.drop_last()[k] == x);
        }
    }
}

pub proof fn lemma_occurrences_remove<A>(s: Seq<A>, i: int, x: A)
    requires
        0 <= i < s.len(),
    ensures
        occurrences(s.remove(i), x) + (if s[i] == x { 1nat } else { 0nat }) == occurrences(s, x),
    decreases s.len(),
{
    if i == s.len() - 1 {
        assert(s.remove(i) =~= s.drop_last());
    } else {
        let t = s.drop_last();
        lemma_occurrences_remove(t, i, x);
        assert(s.remove(i) =~= t.remove(i).push(s.last()));
        lemma_occurrences_push(t.remove(i), s.last(), x);
    }
}

/// The kinds of the basic resources, in storage order.
pub open spec fn basic_kinds(s: Seq<BasicResource>) -> Seq<BasicResourceType> {
    s.map_values(|r: BasicResource| basic_kind(r))
}

/// The kinds of the complex resources, in storage order.
pub open spec fn complex_kinds(s: Seq<ComplexResource>) -> Seq<ComplexResourceType> {
    s.map_values(|r: ComplexResource| complex_kind(r))
}

/// How many basic resources of kind `t` the sequence holds.
pub open spec fn basic_count(s: Seq<BasicResource>, t: BasicResourceType) -> nat {
    occurrences(basic_kinds(s), t)
}

/// How many complex resources of kind `t` the sequence holds.
pub open spec fn complex_count(s: Seq<ComplexResource>, t: ComplexResourceType) -> nat {
    occurrences(complex_kinds(s), t)
}

/// 1 when `g` is a resource of kind `t`, else 0.
pub open spec fn generic_is(g: GenericResource, t: ResourceType) -> nat {
    match g {
        GenericResource::BasicResources(b) => if t == ResourceType::Basic(basic_kind(b)) { 1nat } else { 0nat },
        GenericResource::ComplexResources(c) => if t == ResourceType::Complex(complex_kind(c)) { 1nat } else { 0nat },
    }
}

/// Index of the first basic resource of kind `t`.
pub open spec fn first_basic(s: Seq<BasicResource>, t: BasicResourceType, i: int) -> bool {
    &&& 0 <= i < s.len()
    &&& basic_kind(s[i]) == t
    &&& forall|j: int| 0 <= j < i ==> basic_kind(#[trigger] s[j]) != t
}

/// Index of the first complex resource of kind `t`.
pub open spec fn first_complex(s: Seq<ComplexResource>, t: ComplexResourceType, i: int) -> bool {
    &&& 0 <= i < s.len()
    &&& complex_kind(s[i]) == t
    &&& forall|j: int| 0 <= j < i ==> complex_kind(#[trigger] s[j]) != t
}

proof fn lemma_basic_kinds_push(s: Seq<BasicResource>, r: BasicResource)
    ensures
        basic_kinds(s.push(r)) == basic_kinds(s).push(basic_kind(r)),
{
    assert(basic_kinds(s.push(r)) =~= basic_kinds(s).push(basic_kind(r)));
}

proof fn lemma_basic_kinds_remove(s: Seq<BasicResource>, i: int)
    requires
        0 <= i < s.len(),
    ensures
        basic_kinds(s.remove(i)) == basic_kinds(s).remove(i),
{
    assert(basic_kinds(s.remove(i)) =~= basic_kinds(s).remove(i));
}

proof fn lemma_complex_kinds_push(s: Seq<ComplexResource>, r: ComplexResource)
    ensures
        complex_kinds(s.push(r)) == complex_kinds(s).push(complex_kind(r)),
{
    assert(complex_kinds(s.push(r)) =~= complex_kinds(s).push(complex_kind(r)));
}

proof fn lemma_complex_kinds_remove(s: Seq<ComplexResource>, i: int)
    requires
        0 <= i < s.len(),
    ensures
        complex_kinds(s.remove(i)) == complex_kinds(s).remove(i),
{
    assert(complex_kinds(s.remove(i)) =~= complex_kinds(s).remove(i));
}

proof fn lemma_basic_count_le_len(s: Seq<BasicResource>, t: BasicResourceType)
    ensures
        basic_count(s, t) <= s.len(),
{
    lemma_occurrences_le_len(basic_kinds(s), t);
}

proof fn lemma_complex_count_le_len(s: Seq<ComplexResource>, t: ComplexResourceType)
    ensures
        complex_count(s, t) <= s.len(),
{
    lemma_occurrences_le_len(complex_kinds(s), t);
}

/// The resources an explorer carries, with a running tally per kind.
///
/// A kind gets a tally entry the first time a resource of that kind is
/// stored; from then on the entry is the number of such resources held.
#[derive(Debug)]
pub struct Bag {
    basic_resources: Vec<BasicResource>,
    complex_resources: Vec<ComplexResource>,
    basic_counts: [Option<usize>; 4],
    complex_counts: [Option<usize>; 6],
}

impl Bag {
    /// Every tally entry is the number of resources of its kind held, and a
    /// kind without an entry is not held at all.
    pub closed spec fn wf(self) -> bool {
        &&& forall|t: BasicResourceType| match #[trigger] self.basic_counts@[basic_index(t)] {
            Some(c) => c == basic_count(self.basic_resources@, t),
            None => basic_count(self.basic_resources@, t) == 0,
        }
        &&& forall|t: ComplexResourceType| match #[trigger] self.complex_counts@[complex_index(t)] {
            Some(c) => c == complex_count(self.complex_resources@, t),
            None => complex_count(self.complex_resources@, t) == 0,
        }
    }

    /// The basic resources held, in storage order.
    pub closed spec fn basics(self) -> Seq<BasicResource> {
        self.basic_resources@
    }

    /// The complex resources held, in storage order.
    pub closed spec fn complexes(self) -> Seq<ComplexResource> {
        self.complex_resources@
    }

    /// How many resources of kind `t` the bag holds, of either family.
    pub open spec fn held(self, t: ResourceType) -> nat {
        match t {
            ResourceType::Basic(b) => basic_count(self.basics(), b),
            ResourceType::Complex(c) => complex_count(self.complexes(), c),
        }
    }

    /// The tally entry of a basic kind: `None` until one is first stored.
    pub closed spec fn basic_tally(self, t: BasicResourceType) -> Option<usize> {
        self.basic_counts@[basic_index(t)]
    }

    /// The tally entry of a complex kind: `None` until one is first stored.
    pub closed spec fn complex_tally(self, t: ComplexResourceType) -> Option<usize> {
        self.complex_counts@[complex_index(t)]
    }

    /// A tally entry, once present, is the number of resources of that kind held;
    /// a kind without an entry is not held at all.
    pub proof fn lemma_tally_is_count(self, b: BasicResourceType, c: ComplexResourceType)
        requires
            self.wf(),
        ensures
            match self.basic_tally(b) {
                Some(n) => n == basic_count(self.basics(), b),
                None => basic_count(self.basics(), b) == 0,
            },
            match self.complex_tally(c) {
                Some(n) => n == complex_count(self.complexes(), c),
                None => complex_count(self.complexes(), c) == 0,
            },
    {
        assert(match self.basic_counts@[basic_index(b)] {
            Some(c) => c == basic_count(self.basic_resources@, b),
            None => basic_count(self.basic_resources@, b) == 0,
        });
        assert(match self.complex_counts@[complex_index(c)] {
            Some(n) => n == complex_count(self.complex_resources@, c),
            None => complex_count(self.complex_resources@, c) == 0,
        });
    }

    #[must_use]
    pub fn new() -> (bag: Bag)
        ensures
            bag.wf(),
            bag.basics().len() == 0,
            bag.complexes().len() == 0,
            forall|t: BasicResourceType| #[trigger] bag.basic_tally(t) is None,
            forall|t: ComplexResourceType| #[trigger] bag.complex_tally(t) is None,
    {
        let bag = Bag {
            basic_resources: Vec::new(),
            complex_resources: Vec::new(),
            basic_counts: [None, None, None, None],
            complex_counts: [None, None, None, None, None, None],
        };
        proof {
            assert(basic_kinds(bag.basic_resources@) =~= Seq::<BasicResourceType>::empty());
            assert(complex_kinds(bag.complex_resources@) =~= Seq::<ComplexResourceType>::empty());
            assert forall|t: BasicResourceType| #[trigger] bag.basic_counts@[basic_index(t)] is None by {
                match t {
                    BasicResourceType::Oxygen => {},
                    BasicResourceType::Hydrogen => {},
                    BasicResourceType::Carbon => {},
                    BasicResourceType::Silicon => {},
                }
            }
            assert forall|t: ComplexResourceType| #[trigger] bag.complex_counts@[complex_index(t)] is None by {
                match t {
                    ComplexResourceType::Diamond => {},
                    ComplexResourceType::Water => {},
                    ComplexResourceType::Life => {},
                    ComplexResourceType::Robot => {},
                    ComplexResourceType::Dolphin => {},
                    ComplexResourceType::AIPartner => {},
                }
            }
        }
        bag
    }

    // --- STORAGE ---

    /// Stores a basic resource, counting it in its kind's tally.
    pub fn add_basic(&mut self, resource: BasicResource)
        requires
            old(self).wf(),
            old(self).basics().len() < usize::MAX,
        ensures
            final(self).wf(),
            final(self).basics() == old(self).basics().push(resource),
            final(self).complexes() == old(self).complexes(),
            forall|t: ResourceType| #[trigger] final(self).held(t)
                == old(self).held(t) + if t == ResourceType::Basic(basic_kind(resource)) { 1nat } else { 0nat },
            final(self).basic_tally(basic_kind(resource)) == Some((basic_count(old(self).basics(), basic_kind(resource)) + 1) as usize),
            forall|t: BasicResourceType| t != basic_kind(resource) ==> #[trigger] final(self).basic_tally(t) == old(self).basic_tally(t),
            forall|t: ComplexResourceType| #[trigger] final(self).complex_tally(t) == old(self).complex_tally(t),
    {
        let t = basic_type_of(&resource);
        let i = basic_index_of(t);
        let ghost before = self.basic_resources@;
        proof {
            lemma_basic_count_le_len(before, t);
            assert(match self.basic_counts@[basic_index(t)] {
                Some(c) => c == basic_count(before, t),
                None => basic_count(before, t) == 0,
            });
            lemma_basic_kinds_push(before, resource);
        }
        let current = match self.basic_counts[i] {
            Some(c) => c,
            None => 0,
        };
        self.basic_counts.set(i, Some(current + 1));
        self.basic_resources.push(resource);
        proof {
            assert forall|u: BasicResourceType| #[trigger] basic_count(self.basic_resources@, u) == basic_count(before, u) + if u == t { 1nat } else { 0nat } by {
                lemma_occurrences_push(basic_kinds(before), t, u);
            }
            assert forall|u: BasicResourceType| u != t implies #[trigger] basic_count(self.basic_resources@, u) == basic_count(before, u) by {}
            assert forall|r: ResourceType| #[trigger] self.held(r) == old(self).held(r) + if r == ResourceType::Basic(t) { 1nat } else { 0nat } by {
                match r {
                    ResourceType::Basic(u) => { assert(basic_count(self.basic_resources@, u) == basic_count(before, u) + if u == t { 1nat } else { 0nat }); },
                    ResourceType::Complex(_) => {},
                }
            }
        }
    }

    /// Stores a complex resource, counting it in its kind's tally.
    pub fn add_complex(&mut self, resource: ComplexResource)
        requires
            old(self).wf(),
            old(self).complexes().len() < usize::MAX,
        ensures
            final(self).wf(),
            final(self).complexes() == old(self).complexes().push(resource),
            final(self).basics() == old(self).basics(),
            forall|t: ResourceType| #[trigger] final(self).held(t)
                == old(self).held(t) + if t == ResourceType::Complex(complex_kind(resource)) { 1nat } else { 0nat },
            final(self).complex_tally(complex_kind(resource)) == Some((complex_count(old(self).complexes(), complex_kind(resource)) + 1) as usize),
            forall|t: ComplexResourceType| t != complex_kind(resource) ==> #[trigger] final(self).complex_tally(t) == old(self).complex_tally(t),
            forall|t: BasicResourceType| #[trigger] final(self).basic_tally(t) == old(self).basic_tally(t),
    {
        let t = complex_type_of(&resource);
        let i = complex_index_of(t);
        let ghost before = self.complex_resources@;
        proof {
            lemma_complex_count_le_len(before, t);
            assert(match self.complex_counts@[complex_index(t)] {
                Some(c) => c == complex_count(before, t),
                None => complex_count(before, t) == 0,
            });
            lemma_complex_kinds_push(before, resource);
        }
        let current = match self.complex_counts[i] {
            Some(c) => c,
            None => 0,
        };
        self.complex_counts.set(i, Some(current + 1));
        self.complex_resources.push(resource);
        proof {
            assert forall|u: ComplexResourceType| #[trigger] complex_count(self.complex_resources@, u) == complex_count(before, u) + if u == t { 1nat } else { 0nat } by {
                lemma_occurrences_push(complex_kinds(before), t, u);
            }
            assert forall|u: ComplexResourceType| u != t implies #[trigger] complex_count(self.complex_resources@, u) == complex_count(before, u) by {}
            assert forall|r: ResourceType| #[trigger] self.held(r) == old(self).held(r) + if r == ResourceType::Complex(t) { 1nat } else { 0nat } by {
                match r {
                    ResourceType::Complex(u) => { assert(complex_count(self.complex_resources@, u) == complex_count(before, u) + if u == t { 1nat } else { 0nat }); },
                    ResourceType::Basic(_) => {},
                }
            }
        }
    }

    /// Stores a resource of either family in the matching collection.
    pub fn add_generic(&mut self, resource: GenericResource)
        requires
            old(self).wf(),
            old(self).basics().len() < usize::MAX,
            old(self).complexes().len() < usize::MAX,
        ensures
            final(self).wf(),
            match resource {
                GenericResource::BasicResources(b) => {
                    &&& final(self).basics() == old(self).basics().push(b)
                    &&& final(self).complexes() == old(self).complexes()
                },
                GenericResource::ComplexResources(c) => {
                    &&& final(self).complexes() == old(self).complexes().push(c)
                    &&& final(self).basics() == old(self).basics()
                },
            },
            forall|t: ResourceType| #[trigger] final(self).held(t) == old(self).held(t) + generic_is(resource, t),
    {
        match resource {
            GenericResource::BasicResources(basic) => self.add_basic(basic),
            GenericResource::ComplexResources(complex) => self.add_complex(complex),
        }
    }

    // --- EXTRACTION ---

    /// Takes out the first basic resource of the given kind, if there is one.
    pub fn take_basic(&mut self, resource_type: BasicResourceType) -> (taken: Option<BasicResource>)
        requires
            old(self).wf(),
        ensures
            final(self).wf(),
            match taken {
                None => basic_count(old(self).basics(), resource_type) == 0 && *final(self) == *old(self),
                Some(r) => {
                    &&& basic_kind(r) == resource_type
                    &&& exists|i: int| first_basic(old(self).basics(), resource_type, i) && r == old(self).basics()[i]
                        && final(self).basics() == old(self).basics().remove(i)
                    &&& final(self).basic_tally(resource_type) == Some((basic_count(old(self).basics(), resource_type) - 1) as usize)
                    &&& basic_count(final(self).basics(), resource_type) + 1 == basic_count(old(self).basics(), resource_type)
                    &&& forall|t: ResourceType| #[trigger] final(self).held(t)
                        + (if t == ResourceType::Basic(resource_type) { 1nat } else { 0nat }) == old(self).held(t)
                },
            },
            final(self).complexes() == old(self).complexes(),
            forall|t: BasicResourceType| t != resource_type ==> #[trigger] final(self).basic_tally(t) == old(self).basic_tally(t),
            forall|t: ComplexResourceType| #[trigger] final(self).complex_tally(t) == old(self).complex_tally(t),
    {
        let ghost before = self.basic_resources@;
        let mut index: usize = 0;
        while index < self.basic_resources.len()
            invariant
                before == self.basic_resources@,
                index <= before.len(),
                forall|j: int| 0 <= j < index ==> basic_kind(#[trigger] before[j]) != resource_type,
            ensures
                before == self.basic_resources@,
                index <= before.len(),
                forall|j: int| 0 <= j < index ==> basic_kind(#[trigger] before[j]) != resource_type,
                index < before.len() ==> basic_kind(before[index as int]) == resource_type,
            decreases before.len() - index,
        {
            if same_basic(basic_type_of(&self.basic_resources[index]), resource_type) {
                break;
            }
            index = index + 1;
        }
        if index == self.basic_resources.len() {
            proof {
                assert forall|j: int| 0 <= j < basic_kinds(before).len() implies basic_kinds(before)[j] != resource_type by {
                    assert(basic_kind(before[j]) != resource_type);
                }
                lemma_occurrences_contains(basic_kinds(before), resource_type);
            }
            return None;
        }
        let k = basic_index_of(resource_type);
        proof {
            assert(basic_kinds(before)[index as int] == resource_type);
            lemma_occurrences_remove(basic_kinds(before), index as int, resource_type);
            lemma_basic_kinds_remove(before, index as int);
            assert(match self.basic_counts@[basic_index(resource_type)] {
                Some(c) => c == basic_count(before, resource_type),
                None => basic_count(before, resource_type) == 0,
            });
        }
        let resource = self.basic_resources.remove(index);
        if let Some(c) = self.basic_counts[k] {
            let decremented = if c > 0 { c - 1 } else { 0 };
            self.basic_counts.set(k, Some(decremented));
        }
        proof {
            assert forall|u: BasicResourceType| u != resource_type implies #[trigger] basic_count(self.basic_resources@, u) == basic_count(before, u) by {
                lemma_occurrences_remove(basic_kinds(before), index as int, u);
            }
            assert(first_basic(before, resource_type, index as int));
            assert forall|r: ResourceType| #[trigger] self.held(r) + (if r == ResourceType::Basic(resource_type) { 1nat } else { 0nat }) == old(self).held(r) by {
                match r {
                    ResourceType::Basic(u) => {
                        if u != resource_type {
                            assert(basic_count(self.basic_resources@, u) == basic_count(before, u));
                        }
                    },
                    ResourceType::Complex(_) => {},
                }
            }
        }
        Some(resource)
    }

    /// Takes out the first complex resource of the given kind, if there is one.
    pub fn take_complex(&mut self, resource_type: ComplexResourceType) -> (taken: Option<ComplexResource>)
        requires
            old(self).wf(),
        ensures
            final(self).wf(),
            match taken {
                None => complex_count(old(self).complexes(), resource_type) == 0 && *final(self) == *old(self),
                Some(r) => {
                    &&& complex_kind(r) == resource_type
                    &&& exists|i: int| first_complex(old(self).complexes(), resource_type, i) && r == old(self).complexes()[i]
                        && final(self).complexes() == old(self).complexes().remove(i)
                    &&& final(self).complex_tally(resource_type) == Some((complex_count(old(self).complexes(), resource_type) - 1) as usize)
                    &&& complex_count(final(self).complexes(), resource_type) + 1 == complex_count(old(self).complexes(), resource_type)
                    &&& forall|t: ResourceType| #[trigger] final(self).held(t)
                        + (if t == ResourceType::Complex(resource_type) { 1nat } else { 0nat }) == old(self).held(t)
                },
            },
            final(self).basics() == old(self).basics(),
            forall|t: ComplexResourceType| t != resource_type ==> #[trigger] final(self).complex_tally(t) == old(self).complex_tally(t),
            forall|t: BasicResourceType| #[trigger] final(self).basic_tally(t) == old(self).basic_tally(t),
    {
        let ghost before = self.complex_resources@;
        let mut index: usize = 0;
        while index < self.complex_resources.len()
            invariant
                before == self.complex_resources@,
                index <= before.len(),
                forall|j: int| 0 <= j < index ==> complex_kind(#[trigger] before[j]) != resource_type,
            ensures
                before == self.complex_resources@,
                index <= before.len(),
                forall|j: int| 0 <= j < index ==> complex_kind(#[trigger] before[j]) != resource_type,
                index < before.len() ==> complex_kind(before[index as int]) == resource_type,
            decreases before.len() - index,
        {
            if same_complex(complex_type_of(&self.complex_resources[index]), resource_type) {
                break;
            }
            index = index + 1;
        }
        if index == self.complex_resources.len() {
            proof {
                assert forall|j: int| 0 <= j < complex_kinds(before).len() implies complex_kinds(before)[j] != resource_type by {
                    assert(complex_kind(before[j]) != resource_type);
                }
                lemma_occurrences_contains(complex_kinds(before), resource_type);
            }
            return None;
        }
        let k = complex_index_of(resource_type);
        proof {
            assert(complex_kinds(before)[index as int] == resource_type);
            lemma_occurrences_remove(complex_kinds(before), index as int, resource_type);
            lemma_complex_kinds_remove(before, index as int);
            assert(match self.complex_counts@[complex_index(resource_type)] {
                Some(c) => c == complex_count(before, resource_type),
                None => complex_count(before, resource_type) == 0,
            });
        }
        let resource = self.complex_resources.remove(index);
        if let Some(c) = self.complex_counts[k] {
            let decremented = if c > 0 { c - 1 } else { 0 };
            self.complex_counts.set(k, Some(decremented));
        }
        proof {
            assert forall|u: ComplexResourceType| u != resource_type implies #[trigger] complex_count(self.complex_resources@, u) == complex_count(before, u) by {
                lemma_occurrences_remove(complex_kinds(before), index as int, u);
            }
            assert(first_complex(before, resource_type, index as int));
            assert forall|r: ResourceType| #[trigger] self.held(r) + (if r == ResourceType::Complex(resource_type) { 1nat } else { 0nat }) == old(self).held(r) by {
                match r {
                    ResourceType::Complex(u) => {
                        if u != resource_type {
                            assert(complex_count(self.complex_resources@, u) == complex_count(before, u));
                        }
                    },
                    ResourceType::Basic(_) => {},
                }
            }
        }
        Some(resource)
    }

    /// Takes out the first resource of the given kind, of either family.
    pub fn take_generic(&mut self, resource_type: ResourceType) -> (taken: Option<GenericResource>)
        requires
            old(self).wf(),
        ensures
            final(self).wf(),
            match resource_type {
                ResourceType::Basic(t) => match taken {
                    None => basic_count(old(self).basics(), t) == 0 && *final(self) == *old(self),
                    Some(GenericResource::BasicResources(r)) => basic_kind(r) == t
                        && exists|i: int| first_basic(old(self).basics(), t, i) && r == old(self).basics()[i]
                            && final(self).basics() == old(self).basics().remove(i) && final(self).complexes() == old(self).complexes(),
                    Some(GenericResource::ComplexResources(_)) => false,
                },
                ResourceType::Complex(t) => match taken {
                    None => complex_count(old(self).complexes(), t) == 0 && *final(self) == *old(self),
                    Some(GenericResource::ComplexResources(r)) => complex_kind(r) == t
                        && exists|i: int| first_complex(old(self).complexes(), t, i) && r == old(self).complexes()[i]
                            && final(self).complexes() == old(self).complexes().remove(i) && final(self).basics() == old(self).basics(),
                    Some(GenericResource::BasicResources(_)) => false,
                },
            },
    {
        match resource_type {
            ResourceType::Basic(t) => match self.take_basic(t) {
                Some(r) => Some(GenericResource::BasicResources(r)),
                None => None,
            },
            ResourceType::Complex(t) => match self.take_complex(t) {
                Some(r) => Some(GenericResource::ComplexResources(r)),
                None => None,
            },
        }
    }

    // --- QUERIES ---

    /// Checks if the bag holds at least one basic resource of the given kind.
    pub fn contains_basic(&self, resource_type: BasicResourceType) -> (b: bool)
        requires
            self.wf(),
        ensures
            b == (basic_count(self.basics(), resource_type) > 0),
            b == basic_kinds(self.basics()).contains(resource_type),
    {
        proof {
            assert(match self.basic_counts@[basic_index(resource_type)] {
                Some(c) => c == basic_count(self.basic_resources@, resource_type),
                None => basic_count(self.basic_resources@, resource_type) == 0,
            });
            lemma_occurrences_contains(basic_kinds(self.basic_resources@), resource_type);
        }
        match self.basic_counts[basic_index_of(resource_type)] {
            Some(c) => c > 0,
            None => false,
        }
    }

    /// Checks if the bag holds at least one complex resource of the given kind.
    pub fn contains_complex(&self, resource_type: ComplexResourceType) -> (b: bool)
        requires
            self.wf(),
        ensures
            b == (complex_count(self.complexes(), resource_type) > 0),
            b == complex_kinds(self.complexes()).contains(resource_type),
    {
        proof {
            assert(match self.complex_counts@[complex_index(resource_type)] {
                Some(c) => c == complex_count(self.complex_resources@, resource_type),
                None => complex_count(self.complex_resources@, resource_type) == 0,
            });
            lemma_occurrences_contains(complex_kinds(self.complex_resources@), resource_type);
        }
        match self.complex_counts[complex_index_of(resource_type)] {
            Some(c) => c > 0,
            None => false,
        }
    }

    /// An ownership-free copy of the running tallies.
    #[must_use]
    pub fn snapshot(&self) -> (snap: BagSnapshot)
        ensures
            forall|t: BasicResourceType| #[trigger] snap.basic_entry(t) == self.basic_tally(t),
            forall|t: ComplexResourceType| #[trigger] snap.complex_entry(t) == self.complex_tally(t),
    {
        BagSnapshot { basic_resources: self.basic_counts, complex_resources: self.complex_counts }
    }
}

} // verus!

verus! {

/// A lightweight, copyable summary of a bag: the tally entry of each kind.
#[derive(Debug, Clone, Copy)]
pub struct BagSnapshot {
    basic_resources: [Option<usize>; 4],
    complex_resources: [Option<usize>; 6],
}

impl BagSnapshot {
    /// The tally entry of a basic kind.
    pub closed spec fn basic_entry(self, t: BasicResourceType) -> Option<usize> {
        self.basic_resources@[basic_index(t)]
    }

    /// The tally entry of a complex kind.
    pub closed spec fn complex_entry(self, t: ComplexResourceType) -> Option<usize> {
        self.complex_resources@[complex_index(t)]
    }

    /// The summary of an empty bag: no entries.
    pub fn empty() -> (snap: BagSnapshot)
        ensures
            forall|t: BasicResourceType| #[trigger] snap.basic_entry(t) is None,
            forall|t: ComplexResourceType| #[trigger] snap.complex_entry(t) is None,
    {
        let snap = BagSnapshot {
            basic_resources: [None, None, None, None],
            complex_resources: [None, None, None, None, None, None],
        };
        proof {
            assert forall|t: BasicResourceType| #[trigger] snap.basic_entry(t) is None by {
                match t {
                    BasicResourceType::Oxygen => {},
                    BasicResourceType::Hydrogen => {},
                    BasicResourceType::Carbon => {},
                    BasicResourceType::Silicon => {},
                }
            }
            assert forall|t: ComplexResourceType| #[trigger] snap.complex_entry(t) is None by {
                match t {
                    ComplexResourceType::Diamond => {},
                    ComplexResourceType::Water => {},
                    ComplexResourceType::Life => {},
                    ComplexResourceType::Robot => {},
                    ComplexResourceType::Dolphin => {},
                    ComplexResourceType::AIPartner => {},
                }
            }
        }
        snap
    }

    /// The tally entry of a basic kind.
    pub fn entry_basic(&self, resource_type: BasicResourceType) -> (e: Option<usize>)
        ensures
            e == self.basic_entry(resource_type),
    {
        self.basic_resources[basic_index_of(resource_type)]
    }

    /// The tally entry of a complex kind.
    pub fn entry_complex(&self, resource_type: ComplexResourceType) -> (e: Option<usize>)
        ensures
            e == self.complex_entry(resource_type),
    {
        self.complex_resources[complex_index_of(resource_type)]
    }

    /// The count of a basic kind (zero when it has no entry).
    pub fn get_basic_count(&self, resource_type: BasicResourceType) -> (n: usize)
        ensures
            n == match self.basic_entry(resource_type) { Some(c) => c, None => 0 },
    {
        match self.basic_resources[basic_index_of(resource_type)] {
            Some(c) => c,
            None => 0,
        }
    }

    /// The count of a complex kind (zero when it has no entry).
    pub fn get_complex_count(&self, resource_type: ComplexResourceType) -> (n: usize)
        ensures
            n == match self.complex_entry(resource_type) { Some(c) => c, None => 0 },
    {
        match self.complex_resources[complex_index_of(resource_type)] {
            Some(c) => c,
            None => 0,
        }
    }
}

} // verus!
