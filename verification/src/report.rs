//! Answers to the viewer's queries (bag contents, recipe lists, outcomes),
//! carried as pre-formatted text and rendered as HUD lines.

use vstd::prelude::*;
use common_game::components::resource::{BasicResourceType, ComplexResourceType};
use crate::bag::BagSnapshot;
use crate::resources::{BasicSet, ComplexSet, basic_name, complex_name, basic_name_of, complex_name_of};
use crate::text::{decimal, join, join_strings, push_decimal};

verus! {

/// An answer to a query command, ready to show to the user.
///
/// The strings are pre-formatted by the producer so the viewer never needs
/// to know about the simulation's internal resource or bag types.
#[derive(Debug, PartialEq, Eq)]
pub enum GalaxyReport {
    /// The contents of an explorer's bag.
    Bag {
        explorer_id: u32,
        /// `(resource name, count)` for each basic resource held.
        basic: Vec<(String, usize)>,
        /// `(resource name, count)` for each complex resource held.
        complex: Vec<(String, usize)>,
    },
    /// Basic resources the explorer's current planet can generate.
    SupportedResources { explorer_id: u32, resources: Vec<String> },
    /// Combination recipes the explorer's current planet supports.
    SupportedCombinations { explorer_id: u32, combinations: Vec<String> },
    /// Outcome of a generate request.
    Generated { explorer_id: u32, outcome: Result<(), String> },
    /// Outcome of a combine request.
    Combined { explorer_id: u32, outcome: Result<(), String> },
    /// A free-form status line.
    Notice { text: String },
}

/// `"Explorer <id>"`.
pub open spec fn explorer_label(id: u32) -> Seq<char> {
    "Explorer "@ + decimal(id as nat)
}

/// `"<name> x<count>"`.
pub open spec fn count_entry(p: (String, usize)) -> Seq<char> {
    p.0@ + " x"@ + decimal(p.1 as nat)
}

/// The `(name, count)` pairs as `"a x1, b x2"`.
pub open spec fn spec_join_counts(items: Seq<(String, usize)>) -> Seq<char> {
    join(items.map_values(|p: (String, usize)| count_entry(p)), ", "@)
}

/// The names joined by `", "`, or `"(none)"` when there are none.
pub open spec fn spec_join_or_none(items: Seq<String>) -> Seq<char> {
    if items.len() == 0 {
        "(none)"@
    } else {
        join(items.map_values(|s: String| s@), ", "@)
    }
}

/// The HUD lines for a bag report.
pub open spec fn bag_lines(id: u32, basic: Seq<(String, usize)>, complex: Seq<(String, usize)>) -> Seq<Seq<char>> {
    let head = seq![explorer_label(id) + " bag:"@];
    if basic.len() == 0 && complex.len() == 0 {
        head.push("  (empty)"@)
    } else {
        let with_basic = if basic.len() != 0 {
            head.push("  basic:   "@ + spec_join_counts(basic))
        } else {
            head
        };
        if complex.len() != 0 {
            with_basic.push("  complex: "@ + spec_join_counts(complex))
        } else {
            with_basic
        }
    }
}

/// The HUD lines a report renders as.
pub open spec fn spec_describe(r: GalaxyReport) -> Seq<Seq<char>> {
    match r {
        GalaxyReport::Bag { explorer_id, basic, complex } => bag_lines(explorer_id, basic@, complex@),
        GalaxyReport::SupportedResources { explorer_id, resources } =>
            seq![explorer_label(explorer_id) + " can generate: "@ + spec_join_or_none(resources@)],
        GalaxyReport::SupportedCombinations { explorer_id, combinations } =>
            seq![explorer_label(explorer_id) + " can combine: "@ + spec_join_or_none(combinations@)],
        GalaxyReport::Generated { explorer_id, outcome } => match outcome {
            Ok(()) => seq![explorer_label(explorer_id) + ": generated a resource"@],
            Err(e) => seq![explorer_label(explorer_id) + ": generate failed ("@ + e@ + ")"@],
        },
        GalaxyReport::Combined { explorer_id, outcome } => match outcome {
            Ok(()) => seq![explorer_label(explorer_id) + ": combined a resource"@],
            Err(e) => seq![explorer_label(explorer_id) + ": combine failed ("@ + e@ + ")"@],
        },
        GalaxyReport::Notice { text } => seq![text@],
    }
}

/// The views of a list of strings.
pub open spec fn views(lines: Seq<String>) -> Seq<Seq<char>> {
    lines.map_values(|l: String| l@)
}

fn explorer_line(id: u32, tail: &str) -> (s: String)
    ensures
        s@ == explorer_label(id) + tail@,
{
    let mut s = String::from_str("Explorer ");
    push_decimal(&mut s, id as u64);
    s.append(tail);
    s
}

fn join_counts(items: &Vec<(String, usize)>) -> (s: String)
    ensures
        s@ == spec_join_counts(items@),
{
    let mut parts: Vec<String> = Vec::new();
    let mut i: usize = 0;
    while i < items.len()
        invariant
            i <= items@.len(),
            parts@.len() == i,
            forall|j: int| 0 <= j < i ==> #[trigger] parts@[j]@ == count_entry(items@[j]),
        decreases items@.len() - i,
    {
        let mut entry = items[i].0.clone();
        entry.append(" x");
        push_decimal(&mut entry, items[i].1 as u64);
        parts.push(entry);
        i = i + 1;
    }
    proof {
        assert(parts@.map_values(|p: String| p@) =~= items@.map_values(|p: (String, usize)| count_entry(p)));
    }
    join_strings(&parts, ", ")
}

fn join_or_none(items: &Vec<String>) -> (s: String)
    ensures
        s@ == spec_join_or_none(items@),
{
    if items.len() == 0 {
        String::from_str("(none)")
    } else {
        join_strings(items, ", ")
    }
}

impl GalaxyReport {
    /// Renders the report as one or more HUD lines.
    pub fn describe(&self) -> (lines: Vec<String>)
        ensures
            views(lines@) == spec_describe(*self),
    {
        match self {
            GalaxyReport::Bag { explorer_id, basic, complex } => {
                let mut lines: Vec<String> = Vec::new();
                lines.push(explorer_line(*explorer_id, " bag:"));
                if basic.len() == 0 && complex.len() == 0 {
                    lines.push(String::from_str("  (empty)"));
                } else {
                    if basic.len() != 0 {
                        let mut line = String::from_str("  basic:   ");
                        let joined = join_counts(basic);
                        line.append(joined.as_str());
                        lines.push(line);
                    }
                    if complex.len() != 0 {
                        let mut line = String::from_str("  complex: ");
                        let joined = join_counts(complex);
                        line.append(joined.as_str());
                        lines.push(line);
                    }
                }
                proof {
                    assert(views(lines@) =~= spec_describe(*self));
                }
                lines
            },
            GalaxyReport::SupportedResources { explorer_id, resources } => {
                let mut line = explorer_line(*explorer_id, " can generate: ");
                let joined = join_or_none(resources);
                line.append(joined.as_str());
                let lines = vec![line];
                proof {
                    assert(views(lines@) =~= spec_describe(*self));
                }
                lines
            },
            GalaxyReport::SupportedCombinations { explorer_id, combinations } => {
                let mut line = explorer_line(*explorer_id, " can combine: ");
                let joined = join_or_none(combinations);
                line.append(joined.as_str());
                let lines = vec![line];
                proof {
                    assert(views(lines@) =~= spec_describe(*self));
                }
                lines
            },
            GalaxyReport::Generated { explorer_id, outcome } => {
                let line = match outcome {
                    Ok(()) => explorer_line(*explorer_id, ": generated a resource"),
                    Err(e) => {
                        let mut line = explorer_line(*explorer_id, ": generate failed (");
                        line.append(e.as_str());
                        line.append(")");
                        line
                    },
                };
                let lines = vec![line];
                proof {
                    assert(views(lines@) =~= spec_describe(*self));
                }
                lines
            },
            GalaxyReport::Combined { explorer_id, outcome } => {
                let line = match outcome {
                    Ok(()) => explorer_line(*explorer_id, ": combined a resource"),
                    Err(e) => {
                        let mut line = explorer_line(*explorer_id, ": combine failed (");
                        line.append(e.as_str());
                        line.append(")");
                        line
                    },
                };
                let lines = vec![line];
                proof {
                    assert(views(lines@) =~= spec_describe(*self));
                }
                lines
            },
            GalaxyReport::Notice { text } => {
                let lines = vec![text.clone()];
                proof {
                    assert(views(lines@) =~= spec_describe(*self));
                }
                lines
            },
        }
    }
}


// =========================================================================
// LISTINGS
// =========================================================================

/// `[name]` when `present`, else nothing.
pub open spec fn name_if(present: bool, name: Seq<char>) -> Seq<Seq<char>> {
    if present { seq![name] } else { Seq::empty() }
}

/// The names of the basic kinds in `set`, in alphabetical order.
pub open spec fn listed_resources(set: Set<BasicResourceType>) -> Seq<Seq<char>> {
    name_if(set.contains(BasicResourceType::Carbon), basic_name(BasicResourceType::Carbon))
        + name_if(set.contains(BasicResourceType::Hydrogen), basic_name(BasicResourceType::Hydrogen))
        + name_if(set.contains(BasicResourceType::Oxygen), basic_name(BasicResourceType::Oxygen))
        + name_if(set.contains(BasicResourceType::Silicon), basic_name(BasicResourceType::Silicon))
}

/// The names of the complex kinds in `set`, in alphabetical order.
pub open spec fn listed_combinations(set: Set<ComplexResourceType>) -> Seq<Seq<char>> {
    name_if(set.contains(ComplexResourceType::AIPartner), complex_name(ComplexResourceType::AIPartner))
        + name_if(set.contains(ComplexResourceType::Diamond), complex_name(ComplexResourceType::Diamond))
        + name_if(set.contains(ComplexResourceType::Dolphin), complex_name(ComplexResourceType::Dolphin))
        + name_if(set.contains(ComplexResourceType::Life), complex_name(ComplexResourceType::Life))
        + name_if(set.contains(ComplexResourceType::Robot), complex_name(ComplexResourceType::Robot))
        + name_if(set.contains(ComplexResourceType::Water), complex_name(ComplexResourceType::Water))
}

/// `[(name, count)]` for a tally entry, nothing for a kind without one.
pub open spec fn entry_if(entry: Option<usize>, name: Seq<char>) -> Seq<(Seq<char>, usize)> {
    match entry {
        Some(c) => seq![(name, c)],
        None => Seq::empty(),
    }
}

/// The `(name, count)` entries of the basic kinds a bag summary has, in
/// alphabetical order.
pub open spec fn listed_basic(snap: BagSnapshot) -> Seq<(Seq<char>, usize)> {
    entry_if(snap.basic_entry(BasicResourceType::Carbon), basic_name(BasicResourceType::Carbon))
        + entry_if(snap.basic_entry(BasicResourceType::Hydrogen), basic_name(BasicResourceType::Hydrogen))
        + entry_if(snap.basic_entry(BasicResourceType::Oxygen), basic_name(BasicResourceType::Oxygen))
        + entry_if(snap.basic_entry(BasicResourceType::Silicon), basic_name(BasicResourceType::Silicon))
}

/// The `(name, count)` entries of the complex kinds a bag summary has, in
/// alphabetical order.
pub open spec fn listed_complex(snap: BagSnapshot) -> Seq<(Seq<char>, usize)> {
    entry_if(snap.complex_entry(ComplexResourceType::AIPartner), complex_name(ComplexResourceType::AIPartner))
        + entry_if(snap.complex_entry(ComplexResourceType::Diamond), complex_name(ComplexResourceType::Diamond))
        + entry_if(snap.complex_entry(ComplexResourceType::Dolphin), complex_name(ComplexResourceType::Dolphin))
        + entry_if(snap.complex_entry(ComplexResourceType::Life), complex_name(ComplexResourceType::Life))
        + entry_if(snap.complex_entry(ComplexResourceType::Robot), complex_name(ComplexResourceType::Robot))
        + entry_if(snap.complex_entry(ComplexResourceType::Water), complex_name(ComplexResourceType::Water))
}

/// The views of a list of `(name, count)` pairs.
pub open spec fn pair_views(items: Seq<(String, usize)>) -> Seq<(Seq<char>, usize)> {
    items.map_values(|p: (String, usize)| (p.0@, p.1))
}

fn push_name_if(names: &mut Vec<String>, present: bool, name: &str)
    ensures
        views(final(names)@) == views(old(names)@) + name_if(present, name@),
{
    if present {
        names.push(String::from_str(name));
    }
    proof {
        assert(views(names@) =~= views(old(names)@) + name_if(present, name@));
    }
}

fn push_entry_if(entries: &mut Vec<(String, usize)>, entry: Option<usize>, name: &str)
    ensures
        pair_views(final(entries)@) == pair_views(old(entries)@) + entry_if(entry, name@),
{
    match entry {
        Some(c) => entries.push((String::from_str(name), c)),
        None => {},
    }
    proof {
        assert(pair_views(entries@) =~= pair_views(old(entries)@) + entry_if(entry, name@));
    }
}

/// The names of the basic kinds in a set, sorted.
pub fn resource_names(set: &BasicSet) -> (names: Vec<String>)
    ensures
        views(names@) == listed_resources(set@),
{
    let mut names: Vec<String> = Vec::new();
    push_name_if(&mut names, set.contains(BasicResourceType::Carbon), basic_name_of(BasicResourceType::Carbon));
    push_name_if(&mut names, set.contains(BasicResourceType::Hydrogen), basic_name_of(BasicResourceType::Hydrogen));
    push_name_if(&mut names, set.contains(BasicResourceType::Oxygen), basic_name_of(BasicResourceType::Oxygen));
    push_name_if(&mut names, set.contains(BasicResourceType::Silicon), basic_name_of(BasicResourceType::Silicon));
    proof {
        assert(views(Seq::<String>::empty()) =~= Seq::<Seq<char>>::empty());
    }
    names
}

/// The names of the complex kinds in a set, sorted.
pub fn combination_names(set: &ComplexSet) -> (names: Vec<String>)
    ensures
        views(names@) == listed_combinations(set@),
{
    let mut names: Vec<String> = Vec::new();
    push_name_if(&mut names, set.contains(ComplexResourceType::AIPartner), complex_name_of(ComplexResourceType::AIPartner));
    push_name_if(&mut names, set.contains(ComplexResourceType::Diamond), complex_name_of(ComplexResourceType::Diamond));
    push_name_if(&mut names, set.contains(ComplexResourceType::Dolphin), complex_name_of(ComplexResourceType::Dolphin));
    push_name_if(&mut names, set.contains(ComplexResourceType::Life), complex_name_of(ComplexResourceType::Life));
    push_name_if(&mut names, set.contains(ComplexResourceType::Robot), complex_name_of(ComplexResourceType::Robot));
    push_name_if(&mut names, set.contains(ComplexResourceType::Water), complex_name_of(ComplexResourceType::Water));
    proof {
        assert(views(Seq::<String>::empty()) =~= Seq::<Seq<char>>::empty());
    }
    names
}

/// The `(name, count)` entries of a bag summary, basic then complex, each
/// sorted by name.
pub fn bag_entries(snap: &BagSnapshot) -> (r: (Vec<(String, usize)>, Vec<(String, usize)>))
    ensures
        pair_views(r.0@) == listed_basic(*snap),
        pair_views(r.1@) == listed_complex(*snap),
{
    let mut basic: Vec<(String, usize)> = Vec::new();
    proof { assert(pair_views(basic@) =~= Seq::<(Seq<char>, usize)>::empty()); }
    push_entry_if(&mut basic, snap.entry_basic(BasicResourceType::Carbon), basic_name_of(BasicResourceType::Carbon));
    push_entry_if(&mut basic, snap.entry_basic(BasicResourceType::Hydrogen), basic_name_of(BasicResourceType::Hydrogen));
    push_entry_if(&mut basic, snap.entry_basic(BasicResourceType::Oxygen), basic_name_of(BasicResourceType::Oxygen));
    push_entry_if(&mut basic, snap.entry_basic(BasicResourceType::Silicon), basic_name_of(BasicResourceType::Silicon));
    let mut complex: Vec<(String, usize)> = Vec::new();
    proof { assert(pair_views(complex@) =~= Seq::<(Seq<char>, usize)>::empty()); }
    push_entry_if(&mut complex, snap.entry_complex(ComplexResourceType::AIPartner), complex_name_of(ComplexResourceType::AIPartner));
    push_entry_if(&mut complex, snap.entry_complex(ComplexResourceType::Diamond), complex_name_of(ComplexResourceType::Diamond));
    push_entry_if(&mut complex, snap.entry_complex(ComplexResourceType::Dolphin), complex_name_of(ComplexResourceType::Dolphin));
    push_entry_if(&mut complex, snap.entry_complex(ComplexResourceType::Life), complex_name_of(ComplexResourceType::Life));
    push_entry_if(&mut complex, snap.entry_complex(ComplexResourceType::Robot), complex_name_of(ComplexResourceType::Robot));
    push_entry_if(&mut complex, snap.entry_complex(ComplexResourceType::Water), complex_name_of(ComplexResourceType::Water));
    (basic, complex)
}

} // verus!
