//! The text of the viewer's heads-up display: a title line and, for the
//! focused planet, a panel of its state and of the current selections.

use vstd::prelude::*;
use crate::command::{basic_choices, complex_choices, spec_basic_choices, spec_complex_choices};
use crate::planet::{Element, PlanetType, spec_info, spec_symbol};
use crate::report::views;
use crate::resources::{basic_name, basic_name_of, complex_name, complex_name_of};
use crate::text::{decimal, join, join_strings, push_decimal};
use crate::viewer::{GameState, Mode, same_ids, sort_ids, sorted};

verus! {

/// The letter of a planet type.
pub open spec fn type_letter(t: PlanetType) -> Seq<char> {
    match t {
        PlanetType::A => "A"@,
        PlanetType::B => "B"@,
        PlanetType::C => "C"@,
        PlanetType::D => "D"@,
    }
}

fn type_letter_of(t: PlanetType) -> (s: &'static str)
    ensures
        s@ == type_letter(t),
{
    proof {
        reveal_strlit("A");
        reveal_strlit("B");
        reveal_strlit("C");
        reveal_strlit("D");
    }
    match t {
        PlanetType::A => "A",
        PlanetType::B => "B",
        PlanetType::C => "C",
        PlanetType::D => "D",
    }
}

/// The title line of the display. `focus_type` is the type of the focused
/// planet, if the scene has one.
pub open spec fn spec_hud_title(built: bool, live: bool, mode: Mode, focus: usize, focus_type: Option<PlanetType>) -> Seq<char> {
    if !built {
        "Waiting for galaxy data\n"@
    } else {
        match mode {
            Mode::Galaxy => if live { "Stargazers Galaxy  -  live\n"@ } else { "Stargazers Galaxy  -  demo\n"@ },
            Mode::Planet => "Selected planet "@ + decimal(focus as nat) + "  -  Type "@ + match focus_type {
                Some(t) => type_letter(t),
                None => Seq::empty(),
            } + "\n"@,
        }
    }
}

/// The title line of the display.
pub fn hud_title(built: bool, live: bool, mode: Mode, focus: usize, focus_type: Option<PlanetType>) -> (s: String)
    ensures
        s@ == spec_hud_title(built, live, mode, focus, focus_type),
{
    if !built {
        return String::from_str("Waiting for galaxy data\n");
    }
    match mode {
        Mode::Galaxy => if live {
            String::from_str("Stargazers Galaxy  -  live\n")
        } else {
            String::from_str("Stargazers Galaxy  -  demo\n")
        },
        Mode::Planet => {
            let mut s = String::from_str("Selected planet ");
            push_decimal(&mut s, focus as u64);
            s.append("  -  Type ");
            match focus_type {
                Some(t) => s.append(type_letter_of(t)),
                None => {},
            }
            s.append("\n");
            proof {
                let tail = match focus_type { Some(t) => type_letter(t), None => Seq::<char>::empty() };
                assert(s@ =~= "Selected planet "@ + decimal(focus as nat) + "  -  Type "@ + tail + "\n"@);
            }
            s
        },
    }
}

/// The panel text shown before the first snapshot has arrived.
pub open spec fn waiting_panel() -> Seq<char> {
    "The map will appear as soon as the first snapshot arrives."@
}

/// The panel text shown before the first snapshot has arrived.
pub fn hud_waiting_panel() -> (s: &'static str)
    ensures
        s@ == waiting_panel(),
{
    "The map will appear as soon as the first snapshot arrives."
}

/// How many cells are charged.
pub open spec fn charged_count(cells: Seq<bool>) -> nat
    decreases cells.len(),
{
    if cells.len() == 0 {
        0
    } else {
        charged_count(cells.drop_last()) + if cells.last() { 1nat } else { 0nat }
    }
}

fn count_charged(cells: &Vec<bool>) -> (n: usize)
    ensures
        n == charged_count(cells@),
{
    let mut n: usize = 0;
    let mut i: usize = 0;
    while i < cells.len()
        invariant
            i <= cells@.len(),
            n == charged_count(cells@.take(i as int)),
            n <= i,
        decreases cells@.len() - i,
    {
        proof { assert(cells@.take(i + 1).drop_last() =~= cells@.take(i as int)); }
        if cells[i] {
            n = n + 1;
        }
        i = i + 1;
    }
    proof { assert(cells@.take(i as int) =~= cells@); }
    n
}

pub open spec fn yes_no(b: bool) -> Seq<char> {
    if b { "yes"@ } else { "no"@ }
}

/// The visitors line: ids in the given order, or "none".
pub open spec fn visitors_text(ids: Seq<u32>) -> Seq<char> {
    if ids.len() == 0 { "none"@ } else { join(ids.map_values(|id: u32| decimal(id as nat)), ", "@) }
}

/// The selected explorer, or "none".
pub open spec fn selection_text(selected: Option<u32>) -> Seq<char> {
    match selected {
        Some(id) => decimal(id as nat),
        None => "none"@,
    }
}

/// The status line for a planet's life and the animation's pause.
pub open spec fn status_text(alive: bool, paused: bool) -> Seq<char> {
    if !alive && paused {
        "\nStatus  destroyed - animation paused"@
    } else if !alive {
        "\nStatus  destroyed"@
    } else if paused {
        "\nStatus  animation paused"@
    } else {
        ""@
    }
}

/// The report section, when there is a report.
pub open spec fn report_text(reports: Seq<Seq<char>>) -> Seq<char> {
    if reports.len() == 0 { ""@ } else { "\n\nReport\n"@ + join(reports, "\n"@) }
}

/// The panel for the focused planet, with its idle visitors' ids in the
/// order given.
pub open spec fn spec_hud_panel(
    kind: PlanetType,
    cells: Seq<bool>,
    has_rocket: bool,
    element: Element,
    alive: bool,
    visitors: Seq<u32>,
    state: GameState,
) -> Seq<char> {
    spec_info(kind) + "\n\nEnergy   "@ + decimal(charged_count(cells)) + "/"@ + decimal(cells.len())
        + "\nRocket   "@ + yes_no(has_rocket) + "\nElement  "@ + spec_symbol(element)
        + "\nVisitors "@ + visitors_text(visitors) + "\n\nExplorer "@ + selection_text(state.selected_explorer)
        + "\nAI       "@ + (if state.ai_paused { "paused"@ } else { "running"@ })
        + "\nGenerate > "@ + basic_name(spec_basic_choices()[(state.basic_choice % 4) as int])
        + "\nCombine  > "@ + complex_name(spec_complex_choices()[(state.complex_choice % 6) as int])
        + status_text(alive, state.paused) + report_text(views(state.reports@))
}

fn push_ids(s: &mut String, ids: &Vec<u32>)
    ensures
        final(s)@ == old(s)@ + join(ids@.map_values(|id: u32| decimal(id as nat)), ", "@),
{
    let ghost parts = ids@.map_values(|id: u32| decimal(id as nat));
    let ghost start = s@;
    let mut i: usize = 0;
    while i < ids.len()
        invariant
            i <= ids@.len(),
            parts == ids@.map_values(|id: u32| decimal(id as nat)),
            s@ == start + join(parts.take(i as int), ", "@),
        decreases ids@.len() - i,
    {
        proof { assert(parts.take(i + 1).drop_last() =~= parts.take(i as int)); }
        if i != 0 {
            s.append(", ");
        }
        push_decimal(s, ids[i] as u64);
        proof {
            if i == 0 {
                assert(parts.take(1) =~= seq![decimal(ids@[0] as nat)]);
            }
        }
        i = i + 1;
    }
    proof { assert(parts.take(ids@.len() as int) =~= parts); }
}

/// The panel for the focused planet. The visitors are shown in increasing
/// id order, whatever order they come in.
pub fn hud_panel(
    kind: PlanetType,
    cells: &Vec<bool>,
    has_rocket: bool,
    element: Element,
    alive: bool,
    visitors: &Vec<u32>,
    state: &GameState,
) -> (s: String)
    requires
        state.wf(),
    ensures
        exists|v: Seq<u32>| #[trigger] sorted(v) && same_ids(v, visitors@) && v.len() == visitors@.len()
            && s@ == spec_hud_panel(kind, cells@, has_rocket, element, alive, v, *state),
{
    let here = sort_ids(visitors);
    let mut s = String::from_str(kind.info());
    s.append("\n\nEnergy   ");
    push_decimal(&mut s, count_charged(cells) as u64);
    s.append("/");
    push_decimal(&mut s, cells.len() as u64);
    s.append("\nRocket   ");
    s.append(if has_rocket { "yes" } else { "no" });
    s.append("\nElement  ");
    s.append(element.symbol());
    s.append("\nVisitors ");
    if here.len() == 0 {
        s.append("none");
    } else {
        push_ids(&mut s, &here);
    }
    s.append("\n\nExplorer ");
    match state.selected_explorer {
        Some(id) => push_decimal(&mut s, id as u64),
        None => s.append("none"),
    }
    s.append("\nAI       ");
    s.append(if state.ai_paused { "paused" } else { "running" });
    s.append("\nGenerate > ");
    s.append(basic_name_of(basic_choices()[state.basic_choice % 4]));
    s.append("\nCombine  > ");
    s.append(complex_name_of(complex_choices()[state.complex_choice % 6]));
    let status = if !state.paused && alive {
        ""
    } else if !alive && state.paused {
        "\nStatus  destroyed - animation paused"
    } else if !alive {
        "\nStatus  destroyed"
    } else {
        "\nStatus  animation paused"
    };
    s.append(status);
    if state.reports.len() > 0 {
        s.append("\n\nReport\n");
        let joined = join_strings(&state.reports, "\n");
        s.append(joined.as_str());
    }
    proof {
        reveal_strlit("");
        assert(s@ =~= spec_hud_panel(kind, cells@, has_rocket, element, alive, here@, *state));
    }
    s
}

} // verus!
