//! The viewer's own state and the decisions behind its controls: which
//! planet is in focus, which explorer the explorer operations act on, what
//! the report panel shows, and which command each button or key sends.

use vstd::prelude::*;
use common_game::components::resource::{BasicResourceType, ComplexResourceType};
use crate::bag::occurrences;
use crate::chance::gen_index;
use crate::command::{GalaxyCommand, basic_choices, complex_choices, spec_basic_choices, spec_complex_choices};
use crate::report::views;
use crate::resources::{basic_name, complex_name, basic_name_of, complex_name_of};
use crate::text::{decimal, push_decimal};

verus! {

/// Camera framing.
#[derive(Clone, Copy, Debug, PartialEq, Eq, Structural)]
pub enum Mode {
    Galaxy,
    Planet,
}

/// How many report lines the panel keeps.
pub open spec fn max_report_lines() -> nat {
    8
}

/// The newest `max_report_lines()` of `lines`.
pub open spec fn kept_lines(lines: Seq<Seq<char>>) -> Seq<Seq<char>> {
    if lines.len() > max_report_lines() { lines.skip(lines.len() - max_report_lines()) } else { lines }
}

/// The indices linked to `id` by the edges, in edge order.
pub open spec fn linked(edges: Seq<(usize, usize)>, id: usize) -> Seq<usize>
    decreases edges.len(),
{
    if edges.len() == 0 {
        Seq::empty()
    } else {
        let (a, b) = edges.last();
        linked(edges.drop_last(), id) + if a == id { seq![b] } else if b == id { seq![a] } else { Seq::<usize>::empty() }
    }
}

/// The state of the viewer that its controls act on.
pub struct GameState {
    /// Number of planets in the scene.
    pub planet_count: usize,
    /// Maps a planet's scene index to its simulation id.
    pub planet_ids: Vec<u32>,
    /// Links between planets, by scene index.
    pub edges: Vec<(usize, usize)>,
    pub focus: usize,
    pub mode: Mode,
    pub paused: bool,
    /// The explorer the explorer operations act on.
    pub selected_explorer: Option<u32>,
    /// Index into the basic choices for the next generation.
    pub basic_choice: usize,
    /// Index into the complex choices for the next combination.
    pub complex_choice: usize,
    /// The most recent report lines, newest last.
    pub reports: Vec<String>,
    /// Whether the simulation's AIs are believed paused.
    pub ai_paused: bool,
}

impl GameState {
    /// The choice indices point into the choice lists.
    pub open spec fn wf(self) -> bool {
        self.basic_choice < 4 && self.complex_choice < 6
    }

    pub fn new() -> (s: GameState)
        ensures
            s.wf(),
            s.planet_count == 0,
            s.planet_ids@.len() == 0,
            s.edges@.len() == 0,
            s.focus == 0,
            s.mode == Mode::Galaxy,
            !s.paused,
            s.selected_explorer is None,
            s.basic_choice == 0,
            s.complex_choice == 0,
            s.reports@.len() == 0,
            !s.ai_paused,
    {
        GameState {
            planet_count: 0,
            planet_ids: Vec::new(),
            edges: Vec::new(),
            focus: 0,
            mode: Mode::Galaxy,
            paused: false,
            selected_explorer: None,
            basic_choice: 0,
            complex_choice: 0,
            reports: Vec::new(),
            ai_paused: false,
        }
    }

    /// Number of planets in the scene.
    pub fn planet_count(&self) -> (n: usize)
        ensures
            n == self.planet_count,
    {
        self.planet_count
    }

    pub fn toggle_mode(&mut self)
        ensures
            *final(self) == (GameState {
                mode: match old(self).mode { Mode::Galaxy => Mode::Planet, Mode::Planet => Mode::Galaxy },
                ..*old(self)
            }),
    {
        self.mode = match self.mode {
            Mode::Galaxy => Mode::Planet,
            Mode::Planet => Mode::Galaxy,
        };
    }

    /// Focuses the next planet, wrapping around.
    pub fn next(&mut self)
        requires
            old(self).focus < usize::MAX,
        ensures
            final(self).focus == if old(self).planet_count > 0 { (old(self).focus + 1) % (old(self).planet_count as int) } else { old(self).focus as int },
            *final(self) == (GameState { focus: final(self).focus, ..*old(self) }),
    {
        let n = self.planet_count;
        if n > 0 {
            self.focus = (self.focus + 1) % n;
        }
    }

    /// Focuses the previous planet, wrapping around.
    pub fn prev(&mut self)
        requires
            old(self).focus + old(self).planet_count <= usize::MAX,
        ensures
            final(self).focus == if old(self).planet_count > 0 {
                (old(self).focus + old(self).planet_count - 1) % (old(self).planet_count as int)
            } else {
                old(self).focus as int
            },
            *final(self) == (GameState { focus: final(self).focus, ..*old(self) }),
    {
        let n = self.planet_count;
        if n > 0 {
            self.focus = (self.focus + n - 1) % n;
        }
    }

    /// Replaces the report panel with `lines`, keeping only the newest ones.
    pub fn set_report(&mut self, lines: Vec<String>)
        ensures
            views(final(self).reports@) == kept_lines(views(lines@)),
            final(self).focus == old(self).focus,
            final(self).mode == old(self).mode,
            final(self).paused == old(self).paused,
            final(self).selected_explorer == old(self).selected_explorer,
            final(self).basic_choice == old(self).basic_choice,
            final(self).complex_choice == old(self).complex_choice,
            final(self).ai_paused == old(self).ai_paused,
            final(self).planet_ids == old(self).planet_ids,
            final(self).edges == old(self).edges,
            final(self).planet_count == old(self).planet_count,
    {
        let n = lines.len();
        if n > 8 {
            let start = n - 8;
            let mut kept: Vec<String> = Vec::new();
            let mut i: usize = start;
            let ghost lv = views(lines@);
            while i < n
                invariant
                    start <= i <= n,
                    n == lines@.len(),
                    start == n - 8,
                    lv == views(lines@),
                    views(kept@) == lv.subrange(start as int, i as int),
                decreases n - i,
            {
                let ghost before = kept@;
                let line = String::from_str(lines[i].as_str());
                proof {
                    assert(line@ == lines@[i as int]@);
                    assert(lv[i as int] == lines@[i as int]@);
                }
                kept.push(line);
                proof {
                    assert(kept@ == before.push(line));
                    assert(views(kept@) =~= views(before).push(line@));
                    assert(views(kept@) =~= lv.subrange(start as int, i + 1));
                }
                i = i + 1;
            }
            proof { assert(lv.subrange(start as int, n as int) =~= lv.skip(n - 8)); }
            self.reports = kept;
        } else {
            self.reports = lines;
        }
    }

    /// The scene index of the planet with this simulation id.
    pub fn index_of(&self, planet_id: u32) -> (r: Option<usize>)
        ensures
            match r {
                Some(i) => i < self.planet_ids@.len() && self.planet_ids@[i as int] == planet_id
                    && forall|j: int| 0 <= j < i ==> self.planet_ids@[j] != planet_id,
                None => !self.planet_ids@.contains(planet_id),
            },
    {
        let mut i: usize = 0;
        while i < self.planet_ids.len()
            invariant
                i <= self.planet_ids@.len(),
                forall|j: int| 0 <= j < i ==> self.planet_ids@[j] != planet_id,
            decreases self.planet_ids@.len() - i,
        {
            if self.planet_ids[i] == planet_id {
                return Some(i);
            }
            i = i + 1;
        }
        None
    }

    /// The scene indices linked to `id`, in edge order.
    pub fn neighbors(&self, id: usize) -> (ns: Vec<usize>)
        ensures
            ns@ == linked(self.edges@, id),
    {
        let mut ns: Vec<usize> = Vec::new();
        let mut i: usize = 0;
        while i < self.edges.len()
            invariant
                i <= self.edges@.len(),
                ns@ == linked(self.edges@.take(i as int), id),
            decreases self.edges@.len() - i,
        {
            let (a, b) = self.edges[i];
            proof {
                assert(self.edges@.take(i + 1).drop_last() =~= self.edges@.take(i as int));
            }
            if a == id {
                ns.push(b);
            } else if b == id {
                ns.push(a);
            }
            i = i + 1;
        }
        proof { assert(self.edges@.take(i as int) =~= self.edges@); }
        ns
    }

    /// The simulation id of the focused planet, if any.
    pub open spec fn focused_spec(self) -> Option<u32> {
        if self.focus < self.planet_ids@.len() { Some(self.planet_ids@[self.focus as int]) } else { None }
    }

    /// The simulation id of the focused planet, if any.
    pub fn focused_planet_id(&self) -> (r: Option<u32>)
        ensures
            r == if self.focus < self.planet_ids@.len() { Some(self.planet_ids@[self.focus as int]) } else { None::<u32> },
    {
        if self.focus < self.planet_ids.len() {
            Some(self.planet_ids[self.focus])
        } else {
            None
        }
    }
}

// =========================================================================
// SELECTING AN EXPLORER
// =========================================================================

/// The smallest of the ids.
pub open spec fn is_min(ids: Seq<u32>, m: u32) -> bool {
    ids.contains(m) && forall|i: int| 0 <= i < ids.len() ==> m <= #[trigger] ids[i]
}

fn min_id(ids: &Vec<u32>) -> (m: u32)
    requires
        ids@.len() > 0,
    ensures
        is_min(ids@, m),
{
    let mut m = ids[0];
    let mut i: usize = 1;
    proof { assert(ids@.take(1)[0] == m); }
    while i < ids.len()
        invariant
            1 <= i <= ids@.len(),
            ids@.take(i as int).contains(m),
            forall|j: int| 0 <= j < i ==> m <= #[trigger] ids@[j],
        decreases ids@.len() - i,
    {
        if ids[i] < m {
            m = ids[i];
            proof { assert(ids@.take(i + 1)[i as int] == m); }
        } else {
            proof {
                let k = choose|k: int| 0 <= k < i && ids@.take(i as int)[k] == m;
                assert(ids@.take(i + 1)[k] == m);
            }
        }
        i = i + 1;
    }
    proof {
        assert(ids@.take(i as int) =~= ids@);
    }
    m
}

fn contains_id(ids: &Vec<u32>, x: u32) -> (b: bool)
    ensures
        b == ids@.contains(x),
{
    let mut i: usize = 0;
    while i < ids.len()
        invariant
            i <= ids@.len(),
            forall|j: int| 0 <= j < i ==> ids@[j] != x,
        decreases ids@.len() - i,
    {
        if ids[i] == x {
            return true;
        }
        i = i + 1;
    }
    false
}

/// The explorer the explorer operations act on: the selected one while it
/// exists, else the smallest id, which becomes the selection; `None` when
/// there is no explorer.
pub fn selected_explorer(state: &mut GameState, ids: &Vec<u32>) -> (r: Option<u32>)
    ensures
        ids@.len() == 0 ==> r is None && *final(state) == *old(state),
        ids@.len() > 0 ==> match old(state).selected_explorer {
            Some(id) if ids@.contains(id) => r == Some(id) && *final(state) == *old(state),
            _ => r matches Some(m) && is_min(ids@, m)
                && *final(state) == (GameState { selected_explorer: Some(m), ..*old(state) }),
        },
{
    if ids.len() == 0 {
        return None;
    }
    match state.selected_explorer {
        Some(id) => {
            if contains_id(ids, id) {
                return Some(id);
            }
        },
        None => {},
    }
    let first = min_id(ids);
    state.selected_explorer = Some(first);
    Some(first)
}

/// `s` is sorted in increasing order, repeats allowed.
pub open spec fn sorted(s: Seq<u32>) -> bool {
    forall|i: int, j: int| 0 <= i <= j < s.len() ==> #[trigger] s[i] <= #[trigger] s[j]
}

/// `s` and `t` hold the same ids, as often each.
pub open spec fn same_ids(s: Seq<u32>, t: Seq<u32>) -> bool {
    forall|x: u32| #[trigger] occurrences(s, x) == occurrences(t, x)
}

proof fn lemma_occurrences_insert(s: Seq<u32>, i: int, v: u32, x: u32)
    requires
        0 <= i <= s.len(),
    ensures
        occurrences(s.insert(i, v), x) == occurrences(s, x) + if v == x { 1nat } else { 0nat },
{
    crate::bag::lemma_occurrences_remove(s.insert(i, v), i, x);
    assert(s.insert(i, v).remove(i) =~= s);
}

/// The ids in increasing order.
pub(crate) fn sort_ids(ids: &Vec<u32>) -> (out: Vec<u32>)
    ensures
        sorted(out@),
        same_ids(out@, ids@),
        out@.len() == ids@.len(),
{
    let mut out: Vec<u32> = Vec::new();
    let mut i: usize = 0;
    while i < ids.len()
        invariant
            i <= ids@.len(),
            out@.len() == i,
            sorted(out@),
            same_ids(out@, ids@.take(i as int)),
        decreases ids@.len() - i,
    {
        let v = ids[i];
        let mut p: usize = 0;
        while p < out.len() && out[p] <= v
            invariant
                p <= out@.len(),
                forall|j: int| 0 <= j < p ==> #[trigger] out@[j] <= v,
            decreases out@.len() - p,
        {
            p = p + 1;
        }
        let ghost before = out@;
        out.insert(p, v);
        proof {
            assert forall|a: int, b: int| 0 <= a <= b < out@.len() implies #[trigger] out@[a] <= #[trigger] out@[b] by {
                if a < p && b < p {
                    assert(out@[a] == before[a] && out@[b] == before[b]);
                } else if a < p && b == p {
                    assert(out@[a] == before[a]);
                } else if a < p {
                    assert(out@[a] == before[a] && out@[b] == before[b - 1]);
                } else if a == p && b == p {
                } else if a == p {
                    assert(out@[b] == before[b - 1]);
                    assert(before[p as int] > v);
                    assert(before[p as int] <= before[b - 1]);
                } else {
                    assert(out@[a] == before[a - 1] && out@[b] == before[b - 1]);
                }
            }
            assert(ids@.take(i + 1) =~= ids@.take(i as int).push(v));
            assert forall|x: u32| #[trigger] occurrences(out@, x) == occurrences(ids@.take(i + 1), x) by {
                lemma_occurrences_insert(before, p as int, v, x);
                crate::bag::lemma_occurrences_push(ids@.take(i as int), v, x);
            }
        }
        i = i + 1;
    }
    proof { assert(ids@.take(i as int) =~= ids@); }
    out
}

/// The explorer selected after cycling: the one after the current selection
/// in increasing id order, wrapping around; the smallest when nothing is
/// selected or the selection is gone.
pub open spec fn cycled(sorted_ids: Seq<u32>, current: Option<u32>) -> u32 {
    match current {
        Some(cur) => if sorted_ids.contains(cur) {
            let p = choose|p: int| 0 <= p < sorted_ids.len() && sorted_ids[p] == cur
                && forall|q: int| 0 <= q < p ==> #[trigger] sorted_ids[q] != cur;
            sorted_ids[(p + 1) % (sorted_ids.len() as int)]
        } else {
            sorted_ids[0]
        },
        None => sorted_ids[0],
    }
}

/// The report after selecting explorer `id`.
pub open spec fn selected_line(id: u32) -> Seq<char> {
    "Selected explorer "@ + decimal(id as nat)
}

/// Moves the selection to the next explorer id, wrapping around.
pub fn cycle_selected_explorer(state: &mut GameState, ids: &Vec<u32>)
    ensures
        final(state).focus == old(state).focus,
        final(state).mode == old(state).mode,
        final(state).basic_choice == old(state).basic_choice,
        final(state).complex_choice == old(state).complex_choice,
        final(state).ai_paused == old(state).ai_paused,
        ids@.len() == 0 ==> final(state).selected_explorer is None
            && views(final(state).reports@) == seq!["No explorers to select"@],
        ids@.len() > 0 ==> exists|s: Seq<u32>| #[trigger] sorted(s) && same_ids(s, ids@) && s.len() == ids@.len() && {
            let next = cycled(s, old(state).selected_explorer);
            &&& final(state).selected_explorer == Some(next)
            &&& views(final(state).reports@) == seq![selected_line(next)]
        },
{
    if ids.len() == 0 {
        state.selected_explorer = None;
        let lines = vec![String::from_str("No explorers to select")];
        state.set_report(lines);
        return;
    }
    let sorted_ids = sort_ids(ids);
    let next = match state.selected_explorer {
        Some(cur) => {
            let mut pos: usize = 0;
            while pos < sorted_ids.len() && sorted_ids[pos] != cur
                invariant
                    pos <= sorted_ids@.len(),
                    forall|q: int| 0 <= q < pos ==> #[trigger] sorted_ids@[q] != cur,
                decreases sorted_ids@.len() - pos,
            {
                pos = pos + 1;
            }
            if pos < sorted_ids.len() {
                proof {
                    let p = choose|p: int| 0 <= p < sorted_ids@.len() && sorted_ids@[p] == cur
                        && forall|q: int| 0 <= q < p ==> #[trigger] sorted_ids@[q] != cur;
                    if p < pos {
                        assert(sorted_ids@[p] != cur);
                    } else if p > pos {
                        assert(sorted_ids@[pos as int] != cur);
                    }
                }
                sorted_ids[(pos + 1) % sorted_ids.len()]
            } else {
                sorted_ids[0]
            }
        },
        None => sorted_ids[0],
    };
    state.selected_explorer = Some(next);
    let mut line = String::from_str("Selected explorer ");
    push_decimal(&mut line, next as u64);
    let lines = vec![line];
    state.set_report(lines);
    proof {
        assert(views(state.reports@) =~= seq![selected_line(next)]);
        assert(sorted(sorted_ids@));
    }
}

// =========================================================================
// ACTIONS
// =========================================================================

/// A control of the viewer: a button of the bottom bar or its key.
#[derive(Clone, Copy, Debug, PartialEq, Eq, Structural)]
pub enum Action {
    Mode,
    Prev,
    Next,
    Sunray,
    Pause,
    ZoomIn,
    ZoomOut,
    Asteroid,
    KillPlanet,
    ToggleAi,
    Move,
    SelExplorer,
    KillExplorer,
    ResetExplorer,
    Bag,
    Resources,
    Combinations,
    CycleBasic,
    Generate,
    CycleComplex,
    Combine,
}

pub open spec fn spec_label(a: Action) -> Seq<char> {
    match a {
        Action::Mode => "Mode [P]"@,
        Action::Prev => "Previous [<-]"@,
        Action::Next => "Next [->]"@,
        Action::Sunray => "Sun ray [S]"@,
        Action::Pause => "Pause [Space]"@,
        Action::ZoomIn => "Zoom in"@,
        Action::ZoomOut => "Zoom out"@,
        Action::Asteroid => "Asteroid [A]"@,
        Action::KillPlanet => "Kill planet [K]"@,
        Action::ToggleAi => "Toggle AI [I]"@,
        Action::Move => "Move explorer [E]"@,
        Action::SelExplorer => "Sel explorer [X]"@,
        Action::KillExplorer => "Kill explorer [J]"@,
        Action::ResetExplorer => "Reset explorer [R]"@,
        Action::Bag => "Bag [B]"@,
        Action::Resources => "Resources [1]"@,
        Action::Combinations => "Combines [2]"@,
        Action::CycleBasic => "Basic+ [N]"@,
        Action::Generate => "Generate [G]"@,
        Action::CycleComplex => "Complex+ [M]"@,
        Action::Combine => "Combine [C]"@,
    }
}

impl Action {
    /// The text on the action's button.
    pub fn label(self) -> (s: &'static str)
        ensures
            s@ == spec_label(self),
    {
        match self {
            Action::Mode => "Mode [P]",
            Action::Prev => "Previous [<-]",
            Action::Next => "Next [->]",
            Action::Sunray => "Sun ray [S]",
            Action::Pause => "Pause [Space]",
            Action::ZoomIn => "Zoom in",
            Action::ZoomOut => "Zoom out",
            Action::Asteroid => "Asteroid [A]",
            Action::KillPlanet => "Kill planet [K]",
            Action::ToggleAi => "Toggle AI [I]",
            Action::Move => "Move explorer [E]",
            Action::SelExplorer => "Sel explorer [X]",
            Action::KillExplorer => "Kill explorer [J]",
            Action::ResetExplorer => "Reset explorer [R]",
            Action::Bag => "Bag [B]",
            Action::Resources => "Resources [1]",
            Action::Combinations => "Combines [2]",
            Action::CycleBasic => "Basic+ [N]",
            Action::Generate => "Generate [G]",
            Action::CycleComplex => "Complex+ [M]",
            Action::Combine => "Combine [C]",
        }
    }

    /// The buttons of the bottom bar, in order.
    pub fn bar() -> (b: [Action; 21])
        ensures
            b@ == seq![Action::Mode, Action::Prev, Action::Next, Action::Sunray, Action::Pause, Action::ZoomIn,
                Action::ZoomOut, Action::Asteroid, Action::KillPlanet, Action::ToggleAi, Action::Move,
                Action::SelExplorer, Action::KillExplorer, Action::ResetExplorer, Action::Bag, Action::Resources,
                Action::Combinations, Action::CycleBasic, Action::Generate, Action::CycleComplex, Action::Combine],
    {
        let b = [Action::Mode, Action::Prev, Action::Next, Action::Sunray, Action::Pause, Action::ZoomIn,
            Action::ZoomOut, Action::Asteroid, Action::KillPlanet, Action::ToggleAi, Action::Move,
            Action::SelExplorer, Action::KillExplorer, Action::ResetExplorer, Action::Bag, Action::Resources,
            Action::Combinations, Action::CycleBasic, Action::Generate, Action::CycleComplex, Action::Combine];
        assert(b@ =~= seq![Action::Mode, Action::Prev, Action::Next, Action::Sunray, Action::Pause, Action::ZoomIn,
            Action::ZoomOut, Action::Asteroid, Action::KillPlanet, Action::ToggleAi, Action::Move,
            Action::SelExplorer, Action::KillExplorer, Action::ResetExplorer, Action::Bag, Action::Resources,
            Action::Combinations, Action::CycleBasic, Action::Generate, Action::CycleComplex, Action::Combine]);
        b
    }
}

/// The keys the viewer answers to.
#[derive(Clone, Copy, Debug, PartialEq, Eq, Structural)]
pub enum Key {
    KeyP,
    ArrowLeft,
    ArrowRight,
    KeyS,
    Space,
    KeyA,
    KeyK,
    KeyI,
    KeyE,
    KeyX,
    KeyJ,
    KeyR,
    KeyB,
    Digit1,
    Digit2,
    KeyN,
    KeyG,
    KeyM,
    KeyC,
    /// Any other key.
    Other,
}

pub open spec fn spec_key_to_action(key: Key) -> Option<Action> {
    match key {
        Key::KeyP => Some(Action::Mode),
        Key::ArrowLeft => Some(Action::Prev),
        Key::ArrowRight => Some(Action::Next),
        Key::KeyS => Some(Action::Sunray),
        Key::Space => Some(Action::Pause),
        Key::KeyA => Some(Action::Asteroid),
        Key::KeyK => Some(Action::KillPlanet),
        Key::KeyI => Some(Action::ToggleAi),
        Key::KeyE => Some(Action::Move),
        Key::KeyX => Some(Action::SelExplorer),
        Key::KeyJ => Some(Action::KillExplorer),
        Key::KeyR => Some(Action::ResetExplorer),
        Key::KeyB => Some(Action::Bag),
        Key::Digit1 => Some(Action::Resources),
        Key::Digit2 => Some(Action::Combinations),
        Key::KeyN => Some(Action::CycleBasic),
        Key::KeyG => Some(Action::Generate),
        Key::KeyM => Some(Action::CycleComplex),
        Key::KeyC => Some(Action::Combine),
        Key::Other => None,
    }
}

/// The zoom is on the mouse wheel, not on the keyboard.
pub open spec fn on_keyboard(a: Action) -> bool {
    a != Action::ZoomIn && a != Action::ZoomOut
}

/// No two keys trigger the same action, and every action but the zoom has a
/// key.
pub proof fn lemma_keys_cover_actions_once(k1: Key, k2: Key, a: Action)
    ensures
        spec_key_to_action(k1) is Some && spec_key_to_action(k1) == spec_key_to_action(k2) ==> k1 == k2,
        on_keyboard(a) ==> exists|k: Key| #[trigger] spec_key_to_action(k) == Some(a),
{
    match a {
        Action::Mode => assert(spec_key_to_action(Key::KeyP) == Some(a)),
        Action::Prev => assert(spec_key_to_action(Key::ArrowLeft) == Some(a)),
        Action::Next => assert(spec_key_to_action(Key::ArrowRight) == Some(a)),
        Action::Sunray => assert(spec_key_to_action(Key::KeyS) == Some(a)),
        Action::Pause => assert(spec_key_to_action(Key::Space) == Some(a)),
        Action::Asteroid => assert(spec_key_to_action(Key::KeyA) == Some(a)),
        Action::KillPlanet => assert(spec_key_to_action(Key::KeyK) == Some(a)),
        Action::ToggleAi => assert(spec_key_to_action(Key::KeyI) == Some(a)),
        Action::Move => assert(spec_key_to_action(Key::KeyE) == Some(a)),
        Action::SelExplorer => assert(spec_key_to_action(Key::KeyX) == Some(a)),
        Action::KillExplorer => assert(spec_key_to_action(Key::KeyJ) == Some(a)),
        Action::ResetExplorer => assert(spec_key_to_action(Key::KeyR) == Some(a)),
        Action::Bag => assert(spec_key_to_action(Key::KeyB) == Some(a)),
        Action::Resources => assert(spec_key_to_action(Key::Digit1) == Some(a)),
        Action::Combinations => assert(spec_key_to_action(Key::Digit2) == Some(a)),
        Action::CycleBasic => assert(spec_key_to_action(Key::KeyN) == Some(a)),
        Action::Generate => assert(spec_key_to_action(Key::KeyG) == Some(a)),
        Action::CycleComplex => assert(spec_key_to_action(Key::KeyM) == Some(a)),
        Action::Combine => assert(spec_key_to_action(Key::KeyC) == Some(a)),
        _ => {},
    }
}

/// How a key is written on the buttons.
pub open spec fn key_glyph(k: Key) -> Seq<char> {
    match k {
        Key::KeyP => "[P]"@,
        Key::ArrowLeft => "[<-]"@,
        Key::ArrowRight => "[->]"@,
        Key::KeyS => "[S]"@,
        Key::Space => "[Space]"@,
        Key::KeyA => "[A]"@,
        Key::KeyK => "[K]"@,
        Key::KeyI => "[I]"@,
        Key::KeyE => "[E]"@,
        Key::KeyX => "[X]"@,
        Key::KeyJ => "[J]"@,
        Key::KeyR => "[R]"@,
        Key::KeyB => "[B]"@,
        Key::Digit1 => "[1]"@,
        Key::Digit2 => "[2]"@,
        Key::KeyN => "[N]"@,
        Key::KeyG => "[G]"@,
        Key::KeyM => "[M]"@,
        Key::KeyC => "[C]"@,
        Key::Other => ""@,
    }
}

/// Each button's label names the key that triggers its action.
pub proof fn lemma_labels_name_their_keys(k: Key)
    ensures
        spec_key_to_action(k) matches Some(a) ==> key_glyph(k).is_suffix_of(spec_label(a)),
{
    match k {
        Key::KeyP => {
            reveal_strlit("Mode [P]");
            reveal_strlit("[P]");
            assert(key_glyph(k) =~= spec_label(Action::Mode).subrange(5, 8));
        },
        Key::ArrowLeft => {
            reveal_strlit("Previous [<-]");
            reveal_strlit("[<-]");
            assert(key_glyph(k) =~= spec_label(Action::Prev).subrange(9, 13));
        },
        Key::ArrowRight => {
            reveal_strlit("Next [->]");
            reveal_strlit("[->]");
            assert(key_glyph(k) =~= spec_label(Action::Next).subrange(5, 9));
        },
        Key::KeyS => {
            reveal_strlit("Sun ray [S]");
            reveal_strlit("[S]");
            assert(key_glyph(k) =~= spec_label(Action::Sunray).subrange(8, 11));
        },
        Key::Space => {
            reveal_strlit("Pause [Space]");
            reveal_strlit("[Space]");
            assert(key_glyph(k) =~= spec_label(Action::Pause).subrange(6, 13));
        },
        Key::KeyA => {
            reveal_strlit("Asteroid [A]");
            reveal_strlit("[A]");
            assert(key_glyph(k) =~= spec_label(Action::Asteroid).subrange(9, 12));
        },
        Key::KeyK => {
            reveal_strlit("Kill planet [K]");
            reveal_strlit("[K]");
            assert(key_glyph(k) =~= spec_label(Action::KillPlanet).subrange(12, 15));
        },
        Key::KeyI => {
            reveal_strlit("Toggle AI [I]");
            reveal_strlit("[I]");
            assert(key_glyph(k) =~= spec_label(Action::ToggleAi).subrange(10, 13));
        },
        Key::KeyE => {
            reveal_strlit("Move explorer [E]");
            reveal_strlit("[E]");
            assert(key_glyph(k) =~= spec_label(Action::Move).subrange(14, 17));
        },
        Key::KeyX => {
            reveal_strlit("Sel explorer [X]");
            reveal_strlit("[X]");
            assert(key_glyph(k) =~= spec_label(Action::SelExplorer).subrange(13, 16));
        },
        Key::KeyJ => {
            reveal_strlit("Kill explorer [J]");
            reveal_strlit("[J]");
            assert(key_glyph(k) =~= spec_label(Action::KillExplorer).subrange(14, 17));
        },
        Key::KeyR => {
            reveal_strlit("Reset explorer [R]");
            reveal_strlit("[R]");
            assert(key_glyph(k) =~= spec_label(Action::ResetExplorer).subrange(15, 18));
        },
        Key::KeyB => {
            reveal_strlit("Bag [B]");
            reveal_strlit("[B]");
            assert(key_glyph(k) =~= spec_label(Action::Bag).subrange(4, 7));
        },
        Key::Digit1 => {
            reveal_strlit("Resources [1]");
            reveal_strlit("[1]");
            assert(key_glyph(k) =~= spec_label(Action::Resources).subrange(10, 13));
        },
        Key::Digit2 => {
            reveal_strlit("Combines [2]");
            reveal_strlit("[2]");
            assert(key_glyph(k) =~= spec_label(Action::Combinations).subrange(9, 12));
        },
        Key::KeyN => {
            reveal_strlit("Basic+ [N]");
            reveal_strlit("[N]");
            assert(key_glyph(k) =~= spec_label(Action::CycleBasic).subrange(7, 10));
        },
        Key::KeyG => {
            reveal_strlit("Generate [G]");
            reveal_strlit("[G]");
            assert(key_glyph(k) =~= spec_label(Action::Generate).subrange(9, 12));
        },
        Key::KeyM => {
            reveal_strlit("Complex+ [M]");
            reveal_strlit("[M]");
            assert(key_glyph(k) =~= spec_label(Action::CycleComplex).subrange(9, 12));
        },
        Key::KeyC => {
            reveal_strlit("Combine [C]");
            reveal_strlit("[C]");
            assert(key_glyph(k) =~= spec_label(Action::Combine).subrange(8, 11));
        },
        Key::Other => {},
    }
}

/// The action a key triggers, if any.
pub fn key_to_action(key: Key) -> (a: Option<Action>)
    ensures
        a == spec_key_to_action(key),
{
    match key {
        Key::KeyP => Some(Action::Mode),
        Key::ArrowLeft => Some(Action::Prev),
        Key::ArrowRight => Some(Action::Next),
        Key::KeyS => Some(Action::Sunray),
        Key::Space => Some(Action::Pause),
        Key::KeyA => Some(Action::Asteroid),
        Key::KeyK => Some(Action::KillPlanet),
        Key::KeyI => Some(Action::ToggleAi),
        Key::KeyE => Some(Action::Move),
        Key::KeyX => Some(Action::SelExplorer),
        Key::KeyJ => Some(Action::KillExplorer),
        Key::KeyR => Some(Action::ResetExplorer),
        Key::KeyB => Some(Action::Bag),
        Key::Digit1 => Some(Action::Resources),
        Key::Digit2 => Some(Action::Combinations),
        Key::KeyN => Some(Action::CycleBasic),
        Key::KeyG => Some(Action::Generate),
        Key::KeyM => Some(Action::CycleComplex),
        Key::KeyC => Some(Action::Combine),
        Key::Other => None,
    }
}


// =========================================================================
// DISPATCH
// =========================================================================

/// What a control leads to beyond the viewer's own state.
pub enum ViewEffect {
    /// Send this command to the simulation.
    Command(GalaxyCommand),
    /// Zoom the camera in (`closer`) or out.
    Zoom { closer: bool },
    /// Without a simulation: charge the first empty cell of the focused planet.
    ChargeFocusedCell,
    /// Without a simulation: send an idle explorer to a random neighbour.
    WalkRandomExplorer,
    Nothing,
}

/// The explorer ids of `(id, planet index)` pairs.
pub open spec fn explorer_ids(explorers: Seq<(u32, usize)>) -> Seq<u32> {
    explorers.map_values(|e: (u32, usize)| e.0)
}

/// The explorers' ids, in order.
fn ids_of(explorers: &Vec<(u32, usize)>) -> (ids: Vec<u32>)
    ensures
        ids@ == explorer_ids(explorers@),
{
    let mut ids: Vec<u32> = Vec::new();
    let mut i: usize = 0;
    while i < explorers.len()
        invariant
            i <= explorers@.len(),
            ids@ == explorer_ids(explorers@.take(i as int)),
        decreases explorers@.len() - i,
    {
        proof {
            assert(explorer_ids(explorers@.take(i + 1)) =~= explorer_ids(explorers@.take(i as int)).push(explorers@[i as int].0));
        }
        ids.push(explorers[i].0);
        i = i + 1;
    }
    proof { assert(explorers@.take(i as int) =~= explorers@); }
    ids
}

/// The planet index where explorer `id` is, if it is listed.
fn position_of_explorer(explorers: &Vec<(u32, usize)>, id: u32) -> (r: Option<usize>)
    ensures
        match r {
            Some(at) => exists|k: int| 0 <= k < explorers@.len() && explorers@[k] == (id, at)
                && forall|j: int| 0 <= j < k ==> (#[trigger] explorers@[j]).0 != id,
            None => forall|k: int| 0 <= k < explorers@.len() ==> (#[trigger] explorers@[k]).0 != id,
        },
{
    let mut i: usize = 0;
    while i < explorers.len()
        invariant
            i <= explorers@.len(),
            forall|j: int| 0 <= j < i ==> (#[trigger] explorers@[j]).0 != id,
        decreases explorers@.len() - i,
    {
        if explorers[i].0 == id {
            return Some(explorers[i].1);
        }
        i = i + 1;
    }
    None
}

/// The report after cycling the basic choice to `t`.
pub open spec fn next_generate_line(t: BasicResourceType) -> Seq<char> {
    "Next Generate: "@ + basic_name(t)
}

/// The report after cycling the complex choice to `t`.
pub open spec fn next_combine_line(t: ComplexResourceType) -> Seq<char> {
    "Next Combine: "@ + complex_name(t)
}

/// The report after moving an explorer with no neighbour.
pub open spec fn stuck_line(id: u32) -> Seq<char> {
    "Explorer "@ + decimal(id as nat) + " has no reachable neighbour"@
}

/// The command for an explorer operation, sent only with a simulation.
pub open spec fn explorer_command(action: Action, id: u32, basic_choice: usize, complex_choice: usize) -> GalaxyCommand {
    match action {
        Action::KillExplorer => GalaxyCommand::KillExplorer { explorer_id: id },
        Action::ResetExplorer => GalaxyCommand::ResetExplorer { explorer_id: id },
        Action::Bag => GalaxyCommand::BagContent { explorer_id: id },
        Action::Resources => GalaxyCommand::SupportedResources { explorer_id: id },
        Action::Combinations => GalaxyCommand::SupportedCombinations { explorer_id: id },
        Action::Generate => GalaxyCommand::Generate { explorer_id: id, resource: spec_basic_choices()[basic_choice as int] },
        _ => GalaxyCommand::Combine { explorer_id: id, resource: spec_complex_choices()[complex_choice as int] },
    }
}

/// What `selected_explorer` settles on among `ids`: the current selection
/// while it is listed, else the smallest id; nothing when `ids` is empty.
pub open spec fn picks(ids: Seq<u32>, current: Option<u32>, r: Option<u32>) -> bool {
    if ids.len() == 0 {
        r is None
    } else {
        match current {
            Some(id) if ids.contains(id) => r == Some(id),
            _ => r matches Some(m) && is_min(ids, m),
        }
    }
}

/// The index of the first `id` in `ids` (meaningful when it occurs).
pub open spec fn first_index(ids: Seq<u32>, id: u32) -> int {
    choose|k: int| 0 <= k < ids.len() && ids[k] == id && forall|j: int| 0 <= j < k ==> #[trigger] ids[j] != id
}

/// What moving the selected explorer does with a simulation connected.
pub open spec fn moved(before: GameState, after: GameState, explorers: Seq<(u32, usize)>, effect: ViewEffect) -> bool {
    if explorers.len() == 0 {
        effect is Nothing && views(after.reports@) == seq!["No explorer to move"@]
    } else {
        &&& picks(explorer_ids(explorers), before.selected_explorer, after.selected_explorer)
        &&& after.selected_explorer matches Some(id) && {
            let k = first_index(explorer_ids(explorers), id);
            let ns = linked(before.edges@, explorers[k].1);
            &&& 0 <= k < explorers.len()
            &&& ns.len() == 0 ==> effect is Nothing && views(after.reports@) == seq![stuck_line(id)]
            &&& ns.len() > 0 ==> after.reports == before.reports && {
                ||| effect is Nothing && exists|t: int| 0 <= t < ns.len() && ns[t] >= before.planet_ids@.len()
                ||| exists|t: int| 0 <= t < ns.len() && ns[t] < before.planet_ids@.len()
                    && effect == ViewEffect::Command(GalaxyCommand::MoveExplorer {
                        explorer_id: id, to_planet: before.planet_ids@[ns[t] as int] })
            }
        }
    }
}

/// What an explorer operation does: it settles the selection and, with a
/// simulation connected, sends the command for the selected explorer.
pub open spec fn operated(action: Action, before: GameState, after: GameState, explorers: Seq<(u32, usize)>, feed: bool, effect: ViewEffect) -> bool {
    &&& after.reports == before.reports
    &&& after.focus == before.focus
    &&& explorers.len() > 0 ==> picks(explorer_ids(explorers), before.selected_explorer, after.selected_explorer)
    &&& explorers.len() == 0 ==> after.selected_explorer == before.selected_explorer
    &&& match after.selected_explorer {
        Some(id) if explorers.len() > 0 => if feed {
            effect == ViewEffect::Command(explorer_command(action, id, before.basic_choice, before.complex_choice))
        } else {
            effect is Nothing
        },
        _ => effect is Nothing,
    }
}

pub(crate) proof fn lemma_first_index(ids: Seq<u32>, id: u32, k: int)
    requires
        0 <= k < ids.len(),
        ids[k] == id,
        forall|j: int| 0 <= j < k ==> #[trigger] ids[j] != id,
    ensures
        first_index(ids, id) == k,
{
    let c = first_index(ids, id);
    if c < k {
        assert(ids[c] != id);
    } else if c > k {
        assert(ids[k] != id);
    }
}

/// Sends the selected explorer towards a random neighbour of its planet.
fn move_selected(state: &mut GameState, explorers: &Vec<(u32, usize)>) -> (effect: ViewEffect)
    requires
        old(state).wf(),
    ensures
        final(state).wf(),
        final(state).focus == old(state).focus,
        final(state).mode == old(state).mode,
        final(state).edges == old(state).edges,
        final(state).planet_ids == old(state).planet_ids,
        moved(*old(state), *final(state), explorers@, effect),
{
    let ids = ids_of(explorers);
    assert(ids@.len() == explorers@.len());
    let explorer_id = match selected_explorer(state, &ids) {
        Some(id) => id,
        None => {
            state.set_report(vec![String::from_str("No explorer to move")]);
            proof { assert(views(state.reports@) =~= seq!["No explorer to move"@]); }
            return ViewEffect::Nothing;
        },
    };
    let ghost before_reports = state.reports;
    assert(ids@.contains(explorer_id));
    let at = match position_of_explorer(explorers, explorer_id) {
        Some(at) => at,
        None => {
            proof {
                let j = choose|j: int| 0 <= j < ids@.len() && ids@[j] == explorer_id;
                assert(explorers@[j].0 == explorer_id);
            }
            return ViewEffect::Nothing;
        },
    };
    proof {
        let k = choose|k: int| 0 <= k < explorers@.len() && explorers@[k] == (explorer_id, at)
            && forall|j: int| 0 <= j < k ==> (#[trigger] explorers@[j]).0 != explorer_id;
        assert forall|j: int| 0 <= j < k implies #[trigger] ids@[j] != explorer_id by {
            assert(explorers@[j].0 != explorer_id);
        }
        lemma_first_index(ids@, explorer_id, k);
    }
    let neighbors = state.neighbors(at);
    if neighbors.len() == 0 {
        let mut line = String::from_str("Explorer ");
        push_decimal(&mut line, explorer_id as u64);
        line.append(" has no reachable neighbour");
        state.set_report(vec![line]);
        proof { assert(views(state.reports@) =~= seq![stuck_line(explorer_id)]); }
        return ViewEffect::Nothing;
    }
    let i = gen_index(neighbors.len());
    let target = neighbors[i];
    if target < state.planet_ids.len() {
        let to_planet = state.planet_ids[target];
        ViewEffect::Command(GalaxyCommand::MoveExplorer { explorer_id, to_planet })
    } else {
        ViewEffect::Nothing
    }
}

/// An operation on the selected explorer.
fn explorer_operation(action: Action, state: &mut GameState, explorers: &Vec<(u32, usize)>, feed: bool) -> (effect: ViewEffect)
    requires
        old(state).wf(),
    ensures
        final(state).wf(),
        final(state).mode == old(state).mode,
        final(state).basic_choice == old(state).basic_choice,
        final(state).complex_choice == old(state).complex_choice,
        operated(action, *old(state), *final(state), explorers@, feed, effect),
{
    let ids = ids_of(explorers);
    assert(ids@.len() == explorers@.len());
    match selected_explorer(state, &ids) {
        Some(explorer_id) => {
            if !feed {
                return ViewEffect::Nothing;
            }
            let command = match action {
                Action::KillExplorer => GalaxyCommand::KillExplorer { explorer_id },
                Action::ResetExplorer => GalaxyCommand::ResetExplorer { explorer_id },
                Action::Bag => GalaxyCommand::BagContent { explorer_id },
                Action::Resources => GalaxyCommand::SupportedResources { explorer_id },
                Action::Combinations => GalaxyCommand::SupportedCombinations { explorer_id },
                Action::Generate => GalaxyCommand::Generate { explorer_id, resource: basic_choices()[state.basic_choice] },
                _ => GalaxyCommand::Combine { explorer_id, resource: complex_choices()[state.complex_choice] },
            };
            ViewEffect::Command(command)
        },
        None => ViewEffect::Nothing,
    }
}

/// Runs a control. View controls change the viewer's state; game
/// operations become commands when a simulation is connected (`feed`), and
/// fall back to local effects, or nothing, without one.
pub fn dispatch(action: Action, state: &mut GameState, explorers: &Vec<(u32, usize)>, feed: bool) -> (effect: ViewEffect)
    requires
        old(state).wf(),
        old(state).focus < usize::MAX,
        old(state).focus + old(state).planet_count <= usize::MAX,
    ensures
        final(state).wf(),
        match action {
            Action::Mode => effect is Nothing && *final(state) == (GameState {
                mode: match old(state).mode { Mode::Galaxy => Mode::Planet, Mode::Planet => Mode::Galaxy },
                ..*old(state)
            }),
            Action::Prev => effect is Nothing && *final(state) == (GameState {
                focus: if old(state).planet_count > 0 {
                    ((old(state).focus + old(state).planet_count - 1) % (old(state).planet_count as int)) as usize
                } else {
                    old(state).focus
                },
                ..*old(state)
            }),
            Action::Next => effect is Nothing && *final(state) == (GameState {
                focus: if old(state).planet_count > 0 {
                    ((old(state).focus + 1) % (old(state).planet_count as int)) as usize
                } else {
                    old(state).focus
                },
                ..*old(state)
            }),
            Action::Pause => effect is Nothing && *final(state) == (GameState { paused: !old(state).paused, ..*old(state) }),
            Action::ZoomIn => effect == ViewEffect::Zoom { closer: true } && *final(state) == *old(state),
            Action::ZoomOut => effect == ViewEffect::Zoom { closer: false } && *final(state) == *old(state),
            Action::SelExplorer => {
                let ids = explorer_ids(explorers@);
                &&& effect is Nothing
                &&& final(state).focus == old(state).focus
                &&& final(state).mode == old(state).mode
                &&& ids.len() == 0 ==> final(state).selected_explorer is None
                    && views(final(state).reports@) == seq!["No explorers to select"@]
                &&& ids.len() > 0 ==> exists|s: Seq<u32>| #[trigger] sorted(s) && same_ids(s, ids) && s.len() == ids.len() && {
                    let next = cycled(s, old(state).selected_explorer);
                    &&& final(state).selected_explorer == Some(next)
                    &&& views(final(state).reports@) == seq![selected_line(next)]
                }
            },
            Action::CycleBasic => {
                &&& effect is Nothing
                &&& final(state).basic_choice == (old(state).basic_choice + 1) % 4
                &&& views(final(state).reports@) == seq![next_generate_line(spec_basic_choices()[final(state).basic_choice as int])]
            },
            Action::CycleComplex => {
                &&& effect is Nothing
                &&& final(state).complex_choice == (old(state).complex_choice + 1) % 6
                &&& views(final(state).reports@) == seq![next_combine_line(spec_complex_choices()[final(state).complex_choice as int])]
            },
            Action::Sunray => *final(state) == *old(state) && if feed {
                match old(state).focused_spec() {
                    Some(planet_id) => effect == ViewEffect::Command(GalaxyCommand::Sunray { planet_id }),
                    None => effect is Nothing,
                }
            } else {
                effect is ChargeFocusedCell
            },
            Action::Asteroid => *final(state) == *old(state) && match old(state).focused_spec() {
                Some(planet_id) if feed => effect == ViewEffect::Command(GalaxyCommand::Asteroid { planet_id }),
                _ => effect is Nothing,
            },
            Action::KillPlanet => *final(state) == *old(state) && match old(state).focused_spec() {
                Some(planet_id) if feed => effect == ViewEffect::Command(GalaxyCommand::Kill { planet_id }),
                _ => effect is Nothing,
            },
            Action::ToggleAi => {
                &&& final(state).ai_paused == !old(state).ai_paused
                &&& views(final(state).reports@) == seq![if old(state).ai_paused { "AI running"@ } else { "AI paused"@ }]
                &&& if feed {
                    effect == ViewEffect::Command(GalaxyCommand::SetAi {
                        planet_id: match old(state).focused_spec() { Some(p) => p, None => 0 },
                        running: old(state).ai_paused,
                    })
                } else {
                    effect is Nothing
                }
            },
            Action::Move => if !feed {
                effect is WalkRandomExplorer && *final(state) == *old(state)
            } else {
                moved(*old(state), *final(state), explorers@, effect)
            },
            _ => operated(action, *old(state), *final(state), explorers@, feed, effect),
        },
{
    match action {
        Action::Mode => {
            state.toggle_mode();
            ViewEffect::Nothing
        },
        Action::Prev => {
            state.prev();
            ViewEffect::Nothing
        },
        Action::Next => {
            state.next();
            ViewEffect::Nothing
        },
        Action::Pause => {
            state.paused = !state.paused;
            ViewEffect::Nothing
        },
        Action::ZoomIn => ViewEffect::Zoom { closer: true },
        Action::ZoomOut => ViewEffect::Zoom { closer: false },
        Action::SelExplorer => {
            let ids = ids_of(explorers);
            cycle_selected_explorer(state, &ids);
            ViewEffect::Nothing
        },
        Action::CycleBasic => {
            state.basic_choice = (state.basic_choice + 1) % 4;
            let choice = basic_choices()[state.basic_choice];
            let mut line = String::from_str("Next Generate: ");
            line.append(basic_name_of(choice));
            state.set_report(vec![line]);
            ViewEffect::Nothing
        },
        Action::CycleComplex => {
            state.complex_choice = (state.complex_choice + 1) % 6;
            let choice = complex_choices()[state.complex_choice];
            let mut line = String::from_str("Next Combine: ");
            line.append(complex_name_of(choice));
            state.set_report(vec![line]);
            ViewEffect::Nothing
        },
        Action::Sunray => {
            if feed {
                match state.focused_planet_id() {
                    Some(planet_id) => ViewEffect::Command(GalaxyCommand::Sunray { planet_id }),
                    None => ViewEffect::Nothing,
                }
            } else {
                ViewEffect::ChargeFocusedCell
            }
        },
        Action::Asteroid => {
            match state.focused_planet_id() {
                Some(planet_id) => if feed { ViewEffect::Command(GalaxyCommand::Asteroid { planet_id }) } else { ViewEffect::Nothing },
                None => ViewEffect::Nothing,
            }
        },
        Action::KillPlanet => {
            match state.focused_planet_id() {
                Some(planet_id) => if feed { ViewEffect::Command(GalaxyCommand::Kill { planet_id }) } else { ViewEffect::Nothing },
                None => ViewEffect::Nothing,
            }
        },
        Action::ToggleAi => {
            state.ai_paused = !state.ai_paused;
            let running = !state.ai_paused;
            let planet_id = match state.focused_planet_id() {
                Some(p) => p,
                None => 0,
            };
            let line = if running { String::from_str("AI running") } else { String::from_str("AI paused") };
            state.set_report(vec![line]);
            if feed {
                ViewEffect::Command(GalaxyCommand::SetAi { planet_id, running })
            } else {
                ViewEffect::Nothing
            }
        },
        Action::Move => {
            if feed {
                move_selected(state, explorers)
            } else {
                ViewEffect::WalkRandomExplorer
            }
        },
        _ => explorer_operation(action, state, explorers, feed),
    }
}
} // verus!
