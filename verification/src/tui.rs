use vstd::prelude::*;
use crate::engine::{Optimizer, build_ok, enchant_plan, enchanted_stats};
use crate::report::{BuildReport, ItemLine, lists, planned_text, summarizes, aggregate_map, planned_line, summarize_stats};
use crate::models::{Equipment, EquipmentModel, models};
use crate::profile::{BuildProfile, Element, Mode, Range, Role, profile_for, weight_table};
use crate::search::{all_ok, perfect_build};

verus! {

/// Screen of the interactive application.
#[derive(Debug, Clone, Copy, PartialEq, Eq, Structural)]
pub enum AppState {
    Setup,
    Optimizing,
    Results,
}

/// A key press that the interactive application reacts to.
#[derive(Debug, Clone, Copy, PartialEq, Eq, Structural)]
pub enum KeyInput {
    Quit,
    Up,
    Down,
    Left,
    Right,
    Space,
    Other,
}

/// State of the interactive application: the settings being edited, the
/// catalogue and the last build found.
pub struct App {
    pub state: AppState,
    pub level: i32,
    pub role: Role,
    pub mode: Mode,
    pub range: Range,
    pub element: Element,
    pub selected_index: usize,
    pub items: Vec<Equipment>,
    pub best_build: Vec<Equipment>,
}

/// `r` lists the build `b` with the enchantments of its plan under weights
/// `ws`, and the totals of `b` at level `level`.
pub open spec fn reports_planned(r: BuildReport, b: Seq<EquipmentModel>, ws: Seq<(i32, i64)>, level: i32) -> bool {
    let plan = enchant_plan(b, ws);
    &&& r.lines@.len() == b.len()
    &&& forall|i: int| 0 <= i < b.len() ==> lists(#[trigger] r.lines@[i], b[i], planned_text(plan, b[i]))
    &&& summarizes(r.summary, aggregate_map(enchanted_stats(b, ws)), level)
}

/// Number of settings on the setup screen.
pub const SETTING_COUNT: usize = 5;

/// Lowest and highest character levels.
pub const MIN_LEVEL: i32 = 1;

/// Highest character level.
pub const MAX_LEVEL: i32 = 245;

/// The setting selected after `i`, wrapping after the last.
pub open spec fn next_index(i: usize) -> usize {
    ((i + 1) % 5) as usize
}

/// The setting selected before `i`, wrapping before the first.
pub open spec fn prev_index(i: usize) -> usize {
    if i == 0 { 4 } else { (i - 1) as usize }
}

/// `x` brought into `[lo, hi]`.
pub open spec fn clamp(x: int, lo: int, hi: int) -> int {
    if x < lo { lo } else if x > hi { hi } else { x }
}

/// The role after `r`, forwards (DPS, Tank, Support, ...) or backwards.
pub open spec fn cycle_role(r: Role, forward: bool) -> Role {
    match r {
        Role::DPS => if forward { Role::Tank } else { Role::Support },
        Role::Tank => if forward { Role::Support } else { Role::DPS },
        Role::Support => if forward { Role::DPS } else { Role::Tank },
    }
}

/// The other mode.
pub open spec fn toggle_mode(m: Mode) -> Mode {
    match m {
        Mode::Solo => Mode::Team,
        Mode::Team => Mode::Solo,
    }
}

/// The range after `r`, forwards (Melee, Distance, Hybrid, ...) or backwards.
pub open spec fn cycle_range(r: Range, forward: bool) -> Range {
    match r {
        Range::Melee => if forward { Range::Distance } else { Range::Hybrid },
        Range::Distance => if forward { Range::Hybrid } else { Range::Melee },
        Range::Hybrid => if forward { Range::Melee } else { Range::Distance },
    }
}

/// The element after `e`, forwards (Fire, Earth, Water, Air, All, ...) or backwards.
pub open spec fn cycle_element(e: Element, forward: bool) -> Element {
    match e {
        Element::Fire => if forward { Element::Earth } else { Element::All },
        Element::Earth => if forward { Element::Water } else { Element::Fire },
        Element::Water => if forward { Element::Air } else { Element::Earth },
        Element::Air => if forward { Element::All } else { Element::Water },
        Element::All => if forward { Element::Fire } else { Element::Air },
    }
}

/// The settings of `a` equal those of `b`, catalogue and build aside.
pub open spec fn same_settings(a: &App, b: &App) -> bool {
    &&& a.state == b.state
    &&& a.level == b.level
    &&& a.role == b.role
    &&& a.mode == b.mode
    &&& a.range == b.range
    &&& a.element == b.element
    &&& a.selected_index == b.selected_index
}

/// The catalogue and the build of `a` are those of `b`.
pub open spec fn same_data(a: &App, b: &App) -> bool {
    &&& a.items@ == b.items@
    &&& a.best_build@ == b.best_build@
}

impl App {
    /// The application at start: setup screen, level 200, DPS, solo, hybrid
    /// range, best element, first setting selected, no catalogue, no build.
    pub fn new() -> (res: Self)
        ensures
            res.state == AppState::Setup,
            res.level == 200,
            res.role == Role::DPS,
            res.mode == Mode::Solo,
            res.range == Range::Hybrid,
            res.element == Element::All,
            res.selected_index == 0,
            res.items@.len() == 0,
            res.best_build@.len() == 0,
    {
        App {
            state: AppState::Setup,
            level: 200,
            role: Role::DPS,
            mode: Mode::Solo,
            range: Range::Hybrid,
            element: Element::All,
            selected_index: 0,
            items: Vec::new(),
            best_build: Vec::new(),
        }
    }

    /// Selects the next setting, wrapping after the last.
    pub fn next_setting(&mut self)
        ensures
            final(self).selected_index == next_index(old(self).selected_index),
            final(self).state == old(self).state,
            final(self).level == old(self).level,
            final(self).role == old(self).role,
            final(self).mode == old(self).mode,
            final(self).range == old(self).range,
            final(self).element == old(self).element,
            same_data(final(self), old(self)),
    {
        let i = self.selected_index;
        assert((i % 5 + 1) % 5 == (i + 1) % 5) by (nonlinear_arith);
        self.selected_index = (i % 5 + 1) % 5;
    }

    /// Selects the previous setting, wrapping before the first.
    pub fn prev_setting(&mut self)
        ensures
            final(self).selected_index == prev_index(old(self).selected_index),
            final(self).state == old(self).state,
            final(self).level == old(self).level,
            final(self).role == old(self).role,
            final(self).mode == old(self).mode,
            final(self).range == old(self).range,
            final(self).element == old(self).element,
            same_data(final(self), old(self)),
    {
        if self.selected_index == 0 {
            self.selected_index = 4;
        } else {
            self.selected_index -= 1;
        }
    }

    /// Changes the selected setting by `delta`: the level moves by `delta`
    /// within 1..=245; role, range and element turn forwards when `delta` is
    /// positive and backwards otherwise; the mode flips.
    pub fn adjust_setting(&mut self, delta: i32)
        ensures
            final(self).level == if old(self).selected_index == 0 {
                clamp(old(self).level + delta, 1, 245) as i32
            } else {
                old(self).level
            },
            final(self).role == if old(self).selected_index == 1 {
                cycle_role(old(self).role, delta > 0)
            } else {
                old(self).role
            },
            final(self).mode == if old(self).selected_index == 2 {
                toggle_mode(old(self).mode)
            } else {
                old(self).mode
            },
            final(self).range == if old(self).selected_index == 3 {
                cycle_range(old(self).range, delta > 0)
            } else {
                old(self).range
            },
            final(self).element == if old(self).selected_index == 4 {
                cycle_element(old(self).element, delta > 0)
            } else {
                old(self).element
            },
            final(self).state == old(self).state,
            final(self).selected_index == old(self).selected_index,
            same_data(final(self), old(self)),
    {
        match self.selected_index {
            0 => {
                let x: i64 = self.level as i64 + delta as i64;
                self.level = if x < 1 {
                    1
                } else if x > 245 {
                    245
                } else {
                    x as i32
                };
            },
            1 => {
                self.role = match self.role {
                    Role::DPS => if delta > 0 { Role::Tank } else { Role::Support },
                    Role::Tank => if delta > 0 { Role::Support } else { Role::DPS },
                    Role::Support => if delta > 0 { Role::DPS } else { Role::Tank },
                };
            },
            2 => {
                self.mode = match self.mode {
                    Mode::Solo => Mode::Team,
                    Mode::Team => Mode::Solo,
                };
            },
            3 => {
                self.range = match self.range {
                    Range::Melee => if delta > 0 { Range::Distance } else { Range::Hybrid },
                    Range::Distance => if delta > 0 { Range::Hybrid } else { Range::Melee },
                    Range::Hybrid => if delta > 0 { Range::Melee } else { Range::Distance },
                };
            },
            4 => {
                self.element = match self.element {
                    Element::Fire => if delta > 0 { Element::Earth } else { Element::All },
                    Element::Earth => if delta > 0 { Element::Water } else { Element::Fire },
                    Element::Water => if delta > 0 { Element::Air } else { Element::Earth },
                    Element::Air => if delta > 0 { Element::All } else { Element::Water },
                    Element::All => if delta > 0 { Element::Fire } else { Element::Air },
                };
            },
            _ => {},
        }
    }

    /// The profile that the interactive search uses: the chosen settings, at
    /// least 10 AP and 4 MP, no resistance minimum.
    pub fn profile(&self) -> (res: BuildProfile)
        ensures
            res@ == profile_for(self.role, self.mode, self.range, self.element, 10, 4, 0),
            res.wf(),
    {
        BuildProfile::new_with_constraints(self.role, self.mode, self.range, self.element, 10, 4, 0)
    }

    /// Reacts to a key press; returns whether the application keeps running.
    /// On the setup screen, space searches the best build for the chosen
    /// settings and shows it; on the other screens it goes back to setup.
    pub fn handle_key(&mut self, key: KeyInput) -> (keep_running: bool)
        requires
            all_ok(models(old(self).items@)),
        ensures
            keep_running == (key != KeyInput::Quit),
            final(self).items@ == old(self).items@,
            key == KeyInput::Space && old(self).state == AppState::Setup ==> {
                &&& final(self).state == AppState::Results
                &&& models(final(self).best_build@) == perfect_build(
                    models(old(self).items@),
                    old(self).level,
                    profile_for(
                        old(self).role,
                        old(self).mode,
                        old(self).range,
                        old(self).element,
                        10,
                        4,
                        0,
                    ),
                )
            },
            key == KeyInput::Space && old(self).state != AppState::Setup ==> final(self).state
                == AppState::Setup && final(self).best_build@ == old(self).best_build@,
            key == KeyInput::Space ==> final(self).level == old(self).level && final(self).role
                == old(self).role && final(self).mode == old(self).mode && final(self).range
                == old(self).range && final(self).element == old(self).element
                && final(self).selected_index == old(self).selected_index,
            key == KeyInput::Up ==> final(self).selected_index == prev_index(old(self).selected_index),
            key == KeyInput::Down ==> final(self).selected_index == next_index(old(self).selected_index),
            key == KeyInput::Left || key == KeyInput::Right ==> {
                let forward = key == KeyInput::Right;
                let delta: int = if forward { 1 } else { -1 };
                &&& final(self).level == if old(self).selected_index == 0 {
                    clamp(old(self).level + delta, 1, 245) as i32
                } else {
                    old(self).level
                }
                &&& final(self).role == if old(self).selected_index == 1 {
                    cycle_role(old(self).role, forward)
                } else {
                    old(self).role
                }
                &&& final(self).mode == if old(self).selected_index == 2 {
                    toggle_mode(old(self).mode)
                } else {
                    old(self).mode
                }
                &&& final(self).range == if old(self).selected_index == 3 {
                    cycle_range(old(self).range, forward)
                } else {
                    old(self).range
                }
                &&& final(self).element == if old(self).selected_index == 4 {
                    cycle_element(old(self).element, forward)
                } else {
                    old(self).element
                }
            },
            key == KeyInput::Up || key == KeyInput::Down ==> final(self).level == old(self).level
                && final(self).role == old(self).role && final(self).mode == old(self).mode
                && final(self).range == old(self).range && final(self).element == old(
                self,
            ).element,
            key != KeyInput::Space ==> final(self).state == old(self).state
                && final(self).best_build@ == old(self).best_build@,
            key == KeyInput::Quit || key == KeyInput::Other ==> same_settings(final(self), old(self)),
    {
        match key {
            KeyInput::Quit => false,
            KeyInput::Up => {
                self.prev_setting();
                true
            },
            KeyInput::Down => {
                self.next_setting();
                true
            },
            KeyInput::Left => {
                self.adjust_setting(-1);
                true
            },
            KeyInput::Right => {
                self.adjust_setting(1);
                true
            },
            KeyInput::Space => {
                if self.state == AppState::Setup {
                    self.state = AppState::Optimizing;
                    let profile = self.profile();
                    let items = self.items.clone();
                    assert(models(items@) =~= models(self.items@));
                    let opt = Optimizer::new(items);
                    let found = opt.find_perfect_build(self.level, &profile);
                    self.best_build = found;
                    self.state = AppState::Results;
                } else {
                    self.state = AppState::Setup;
                }
                true
            },
            KeyInput::Other => true,
        }
    }

    /// The results screen: nothing before a build is found, else the build
    /// listed with the enchantments of its plan and its totals.
    pub fn results_report(&self) -> (res: Option<BuildReport>)
        requires
            build_ok(models(self.best_build@)),
        ensures
            res is None <==> self.best_build@.len() == 0,
            res matches Some(r) ==> reports_planned(
                r,
                models(self.best_build@),
                weight_table(self.role, self.mode, self.range),
                self.level,
            ),
    {
        if self.best_build.len() == 0 {
            return None;
        }
        let profile = self.profile();
        let opt = Optimizer::new(Vec::new());
        let ghost b = models(self.best_build@);
        let (_, plan) = opt.optimize_global_enchantment(self.best_build.as_slice(), &profile);
        let mut lines: Vec<ItemLine> = Vec::new();
        let n = self.best_build.len();
        let mut i: usize = 0;
        while i < n
            invariant
                n == self.best_build@.len(),
                b == models(self.best_build@),
                plan@ == enchant_plan(b, profile.weights@),
                0 <= i <= n,
                lines@.len() == i,
                forall|j: int| 0 <= j < i ==> lists(#[trigger] lines@[j], b[j], planned_text(plan@, b[j])),
            decreases n - i,
        {
            let line = planned_line(&self.best_build[i], &plan);
            lines.push(line);
            i += 1;
        }
        let totals = opt.aggregate_stats(self.best_build.as_slice(), &profile);
        assert(totals@ =~= aggregate_map(enchanted_stats(b, profile.weights@)));
        let summary = summarize_stats(&totals, self.level);
        Some(BuildReport { lines, summary })
    }
}

} // verus!
