use vstd::prelude::*;
use crate::engine::{Optimizer, enchanted_stats};
use crate::models::{EquipmentModel, models};
use crate::profile::{BuildProfile, Element, Mode, Range, Role, profile_for};
use crate::report::{
    BuildReport, ItemLine, lists, recommended_text, summarizes, aggregate_map, summarize_stats,
};
use crate::search::{all_ok, perfect_build};

verus! {

/// Settings given on the command line; `min_res` is in hundredths.
pub struct CliOptions {
    pub level: Option<i32>,
    pub role: Option<Role>,
    pub mode: Option<Mode>,
    pub range: Option<Range>,
    pub element: Option<Element>,
    pub min_ap: Option<i32>,
    pub min_mp: Option<i32>,
    pub min_res: Option<i64>,
    pub cli: bool,
}

/// Settings of a command-line search, defaults filled in.
#[derive(Debug, Clone, Copy)]
pub struct CliSettings {
    pub level: i32,
    pub role: Role,
    pub mode: Mode,
    pub range: Range,
    pub element: Element,
    pub min_ap: i32,
    pub min_mp: i32,
    pub min_res: i64,
}

/// The value given, or the default.
pub open spec fn given_or<T>(o: Option<T>, d: T) -> T {
    match o {
        Some(x) => x,
        None => d,
    }
}

impl CliOptions {
    /// Whether to run without the interactive screen: when asked to, or when a
    /// level, role, mode or AP minimum is given.
    pub fn wants_cli(&self) -> (res: bool)
        ensures
            res == (self.cli || self.level is Some || self.role is Some || self.mode is Some
                || self.min_ap is Some),
    {
        self.cli || self.level.is_some() || self.role.is_some() || self.mode.is_some()
            || self.min_ap.is_some()
    }

    /// The settings given, with defaults: level 200, DPS, solo, hybrid range,
    /// best element, 10 AP, 4 MP, no resistance minimum.
    pub fn settings(&self) -> (res: CliSettings)
        ensures
            res.level == given_or(self.level, 200),
            res.role == given_or(self.role, Role::DPS),
            res.mode == given_or(self.mode, Mode::Solo),
            res.range == given_or(self.range, Range::Hybrid),
            res.element == given_or(self.element, Element::All),
            res.min_ap == given_or(self.min_ap, 10),
            res.min_mp == given_or(self.min_mp, 4),
            res.min_res == given_or(self.min_res, 0),
    {
        CliSettings {
            level: match self.level {
                Some(x) => x,
                None => 200,
            },
            role: match self.role {
                Some(x) => x,
                None => Role::DPS,
            },
            mode: match self.mode {
                Some(x) => x,
                None => Mode::Solo,
            },
            range: match self.range {
                Some(x) => x,
                None => Range::Hybrid,
            },
            element: match self.element {
                Some(x) => x,
                None => Element::All,
            },
            min_ap: match self.min_ap {
                Some(x) => x,
                None => 10,
            },
            min_mp: match self.min_mp {
                Some(x) => x,
                None => 4,
            },
            min_res: match self.min_res {
                Some(x) => x,
                None => 0,
            },
        }
    }
}

/// `r` lists the build `b`, each item with the enchantment recommended for it
/// alone, and the totals of `b` at level `level`.
pub open spec fn reports_recommended(
    r: BuildReport,
    b: Seq<EquipmentModel>,
    ws: Seq<(i32, i64)>,
    level: i32,
) -> bool {
    &&& r.lines@.len() == b.len()
    &&& forall|i: int| 0 <= i < b.len() ==> lists(#[trigger] r.lines@[i], b[i], recommended_text(b[i], ws))
    &&& summarizes(r.summary, aggregate_map(enchanted_stats(b, ws)), level)
}

impl Optimizer {
    /// The best build for the command-line settings, listed with the
    /// enchantment recommended for each item and the build's totals.
    pub fn cli_report(&self, settings: &CliSettings) -> (res: BuildReport)
        requires
            all_ok(models(self.items@)),
        ensures
            ({
                let p = profile_for(
                    settings.role,
                    settings.mode,
                    settings.range,
                    settings.element,
                    settings.min_ap,
                    settings.min_mp,
                    settings.min_res,
                );
                reports_recommended(
                    res,
                    perfect_build(models(self.items@), settings.level, p),
                    p.weights,
                    settings.level,
                )
            }),
    {
        let profile = BuildProfile::new_with_constraints(
            settings.role,
            settings.mode,
            settings.range,
            settings.element,
            settings.min_ap,
            settings.min_mp,
            settings.min_res,
        );
        let build = self.find_perfect_build(settings.level, &profile);
        let ghost b = models(build@);
        let mut lines: Vec<ItemLine> = Vec::new();
        let n = build.len();
        let mut i: usize = 0;
        while i < n
            invariant
                n == build@.len(),
                b == models(build@),
                profile.wf(),
                0 <= i <= n,
                lines@.len() == i,
                forall|j: int|
                    0 <= j < i ==> lists(
                        #[trigger] lines@[j],
                        b[j],
                        recommended_text(b[j], profile.weights@),
                    ),
            decreases n - i,
        {
            let line = self.recommended_line(&build[i], &profile);
            lines.push(line);
            i += 1;
        }
        let totals = self.aggregate_stats(build.as_slice(), &profile);
        assert(totals@ =~= aggregate_map(enchanted_stats(b, profile.weights@)));
        let summary = summarize_stats(&totals, settings.level);
        BuildReport { lines, summary }
    }
}

} // verus!
