use vstd::prelude::*;

verus! {

/// The part a character plays in a fight.
#[derive(Debug, Clone, Copy, PartialEq, Eq, Structural)]
pub enum Role {
    Tank,
    DPS,
    Support,
}

/// Whether the character plays alone or in a team.
#[derive(Debug, Clone, Copy, PartialEq, Eq, Structural)]
pub enum Mode {
    Solo,
    Team,
}

/// The distance at which the character fights.
#[derive(Debug, Clone, Copy, PartialEq, Eq, Structural)]
pub enum Range {
    Melee,
    Distance,
    Hybrid,
}

/// The element whose mastery the build favours; `All` takes the best of the four.
#[derive(Debug, Clone, Copy, PartialEq, Eq, Structural)]
pub enum Element {
    Fire,
    Earth,
    Water,
    Air,
    All,
}

/// Largest magnitude of a weight, in thousandths.
pub const WEIGHT_LIMIT: i64 = 1_000_000;

/// Largest number of weighted statistics in a profile.
pub const WEIGHT_COUNT_LIMIT: usize = 64;

/// Weight, in thousandths, that an unweighted statistic gets when sockets are compared.
pub const DEFAULT_SOCKET_WEIGHT: i64 = 100;

/// Objectives and constraints of a build search.
///
/// Weights are in thousandths of a point of score per point of statistic;
/// `min_res` is in hundredths of a point of resistance.
pub struct BuildProfile {
    pub role: Role,
    pub mode: Mode,
    pub range: Range,
    pub element: Element,
    pub min_ap: i32,
    pub min_mp: i32,
    pub min_res: i64,
    pub weights: Vec<(i32, i64)>,
}

/// Mathematical model of a [`BuildProfile`].
pub struct ProfileModel {
    pub role: Role,
    pub mode: Mode,
    pub range: Range,
    pub element: Element,
    pub min_ap: i32,
    pub min_mp: i32,
    pub min_res: i64,
    pub weights: Seq<(i32, i64)>,
}

impl View for BuildProfile {
    type V = ProfileModel;

    open spec fn view(&self) -> ProfileModel {
        ProfileModel {
            role: self.role,
            mode: self.mode,
            range: self.range,
            element: self.element,
            min_ap: self.min_ap,
            min_mp: self.min_mp,
            min_res: self.min_res,
            weights: self.weights@,
        }
    }
}

/// The profile that a role, mode, range and element call for, with the given minimums.
pub open spec fn profile_for(
    role: Role,
    mode: Mode,
    range: Range,
    element: Element,
    min_ap: i32,
    min_mp: i32,
    min_res: i64,
) -> ProfileModel {
    ProfileModel {
        role,
        mode,
        range,
        element,
        min_ap,
        min_mp,
        min_res,
        weights: weight_table(role, mode, range),
    }
}

/// The weights, in thousandths, that a role, mode and range call for, in the
/// order in which they are listed.
pub open spec fn weight_table(role: Role, mode: Mode, range: Range) -> Seq<(i32, i64)> {
    match role {
        Role::DPS => {
            let solo = mode == Mode::Solo;
            let base = seq![
                (20i32, if solo { 1125i64 } else { 0i64 }),
                (80i32, if solo { 4500i64 } else { 0i64 }),
                (120i32, 1000i64),
                (1068i32, 1200i64),
                (149i32, 1000i64),
                (150i32, 10000i64),
                (1051i32, 1800i64),
                (1054i32, 1800i64),
            ];
            match range {
                Range::Melee => base + seq![
                    (1052i32, 2500i64),
                    (180i32, 2000i64),
                    (1053i32, -1000i64),
                    (173i32, 1500i64),
                ],
                Range::Distance => base + seq![(1053i32, 2000i64), (160i32, 8000i64), (1052i32, -1000i64)],
                Range::Hybrid => base + seq![(1052i32, 1000i64), (1053i32, 1000i64), (180i32, 1000i64)],
            }
        },
        _ => seq![(20i32, 1000i64), (120i32, 1000i64), (80i32, 1000i64)],
    }
}

/// No statistic is weighted twice.
pub open spec fn distinct_keys(ws: Seq<(i32, i64)>) -> bool {
    forall|i: int, j: int| 0 <= i < j < ws.len() ==> #[trigger] ws[i].0 != #[trigger] ws[j].0
}

/// The weight given to statistic `id`, if any (the first entry for it).
pub open spec fn lookup_weight(ws: Seq<(i32, i64)>, id: i32) -> Option<int>
    decreases ws.len(),
{
    if ws.len() == 0 {
        None
    } else if ws[0].0 == id {
        Some(ws[0].1 as int)
    } else {
        lookup_weight(ws.subrange(1, ws.len() as int), id)
    }
}

/// The weight of `id`, or `default` when the profile does not weight it.
pub open spec fn weight_or(ws: Seq<(i32, i64)>, id: i32, default: int) -> int {
    match lookup_weight(ws, id) {
        Some(w) => w,
        None => default,
    }
}

impl BuildProfile {
    /// The weights are few, bounded and each statistic is weighted once.
    pub open spec fn wf(&self) -> bool {
        &&& self.weights@.len() <= WEIGHT_COUNT_LIMIT
        &&& forall|i: int|
            0 <= i < self.weights@.len() ==> -WEIGHT_LIMIT <= #[trigger] self.weights@[i].1
                <= WEIGHT_LIMIT
        &&& distinct_keys(self.weights@)
    }

    /// Builds the profile of a role, mode and range, with the given constraints.
    pub fn new_with_constraints(
        role: Role,
        mode: Mode,
        range: Range,
        element: Element,
        min_ap: i32,
        min_mp: i32,
        min_res: i64,
    ) -> (res: Self)
        ensures
            res@ == profile_for(role, mode, range, element, min_ap, min_mp, min_res),
            res.wf(),
    {
        let mut weights: Vec<(i32, i64)> = Vec::new();
        match role {
            Role::DPS => {
                let solo = match mode {
                    Mode::Solo => true,
                    Mode::Team => false,
                };
                weights.push((20, if solo { 1125 } else { 0 }));
                weights.push((80, if solo { 4500 } else { 0 }));
                weights.push((120, 1000));
                weights.push((1068, 1200));
                weights.push((149, 1000));
                weights.push((150, 10000));
                weights.push((1051, 1800));
                weights.push((1054, 1800));
                match range {
                    Range::Melee => {
                        weights.push((1052, 2500));
                        weights.push((180, 2000));
                        weights.push((1053, -1000));
                        weights.push((173, 1500));
                    },
                    Range::Distance => {
                        weights.push((1053, 2000));
                        weights.push((160, 8000));
                        weights.push((1052, -1000));
                    },
                    Range::Hybrid => {
                        weights.push((1052, 1000));
                        weights.push((1053, 1000));
                        weights.push((180, 1000));
                    },
                }
            },
            _ => {
                weights.push((20, 1000));
                weights.push((120, 1000));
                weights.push((80, 1000));
            },
        }
        assert(weights@ =~= weight_table(role, mode, range));
        BuildProfile { role, mode, range, element, min_ap, min_mp, min_res, weights }
    }

    /// The weight of statistic `id`, or `default` when the profile does not weight it.
    pub fn weight_or(&self, id: i32, default: i64) -> (res: i64)
        ensures
            res == weight_or(self.weights@, id, default as int),
    {
        let n = self.weights.len();
        let mut i: usize = 0;
        assert(self.weights@.subrange(0, n as int) =~= self.weights@);
        while i < n
            invariant
                n == self.weights@.len(),
                0 <= i <= n,
                lookup_weight(self.weights@, id) == lookup_weight(
                    self.weights@.subrange(i as int, n as int),
                    id,
                ),
            decreases n - i,
        {
            let (k, w) = self.weights[i];
            let ghost rest = self.weights@.subrange(i as int, n as int);
            assert(rest[0] == self.weights@[i as int]);
            assert(rest.subrange(1, rest.len() as int) =~= self.weights@.subrange(
                i + 1,
                n as int,
            ));
            if k == id {
                return w;
            }
            i += 1;
        }
        default
    }
}

} // verus!
