use vstd::prelude::*;
use crate::models::{Equipment, EquipmentModel, EffectModel, EffectValueModel};
use crate::profile::{BuildProfile, ProfileModel, Element, WEIGHT_LIMIT};
use crate::stats::{
    StatVector, stat_of, zero_stats, add_stat, add_stats, within, is_tracked, stat_slot,
    lemma_slot_injective,
};

verus! {

/// Largest total magnitude, in hundredths, of the effect values of one item.
pub const ITEM_LIMIT: i64 = 0x1_0000_0000_0000;

/// Bound on the magnitude of the score of any stat vector.
pub const SCORE_BOUND: i128 = 0x10_0000_0000_0000_0000_0000_0000;

/// Magnitude of an integer.
pub open spec fn abs(x: int) -> int {
    if x < 0 { -x } else { x }
}

/// Adds one effect value to a stat vector: elemental mastery (1068) raises the
/// four elemental masteries, other tracked statistics raise their own component.
pub open spec fn apply_value(v: Seq<int>, ev: EffectValueModel) -> Seq<int> {
    match ev.statistics {
        None => v,
        Some(s) => if s.id_stats == 1068 {
            Seq::new(22, |i: int| if 5 <= i <= 8 { v[i] + ev.damage } else { v[i] })
        } else {
            add_stat(v, s.id_stats, ev.damage as int)
        },
    }
}

/// Adds the values `vals`, in order, to `v`.
pub open spec fn add_values(v: Seq<int>, vals: Seq<EffectValueModel>) -> Seq<int>
    decreases vals.len(),
{
    if vals.len() == 0 {
        v
    } else {
        apply_value(add_values(v, vals.drop_last()), vals.last())
    }
}

/// Adds the values of the effects `effs`, in order, to `v`.
pub open spec fn add_effects(v: Seq<int>, effs: Seq<EffectModel>) -> Seq<int>
    decreases effs.len(),
{
    if effs.len() == 0 {
        v
    } else {
        add_values(add_effects(v, effs.drop_last()), effs.last().values)
    }
}

/// The statistics that an item gives on its own.
pub open spec fn base_vector(item: EquipmentModel) -> Seq<int> {
    add_effects(zero_stats(), item.effects)
}

/// Sum of the magnitudes of the values `vals`.
pub open spec fn values_mag(vals: Seq<EffectValueModel>) -> int
    decreases vals.len(),
{
    if vals.len() == 0 {
        0
    } else {
        values_mag(vals.drop_last()) + abs(vals.last().damage as int)
    }
}

/// Sum of the magnitudes of the values of the effects `effs`.
pub open spec fn effects_mag(effs: Seq<EffectModel>) -> int
    decreases effs.len(),
{
    if effs.len() == 0 {
        0
    } else {
        effects_mag(effs.drop_last()) + values_mag(effs.last().values)
    }
}

/// The effect values of `item` are small enough to be added up exactly.
pub open spec fn item_ok(item: EquipmentModel) -> bool {
    effects_mag(item.effects) <= ITEM_LIMIT
}

/// Largest of two integers.
pub open spec fn max_int(a: int, b: int) -> int {
    if a >= b { a } else { b }
}

/// The elemental mastery that a build counts for `el`: its own, or the best of
/// the four when `el` is `All`.
pub open spec fn peak(v: Seq<int>, el: Element) -> int {
    match el {
        Element::Fire => v[5],
        Element::Earth => v[6],
        Element::Water => v[7],
        Element::Air => v[8],
        Element::All => max_int(max_int(max_int(v[5], v[6]), v[7]), v[8]),
    }
}

/// Sum over the weights `ws` of statistic times weight.
pub open spec fn weighted_sum(v: Seq<int>, ws: Seq<(i32, i64)>) -> int
    decreases ws.len(),
{
    if ws.len() == 0 {
        0
    } else {
        weighted_sum(v, ws.drop_last()) + stat_of(v, ws.last().0) * ws.last().1
    }
}

/// Score of a stat vector, in hundred-thousandths of a point: twice the peak
/// elemental mastery plus the weighted statistics.
pub open spec fn score(v: Seq<int>, p: ProfileModel) -> int {
    2000 * peak(v, p.element) + weighted_sum(v, p.weights)
}

/// Penalty, in hundred-thousandths, for missing the action point, movement point
/// and resistance minimums of `p` (base 6 AP, one more when over 6 are asked, and 3 MP).
pub open spec fn penalty(v: Seq<int>, p: ProfileModel) -> int {
    let major = if p.min_ap > 6 { 100int } else { 0int };
    let ap = stat_of(v, 31) + 600 + major;
    let mp = stat_of(v, 41) + 300;
    let res = stat_of(v, 80);
    let want_ap = p.min_ap * 100;
    let want_mp = p.min_mp * 100;
    (if ap < want_ap { (want_ap - ap) * 10_000_000 } else { 0 }) + (if mp < want_mp {
        (want_mp - mp) * 10_000_000
    } else {
        0
    }) + (if res < p.min_res { (p.min_res - res) * 100_000 } else { 0 })
}

/// Score of a complete build's statistics, penalties deducted.
pub open spec fn final_score(v: Seq<int>, p: ProfileModel) -> int {
    score(v, p) - penalty(v, p)
}

/// Total weight that the score gives to one unit of statistic `stat`.
pub open spec fn score_weight(ws: Seq<(i32, i64)>, stat: i32) -> int
    decreases ws.len(),
{
    if ws.len() == 0 {
        0
    } else {
        score_weight(ws.drop_last(), stat) + if ws.last().0 == stat {
            ws.last().1 as int
        } else {
            0
        }
    }
}

/// The weight of one statistic is bounded by the number of weights.
pub proof fn lemma_score_weight_bound(ws: Seq<(i32, i64)>, stat: i32)
    requires
        forall|i: int| 0 <= i < ws.len() ==> -WEIGHT_LIMIT <= #[trigger] ws[i].1 <= WEIGHT_LIMIT,
    ensures
        -ws.len() * WEIGHT_LIMIT <= score_weight(ws, stat) <= ws.len() * WEIGHT_LIMIT,
    decreases ws.len(),
{
    if ws.len() > 0 {
        let d = ws.drop_last();
        assert forall|i: int| 0 <= i < d.len() implies -WEIGHT_LIMIT <= #[trigger] d[i].1
            <= WEIGHT_LIMIT by {
            assert(d[i] == ws[i]);
        }
        lemma_score_weight_bound(d, stat);
        assert(-WEIGHT_LIMIT <= ws[ws.len() - 1].1 <= WEIGHT_LIMIT);
    }
}

/// Adding two stat vectors adds their weighted sums.
pub proof fn lemma_weighted_sum_additive(a: Seq<int>, b: Seq<int>, ws: Seq<(i32, i64)>)
    requires
        a.len() == 22,
        b.len() == 22,
    ensures
        weighted_sum(add_stats(a, b), ws) == weighted_sum(a, ws) + weighted_sum(b, ws),
    decreases ws.len(),
{
    if ws.len() > 0 {
        lemma_weighted_sum_additive(a, b, ws.drop_last());
        let id = ws.last().0;
        let w = ws.last().1 as int;
        let x = stat_of(a, id);
        let y = stat_of(b, id);
        assert(stat_of(add_stats(a, b), id) == x + y);
        assert((x + y) * w == x * w + y * w) by (nonlinear_arith);
    }
}

/// When a single elemental mastery counts, the score of a sum of statistics is
/// the sum of their scores.
pub proof fn lemma_score_additive(a: Seq<int>, b: Seq<int>, p: ProfileModel)
    requires
        a.len() == 22,
        b.len() == 22,
        p.element != Element::All,
    ensures
        score(add_stats(a, b), p) == score(a, p) + score(b, p),
{
    lemma_weighted_sum_additive(a, b, p.weights);
}

/// Adding an amount to one tracked statistic changes the weighted sum by that
/// amount times the statistic's weight.
pub proof fn lemma_weighted_sum_add_stat(v: Seq<int>, s: i32, a: int, ws: Seq<(i32, i64)>)
    requires
        v.len() == 22,
    ensures
        weighted_sum(add_stat(v, s, a), ws) == weighted_sum(v, ws) + if is_tracked(s) {
            a * score_weight(ws, s)
        } else {
            0
        },
    decreases ws.len(),
{
    if ws.len() > 0 {
        let d = ws.drop_last();
        lemma_weighted_sum_add_stat(v, s, a, d);
        let id = ws.last().0;
        let w = ws.last().1 as int;
        if is_tracked(s) {
            let e: int = if id == s { w } else { 0 };
            if is_tracked(id) && stat_slot(id) == stat_slot(s) {
                lemma_slot_injective(id, s);
            }
            let x = stat_of(v, id);
            let da: int = if id == s { a } else { 0 };
            assert(stat_of(add_stat(v, s, a), id) == x + da);
            assert(score_weight(ws, s) == score_weight(d, s) + e);
            assert(a * score_weight(ws, s) == a * score_weight(d, s) + a * e) by (nonlinear_arith)
                requires
                    score_weight(ws, s) == score_weight(d, s) + e,
            ;
            assert((x + da) * w == x * w + da * w) by (nonlinear_arith);
            assert(da * w == a * e) by (nonlinear_arith)
                requires
                    da == (if id == s { a } else { 0 }),
                    e == (if id == s { w } else { 0 }),
            ;
        } else {
            assert(add_stat(v, s, a) == v);
        }
    }
}


/// Adding one value moves each component by at most the value's magnitude.
pub proof fn lemma_apply_value_bound(v: Seq<int>, ev: EffectValueModel, b: int)
    requires
        within(v, b),
    ensures
        within(apply_value(v, ev), b + abs(ev.damage as int)),
{
    let r = apply_value(v, ev);
    assert forall|i: int| 0 <= i < 22 implies -(b + abs(ev.damage as int)) <= #[trigger] r[i]
        <= b + abs(ev.damage as int) by {
        assert(-b <= v[i] <= b);
    }
}

/// Adding values moves each component by at most their total magnitude.
pub proof fn lemma_add_values_bound(v: Seq<int>, vals: Seq<EffectValueModel>, b: int)
    requires
        within(v, b),
    ensures
        within(add_values(v, vals), b + values_mag(vals)),
    decreases vals.len(),
{
    if vals.len() > 0 {
        lemma_add_values_bound(v, vals.drop_last(), b);
        lemma_apply_value_bound(
            add_values(v, vals.drop_last()),
            vals.last(),
            b + values_mag(vals.drop_last()),
        );
    }
}

/// Adding the values of effects moves each component by at most their total magnitude.
pub proof fn lemma_add_effects_bound(v: Seq<int>, effs: Seq<EffectModel>, b: int)
    requires
        within(v, b),
    ensures
        within(add_effects(v, effs), b + effects_mag(effs)),
    decreases effs.len(),
{
    if effs.len() > 0 {
        lemma_add_effects_bound(v, effs.drop_last(), b);
        lemma_add_values_bound(
            add_effects(v, effs.drop_last()),
            effs.last().values,
            b + effects_mag(effs.drop_last()),
        );
    }
}

/// Magnitudes are never negative, and a prefix weighs no more than the whole.
pub proof fn lemma_values_mag_prefix(vals: Seq<EffectValueModel>, j: int)
    requires
        0 <= j <= vals.len(),
    ensures
        0 <= values_mag(vals.take(j)) <= values_mag(vals),
    decreases vals.len(),
{
    if vals.len() > 0 {
        if j == vals.len() {
            assert(vals.take(j) =~= vals);
            lemma_values_mag_prefix(vals.drop_last(), j - 1);
            assert(vals.drop_last().take(j - 1) =~= vals.drop_last());
        } else {
            lemma_values_mag_prefix(vals.drop_last(), j);
            assert(vals.drop_last().take(j) =~= vals.take(j));
            lemma_values_mag_prefix(vals.drop_last(), vals.len() - 1);
            assert(vals.drop_last().take(vals.len() - 1) =~= vals.drop_last());
        }
    } else {
        assert(vals.take(j) =~= vals);
    }
}

/// Effect magnitudes are never negative, and a prefix weighs no more than the whole.
pub proof fn lemma_effects_mag_prefix(effs: Seq<EffectModel>, i: int)
    requires
        0 <= i <= effs.len(),
    ensures
        0 <= effects_mag(effs.take(i)) <= effects_mag(effs),
    decreases effs.len(),
{
    if effs.len() > 0 {
        let d = effs.drop_last();
        lemma_values_mag_prefix(effs.last().values, effs.last().values.len() as int);
        assert(effs.last().values.take(effs.last().values.len() as int) =~= effs.last().values);
        if i == effs.len() {
            assert(effs.take(i) =~= effs);
            lemma_effects_mag_prefix(d, i - 1);
            assert(d.take(i - 1) =~= d);
        } else {
            lemma_effects_mag_prefix(d, i);
            assert(d.take(i) =~= effs.take(i));
            lemma_effects_mag_prefix(d, d.len() as int);
            assert(d.take(d.len() as int) =~= d);
        }
    } else {
        assert(effs.take(i) =~= effs);
    }
}

/// The statistics that `item` gives on its own.
pub fn item_base_vector(item: &Equipment) -> (res: StatVector)
    requires
        item_ok(item@),
    ensures
        res@ == base_vector(item@),
        within(res@, ITEM_LIMIT as int),
{
    let ghost effs = item@.effects;
    let mut v = StatVector::default();
    let ne = item.effects.len();
    let mut i: usize = 0;
    assert(effs.take(0) =~= Seq::<EffectModel>::empty());
    proof {
        assert(within(zero_stats(), 0));
    }
    while i < ne
        invariant
            ne == item.effects@.len(),
            effs == item@.effects,
            effs.len() == ne,
            item_ok(item@),
            0 <= i <= ne,
            v@ == add_effects(zero_stats(), effs.take(i as int)),
            within(v@, effects_mag(effs.take(i as int))),
            effects_mag(effs.take(i as int)) <= ITEM_LIMIT,
        decreases ne - i,
    {
        let effect = &item.effects[i];
        let ghost vals = effs[i as int].values;
        let ghost start = v@;
        let ghost start_mag = effects_mag(effs.take(i as int));
        assert(vals == effect.values@.map_values(|e: crate::models::EffectValue| e@));
        proof {
            lemma_effects_mag_prefix(effs, i as int);
            lemma_effects_mag_prefix(effs, i + 1);
            assert(effs.take(i + 1).drop_last() =~= effs.take(i as int));
            assert(effs.take(i + 1).last() == effs[i as int]);
        }
        let nv = effect.values.len();
        let mut j: usize = 0;
        assert(vals.take(0) =~= Seq::<EffectValueModel>::empty());
        while j < nv
            invariant
                nv == effect.values@.len(),
                vals == effect.values@.map_values(|e: crate::models::EffectValue| e@),
                vals.len() == nv,
                0 <= j <= nv,
                v@ == add_values(start, vals.take(j as int)),
                within(v@, start_mag + values_mag(vals.take(j as int))),
                start_mag + values_mag(vals) <= ITEM_LIMIT,
                0 <= start_mag,
            decreases nv - j,
        {
            let ev = &effect.values[j];
            let ghost before = v@;
            proof {
                lemma_values_mag_prefix(vals, j + 1);
                assert(vals.take(j + 1).drop_last() =~= vals.take(j as int));
                assert(vals.take(j + 1).last() == vals[j as int]);
                assert(vals[j as int] == ev@);
                lemma_apply_value_bound(
                    before,
                    ev@,
                    start_mag + values_mag(vals.take(j as int)),
                );
            }
            match &ev.statistics {
                None => {},
                Some(s) => {
                    let d = ev.damage;
                    if s.id_stats == 1068 {
                        let mut k: usize = 5;
                        while k <= 8
                            invariant
                                5 <= k <= 9,
                                within(before, start_mag + values_mag(vals.take(j as int))),
                                start_mag + values_mag(vals.take(j as int)) + abs(d as int)
                                    <= ITEM_LIMIT,
                                forall|m: int|
                                    0 <= m < 22 ==> #[trigger] v.values@[m] == if 5 <= m < k {
                                        before[m] + d
                                    } else {
                                        before[m]
                                    },
                            decreases 9 - k,
                        {
                            assert(-ITEM_LIMIT <= before[k as int] <= ITEM_LIMIT);
                            assert(v.values@[k as int] == before[k as int]);
                            v.values[k] = v.values[k] + d;
                            k += 1;
                        }
                        assert(v@ =~= apply_value(before, ev@));
                    } else {
                        proof {
                            if is_tracked(s.id_stats) {
                                assert(-ITEM_LIMIT <= before[stat_slot(s.id_stats)] <= ITEM_LIMIT);
                            }
                        }
                        v.add_to(s.id_stats, d);
                    }
                },
            }
            j += 1;
        }
        assert(vals.take(nv as int) =~= vals);
        i += 1;
    }
    assert(effs.take(ne as int) =~= effs);
    v
}

/// Bound on a weighted sum of 64-bit statistics under bounded weights.
pub proof fn lemma_weighted_sum_bound(v: Seq<int>, ws: Seq<(i32, i64)>)
    requires
        v.len() == 22,
        forall|i: int| 0 <= i < 22 ==> i64::MIN <= #[trigger] v[i] <= i64::MAX,
        forall|i: int| 0 <= i < ws.len() ==> -WEIGHT_LIMIT <= #[trigger] ws[i].1 <= WEIGHT_LIMIT,
    ensures
        abs(weighted_sum(v, ws)) <= ws.len() * 0x8000_0000_0000_0000 * WEIGHT_LIMIT,
    decreases ws.len(),
{
    if ws.len() > 0 {
        let d = ws.drop_last();
        assert forall|i: int| 0 <= i < d.len() implies -WEIGHT_LIMIT <= #[trigger] d[i].1
            <= WEIGHT_LIMIT by {
            assert(d[i] == ws[i]);
        }
        lemma_weighted_sum_bound(v, d);
        let x = stat_of(v, ws.last().0);
        let w = ws.last().1 as int;
        assert(-WEIGHT_LIMIT <= ws[ws.len() - 1].1 <= WEIGHT_LIMIT);
        assert(abs(x * w) <= 0x8000_0000_0000_0000 * WEIGHT_LIMIT) by (nonlinear_arith)
            requires
                -0x8000_0000_0000_0000 <= x <= 0x8000_0000_0000_0000,
                -WEIGHT_LIMIT <= w <= WEIGHT_LIMIT,
        ;
        assert((d.len() + 1) * 0x8000_0000_0000_0000 * WEIGHT_LIMIT == d.len()
            * 0x8000_0000_0000_0000 * WEIGHT_LIMIT + 0x8000_0000_0000_0000 * WEIGHT_LIMIT)
            by (nonlinear_arith);
    }
}

/// Score of the statistics `v` under `profile`, in hundred-thousandths.
pub fn calculate_score(v: &StatVector, profile: &BuildProfile) -> (res: i128)
    requires
        profile.wf(),
    ensures
        res == score(v@, profile@),
        -SCORE_BOUND <= res <= SCORE_BOUND,
{
    let pk: i64 = match profile.element {
        Element::Fire => v.values[5],
        Element::Earth => v.values[6],
        Element::Water => v.values[7],
        Element::Air => v.values[8],
        Element::All => {
            let mut m = v.values[5];
            if v.values[6] > m {
                m = v.values[6];
            }
            if v.values[7] > m {
                m = v.values[7];
            }
            if v.values[8] > m {
                m = v.values[8];
            }
            m
        },
    };
    let mut s: i128 = 0;
    let n = profile.weights.len();
    let ghost ws = profile.weights@;
    let mut i: usize = 0;
    assert(ws.take(0) =~= Seq::<(i32, i64)>::empty());
    while i < n
        invariant
            n == ws.len(),
            ws == profile.weights@,
            profile.wf(),
            0 <= i <= n,
            s == weighted_sum(v@, ws.take(i as int)),
        decreases n - i,
    {
        let (id, w) = profile.weights[i];
        let x = v.get(id);
        proof {
            let t = ws.take(i + 1);
            assert(t.drop_last() =~= ws.take(i as int));
            assert(t.last() == ws[i as int]);
            assert forall|k: int| 0 <= k < t.len() implies -WEIGHT_LIMIT <= #[trigger] t[k].1
                <= WEIGHT_LIMIT by {
                assert(t[k] == ws[k]);
            }
            assert forall|k: int| 0 <= k < 22 implies i64::MIN <= #[trigger] v@[k]
                <= i64::MAX by {}
            lemma_weighted_sum_bound(v@, t);
            assert(t.len() <= 64);
            assert(t.len() * 0x8000_0000_0000_0000 * WEIGHT_LIMIT <= 64 * 0x8000_0000_0000_0000
                * WEIGHT_LIMIT) by (nonlinear_arith)
                requires
                    t.len() <= 64,
            ;
            assert(-0x8000_0000_0000_0000 * WEIGHT_LIMIT <= (x as int) * (w as int)
                <= 0x8000_0000_0000_0000 * WEIGHT_LIMIT) by (nonlinear_arith)
                requires
                    i64::MIN <= x <= i64::MAX,
                    -WEIGHT_LIMIT <= w <= WEIGHT_LIMIT,
            ;
        }
        s = s + (x as i128) * (w as i128);
        i += 1;
    }
    assert(ws.take(n as int) =~= ws);
    proof {
        assert forall|k: int| 0 <= k < 22 implies i64::MIN <= #[trigger] v@[k] <= i64::MAX by {}
        lemma_weighted_sum_bound(v@, ws);
        assert(ws.len() * 0x8000_0000_0000_0000 * WEIGHT_LIMIT <= 64 * 0x8000_0000_0000_0000
            * WEIGHT_LIMIT) by (nonlinear_arith)
            requires
                ws.len() <= 64,
        ;
        assert(-0x8000_0000_0000_0000 <= pk <= 0x8000_0000_0000_0000);
    }
    2000 * (pk as i128) + s
}

/// Whether the effect values of `item` are small enough to be added up exactly.
pub fn item_within_limits(item: &Equipment) -> (res: bool)
    ensures
        res == item_ok(item@),
{
    let ghost effs = item@.effects;
    let mut total: i128 = 0;
    let ne = item.effects.len();
    let mut i: usize = 0;
    assert(effs.take(0) =~= Seq::<EffectModel>::empty());
    while i < ne
        invariant
            ne == item.effects@.len(),
            effs == item@.effects,
            effs.len() == ne,
            0 <= i <= ne,
            total == effects_mag(effs.take(i as int)),
            0 <= total <= ITEM_LIMIT,
        decreases ne - i,
    {
        let effect = &item.effects[i];
        let ghost vals = effs[i as int].values;
        assert(vals == effect.values@.map_values(|e: crate::models::EffectValue| e@));
        let ghost start = total as int;
        let nv = effect.values.len();
        let mut j: usize = 0;
        assert(vals.take(0) =~= Seq::<EffectValueModel>::empty());
        while j < nv
            invariant
                nv == effect.values@.len(),
                vals == effect.values@.map_values(|e: crate::models::EffectValue| e@),
                vals.len() == nv,
                0 <= j <= nv,
                total == start + values_mag(vals.take(j as int)),
                0 <= start,
                total <= ITEM_LIMIT,
                0 <= total,
                effs == item@.effects,
                effs.len() == ne,
                i < ne,
                start == effects_mag(effs.take(i as int)),
                vals == effs[i as int].values,
            decreases nv - j,
        {
            let d = effect.values[j].damage;
            assert(vals.take(j + 1).drop_last() =~= vals.take(j as int));
            assert(vals[j as int].damage == d);
            let a: i128 = if d < 0 {
                -(d as i128)
            } else {
                d as i128
            };
            total = total + a;
            if total > ITEM_LIMIT as i128 {
                proof {
                    lemma_values_mag_prefix(vals, j + 1);
                    lemma_effects_mag_prefix(effs, i + 1);
                    assert(effs.take(i + 1).drop_last() =~= effs.take(i as int));
                    assert(effs.take(i + 1).last() == effs[i as int]);
                }
                return false;
            }
            j += 1;
        }
        assert(vals.take(nv as int) =~= vals);
        assert(effs.take(i + 1).drop_last() =~= effs.take(i as int));
        assert(effs.take(i + 1).last() == effs[i as int]);
        i += 1;
    }
    assert(effs.take(ne as int) =~= effs);
    true
}

} // verus!
