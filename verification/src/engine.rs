use vstd::prelude::*;
use std::collections::HashMap;
use crate::models::{Equipment, EquipmentModel, models};
use crate::profile::{BuildProfile, WEIGHT_LIMIT};
use crate::ranking::{sort_desc, keyed, sort_by_key_desc, lemma_sort_len};
use crate::scoring::{base_vector, item_ok, item_base_vector, score_weight, ITEM_LIMIT};
use crate::sockets::{
    doubled, doubled_on_slot, no_sockets, has_no_sockets, socket_value, socket_gain,
    item_socket_value, item_socket_gain, max_enchant_level, enchant_value,
};
use crate::stats::{
    StatVector, stat_of, zero_stats, add_stats, add_stat, within, stat_slot, is_tracked, id_to_idx,
};

verus! {

broadcast use vstd::std_specs::hash::group_hash_axioms;

/// Largest number of items in a build whose statistics are added up.
pub const BUILD_LIMIT: usize = 4096;

/// Largest amount, in hundredths, that four enchantments add to one statistic of one item.
pub const SOCKET_LIMIT: i64 = 70400;

/// The catalogue of items that builds are searched in.
pub struct Optimizer {
    pub items: Vec<Equipment>,
}

/// Statistics considered when the enchantments of a whole build are chosen.
pub open spec fn build_enchant_stats() -> Seq<i32> {
    seq![120i32, 1052, 1053, 1055, 149, 180, 173, 175, 171, 82, 83, 84, 85, 20, 26]
}

/// Statistics considered when the enchantment of a single item is recommended.
pub open spec fn item_enchant_stats() -> Seq<i32> {
    seq![120i32, 1052, 1053, 1055, 149, 180, 173, 175, 171, 20, 26]
}

/// Statistics that `aggregate_stats` reports.
pub open spec fn aggregate_ids() -> Seq<i32> {
    seq![20i32, 31, 41, 80, 122, 123, 124, 125, 1052, 1053, 180, 150, 160, 171, 173, 175, 26, 1055]
}

/// Every item of the build is small enough, and there are not too many of them.
pub open spec fn build_ok(build: Seq<EquipmentModel>) -> bool {
    &&& build.len() <= BUILD_LIMIT
    &&& forall|i: int| 0 <= i < build.len() ==> item_ok(#[trigger] build[i])
}

/// Sum of the base statistics of the items of `build`.
pub open spec fn build_base(build: Seq<EquipmentModel>) -> Seq<int>
    decreases build.len(),
{
    if build.len() == 0 {
        zero_stats()
    } else {
        add_stats(build_base(build.drop_last()), base_vector(build.last()))
    }
}

/// Score that four enchantments of `stat` on `item` add to a build: untracked
/// statistics add nothing.
pub open spec fn enchant_gain(stat: i32, item: EquipmentModel, ws: Seq<(i32, i64)>) -> int {
    if is_tracked(stat) {
        socket_value(stat, item) * score_weight(ws, stat)
    } else {
        0
    }
}

/// The best positive gain among `stats` for `item`, and the first statistic
/// that reaches it (none when no statistic gains anything).
pub open spec fn best_stat(item: EquipmentModel, stats: Seq<i32>, ws: Seq<(i32, i64)>) -> (
    int,
    Option<i32>,
)
    decreases stats.len(),
{
    if stats.len() == 0 {
        (0, None)
    } else {
        let prev = best_stat(item, stats.drop_last(), ws);
        let g = enchant_gain(stats.last(), item, ws);
        if g > prev.0 {
            (g, Some(stats.last()))
        } else {
            prev
        }
    }
}

/// The statistic enchanted on `item` in a build: the best one, or none for
/// items without sockets or when nothing gains.
pub open spec fn item_choice(item: EquipmentModel, ws: Seq<(i32, i64)>) -> Option<i32> {
    if no_sockets(item.id_type) {
        None
    } else {
        best_stat(item, build_enchant_stats(), ws).1
    }
}

/// The statistic chosen for each item of `build`.
pub open spec fn choices(build: Seq<EquipmentModel>, ws: Seq<(i32, i64)>) -> Seq<Option<i32>> {
    build.map_values(|it: EquipmentModel| item_choice(it, ws))
}

/// An allocation of enchantments to `build`: one entry per item, each a
/// candidate statistic or nothing.
pub open spec fn is_allocation(build: Seq<EquipmentModel>, alloc: Seq<Option<i32>>) -> bool {
    &&& alloc.len() == build.len()
    &&& forall|i: int|
        0 <= i < alloc.len() ==> (#[trigger] alloc[i] matches Some(s) ==> build_enchant_stats().contains(
            s,
        ))
}

/// Adds to `v` the four enchantments that `alloc` gives each item of `build`;
/// items without sockets take none.
pub open spec fn apply_alloc(v: Seq<int>, build: Seq<EquipmentModel>, alloc: Seq<Option<i32>>) -> Seq<
    int,
>
    decreases build.len(),
{
    if build.len() == 0 || alloc.len() == 0 {
        v
    } else {
        let prev = apply_alloc(v, build.drop_last(), alloc.drop_last());
        let it = build.last();
        match alloc.last() {
            Some(s) => if no_sockets(it.id_type) {
                prev
            } else {
                add_stat(prev, s, socket_value(s, it))
            },
            None => prev,
        }
    }
}

/// Score that `alloc` adds to a build, item by item.
pub open spec fn alloc_gain(build: Seq<EquipmentModel>, alloc: Seq<Option<i32>>, ws: Seq<(i32, i64)>) -> int
    decreases build.len(),
{
    if build.len() == 0 || alloc.len() == 0 {
        0
    } else {
        let prev = alloc_gain(build.drop_last(), alloc.drop_last(), ws);
        let it = build.last();
        match alloc.last() {
            Some(s) => if no_sockets(it.id_type) {
                prev
            } else {
                prev + enchant_gain(s, it, ws)
            },
            None => prev,
        }
    }
}

/// The enchantment plan of a build: (item id, statistic) for each item that
/// takes an enchantment, in build order.
pub open spec fn enchant_plan(build: Seq<EquipmentModel>, ws: Seq<(i32, i64)>) -> Seq<(i32, i32)>
    decreases build.len(),
{
    if build.len() == 0 {
        Seq::empty()
    } else {
        let prev = enchant_plan(build.drop_last(), ws);
        match item_choice(build.last(), ws) {
            Some(s) => prev.push((build.last().id, s)),
            None => prev,
        }
    }
}

/// Statistics of a build once each item is enchanted with its chosen statistic.
pub open spec fn enchanted_stats(build: Seq<EquipmentModel>, ws: Seq<(i32, i64)>) -> Seq<int> {
    apply_alloc(build_base(build), build, choices(build, ws))
}

/// The enchantment recommended for a single item: the statistic of largest gain
/// (the first such) with that gain, or nothing for items without sockets.
pub open spec fn socket_choice(item: EquipmentModel, ws: Seq<(i32, i64)>) -> Seq<(i32, int)> {
    if no_sockets(item.id_type) {
        Seq::empty()
    } else {
        sort_desc(
            item_enchant_stats().map_values(|s: i32| (socket_gain(s, item, ws), s)),
        ).take(1).map_values(|p: (int, i32)| (p.1, p.0))
    }
}

/// Bound on the components of a build's statistics, base and enchantments.
pub open spec fn build_stat_bound(n: int) -> int {
    n * (ITEM_LIMIT + SOCKET_LIMIT)
}

/// Four enchantments give between nothing and `SOCKET_LIMIT`.
pub proof fn lemma_socket_value_range(stat: i32, it: EquipmentModel)
    ensures
        0 <= socket_value(stat, it) <= SOCKET_LIMIT,
{
    let l = max_enchant_level(it.level);
    assert(1 <= l <= 11);
    assert(0 <= enchant_value(stat, l) <= 8800);
}

/// The base statistics of a build stay within the sum of its items' bounds.
pub proof fn lemma_build_base_bound(build: Seq<EquipmentModel>)
    requires
        forall|i: int| 0 <= i < build.len() ==> item_ok(#[trigger] build[i]),
    ensures
        within(build_base(build), build.len() * ITEM_LIMIT),
    decreases build.len(),
{
    if build.len() > 0 {
        let d = build.drop_last();
        assert forall|i: int| 0 <= i < d.len() implies item_ok(#[trigger] d[i]) by {
            assert(d[i] == build[i]);
        }
        lemma_build_base_bound(d);
        assert(item_ok(build[build.len() - 1]));
        crate::scoring::lemma_add_effects_bound(zero_stats(), build.last().effects, 0);
        let r = build_base(build);
        assert forall|i: int| 0 <= i < 22 implies -(build.len() * ITEM_LIMIT) <= #[trigger] r[i]
            <= build.len() * ITEM_LIMIT by {
            assert(-(d.len() * ITEM_LIMIT) <= build_base(d)[i] <= d.len() * ITEM_LIMIT);
            assert(-ITEM_LIMIT <= base_vector(build.last())[i] <= ITEM_LIMIT);
            assert(build.len() * ITEM_LIMIT == d.len() * ITEM_LIMIT + ITEM_LIMIT)
                by (nonlinear_arith)
                requires
                    build.len() == d.len() + 1,
            ;
        }
    }
}

/// Applying an allocation moves each component by at most `SOCKET_LIMIT` per item.
pub proof fn lemma_apply_alloc_bound(
    v: Seq<int>,
    build: Seq<EquipmentModel>,
    alloc: Seq<Option<i32>>,
    b: int,
)
    requires
        within(v, b),
    ensures
        within(apply_alloc(v, build, alloc), b + build.len() * SOCKET_LIMIT),
    decreases build.len(),
{
    if build.len() > 0 && alloc.len() > 0 {
        let d = build.drop_last();
        lemma_apply_alloc_bound(v, d, alloc.drop_last(), b);
        let prev = apply_alloc(v, d, alloc.drop_last());
        let r = apply_alloc(v, build, alloc);
        assert(build.len() * SOCKET_LIMIT == d.len() * SOCKET_LIMIT + SOCKET_LIMIT)
            by (nonlinear_arith)
            requires
                build.len() == d.len() + 1,
        ;
        if let Some(s) = alloc.last() {
            lemma_socket_value_range(s, build.last());
        }
        assert forall|i: int| 0 <= i < 22 implies -(b + build.len() * SOCKET_LIMIT) <= #[trigger] r[i]
            <= b + build.len() * SOCKET_LIMIT by {
            assert(-(b + d.len() * SOCKET_LIMIT) <= prev[i] <= b + d.len() * SOCKET_LIMIT);
        }
    } else if build.len() > 0 {
        assert(0 <= build.len() * SOCKET_LIMIT) by (nonlinear_arith)
            requires
                build.len() >= 0,
        ;
    }
}

/// A build's enchanted statistics stay within `build_stat_bound`.
pub proof fn lemma_enchanted_bound(build: Seq<EquipmentModel>, ws: Seq<(i32, i64)>)
    requires
        build_ok(build),
    ensures
        within(enchanted_stats(build, ws), build_stat_bound(build.len() as int)),
        build_stat_bound(build.len() as int) <= build_stat_bound(BUILD_LIMIT as int),
{
    lemma_build_base_bound(build);
    lemma_apply_alloc_bound(build_base(build), build, choices(build, ws), build.len() * ITEM_LIMIT);
    assert(build.len() * ITEM_LIMIT + build.len() * SOCKET_LIMIT == build_stat_bound(
        build.len() as int,
    )) by (nonlinear_arith);
    assert(build_stat_bound(build.len() as int) <= build_stat_bound(BUILD_LIMIT as int))
        by (nonlinear_arith)
        requires
            build.len() <= BUILD_LIMIT,
    ;
}

impl Optimizer {
    /// An optimizer over the catalogue `items`.
    pub fn new(items: Vec<Equipment>) -> (res: Self)
        ensures
            res.items@ == items@,
    {
        Optimizer { items }
    }

    /// Whether an enchantment of `stat_id` counts twice on items of slot type `slot_type`.
    pub fn is_stat_doubled_on_slot(&self, stat_id: i32, slot_type: i32) -> (res: bool)
        ensures
            res == doubled_on_slot(stat_id, slot_type),
    {
        doubled(stat_id, slot_type)
    }

    /// The weight that the score of `profile` gives to one unit of `stat`.
    fn stat_weight(profile: &BuildProfile, stat: i32) -> (res: i64)
        requires
            profile.wf(),
        ensures
            res == score_weight(profile.weights@, stat),
            -64 * WEIGHT_LIMIT <= res <= 64 * WEIGHT_LIMIT,
    {
        let ghost ws = profile.weights@;
        let n = profile.weights.len();
        let mut total: i64 = 0;
        let mut i: usize = 0;
        assert(ws.take(0) =~= Seq::<(i32, i64)>::empty());
        while i < n
            invariant
                n == ws.len(),
                n <= 64,
                ws == profile.weights@,
                profile.wf(),
                0 <= i <= n,
                total == score_weight(ws.take(i as int), stat),
                -(i as int) * WEIGHT_LIMIT <= total <= (i as int) * WEIGHT_LIMIT,
            decreases n - i,
        {
            let (id, w) = profile.weights[i];
            proof {
                assert(ws.take(i + 1).drop_last() =~= ws.take(i as int));
                assert(ws.take(i + 1).last() == ws[i as int]);
                assert(-WEIGHT_LIMIT <= ws[i as int].1 <= WEIGHT_LIMIT);
            }
            if id == stat {
                total = total + w;
            }
            i += 1;
        }
        assert(ws.take(n as int) =~= ws);
        total
    }

    /// The statistic enchanted on `item` in a build: the first of largest
    /// positive gain, none for items without sockets.
    fn choose_stat(item: &Equipment, profile: &BuildProfile) -> (res: Option<i32>)
        requires
            profile.wf(),
        ensures
            res == item_choice(item@, profile.weights@),
    {
        Self::best_enchantment(item, profile).1
    }

    /// The gain of the best enchantment of `item` and its statistic: nothing
    /// for items without sockets.
    pub(crate) fn best_enchantment(item: &Equipment, profile: &BuildProfile) -> (res: (i128, Option<i32>))
        requires
            profile.wf(),
        ensures
            (res.0 as int, res.1) == if no_sockets(item@.id_type) {
                (0int, None::<i32>)
            } else {
                best_stat(item@, build_enchant_stats(), profile.weights@)
            },
            0 <= res.0 <= 70400 * 64 * WEIGHT_LIMIT,
            res.1 == item_choice(item@, profile.weights@),
    {
        if has_no_sockets(item.id_type) {
            return (0, None);
        }
        let ghost ws = profile.weights@;
        let stats: [i32; 15] = [120, 1052, 1053, 1055, 149, 180, 173, 175, 171, 82, 83, 84, 85, 20, 26];
        assert(stats@ == build_enchant_stats());
        let mut best_gain: i128 = 0;
        let mut best: Option<i32> = None;
        let mut k: usize = 0;
        assert(build_enchant_stats().take(0) =~= Seq::<i32>::empty());
        while k < 15
            invariant
                stats@ == build_enchant_stats(),
                profile.wf(),
                ws == profile.weights@,
                0 <= k <= 15,
                best_stat(item@, build_enchant_stats().take(k as int), ws) == (best_gain as int, best),
                0 <= best_gain <= 70400 * 64 * WEIGHT_LIMIT,
            decreases 15 - k,
        {
            let stat = stats[k];
            let g: i128 = if id_to_idx(stat) < 22 {
                let sv = item_socket_value(stat, item);
                let w = Self::stat_weight(profile, stat);
                assert(-70400 * 64 * WEIGHT_LIMIT <= (sv as int) * (w as int) <= 70400 * 64
                    * WEIGHT_LIMIT) by (nonlinear_arith)
                    requires
                        0 <= sv <= 70400,
                        -64 * WEIGHT_LIMIT <= w <= 64 * WEIGHT_LIMIT,
                ;
                (sv as i128) * (w as i128)
            } else {
                0
            };
            proof {
                let t = build_enchant_stats().take(k + 1);
                assert(t.drop_last() =~= build_enchant_stats().take(k as int));
                assert(t.last() == stat);
                assert(g == enchant_gain(stat, item@, ws));
            }
            if g > best_gain {
                best_gain = g;
                best = Some(stat);
            }
            k += 1;
        }
        assert(build_enchant_stats().take(15) =~= build_enchant_stats());
        (best_gain, best)
    }

    /// The sum of the statistics of the items of `build`.
    fn build_base_vector(build: &[Equipment]) -> (res: StatVector)
        requires
            build_ok(models(build@)),
        ensures
            res@ == build_base(models(build@)),
    {
        let ghost m = models(build@);
        let mut v = StatVector::default();
        let n = build.len();
        let mut i: usize = 0;
        assert(m.take(0) =~= Seq::<EquipmentModel>::empty());
        while i < n
            invariant
                n == build@.len(),
                m == models(build@),
                build_ok(m),
                0 <= i <= n,
                v@ == build_base(m.take(i as int)),
            decreases n - i,
        {
            let item = &build[i];
            assert(item_ok(m[i as int]));
            let iv = item_base_vector(item);
            proof {
                let t = m.take(i as int);
                assert forall|k: int| 0 <= k < t.len() implies item_ok(#[trigger] t[k]) by {
                    assert(t[k] == m[k]);
                }
                lemma_build_base_bound(t);
                assert(t.len() * ITEM_LIMIT <= 4096 * ITEM_LIMIT) by (nonlinear_arith)
                    requires
                        t.len() <= 4096,
                ;
                assert forall|k: int| 0 <= k < 22 implies i64::MIN <= #[trigger] v@[k] + iv@[k]
                    <= i64::MAX by {
                    assert(-(t.len() * ITEM_LIMIT) <= v@[k] <= t.len() * ITEM_LIMIT);
                    assert(-ITEM_LIMIT <= iv@[k] <= ITEM_LIMIT);
                }
                assert(m.take(i + 1).drop_last() =~= t);
                assert(m.take(i + 1).last() == item@);
            }
            v.add_assign(&iv);
            i += 1;
        }
        assert(m.take(n as int) =~= m);
        v
    }

    /// Statistics of `build` once enchanted, together with the enchantment plan:
    /// every item that takes enchantments gets the statistic that adds the most
    /// to the build's score (the first such, and none when nothing adds), which
    /// gives the best score of all allocations (see `lemma_enchantment_is_best`).
    pub fn optimize_global_enchantment(&self, build: &[Equipment], profile: &BuildProfile) -> (res: (
        StatVector,
        Vec<(i32, i32)>,
    ))
        requires
            profile.wf(),
            build_ok(models(build@)),
        ensures
            res.0@ == enchanted_stats(models(build@), profile.weights@),
            res.1@ == enchant_plan(models(build@), profile.weights@),
    {
        let ghost m = models(build@);
        let ghost ws = profile.weights@;
        let base = Self::build_base_vector(build);
        let mut v = base;
        let mut plan: Vec<(i32, i32)> = Vec::new();
        let n = build.len();
        proof {
            lemma_build_base_bound(m);
        }
        let mut i: usize = 0;
        assert(m.take(0) =~= Seq::<EquipmentModel>::empty());
        assert(choices(m.take(0), ws) =~= Seq::<Option<i32>>::empty());
        while i < n
            invariant
                n == build@.len(),
                m == models(build@),
                ws == profile.weights@,
                profile.wf(),
                build_ok(m),
                0 <= i <= n,
                base@ == build_base(m),
                within(base@, n * ITEM_LIMIT),
                v@ == apply_alloc(base@, m.take(i as int), choices(m.take(i as int), ws)),
                plan@ == enchant_plan(m.take(i as int), ws),
            decreases n - i,
        {
            let item = &build[i];
            let ghost t = m.take(i as int);
            let ghost t1 = m.take(i + 1);
            let ghost before = v@;
            proof {
                assert(t1.drop_last() =~= t);
                assert(t1.last() == item@);
                assert(choices(t1, ws).drop_last() =~= choices(t, ws));
                assert(choices(t1, ws).last() == item_choice(item@, ws));
                lemma_apply_alloc_bound(base@, t, choices(t, ws), n * ITEM_LIMIT);
                assert(n * ITEM_LIMIT + t.len() * SOCKET_LIMIT <= 4096 * ITEM_LIMIT + 4096
                    * SOCKET_LIMIT) by (nonlinear_arith)
                    requires
                        n <= 4096,
                        t.len() <= 4096,
                ;
            }
            match Self::choose_stat(item, profile) {
                Some(stat) => {
                    let sv = item_socket_value(stat, item);
                    proof {
                        if is_tracked(stat) {
                            let b = n * ITEM_LIMIT + t.len() * SOCKET_LIMIT;
                            assert(-b <= before[stat_slot(stat)] <= b);
                        }
                    }
                    v.add_to(stat, sv);
                    plan.push((item.id, stat));
                },
                None => {},
            }
            i += 1;
        }
        assert(m.take(n as int) =~= m);
        (v, plan)
    }

    /// The enchantment recommended for `item` alone: the statistic whose four
    /// enchantments bring the most (the first such), with that gain; nothing for
    /// items that take no enchantments.
    pub fn get_socket_potential(&self, item: &Equipment, profile: &BuildProfile) -> (res: Vec<
        (i32, i64),
    >)
        requires
            profile.wf(),
        ensures
            res@.map_values(|p: (i32, i64)| (p.0, p.1 as int)) == socket_choice(
                item@,
                profile.weights@,
            ),
    {
        let ghost ws = profile.weights@;
        let mut res: Vec<(i32, i64)> = Vec::new();
        if has_no_sockets(item.id_type) {
            assert(res@.map_values(|p: (i32, i64)| (p.0, p.1 as int)) =~= socket_choice(item@, ws));
            return res;
        }
        let stats: [i32; 11] = [120, 1052, 1053, 1055, 149, 180, 173, 175, 171, 20, 26];
        assert(stats@ == item_enchant_stats());
        let ghost cands_spec = item_enchant_stats().map_values(
            |s: i32| (socket_gain(s, item@, ws), s),
        );
        let mut cands: Vec<(i128, i32)> = Vec::new();
        let mut k: usize = 0;
        while k < 11
            invariant
                stats@ == item_enchant_stats(),
                profile.wf(),
                ws == profile.weights@,
                cands_spec == item_enchant_stats().map_values(
                    |s: i32| (socket_gain(s, item@, ws), s),
                ),
                0 <= k <= 11,
                keyed(cands@) == cands_spec.take(k as int),
            decreases 11 - k,
        {
            let stat = stats[k];
            let g = item_socket_gain(stat, item, profile);
            let ghost old_c = cands@;
            cands.push((g as i128, stat));
            assert(cands_spec[k as int] == (g as int, stat));
            assert(keyed(cands@) =~= keyed(old_c).push((g as int, stat)));
            assert(cands_spec.take(k + 1) =~= cands_spec.take(k as int).push(cands_spec[k as int]));
            k += 1;
        }
        assert(cands_spec.take(11) =~= cands_spec);
        let sorted = sort_by_key_desc(&cands);
        proof {
            lemma_sort_len(cands_spec);
        }
        let best = sorted[0];
        let ghost sg = sort_desc(cands_spec);
        assert(sg[0] == (best.0 as int, best.1));
        proof {
            crate::ranking::lemma_sort_members(cands_spec);
            assert(cands_spec.contains(sg[0]));
            let j = choose|j: int| 0 <= j < cands_spec.len() && cands_spec[j] == sg[0];
            assert(best.0 == socket_gain(best.1, item@, ws));
            crate::sockets::lemma_lookup_bounded(ws, best.1);
            lemma_socket_value_range(best.1, item@);
            let w = crate::profile::weight_or(ws, best.1, 100);
            assert(-70400 * 1_000_000 <= socket_value(best.1, item@) * w <= 70400 * 1_000_000)
                by (nonlinear_arith)
                requires
                    0 <= socket_value(best.1, item@) <= 70400,
                    -1_000_000 <= w <= 1_000_000,
            ;
        }
        res.push((best.1, best.0 as i64));
        assert(res@.map_values(|p: (i32, i64)| (p.0, p.1 as int)) =~= sg.take(1).map_values(
            |p: (int, i32)| (p.1, p.0),
        ));
        res
    }

    /// Statistics of `build` once enchanted, reported for the statistics of
    /// `aggregate_ids`.
    pub fn aggregate_stats(&self, build: &[Equipment], profile: &BuildProfile) -> (res: HashMap<
        i32,
        i64,
    >)
        requires
            profile.wf(),
            build_ok(models(build@)),
        ensures
            forall|id: i32| #[trigger] res@.contains_key(id) <==> aggregate_ids().contains(id),
            forall|id: i32|
                #[trigger] res@.contains_key(id) ==> res@[id] == stat_of(
                    enchanted_stats(models(build@), profile.weights@),
                    id,
                ),
            forall|id: i32|
                #[trigger] res@.contains_key(id) ==> -0x2000_0000_0000_0000 <= res@[id]
                    <= 0x2000_0000_0000_0000,
    {
        let (v, _) = self.optimize_global_enchantment(build, profile);
        let ghost ev = enchanted_stats(models(build@), profile.weights@);
        proof {
            lemma_enchanted_bound(models(build@), profile.weights@);
            assert(build_stat_bound(BUILD_LIMIT as int) <= 0x2000_0000_0000_0000);
        }
        let ids: [i32; 18] = [20, 31, 41, 80, 122, 123, 124, 125, 1052, 1053, 180, 150, 160, 171, 173, 175, 26, 1055];
        assert(ids@ == aggregate_ids());
        let mut totals: HashMap<i32, i64> = HashMap::new();
        let mut k: usize = 0;
        while k < 18
            invariant
                ids@ == aggregate_ids(),
                v@ == ev,
                0 <= k <= 18,
                forall|id: i32| #[trigger] totals@.contains_key(id) <==> aggregate_ids().take(
                    k as int,
                ).contains(id),
                forall|id: i32|
                    #[trigger] totals@.contains_key(id) ==> totals@[id] == stat_of(ev, id),
                within(ev, 0x2000_0000_0000_0000),
            decreases 18 - k,
        {
            let id = ids[k];
            let x = v.get(id);
            totals.insert(id, x);
            proof {
                let t = aggregate_ids().take(k + 1);
                assert(t =~= aggregate_ids().take(k as int).push(id));
                assert forall|i: i32| #[trigger] totals@.contains_key(i) <==> t.contains(i) by {
                    if t.contains(i) && i != id {
                        let j = choose|j: int| 0 <= j < t.len() && t[j] == i;
                        assert(aggregate_ids().take(k as int)[j] == i);
                    }
                    if aggregate_ids().take(k as int).contains(i) {
                        let j = choose|j: int| 0 <= j < k && aggregate_ids().take(k as int)[j] == i;
                        assert(t[j] == i);
                    }
                    if i == id {
                        assert(t[k as int] == id);
                    }
                }
            }
            k += 1;
        }
        assert(aggregate_ids().take(18) =~= aggregate_ids());
        totals
    }
}

} // verus!
