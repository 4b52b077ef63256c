use vstd::prelude::*;
use crate::laws::follows;
use crate::engine::{Optimizer, build_ok, enchanted_stats, lemma_enchanted_bound, build_stat_bound};
use crate::models::{Equipment, EquipmentModel, models};
use crate::profile::{BuildProfile, ProfileModel};
use crate::scoring::{
    item_ok, penalty, final_score, calculate_score, item_base_vector, ITEM_LIMIT, SCORE_BOUND,
};
use crate::pruning::{item_bound, items_bound, pool_bound, rest_bound, lemma_prune};
use crate::stats::{StatVector, within};
use crate::text::{
    lowercase, has_substring, has_prefix, word_count, to_lowercase, chars_of, contains_chars,
    starts_with_chars, count_words,
};

verus! {

/// Whether the name of an item of slot type `t` lets it into a build, from
/// the name's lowercase characters `lower` and its own characters `name`: no
/// "ancien" item, and no modulation or bare two-word "embl..." emblem.
pub open spec fn name_allowed(lower: Seq<char>, name: Seq<char>, t: i32) -> bool {
    &&& !has_substring(lower, "ancien"@)
    &&& !(t == 646 && (has_substring(lower, "modulation"@) || (has_prefix(lower, "embl"@)
        && word_count(name) == 2)))
}

/// Whether `item` may enter a build of level `level`: not above that level,
/// above level 1, and with a name that lets it in.
pub open spec fn eligible(item: EquipmentModel, level: i32) -> bool {
    &&& !(item.level > level || item.level <= 1)
    &&& name_allowed(lowercase(item.name), item.name, item.id_type)
}

/// The eligible items of slot type `t`, in catalogue order.
pub open spec fn candidates(items: Seq<EquipmentModel>, level: i32, t: i32) -> Seq<EquipmentModel>
    decreases items.len(),
{
    if items.len() == 0 {
        Seq::empty()
    } else {
        let c = candidates(items.drop_last(), level, t);
        let it = items.last();
        if it.id_type == t && eligible(it, level) {
            c.push(it)
        } else {
            c
        }
    }
}

/// The three slot layouts that are searched.
pub open spec fn setups() -> Seq<Seq<i32>> {
    seq![
        seq![134i32, 120, 138, 132, 136, 133, 103, 103, 119, 582, 646, 519],
        seq![134i32, 120, 138, 132, 136, 133, 103, 103, 119, 582, 646, 518, 112],
        seq![134i32, 120, 138, 132, 136, 133, 103, 103, 119, 582, 646, 518, 189],
    ]
}

/// The items that each slot of a layout may take: the eligible items of its type.
pub open spec fn slot_pools(items: Seq<EquipmentModel>, level: i32, slots: Seq<i32>) -> Seq<
    Seq<EquipmentModel>,
> {
    slots.map_values(|t: i32| candidates(items, level, t))
}

/// `cur` already holds an item with id `id`.
pub open spec fn holds_id(cur: Seq<EquipmentModel>, id: i32) -> bool {
    exists|k: int| 0 <= k < cur.len() && #[trigger] cur[k].id == id
}

/// `cur` already holds an item of rarity `r`.
pub open spec fn holds_rarity(cur: Seq<EquipmentModel>, r: i32) -> bool {
    exists|k: int| 0 <= k < cur.len() && #[trigger] cur[k].id_rarity == r
}

/// `c` may join `cur`: not already there, and not a second epic (rarity 7) or
/// a second relic (rarity 5).
pub open spec fn allowed(cur: Seq<EquipmentModel>, c: EquipmentModel) -> bool {
    &&& !holds_id(cur, c.id)
    &&& !(c.id_rarity == 7 && holds_rarity(cur, 7))
    &&& !(c.id_rarity == 5 && holds_rarity(cur, 5))
}

/// The complete builds that extend `cur` from slot `depth` on, in search
/// order: each allowed item of the slot's pool in turn, or the slot left
/// empty when none is allowed.
pub open spec fn leaves(pools: Seq<Seq<EquipmentModel>>, depth: int, cur: Seq<EquipmentModel>) -> Seq<
    Seq<EquipmentModel>,
>
    decreases pools.len() - depth, pools[depth].len() + 1,
{
    if depth < 0 || depth >= pools.len() {
        seq![cur]
    } else if exists|i: int| 0 <= i < pools[depth].len() && allowed(cur, #[trigger] pools[depth][i]) {
        branch_leaves(pools, depth, pools[depth].len() as int, cur)
    } else {
        leaves(pools, depth + 1, cur)
    }
}

/// The builds that extend `cur` with one of the first `k` items of the pool
/// of slot `depth`.
pub open spec fn branch_leaves(
    pools: Seq<Seq<EquipmentModel>>,
    depth: int,
    k: int,
    cur: Seq<EquipmentModel>,
) -> Seq<Seq<EquipmentModel>>
    decreases pools.len() - depth, k,
{
    if k <= 0 || depth < 0 || depth >= pools.len() {
        Seq::empty()
    } else {
        let prev = branch_leaves(pools, depth, k - 1, cur);
        let c = pools[depth][k - 1];
        if allowed(cur, c) {
            prev + leaves(pools, depth + 1, cur.push(c))
        } else {
            prev
        }
    }
}

/// Score of a complete build: its enchanted statistics scored, penalties deducted.
pub open spec fn build_score(b: Seq<EquipmentModel>, p: ProfileModel) -> int {
    final_score(enchanted_stats(b, p.weights), p)
}

/// Keeps `best`, unless `b` scores strictly higher (or there is no best yet).
pub open spec fn better(
    best: Option<(int, Seq<EquipmentModel>)>,
    b: Seq<EquipmentModel>,
    p: ProfileModel,
) -> Option<(int, Seq<EquipmentModel>)> {
    let s = build_score(b, p);
    match best {
        None => Some((s, b)),
        Some(cur) => if s > cur.0 {
            Some((s, b))
        } else {
            best
        },
    }
}

/// The best of `best` and the builds of `bs` taken in order: the first build
/// of highest score wins.
pub open spec fn best_of(
    best: Option<(int, Seq<EquipmentModel>)>,
    bs: Seq<Seq<EquipmentModel>>,
    p: ProfileModel,
) -> Option<(int, Seq<EquipmentModel>)>
    decreases bs.len(),
{
    if bs.len() == 0 {
        best
    } else {
        better(best_of(best, bs.drop_last(), p), bs.last(), p)
    }
}

/// Every build that the search looks at, layout after layout.
pub open spec fn search_space(items: Seq<EquipmentModel>, level: i32) -> Seq<Seq<EquipmentModel>> {
    leaves(slot_pools(items, level, setups()[0]), 0, Seq::empty()) + leaves(
        slot_pools(items, level, setups()[1]),
        0,
        Seq::empty(),
    ) + leaves(slot_pools(items, level, setups()[2]), 0, Seq::empty())
}

/// The build that the search returns: the first of highest score.
pub open spec fn perfect_build(items: Seq<EquipmentModel>, level: i32, p: ProfileModel) -> Seq<
    EquipmentModel,
> {
    match best_of(None, search_space(items, level), p) {
        Some(r) => r.1,
        None => Seq::empty(),
    }
}

/// The model of an executable best-so-far.
pub open spec fn best_model(b: Option<(i128, Vec<Equipment>)>) -> Option<(int, Seq<EquipmentModel>)> {
    match b {
        None => None,
        Some(r) => Some((r.0 as int, models(r.1@))),
    }
}

/// Every item of every pool is small enough to be added up.
pub open spec fn pools_ok(pools: Seq<Seq<EquipmentModel>>) -> bool {
    forall|d: int, i: int| 0 <= d < pools.len() && 0 <= i < pools[d].len() ==> item_ok(#[trigger] pools[d][i])
}

/// Every item is small enough to be added up.
pub open spec fn all_ok(items: Seq<EquipmentModel>) -> bool {
    forall|i: int| 0 <= i < items.len() ==> item_ok(#[trigger] items[i])
}

/// With no allowed item among the first `k` of a pool, no build branches off.
pub proof fn lemma_branch_none(
    pools: Seq<Seq<EquipmentModel>>,
    depth: int,
    k: int,
    cur: Seq<EquipmentModel>,
)
    requires
        0 <= depth < pools.len(),
        k <= pools[depth].len(),
        forall|j: int| 0 <= j < k ==> !allowed(cur, #[trigger] pools[depth][j]),
    ensures
        branch_leaves(pools, depth, k, cur) == Seq::<Seq<EquipmentModel>>::empty(),
    decreases k,
{
    if k > 0 {
        lemma_branch_none(pools, depth, k - 1, cur);
        assert(!allowed(cur, pools[depth][k - 1]));
    }
}

/// Folding builds one list after another is folding their concatenation.
pub proof fn lemma_best_of_append(
    best: Option<(int, Seq<EquipmentModel>)>,
    s1: Seq<Seq<EquipmentModel>>,
    s2: Seq<Seq<EquipmentModel>>,
    p: ProfileModel,
)
    ensures
        best_of(best, s1 + s2, p) == best_of(best_of(best, s1, p), s2, p),
    decreases s2.len(),
{
    if s2.len() == 0 {
        assert(s1 + s2 =~= s1);
    } else {
        lemma_best_of_append(best, s1, s2.drop_last(), p);
        assert((s1 + s2).drop_last() =~= s1 + s2.drop_last());
        assert((s1 + s2).last() == s2.last());
    }
}

/// Starting from a best, folding `s` gives that best unless the fold of `s` on
/// its own scores strictly higher.
pub proof fn lemma_best_of_restart(
    g: Option<(int, Seq<EquipmentModel>)>,
    s: Seq<Seq<EquipmentModel>>,
    p: ProfileModel,
)
    ensures
        best_of(g, s, p) == match (g, best_of(None, s, p)) {
            (_, None) => g,
            (None, b) => b,
            (Some(x), Some(y)) => if y.0 > x.0 {
                Some(y)
            } else {
                g
            },
        },
    decreases s.len(),
{
    if s.len() > 0 {
        lemma_best_of_restart(g, s.drop_last(), p);
    }
}

/// The fold over a non-empty list gives a best that is one of its builds.
pub proof fn lemma_best_of_member(
    best: Option<(int, Seq<EquipmentModel>)>,
    s: Seq<Seq<EquipmentModel>>,
    p: ProfileModel,
)
    ensures
        best_of(best, s, p) matches Some(r) ==> (best matches Some(b) && r == b) || (s.contains(r.1)
            && r.0 == build_score(r.1, p)),
        s.len() > 0 ==> best_of(best, s, p) is Some,
    decreases s.len(),
{
    if s.len() > 0 {
        lemma_best_of_member(best, s.drop_last(), p);
        let prev = best_of(best, s.drop_last(), p);
        let r = best_of(best, s, p);
        if r != prev {
            assert(s[s.len() - 1] == s.last());
        } else if let Some(x) = prev {
            if !(best matches Some(b) && x == b) {
                let k = choose|k: int| 0 <= k < s.drop_last().len() && s.drop_last()[k] == x.1;
                assert(s[k] == x.1);
            }
        }
    }
}

/// The fold never scores lower than where it started, nor than any build of the list.
pub proof fn lemma_best_of_optimal(
    best: Option<(int, Seq<EquipmentModel>)>,
    s: Seq<Seq<EquipmentModel>>,
    p: ProfileModel,
)
    ensures
        best matches Some(b) ==> (best_of(best, s, p) matches Some(r) && r.0 >= b.0),
        forall|i: int|
            0 <= i < s.len() ==> (best_of(best, s, p) matches Some(r) && r.0 >= build_score(
                #[trigger] s[i],
                p,
            )),
    decreases s.len(),
{
    if s.len() > 0 {
        let d = s.drop_last();
        lemma_best_of_optimal(best, d, p);
        assert forall|i: int|
            0 <= i < s.len() implies (best_of(best, s, p) matches Some(r) && r.0 >= build_score(
            #[trigger] s[i],
            p,
        )) by {
            if i < d.len() {
                assert(s[i] == d[i]);
            }
        }
    }
}

/// Whether a name lets an item of slot type `t` into a build, given the
/// name's lowercase characters `lower` and its own characters `name`.
pub fn name_allows(
    lower: &Vec<char>,
    name: &Vec<char>,
    t: i32,
    ancien: &Vec<char>,
    modulation: &Vec<char>,
    embl: &Vec<char>,
) -> (res: bool)
    requires
        ancien@ == "ancien"@,
        modulation@ == "modulation"@,
        embl@ == "embl"@,
    ensures
        res == name_allowed(lower@, name@, t),
{
    if contains_chars(lower, ancien) {
        return false;
    }
    if t == 646 {
        if contains_chars(lower, modulation) {
            return false;
        }
        if starts_with_chars(lower, embl) && count_words(name) == 2 {
            return false;
        }
    }
    true
}

/// Whether `item` may enter a build of level `level`.
pub fn eligible_item(
    item: &Equipment,
    level: i32,
    ancien: &Vec<char>,
    modulation: &Vec<char>,
    embl: &Vec<char>,
) -> (res: bool)
    requires
        ancien@ == "ancien"@,
        modulation@ == "modulation"@,
        embl@ == "embl"@,
    ensures
        res == eligible(item@, level),
{
    if item.level > level || item.level <= 1 {
        return false;
    }
    let lower = to_lowercase(item.name.as_str());
    let lower_chars = chars_of(lower.as_str());
    let name_chars = chars_of(item.name.as_str());
    name_allows(&lower_chars, &name_chars, item.id_type, ancien, modulation, embl)
}

impl Optimizer {
    /// The eligible items of slot type `t`, in catalogue order.
    fn type_pool(
        &self,
        level: i32,
        t: i32,
        ancien: &Vec<char>,
        modulation: &Vec<char>,
        embl: &Vec<char>,
    ) -> (res: Vec<Equipment>)
        requires
            all_ok(models(self.items@)),
            ancien@ == "ancien"@,
            modulation@ == "modulation"@,
            embl@ == "embl"@,
        ensures
            models(res@) == candidates(models(self.items@), level, t),
            all_ok(models(res@)),
    {
        let ghost im = models(self.items@);
        let n = self.items.len();
        let mut res: Vec<Equipment> = Vec::new();
        let mut i: usize = 0;
        assert(im.take(0) =~= Seq::<EquipmentModel>::empty());
        while i < n
            invariant
                n == self.items@.len(),
                im == models(self.items@),
                all_ok(im),
                0 <= i <= n,
                models(res@) == candidates(im.take(i as int), level, t),
                all_ok(models(res@)),
                ancien@ == "ancien"@,
                modulation@ == "modulation"@,
                embl@ == "embl"@,
            decreases n - i,
        {
            let item = &self.items[i];
            proof {
                assert(im.take(i + 1).drop_last() =~= im.take(i as int));
                assert(im.take(i + 1).last() == item@);
                assert(item_ok(im[i as int]));
            }
            if item.id_type == t && eligible_item(item, level, ancien, modulation, embl) {
                let copy = item.clone();
                let ghost old_r = res@;
                res.push(copy);
                proof {
                    assert(models(res@) =~= models(old_r).push(item@));
                    assert forall|r: int| 0 <= r < models(res@).len() implies item_ok(
                        #[trigger] models(res@)[r],
                    ) by {
                        if r < old_r.len() {
                            assert(models(res@)[r] == models(old_r)[r]);
                        }
                    }
                }
            }
            i += 1;
        }
        assert(im.take(n as int) =~= im);
        res
    }
}

/// `item_bounds` holds the bound of every item of every pool, and `rest` the
/// bound of the slots from each depth on, all within reach of 128-bit sums.
pub open spec fn bounds_ok(
    pm: Seq<Seq<EquipmentModel>>,
    item_bounds: Seq<Vec<i128>>,
    rest: Seq<i128>,
    p: ProfileModel,
) -> bool {
    &&& item_bounds.len() == pm.len()
    &&& forall|d: int|
        0 <= d < pm.len() ==> (#[trigger] item_bounds[d])@.len() == pm[d].len() && forall|i: int|
            0 <= i < pm[d].len() ==> item_bounds[d]@[i] == item_bound(pm[d][i], p) && -(SCORE_BOUND
                + 0x1_0000_0000_0000) <= item_bounds[d]@[i] <= SCORE_BOUND + 0x1_0000_0000_0000
    &&& rest.len() == pm.len() + 1
    &&& forall|d: int|
        0 <= d <= pm.len() ==> #[trigger] rest[d] == rest_bound(pm, d, p) && 0 <= rest[d] <= (pm.len()
            - d) * (SCORE_BOUND + 0x1_0000_0000_0000)
}

/// The models of the items of each pool.
pub open spec fn pool_models(pools: Seq<Vec<Equipment>>) -> Seq<Seq<EquipmentModel>> {
    pools.map_values(|v: Vec<Equipment>| models(v@))
}

/// Slot types that the layouts use, in the order their pools are computed.
pub open spec fn slot_types() -> Seq<i32> {
    seq![134i32, 120, 138, 132, 136, 133, 103, 119, 582, 646, 519, 518, 112, 189]
}

/// Whether `c` may join the build `cur`.
pub fn allowed_item(cur: &Vec<Equipment>, c: &Equipment) -> (res: bool)
    ensures
        res == allowed(models(cur@), c@),
{
    let ghost cm = models(cur@);
    let n = cur.len();
    let mut same_id = false;
    let mut has_epic = false;
    let mut has_relic = false;
    let mut k: usize = 0;
    while k < n
        invariant
            n == cur@.len(),
            cm == models(cur@),
            0 <= k <= n,
            same_id == exists|j: int| 0 <= j < k && #[trigger] cm[j].id == c.id,
            has_epic == exists|j: int| 0 <= j < k && #[trigger] cm[j].id_rarity == 7,
            has_relic == exists|j: int| 0 <= j < k && #[trigger] cm[j].id_rarity == 5,
        decreases n - k,
    {
        let it = &cur[k];
        assert(cm[k as int] == it@);
        assert(cm[k as int].id == it.id && cm[k as int].id_rarity == it.id_rarity);
        if it.id == c.id {
            same_id = true;
        }
        if it.id_rarity == 7 {
            has_epic = true;
        }
        if it.id_rarity == 5 {
            has_relic = true;
        }
        k += 1;
    }
    !same_id && !(c.id_rarity == 7 && has_epic) && !(c.id_rarity == 5 && has_relic)
}

/// Penalty, in hundred-thousandths, for missing the minimums of `profile`.
fn penalty_of(v: &StatVector, profile: &BuildProfile) -> (res: i128)
    requires
        within(v@, 0x1000_0000_0000_0000),
    ensures
        res == penalty(v@, profile@),
        0 <= res <= 0x1000_0000_0000_0000_0000_0000,
{
    let major: i128 = if profile.min_ap > 6 {
        100
    } else {
        0
    };
    let ap = v.get(31) as i128 + 600 + major;
    let mp = v.get(41) as i128 + 300;
    let res_stat = v.get(80) as i128;
    let want_ap = profile.min_ap as i128 * 100;
    let want_mp = profile.min_mp as i128 * 100;
    let mut pen: i128 = 0;
    if ap < want_ap {
        pen = pen + (want_ap - ap) * 10_000_000;
    }
    if mp < want_mp {
        pen = pen + (want_mp - mp) * 10_000_000;
    }
    if res_stat < profile.min_res as i128 {
        pen = pen + (profile.min_res as i128 - res_stat) * 100_000;
    }
    pen
}

/// The slots of layout `s`, as positions in `slot_types`.
fn setup_layout(s: usize) -> (res: Vec<usize>)
    requires
        s < 3,
    ensures
        res@.map_values(|q: usize| slot_types()[q as int]) == setups()[s as int],
        forall|j: int| 0 <= j < res@.len() ==> #[trigger] res@[j] < 14,
{
    let mut v: Vec<usize> = vec![0, 1, 2, 3, 4, 5, 6, 6, 7, 8, 9];
    if s == 0 {
        v.push(10);
    } else if s == 1 {
        v.push(11);
        v.push(12);
    } else {
        v.push(11);
        v.push(13);
    }
    assert(v@.map_values(|q: usize| slot_types()[q as int]) =~= setups()[s as int]);
    v
}

impl Optimizer {
    /// Final score of a complete build.
    fn leaf_score(&self, build: &Vec<Equipment>, profile: &BuildProfile) -> (res: i128)
        requires
            profile.wf(),
            build_ok(models(build@)),
            build@.len() <= 16,
        ensures
            res == build_score(models(build@), profile@),
    {
        let ghost bm = models(build@);
        let (v, _) = self.optimize_global_enchantment(build.as_slice(), profile);
        proof {
            lemma_enchanted_bound(bm, profile.weights@);
            assert(build_stat_bound(bm.len() as int) <= 16 * (ITEM_LIMIT + 70400))
                by (nonlinear_arith)
                requires
                    bm.len() <= 16,
            ;
            assert forall|i: int| 0 <= i < 22 implies -0x1000_0000_0000_0000 <= #[trigger] v@[i]
                <= 0x1000_0000_0000_0000 by {
                assert(-build_stat_bound(bm.len() as int) <= v@[i] <= build_stat_bound(bm.len() as int));
            }
        }
        let sc = calculate_score(&v, profile);
        let pen = penalty_of(&v, profile);
        sc - pen
    }

    /// The bound of `item`: its own score and the gain of its best enchantment.
    fn item_bound_of(item: &Equipment, profile: &BuildProfile) -> (res: i128)
        requires
            profile.wf(),
            item_ok(item@),
        ensures
            res == item_bound(item@, profile@),
            -(SCORE_BOUND + 0x1_0000_0000_0000) <= res <= SCORE_BOUND + 0x1_0000_0000_0000,
    {
        let v = item_base_vector(item);
        let sc = calculate_score(&v, profile);
        let (g, _) = Optimizer::best_enchantment(item, profile);
        sc + g
    }

    /// The bound of every item of every pool, and the bound of the slots from
    /// each depth on.
    fn search_bounds(pools: &Vec<Vec<Equipment>>, profile: &BuildProfile) -> (res: (
        Vec<Vec<i128>>,
        Vec<i128>,
    ))
        requires
            profile.wf(),
            pools_ok(pool_models(pools@)),
            pools@.len() <= 16,
        ensures
            bounds_ok(pool_models(pools@), res.0@, res.1@, profile@),
    {
        let ghost pm = pool_models(pools@);
        let n = pools.len();
        let mut item_bounds: Vec<Vec<i128>> = Vec::new();
        let mut maxes: Vec<i128> = Vec::new();
        let mut d: usize = 0;
        while d < n
            invariant
                n == pools@.len(),
                n <= 16,
                pm == pool_models(pools@),
                pools_ok(pm),
                profile.wf(),
                0 <= d <= n,
                item_bounds@.len() == d,
                maxes@.len() == d,
                forall|e: int|
                    0 <= e < d ==> (#[trigger] item_bounds@[e])@.len() == pm[e].len() && forall|i: int|
                        0 <= i < pm[e].len() ==> item_bounds@[e]@[i] == item_bound(pm[e][i], profile@)
                            && -(SCORE_BOUND + 0x1_0000_0000_0000) <= item_bounds@[e]@[i]
                            <= SCORE_BOUND + 0x1_0000_0000_0000,
                forall|e: int|
                    0 <= e < d ==> #[trigger] maxes@[e] == pool_bound(pm[e], profile@) && 0
                        <= maxes@[e] <= SCORE_BOUND + 0x1_0000_0000_0000,
            decreases n - d,
        {
            let pool = &pools[d];
            let ghost pd = pm[d as int];
            assert(pd == models(pool@));
            let np = pool.len();
            let mut bs: Vec<i128> = Vec::new();
            let mut m: i128 = 0;
            let mut i: usize = 0;
            assert(pd.take(0) =~= Seq::<EquipmentModel>::empty());
            while i < np
                invariant
                    np == pool@.len(),
                    pd == models(pool@),
                    n == pm.len(),
                    pd == pm[d as int],
                    d < n,
                    pools_ok(pm),
                    profile.wf(),
                    0 <= i <= np,
                    bs@.len() == i,
                    forall|k: int|
                        0 <= k < i ==> #[trigger] bs@[k] == item_bound(pd[k], profile@) && -(SCORE_BOUND
                            + 0x1_0000_0000_0000) <= bs@[k] <= SCORE_BOUND + 0x1_0000_0000_0000,
                    m == pool_bound(pd.take(i as int), profile@),
                    0 <= m <= SCORE_BOUND + 0x1_0000_0000_0000,
                decreases np - i,
            {
                assert(pd[i as int] == pool@[i as int]@);
                assert(item_ok(pm[d as int][i as int]));
                let b = Self::item_bound_of(&pool[i], profile);
                bs.push(b);
                proof {
                    assert(pd.take(i + 1).drop_last() =~= pd.take(i as int));
                    assert(pd.take(i + 1).last() == pd[i as int]);
                }
                if b > m {
                    m = b;
                }
                i += 1;
            }
            assert(pd.take(np as int) =~= pd);
            item_bounds.push(bs);
            maxes.push(m);
            d += 1;
        }
        let mut rest: Vec<i128> = Vec::new();
        let mut k: usize = 0;
        while k <= n
            invariant
                n <= 16,
                0 <= k <= n + 1,
                rest@.len() == k,
                forall|e: int| 0 <= e < k ==> #[trigger] rest@[e] == 0,
            decreases n + 1 - k,
        {
            rest.push(0);
            k += 1;
        }
        let mut e: usize = n;
        proof {
            assert(rest_bound(pm, n as int, profile@) == 0);
        }
        while e > 0
            invariant
                n == pm.len(),
                n <= 16,
                maxes@.len() == n,
                forall|q: int|
                    0 <= q < n ==> #[trigger] maxes@[q] == pool_bound(pm[q], profile@) && 0 <= maxes@[q]
                        <= SCORE_BOUND + 0x1_0000_0000_0000,
                0 <= e <= n,
                rest@.len() == n + 1,
                forall|q: int|
                    e <= q <= n ==> #[trigger] rest@[q] == rest_bound(pm, q, profile@) && 0 <= rest@[q]
                        <= (n - q) * (SCORE_BOUND + 0x1_0000_0000_0000),
            decreases e,
        {
            let v = maxes[e - 1] + rest[e];
            proof {
                assert((n - e) * (SCORE_BOUND + 0x1_0000_0000_0000) + (SCORE_BOUND + 0x1_0000_0000_0000)
                    == (n - (e - 1)) * (SCORE_BOUND + 0x1_0000_0000_0000)) by (nonlinear_arith);
                assert((n - (e - 1)) * (SCORE_BOUND + 0x1_0000_0000_0000) <= 16 * (SCORE_BOUND
                    + 0x1_0000_0000_0000)) by (nonlinear_arith)
                    requires
                        n - (e - 1) <= 16,
                ;
            }
            rest.set(e - 1, v);
            e -= 1;
        }
        (item_bounds, rest)
    }

    /// Explores the builds that extend `cur` from slot `depth` on, keeping in
    /// `best` the first of highest score; a part of the search whose bound
    /// does not exceed the best score so far is skipped, as none of its builds
    /// could replace the best.
    fn dfs(
        &self,
        pools: &Vec<Vec<Equipment>>,
        profile: &BuildProfile,
        item_bounds: &Vec<Vec<i128>>,
        rest: &Vec<i128>,
        depth: usize,
        cur: &mut Vec<Equipment>,
        cur_bound: i128,
        best: &mut Option<(i128, Vec<Equipment>)>,
    )
        requires
            profile.wf(),
            depth <= pools@.len(),
            pools@.len() <= 16,
            old(cur)@.len() <= depth,
            pools_ok(pool_models(pools@)),
            all_ok(models(old(cur)@)),
            bounds_ok(pool_models(pools@), item_bounds@, rest@, profile@),
            cur_bound == items_bound(models(old(cur)@), profile@),
            -(old(cur)@.len() * (SCORE_BOUND + 0x1_0000_0000_0000)) <= cur_bound <= old(cur)@.len() * (
            SCORE_BOUND + 0x1_0000_0000_0000),
        ensures
            final(cur)@ == old(cur)@,
            best_model(*final(best)) == best_of(
                best_model(*old(best)),
                leaves(pool_models(pools@), depth as int, models(old(cur)@)),
                profile@,
            ),
        decreases pools@.len() - depth,
    {
        let ghost pm = pool_models(pools@);
        let ghost cur0 = cur@;
        let ghost cm = models(cur0);
        let ghost best0 = best_model(*best);
        proof {
            assert(-(16 * (SCORE_BOUND + 0x1_0000_0000_0000)) <= cur_bound <= 16 * (SCORE_BOUND
                + 0x1_0000_0000_0000)) by (nonlinear_arith)
                requires
                    -(cur0.len() * (SCORE_BOUND + 0x1_0000_0000_0000)) <= cur_bound <= cur0.len() * (
                    SCORE_BOUND + 0x1_0000_0000_0000),
                    cur0.len() <= 16,
            ;
            assert(0 <= rest@[depth as int] <= 16 * (SCORE_BOUND + 0x1_0000_0000_0000)) by (nonlinear_arith)
                requires
                    0 <= rest@[depth as int] <= (pools@.len() - depth) * (SCORE_BOUND
                        + 0x1_0000_0000_0000),
                    pools@.len() - depth <= 16,
            ;
        }
        let prune = match &*best {
            Some(b) => cur_bound + rest[depth] <= b.0,
            None => false,
        };
        if prune {
            proof {
                lemma_prune(pm, depth as int, cm, best0, profile@);
            }
            return;
        }
        if depth == pools.len() {
            let sc = self.leaf_score(cur, profile);
            let replace = match &*best {
                None => true,
                Some(b) => sc > b.0,
            };
            if replace {
                let copy = cur.clone();
                assert(models(copy@) =~= models(cur@));
                *best = Some((sc, copy));
            }
            proof {
                assert(leaves(pm, depth as int, cm) == seq![cm]);
                assert(seq![cm].drop_last() =~= Seq::<Seq<EquipmentModel>>::empty());
                assert(best_of(best0, seq![cm], profile@) == better(best0, cm, profile@));
                assert(best_model(*best) == better(best0, cm, profile@));
            }
            return;
        }
        let cands = &pools[depth];
        let ghost cands_m = pm[depth as int];
        assert(cands_m == models(cands@));
        let nc = cands.len();
        let mut branched = false;
        let mut i: usize = 0;
        while i < nc
            invariant
                profile.wf(),
                pm == pool_models(pools@),
                cands_m == pm[depth as int],
                cands_m == models(cands@),
                nc == cands@.len(),
                depth < pools@.len(),
                pools@.len() <= 16,
                cur@ == cur0,
                cm == models(cur0),
                cur0.len() <= depth,
                pools_ok(pm),
                all_ok(cm),
                0 <= i <= nc,
                best_model(*best) == best_of(best0, branch_leaves(pm, depth as int, i as int, cm), profile@),
                branched == exists|j: int| 0 <= j < i && allowed(cm, #[trigger] cands_m[j]),
                bounds_ok(pm, item_bounds@, rest@, profile@),
                cur_bound == items_bound(cm, profile@),
                -(cur0.len() * (SCORE_BOUND + 0x1_0000_0000_0000)) <= cur_bound <= cur0.len() * (
                SCORE_BOUND + 0x1_0000_0000_0000),
                -(16 * (SCORE_BOUND + 0x1_0000_0000_0000)) <= cur_bound <= 16 * (SCORE_BOUND
                    + 0x1_0000_0000_0000),
            decreases nc - i,
        {
            let c = &cands[i];
            assert(cands_m[i as int] == c@);
            let ghost before = best_model(*best);
            if allowed_item(cur, c) {
                let copy = c.clone();
                cur.push(copy);
                proof {
                    assert(models(cur@) =~= cm.push(c@));
                    assert(item_ok(pm[depth as int][i as int]));
                    assert forall|k: int| 0 <= k < models(cur@).len() implies item_ok(
                        #[trigger] models(cur@)[k],
                    ) by {
                        if k < cm.len() {
                            assert(models(cur@)[k] == cm[k]);
                        }
                    }
                }
                branched = true;
                let ib = item_bounds[depth][i];
                proof {
                    assert(ib == item_bound(c@, profile@));
                    assert(models(cur@).drop_last() =~= cm);
                    assert((cur0.len() + 1) * (SCORE_BOUND + 0x1_0000_0000_0000) == cur0.len() * (
                    SCORE_BOUND + 0x1_0000_0000_0000) + (SCORE_BOUND + 0x1_0000_0000_0000))
                        by (nonlinear_arith);
                }
                self.dfs(pools, profile, item_bounds, rest, depth + 1, cur, cur_bound + ib, best);
                cur.pop();
                proof {
                    assert(cur@ =~= cur0);
                    lemma_best_of_append(
                        best0,
                        branch_leaves(pm, depth as int, i as int, cm),
                        leaves(pm, depth + 1, cm.push(c@)),
                        profile@,
                    );
                }
            }
            i += 1;
        }
        proof {
            assert(nc == pm[depth as int].len());
            if branched {
                let j = choose|j: int| 0 <= j < nc && allowed(cm, #[trigger] cands_m[j]);
                assert(allowed(cm, pm[depth as int][j]));
            } else {
                assert forall|j: int| 0 <= j < pm[depth as int].len() implies !allowed(
                    cm,
                    #[trigger] pm[depth as int][j],
                ) by {
                    assert(pm[depth as int][j] == cands_m[j]);
                }
                lemma_branch_none(pm, depth as int, nc as int, cm);
                assert(best_model(*best) == best0);
            }
        }
        if !branched {
            self.dfs(pools, profile, item_bounds, rest, depth + 1, cur, cur_bound, best);
            assert(best_model(*best) == best_of(best0, leaves(pm, depth as int, cm), profile@));
        } else {
            assert(best_model(*best) == best_of(best0, leaves(pm, depth as int, cm), profile@));
        }
    }

    /// The best build of level at most `level`: over three slot layouts, each
    /// slot takes an eligible catalogue item of its type (or stays empty when
    /// none may join), no item twice, at most one epic and one relic; of all
    /// such builds, the one of highest score, penalties deducted, wins (the
    /// first such in search order). Parts of the search that cannot beat the
    /// best build found so far are skipped, which leaves the result unchanged. No complete valid build of eligible catalogue
    /// items that fits a layout scores higher (`lemma_perfect_build_is_optimal`).
    pub fn find_perfect_build(&self, level: i32, profile: &BuildProfile) -> (res: Vec<Equipment>)
        requires
            profile.wf(),
            all_ok(models(self.items@)),
        ensures
            models(res@) == perfect_build(models(self.items@), level, profile@),
            exists|s: int| 0 <= s < 3 && follows(models(res@), #[trigger] setups()[s]),
            res@.len() <= 13,
            all_ok(models(res@)),
    {
        let ghost im = models(self.items@);
        let ancien = chars_of("ancien");
        let modulation = chars_of("modulation");
        let embl = chars_of("embl");
        let types: [i32; 14] = [134, 120, 138, 132, 136, 133, 103, 119, 582, 646, 519, 518, 112, 189];
        assert(types@ == slot_types());
        let mut type_pools: Vec<Vec<Equipment>> = Vec::new();
        let mut k: usize = 0;
        while k < 14
            invariant
                types@ == slot_types(),
                profile.wf(),
                im == models(self.items@),
                all_ok(im),
                ancien@ == "ancien"@,
                modulation@ == "modulation"@,
                embl@ == "embl"@,
                0 <= k <= 14,
                type_pools@.len() == k,
                forall|q: int|
                    0 <= q < k ==> models(#[trigger] type_pools@[q]@) == candidates(im, level, slot_types()[q]) && all_ok(models(type_pools@[q]@)),
            decreases 14 - k,
        {
            let p = self.type_pool(level, types[k], &ancien, &modulation, &embl);
            type_pools.push(p);
            k += 1;
        }
        let mut g_best: Option<(i128, Vec<Equipment>)> = None;
        let ghost mut acc: Seq<Seq<EquipmentModel>> = Seq::empty();
        let mut s: usize = 0;
        while s < 3
            invariant
                profile.wf(),
                im == models(self.items@),
                type_pools@.len() == 14,
                forall|q: int|
                    0 <= q < 14 ==> models(#[trigger] type_pools@[q]@) == candidates(im, level, slot_types()[q]) && all_ok(models(type_pools@[q]@)),
                0 <= s <= 3,
                acc == if s == 0 {
                    Seq::empty()
                } else if s == 1 {
                    leaves(slot_pools(im, level, setups()[0]), 0, Seq::empty())
                } else if s == 2 {
                    leaves(slot_pools(im, level, setups()[0]), 0, Seq::empty()) + leaves(
                        slot_pools(im, level, setups()[1]),
                        0,
                        Seq::empty(),
                    )
                } else {
                    search_space(im, level)
                },
                best_model(g_best) == best_of(None, acc, profile@),
            decreases 3 - s,
        {
            let layout = setup_layout(s);
            let ghost want = slot_pools(im, level, setups()[s as int]);
            let mut pools: Vec<Vec<Equipment>> = Vec::new();
            let ns = layout.len();
            let mut j: usize = 0;
            while j < ns
                invariant
                    ns == layout@.len(),
                    layout@.map_values(|q: usize| slot_types()[q as int]) == setups()[s as int],
                    forall|r: int| 0 <= r < layout@.len() ==> #[trigger] layout@[r] < 14,
                    want == slot_pools(im, level, setups()[s as int]),
                    type_pools@.len() == 14,
                    forall|q: int|
                        0 <= q < 14 ==> models(#[trigger] type_pools@[q]@) == candidates(im, level, slot_types()[q]) && all_ok(models(type_pools@[q]@)),
                    0 <= j <= ns,
                    pool_models(pools@) == want.take(j as int),
                    pools_ok(pool_models(pools@)),
                decreases ns - j,
            {
                let q = layout[j];
                assert(q < 14);
                let copy = type_pools[q].clone();
                let ghost old_p = pools@;
                assert(models(copy@) =~= models(type_pools@[q as int]@));
                pools.push(copy);
                proof {
                    assert(setups()[s as int][j as int] == slot_types()[q as int]);
                    assert(want[j as int] == candidates(im, level, slot_types()[q as int]));
                    assert(pool_models(pools@) =~= pool_models(old_p).push(models(copy@)));
                    assert(want.take(j + 1) =~= want.take(j as int).push(want[j as int]));
                    let pmn = pool_models(pools@);
                    assert forall|d: int, e: int|
                        0 <= d < pmn.len() && 0 <= e < pmn[d].len() implies item_ok(#[trigger] pmn[d][e]) by {
                        if d < old_p.len() {
                            assert(pmn[d] == pool_models(old_p)[d]);
                        } else {
                            assert(pmn[d] == models(type_pools@[q as int]@));
                        }
                    }
                }
                j += 1;
            }
            assert(want.take(ns as int) =~= want);
            let mut cur: Vec<Equipment> = Vec::new();
            let mut best: Option<(i128, Vec<Equipment>)> = None;
            assert(models(cur@) =~= Seq::<EquipmentModel>::empty());
            let (item_bounds, rest) = Self::search_bounds(&pools, profile);
            assert(items_bound(models(cur@), profile@) == 0);
            self.dfs(&pools, profile, &item_bounds, &rest, 0, &mut cur, 0, &mut best);
            let ghost layer = leaves(want, 0, Seq::empty());
            proof {
                lemma_best_of_append(None, acc, layer, profile@);
                lemma_best_of_restart(best_of(None, acc, profile@), layer, profile@);
            }
            match best {
                Some(b) => {
                    let replace = match &g_best {
                        None => true,
                        Some(g) => b.0 > g.0,
                    };
                    if replace {
                        g_best = Some(b);
                    }
                },
                None => {},
            }
            proof {
                acc = acc + layer;
            }
            s += 1;
        }
        proof {
            crate::laws::lemma_perfect_build_is_optimal(im, level, profile@);
            crate::laws::lemma_search_space_valid(im, level);
            crate::laws::lemma_search_space_follows(im, level);
        }
        let res = match g_best {
            Some(b) => b.1,
            None => Vec::new(),
        };
        proof {
            let pb = perfect_build(im, level, profile@);
            assert(models(res@) == pb);
            assert(search_space(im, level).contains(pb));
            assert forall|k: int| 0 <= k < models(res@).len() implies item_ok(#[trigger] models(res@)[k]) by {
                assert(im.contains(pb[k]));
                let j = choose|j: int| 0 <= j < im.len() && im[j] == pb[k];
                assert(item_ok(im[j]));
            }
        }
        res
    }
}

} // verus!
