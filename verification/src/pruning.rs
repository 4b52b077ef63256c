use vstd::prelude::*;
use crate::engine::{
    best_stat, build_enchant_stats, build_base, choices, alloc_gain, apply_alloc, enchanted_stats,
    item_choice,
};
use crate::laws::{lemma_best_stat, lemma_choices_allocation, lemma_alloc_score};
use crate::models::EquipmentModel;
use crate::profile::{Element, ProfileModel};
use crate::scoring::{
    base_vector, score, penalty, max_int, peak, weighted_sum, lemma_weighted_sum_additive,
    lemma_add_effects_bound,
};
use crate::search::{leaves, branch_leaves, allowed, build_score, best_of};
use crate::sockets::no_sockets;
use crate::stats::{add_stats, zero_stats, stat_of, within};

verus! {

/// Most that `item` can add to the score of a build: its own score and the
/// gain of its best enchantment.
pub open spec fn item_bound(item: EquipmentModel, p: ProfileModel) -> int {
    score(base_vector(item), p) + if no_sockets(item.id_type) {
        0
    } else {
        best_stat(item, build_enchant_stats(), p.weights).0
    }
}

/// Sum of the bounds of the items of `b`.
pub open spec fn items_bound(b: Seq<EquipmentModel>, p: ProfileModel) -> int
    decreases b.len(),
{
    if b.len() == 0 {
        0
    } else {
        items_bound(b.drop_last(), p) + item_bound(b.last(), p)
    }
}

/// Most that one item of `pool`, or none, can add.
pub open spec fn pool_bound(pool: Seq<EquipmentModel>, p: ProfileModel) -> int
    decreases pool.len(),
{
    if pool.len() == 0 {
        0
    } else {
        max_int(pool_bound(pool.drop_last(), p), item_bound(pool.last(), p))
    }
}

/// Most that the slots from `depth` on can add.
pub open spec fn rest_bound(pools: Seq<Seq<EquipmentModel>>, depth: int, p: ProfileModel) -> int
    decreases pools.len() - depth,
{
    if depth < 0 || depth >= pools.len() {
        0
    } else {
        pool_bound(pools[depth], p) + rest_bound(pools, depth + 1, p)
    }
}

/// The bound of a pool is at least nothing and at least each of its items.
pub proof fn lemma_pool_bound(pool: Seq<EquipmentModel>, p: ProfileModel)
    ensures
        pool_bound(pool, p) >= 0,
        forall|i: int| 0 <= i < pool.len() ==> item_bound(#[trigger] pool[i], p) <= pool_bound(pool, p),
    decreases pool.len(),
{
    if pool.len() > 0 {
        let d = pool.drop_last();
        lemma_pool_bound(d, p);
        assert forall|i: int| 0 <= i < pool.len() implies item_bound(#[trigger] pool[i], p)
            <= pool_bound(pool, p) by {
            if i < d.len() {
                assert(pool[i] == d[i]);
            }
        }
    }
}

/// The bounds of the remaining slots add up to at least nothing.
pub proof fn lemma_rest_bound_nonneg(pools: Seq<Seq<EquipmentModel>>, depth: int, p: ProfileModel)
    ensures
        rest_bound(pools, depth, p) >= 0,
    decreases pools.len() - depth,
{
    if 0 <= depth < pools.len() {
        lemma_pool_bound(pools[depth], p);
        lemma_rest_bound_nonneg(pools, depth + 1, p);
    }
}

/// The weighted sum of the all-zero vector is zero.
pub proof fn lemma_weighted_sum_zero(ws: Seq<(i32, i64)>)
    ensures
        weighted_sum(zero_stats(), ws) == 0,
    decreases ws.len(),
{
    if ws.len() > 0 {
        lemma_weighted_sum_zero(ws.drop_last());
        assert(stat_of(zero_stats(), ws.last().0) == 0);
    }
}

/// The score of the sum of two stat vectors is at most the sum of their scores.
pub proof fn lemma_score_subadditive(a: Seq<int>, b: Seq<int>, p: ProfileModel)
    requires
        a.len() == 22,
        b.len() == 22,
    ensures
        score(add_stats(a, b), p) <= score(a, p) + score(b, p),
{
    lemma_weighted_sum_additive(a, b, p.weights);
    let s = add_stats(a, b);
    assert(s[5] == a[5] + b[5] && s[6] == a[6] + b[6] && s[7] == a[7] + b[7] && s[8] == a[8] + b[8]);
    assert(peak(s, p.element) <= peak(a, p.element) + peak(b, p.element));
}

/// A build's base score and the gains of its chosen enchantments are at most
/// the sum of its items' bounds.
pub proof fn lemma_items_bound(b: Seq<EquipmentModel>, p: ProfileModel)
    ensures
        build_base(b).len() == 22,
        score(build_base(b), p) + alloc_gain(b, choices(b, p.weights), p.weights) <= items_bound(b, p),
    decreases b.len(),
{
    if b.len() == 0 {
        lemma_weighted_sum_zero(p.weights);
        assert(peak(zero_stats(), p.element) == 0);
    } else {
        let d = b.drop_last();
        let ws = p.weights;
        lemma_items_bound(d, p);
        assert(within(zero_stats(), 0));
        lemma_add_effects_bound(zero_stats(), b.last().effects, 0);
        lemma_score_subadditive(build_base(d), base_vector(b.last()), p);
        assert(choices(b, ws).drop_last() =~= choices(d, ws));
        assert(choices(b, ws).last() == item_choice(b.last(), ws));
        lemma_best_stat(b.last(), build_enchant_stats(), ws);
    }
}

/// No build scores more than the sum of its items' bounds.
pub proof fn lemma_build_score_bound(b: Seq<EquipmentModel>, p: ProfileModel)
    ensures
        build_score(b, p) <= items_bound(b, p),
{
    lemma_items_bound(b, p);
    lemma_choices_allocation(b, p.weights);
    lemma_alloc_score(build_base(b), b, choices(b, p.weights), p);
    assert(penalty(enchanted_stats(b, p.weights), p) >= 0);
}

/// Every build that the search reaches from `cur` at slot `depth` is bounded
/// by the bound of `cur` and of the remaining slots.
pub proof fn lemma_leaves_bound(pools: Seq<Seq<EquipmentModel>>, depth: int, cur: Seq<EquipmentModel>, p: ProfileModel)
    requires
        0 <= depth <= pools.len(),
    ensures
        forall|i: int|
            0 <= i < leaves(pools, depth, cur).len() ==> items_bound(
                #[trigger] leaves(pools, depth, cur)[i],
                p,
            ) <= items_bound(cur, p) + rest_bound(pools, depth, p),
    decreases pools.len() - depth, pools[depth].len() + 1,
{
    if depth >= pools.len() {
        assert(leaves(pools, depth, cur) == seq![cur]);
        assert(seq![cur][0] == cur);
    } else {
        lemma_pool_bound(pools[depth], p);
        if exists|i: int| 0 <= i < pools[depth].len() && allowed(cur, #[trigger] pools[depth][i]) {
            assert(leaves(pools, depth, cur) == branch_leaves(
                pools,
                depth,
                pools[depth].len() as int,
                cur,
            ));
            lemma_branch_bound(pools, depth, pools[depth].len() as int, cur, p);
        } else {
            assert(leaves(pools, depth, cur) == leaves(pools, depth + 1, cur));
            lemma_leaves_bound(pools, depth + 1, cur, p);
        }
    }
}

/// The builds that branch off the first `k` items of the pool of slot `depth`
/// are bounded by the bound of `cur` and of the slots from `depth` on.
pub proof fn lemma_branch_bound(
    pools: Seq<Seq<EquipmentModel>>,
    depth: int,
    k: int,
    cur: Seq<EquipmentModel>,
    p: ProfileModel,
)
    requires
        0 <= depth < pools.len(),
        k <= pools[depth].len(),
    ensures
        forall|i: int|
            0 <= i < branch_leaves(pools, depth, k, cur).len() ==> items_bound(
                #[trigger] branch_leaves(pools, depth, k, cur)[i],
                p,
            ) <= items_bound(cur, p) + rest_bound(pools, depth, p),
    decreases pools.len() - depth, k,
{
    if k > 0 {
        lemma_branch_bound(pools, depth, k - 1, cur, p);
        let prev = branch_leaves(pools, depth, k - 1, cur);
        let c = pools[depth][k - 1];
        if allowed(cur, c) {
            let nc = cur.push(c);
            lemma_leaves_bound(pools, depth + 1, nc, p);
            lemma_pool_bound(pools[depth], p);
            assert(item_bound(pools[depth][k - 1], p) <= pool_bound(pools[depth], p));
            assert(nc.drop_last() =~= cur);
            let l = leaves(pools, depth + 1, nc);
            let all = prev + l;
            assert(branch_leaves(pools, depth, k, cur) == all);
            assert forall|i: int| 0 <= i < all.len() implies items_bound(#[trigger] all[i], p)
                <= items_bound(cur, p) + rest_bound(pools, depth, p) by {
                if i < prev.len() {
                    assert(all[i] == prev[i]);
                } else {
                    assert(all[i] == l[i - prev.len()]);
                }
            }
        }
    }
}

/// A best that no build of `bs` beats stays the best.
pub proof fn lemma_best_of_kept(
    best: Option<(int, Seq<EquipmentModel>)>,
    bs: Seq<Seq<EquipmentModel>>,
    p: ProfileModel,
)
    requires
        best is Some,
        forall|i: int| 0 <= i < bs.len() ==> build_score(#[trigger] bs[i], p) <= best.unwrap().0,
    ensures
        best_of(best, bs, p) == best,
    decreases bs.len(),
{
    if bs.len() > 0 {
        let d = bs.drop_last();
        assert forall|i: int| 0 <= i < d.len() implies build_score(#[trigger] d[i], p) <= best.unwrap().0 by {
            assert(d[i] == bs[i]);
        }
        lemma_best_of_kept(best, d, p);
        assert(build_score(bs[bs.len() - 1], p) <= best.unwrap().0);
    }
}

/// When the bound of `cur` and of the remaining slots does not exceed the best
/// score so far, searching from `cur` keeps that best.
pub proof fn lemma_prune(
    pools: Seq<Seq<EquipmentModel>>,
    depth: int,
    cur: Seq<EquipmentModel>,
    best: Option<(int, Seq<EquipmentModel>)>,
    p: ProfileModel,
)
    requires
        0 <= depth <= pools.len(),
        best is Some,
        items_bound(cur, p) + rest_bound(pools, depth, p) <= best.unwrap().0,
    ensures
        best_of(best, leaves(pools, depth, cur), p) == best,
{
    let l = leaves(pools, depth, cur);
    lemma_leaves_bound(pools, depth, cur, p);
    assert forall|i: int| 0 <= i < l.len() implies build_score(#[trigger] l[i], p) <= best.unwrap().0 by {
        lemma_build_score_bound(l[i], p);
    }
    lemma_best_of_kept(best, l, p);
}

} // verus!
