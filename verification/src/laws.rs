use vstd::prelude::*;
use crate::engine::{
    socket_choice, item_enchant_stats, build_enchant_stats, best_stat, enchant_gain, item_choice,
    choices, is_allocation, apply_alloc, alloc_gain, build_base, enchanted_stats,
};
use crate::models::EquipmentModel;
use crate::profile::{Element, Mode, ProfileModel, Range, Role};
use crate::ranking::{
    sort_desc, insert_desc, first_best, lemma_sort_sorted, lemma_sort_len, lemma_sort_members,
    lemma_sort_head, lemma_first_best,
};
use crate::scoring::{
    base_vector, score, penalty, final_score, score_weight, lemma_weighted_sum_add_stat,
    lemma_score_additive,
};
use crate::search::{
    leaves, branch_leaves, allowed, holds_id, holds_rarity, search_space, perfect_build, build_score,
    best_of, lemma_best_of_member, lemma_best_of_optimal, candidates, eligible, slot_pools, setups,
};
use crate::sockets::{no_sockets, socket_gain, socket_value};
use crate::stats::{add_stat, add_stats, stat_of, is_tracked};
use crate::tui::{next_index, prev_index, clamp, cycle_role, toggle_mode, cycle_range, cycle_element};

verus! {

/// No item twice, at most one epic (rarity 7) and at most one relic (rarity 5).
pub open spec fn valid_build(b: Seq<EquipmentModel>) -> bool {
    &&& forall|i: int, j: int| 0 <= i < j < b.len() ==> #[trigger] b[i].id != #[trigger] b[j].id
    &&& forall|i: int, j: int|
        0 <= i < j < b.len() ==> !(#[trigger] b[i].id_rarity == 7 && #[trigger] b[j].id_rarity
            == 7)
    &&& forall|i: int, j: int|
        0 <= i < j < b.len() ==> !(#[trigger] b[i].id_rarity == 5 && #[trigger] b[j].id_rarity
            == 5)
}

/// Every item of `b` from position `from` on is found in one of the pools.
pub open spec fn drawn_from(b: Seq<EquipmentModel>, from: int, pools: Seq<Seq<EquipmentModel>>) -> bool {
    forall|k: int|
        from <= k < b.len() ==> exists|d: int| 0 <= d < pools.len() && pools[d].contains(#[trigger] b[k])
}

/// Adding an allowed item to a valid build keeps it valid.
pub proof fn lemma_allowed_keeps_valid(cur: Seq<EquipmentModel>, c: EquipmentModel)
    requires
        valid_build(cur),
        allowed(cur, c),
    ensures
        valid_build(cur.push(c)),
{
    let b = cur.push(c);
    assert forall|i: int, j: int| 0 <= i < j < b.len() implies #[trigger] b[i].id != #[trigger] b[j].id by {
        if j == cur.len() {
            assert(b[i] == cur[i]);
            if cur[i].id == c.id {
                assert(holds_id(cur, c.id));
            }
        } else {
            assert(b[i] == cur[i] && b[j] == cur[j]);
        }
    }
    assert forall|i: int, j: int| 0 <= i < j < b.len() implies !(#[trigger] b[i].id_rarity == 7
        && #[trigger] b[j].id_rarity == 7) by {
        if j == cur.len() {
            assert(b[i] == cur[i]);
            if cur[i].id_rarity == 7 {
                assert(holds_rarity(cur, 7));
            }
        } else {
            assert(b[i] == cur[i] && b[j] == cur[j]);
        }
    }
    assert forall|i: int, j: int| 0 <= i < j < b.len() implies !(#[trigger] b[i].id_rarity == 5
        && #[trigger] b[j].id_rarity == 5) by {
        if j == cur.len() {
            assert(b[i] == cur[i]);
            if cur[i].id_rarity == 5 {
                assert(holds_rarity(cur, 5));
            }
        } else {
            assert(b[i] == cur[i] && b[j] == cur[j]);
        }
    }
}

/// Every build that the search reaches from `cur` is a valid extension of
/// `cur` whose added items come from the pools; and there is at least one.
pub proof fn lemma_leaves_shape(pools: Seq<Seq<EquipmentModel>>, depth: int, cur: Seq<EquipmentModel>)
    requires
        valid_build(cur),
        0 <= depth <= pools.len(),
    ensures
        leaves(pools, depth, cur).len() > 0,
        forall|i: int|
            0 <= i < leaves(pools, depth, cur).len() ==> {
                let x = #[trigger] leaves(pools, depth, cur)[i];
                &&& valid_build(x)
                &&& x.len() >= cur.len()
                &&& x.len() <= cur.len() + pools.len() - depth
                &&& x.take(cur.len() as int) == cur
                &&& drawn_from(x, cur.len() as int, pools)
            },
    decreases pools.len() - depth, pools[depth].len() + 1,
{
    if depth < 0 || depth >= pools.len() {
        let l = leaves(pools, depth, cur);
        assert(l == seq![cur]);
        assert(cur.take(cur.len() as int) =~= cur);
    } else if exists|i: int| 0 <= i < pools[depth].len() && allowed(cur, #[trigger] pools[depth][i]) {
        let i = choose|i: int| 0 <= i < pools[depth].len() && allowed(cur, #[trigger] pools[depth][i]);
        lemma_branch_shape(pools, depth, pools[depth].len() as int, cur, i);
    } else {
        lemma_leaves_shape(pools, depth + 1, cur);
    }
}

/// The builds that branch off the first `k` items of a pool have the same
/// shape, and there is at least one when item `w` among them is allowed.
pub proof fn lemma_branch_shape(
    pools: Seq<Seq<EquipmentModel>>,
    depth: int,
    k: int,
    cur: Seq<EquipmentModel>,
    w: int,
)
    requires
        valid_build(cur),
        0 <= depth < pools.len(),
        k <= pools[depth].len(),
    ensures
        0 <= w < k && allowed(cur, pools[depth][w]) ==> branch_leaves(pools, depth, k, cur).len() > 0,
        forall|i: int|
            0 <= i < branch_leaves(pools, depth, k, cur).len() ==> {
                let x = #[trigger] branch_leaves(pools, depth, k, cur)[i];
                &&& valid_build(x)
                &&& x.len() >= cur.len()
                &&& x.len() <= cur.len() + pools.len() - depth
                &&& x.take(cur.len() as int) == cur
                &&& drawn_from(x, cur.len() as int, pools)
            },
    decreases pools.len() - depth, k,
{
    if k > 0 {
        lemma_branch_shape(pools, depth, k - 1, cur, w);
        let prev = branch_leaves(pools, depth, k - 1, cur);
        let c = pools[depth][k - 1];
        if allowed(cur, c) {
            let nc = cur.push(c);
            lemma_allowed_keeps_valid(cur, c);
            lemma_leaves_shape(pools, depth + 1, nc);
            let l = leaves(pools, depth + 1, nc);
            let all = branch_leaves(pools, depth, k, cur);
            assert(all == prev + l);
            assert forall|i: int| 0 <= i < all.len() implies {
                let x = #[trigger] all[i];
                &&& valid_build(x)
                &&& x.len() >= cur.len()
                &&& x.len() <= cur.len() + pools.len() - depth
                &&& x.take(cur.len() as int) == cur
                &&& drawn_from(x, cur.len() as int, pools)
            } by {
                if i < prev.len() {
                    assert(all[i] == prev[i]);
                } else {
                    let x = all[i];
                    assert(x == l[i - prev.len()]);
                    assert(x.take(nc.len() as int) == nc);
                    assert(x.take(cur.len() as int) =~= nc.take(cur.len() as int));
                    assert(nc.take(cur.len() as int) =~= cur);
                    assert forall|q: int| cur.len() <= q < x.len() implies exists|d: int|
                        0 <= d < pools.len() && pools[d].contains(#[trigger] x[q]) by {
                        if q == cur.len() {
                            assert(x[q] == x.take(nc.len() as int)[q]);
                            assert(x[q] == c);
                            assert(pools[depth][k - 1] == c);
                            assert(pools[depth].contains(x[q]));
                        }
                    }
                }
            }
        }
    }
}

/// The candidates are eligible catalogue items of the slot type.
pub proof fn lemma_candidates_members(items: Seq<EquipmentModel>, level: i32, t: i32)
    ensures
        forall|e: EquipmentModel|
            #[trigger] candidates(items, level, t).contains(e) ==> eligible(e, level) && e.id_type == t
                && items.contains(e),
    decreases items.len(),
{
    if items.len() > 0 {
        let d = items.drop_last();
        lemma_candidates_members(d, level, t);
        assert forall|e: EquipmentModel| #[trigger] candidates(items, level, t).contains(e) implies eligible(
            e,
            level,
        ) && e.id_type == t && items.contains(e) by {
            let c = candidates(items, level, t);
            let i = choose|i: int| 0 <= i < c.len() && c[i] == e;
            if i < candidates(d, level, t).len() {
                assert(candidates(d, level, t)[i] == e);
                assert(candidates(d, level, t).contains(e));
                let j = choose|j: int| 0 <= j < d.len() && d[j] == e;
                assert(items[j] == e);
            } else {
                assert(items[items.len() - 1] == e);
            }
        }
    }
}

/// `b` fills the slots of the layout `slots`, in order, with items of their types.
pub open spec fn fits(b: Seq<EquipmentModel>, slots: Seq<i32>) -> bool {
    &&& b.len() == slots.len()
    &&& forall|i: int| 0 <= i < b.len() ==> #[trigger] b[i].id_type == slots[i]
}

/// `b` is a valid build of eligible catalogue items that fills one of the layouts.
pub open spec fn complete_build(b: Seq<EquipmentModel>, items: Seq<EquipmentModel>, level: i32) -> bool {
    &&& valid_build(b)
    &&& exists|s: int| 0 <= s < 3 && fits(b, #[trigger] setups()[s])
    &&& forall|k: int| 0 <= k < b.len() ==> eligible(#[trigger] b[k], level) && items.contains(b[k])
}

/// An eligible catalogue item of type `t` is among the candidates of `t`.
pub proof fn lemma_candidates_complete(items: Seq<EquipmentModel>, level: i32, t: i32, e: EquipmentModel)
    requires
        items.contains(e),
        e.id_type == t,
        eligible(e, level),
    ensures
        candidates(items, level, t).contains(e),
    decreases items.len(),
{
    let d = items.drop_last();
    let c = candidates(d, level, t);
    if items.last() == e {
        assert(candidates(items, level, t) == c.push(e));
        assert(c.push(e)[c.len() as int] == e);
    } else {
        let i = choose|i: int| 0 <= i < items.len() && items[i] == e;
        assert(i < d.len());
        assert(d[i] == e);
        lemma_candidates_complete(d, level, t, e);
        let j = choose|j: int| 0 <= j < c.len() && c[j] == e;
        if items.last().id_type == t && eligible(items.last(), level) {
            assert(c.push(items.last())[j] == e);
        }
    }
}

/// The item at position `n` of a valid build may join the items before it.
pub proof fn lemma_prefix_allowed(b: Seq<EquipmentModel>, n: int)
    requires
        valid_build(b),
        0 <= n < b.len(),
    ensures
        allowed(b.take(n), b[n]),
{
    let cur = b.take(n);
    assert forall|k: int| 0 <= k < cur.len() implies #[trigger] cur[k].id != b[n].id by {
        assert(cur[k] == b[k]);
    }
    if b[n].id_rarity == 7 {
        assert forall|k: int| 0 <= k < cur.len() implies #[trigger] cur[k].id_rarity != 7 by {
            assert(cur[k] == b[k]);
        }
    }
    if b[n].id_rarity == 5 {
        assert forall|k: int| 0 <= k < cur.len() implies #[trigger] cur[k].id_rarity != 5 by {
            assert(cur[k] == b[k]);
        }
    }
}

/// A build reached through item `i` of the pool of slot `depth` is among the
/// builds that branch off the first `k` items of that pool.
pub proof fn lemma_branch_contains(
    pools: Seq<Seq<EquipmentModel>>,
    depth: int,
    k: int,
    cur: Seq<EquipmentModel>,
    i: int,
    b: Seq<EquipmentModel>,
)
    requires
        0 <= depth < pools.len(),
        0 <= i < k <= pools[depth].len(),
        allowed(cur, pools[depth][i]),
        leaves(pools, depth + 1, cur.push(pools[depth][i])).contains(b),
    ensures
        branch_leaves(pools, depth, k, cur).contains(b),
    decreases k,
{
    let prev = branch_leaves(pools, depth, k - 1, cur);
    let c = pools[depth][k - 1];
    if i == k - 1 {
        let l = leaves(pools, depth + 1, cur.push(c));
        let j = choose|j: int| 0 <= j < l.len() && l[j] == b;
        assert((prev + l)[prev.len() + j] == b);
    } else {
        lemma_branch_contains(pools, depth, k - 1, cur, i, b);
        let j = choose|j: int| 0 <= j < prev.len() && prev[j] == b;
        if allowed(cur, c) {
            assert((prev + leaves(pools, depth + 1, cur.push(c)))[j] == b);
        }
    }
}

/// A valid build that extends `cur` with one item of each pool from slot
/// `depth` on is among the builds that the search reaches from `cur`.
pub proof fn lemma_leaves_complete(
    pools: Seq<Seq<EquipmentModel>>,
    depth: int,
    cur: Seq<EquipmentModel>,
    b: Seq<EquipmentModel>,
)
    requires
        0 <= depth <= pools.len(),
        valid_build(b),
        b.len() == cur.len() + pools.len() - depth,
        b.take(cur.len() as int) == cur,
        forall|j: int|
            #![trigger pools[j]]
            depth <= j < pools.len() ==> pools[j].contains(b[cur.len() + j - depth]),
    ensures
        leaves(pools, depth, cur).contains(b),
    decreases pools.len() - depth,
{
    let n = cur.len() as int;
    if depth == pools.len() {
        assert(b =~= cur);
        assert(leaves(pools, depth, cur) == seq![cur]);
        assert(seq![cur][0] == cur);
    } else {
        let c = b[n];
        assert(pools[depth].contains(b[n + depth - depth]));
        let i = choose|i: int| 0 <= i < pools[depth].len() && pools[depth][i] == c;
        lemma_prefix_allowed(b, n);
        assert(allowed(cur, pools[depth][i]));
        let nc = cur.push(c);
        assert(b.take(n + 1) =~= nc);
        assert forall|j: int| #![trigger pools[j]] depth + 1 <= j < pools.len() implies pools[j].contains(
            b[nc.len() + j - (depth + 1)],
        ) by {
            assert(pools[j].contains(b[n + j - depth]));
        }
        lemma_leaves_complete(pools, depth + 1, nc, b);
        lemma_branch_contains(pools, depth, pools[depth].len() as int, cur, i, b);
    }
}

/// Every complete build is in the search space.
pub proof fn lemma_complete_in_space(items: Seq<EquipmentModel>, level: i32, b: Seq<EquipmentModel>)
    requires
        complete_build(b, items, level),
    ensures
        search_space(items, level).contains(b),
{
    let s = choose|s: int| 0 <= s < 3 && fits(b, #[trigger] setups()[s]);
    let slots = setups()[s];
    let pools = slot_pools(items, level, slots);
    let e = Seq::<EquipmentModel>::empty();
    assert forall|j: int| #![trigger pools[j]] 0 <= j < pools.len() implies pools[j].contains(
        b[e.len() + j - 0],
    ) by {
        assert(b[j].id_type == slots[j]);
        assert(eligible(b[j], level) && items.contains(b[j]));
        lemma_candidates_complete(items, level, slots[j], b[j]);
    }
    assert(b.take(0) =~= e);
    lemma_leaves_complete(pools, 0, e, b);
    let l0 = leaves(slot_pools(items, level, setups()[0]), 0, e);
    let l1 = leaves(slot_pools(items, level, setups()[1]), 0, e);
    let l2 = leaves(slot_pools(items, level, setups()[2]), 0, e);
    let space = search_space(items, level);
    assert(space == l0 + l1 + l2);
    if s == 0 {
        let j = choose|j: int| 0 <= j < l0.len() && l0[j] == b;
        assert(space[j] == b);
    } else if s == 1 {
        let j = choose|j: int| 0 <= j < l1.len() && l1[j] == b;
        assert(space[l0.len() + j] == b);
    } else {
        let j = choose|j: int| 0 <= j < l2.len() && l2[j] == b;
        assert(space[l0.len() + l1.len() + j] == b);
    }
}

/// The build search returns a build of the search space; no build of the
/// search space, and no valid build of eligible catalogue items that fills one
/// of the layouts, scores higher.
pub proof fn lemma_perfect_build_is_optimal(items: Seq<EquipmentModel>, level: i32, p: ProfileModel)
    ensures
        search_space(items, level).contains(perfect_build(items, level, p)),
        forall|b: Seq<EquipmentModel>|
            #[trigger] search_space(items, level).contains(b) ==> build_score(b, p) <= build_score(
                perfect_build(items, level, p),
                p,
            ),
        forall|b: Seq<EquipmentModel>|
            #[trigger] complete_build(b, items, level) ==> build_score(b, p) <= build_score(
                perfect_build(items, level, p),
                p,
            ),
{
    let space = search_space(items, level);
    assert(valid_build(Seq::<EquipmentModel>::empty()));
    lemma_leaves_shape(slot_pools(items, level, setups()[0]), 0, Seq::empty());
    assert(space.len() > 0);
    lemma_best_of_member(None, space, p);
    lemma_best_of_optimal(None, space, p);
    let r = best_of(None, space, p)->0;
    assert(perfect_build(items, level, p) == r.1);
    assert forall|b: Seq<EquipmentModel>| #[trigger] space.contains(b) implies build_score(b, p)
        <= build_score(perfect_build(items, level, p), p) by {
        let i = choose|i: int| 0 <= i < space.len() && space[i] == b;
        assert(r.0 >= build_score(space[i], p));
    }
    assert forall|b: Seq<EquipmentModel>| #[trigger] complete_build(b, items, level) implies build_score(
        b,
        p,
    ) <= build_score(perfect_build(items, level, p), p) by {
        lemma_complete_in_space(items, level, b);
        assert(space.contains(b));
    }
}

/// The items of `b` fill some of the slots of `slots`, in order, each with an
/// item of its slot's type.
pub open spec fn follows(b: Seq<EquipmentModel>, slots: Seq<i32>) -> bool
    decreases slots.len(),
{
    if b.len() == 0 {
        true
    } else if slots.len() == 0 {
        false
    } else {
        ||| (b.last().id_type == slots.last() && follows(b.drop_last(), slots.drop_last()))
        ||| follows(b, slots.drop_last())
    }
}

/// Every build that the search reaches from `cur` at slot `depth` of layout
/// `slots` follows the layout, when `cur` follows its first `depth` slots.
pub proof fn lemma_leaves_follow(
    items: Seq<EquipmentModel>,
    level: i32,
    slots: Seq<i32>,
    depth: int,
    cur: Seq<EquipmentModel>,
)
    requires
        0 <= depth <= slots.len(),
        follows(cur, slots.take(depth)),
    ensures
        forall|i: int|
            0 <= i < leaves(slot_pools(items, level, slots), depth, cur).len() ==> follows(
                #[trigger] leaves(slot_pools(items, level, slots), depth, cur)[i],
                slots,
            ),
    decreases slots.len() - depth, slot_pools(items, level, slots)[depth].len() + 1,
{
    let pools = slot_pools(items, level, slots);
    assert(pools.len() == slots.len());
    if depth >= slots.len() {
        assert(slots.take(depth) =~= slots);
        assert(leaves(pools, depth, cur) == seq![cur]);
        assert(seq![cur][0] == cur);
    } else {
        assert(slots.take(depth + 1).drop_last() =~= slots.take(depth));
        if exists|i: int| 0 <= i < pools[depth].len() && allowed(cur, #[trigger] pools[depth][i]) {
            assert(leaves(pools, depth, cur) == branch_leaves(
                pools,
                depth,
                pools[depth].len() as int,
                cur,
            ));
            lemma_branch_follow(items, level, slots, depth, pools[depth].len() as int, cur);
        } else {
            assert(leaves(pools, depth, cur) == leaves(pools, depth + 1, cur));
            if cur.len() > 0 {
                assert(follows(cur, slots.take(depth + 1)));
            }
            lemma_leaves_follow(items, level, slots, depth + 1, cur);
        }
    }
}

/// The builds that branch off the first `k` items of the pool of slot `depth`
/// follow the layout, when `cur` follows its first `depth` slots.
pub proof fn lemma_branch_follow(
    items: Seq<EquipmentModel>,
    level: i32,
    slots: Seq<i32>,
    depth: int,
    k: int,
    cur: Seq<EquipmentModel>,
)
    requires
        0 <= depth < slots.len(),
        k <= slot_pools(items, level, slots)[depth].len(),
        follows(cur, slots.take(depth)),
    ensures
        forall|i: int|
            0 <= i < branch_leaves(slot_pools(items, level, slots), depth, k, cur).len() ==> follows(
                #[trigger] branch_leaves(slot_pools(items, level, slots), depth, k, cur)[i],
                slots,
            ),
    decreases slots.len() - depth, k,
{
    let pools = slot_pools(items, level, slots);
    if k > 0 {
        lemma_branch_follow(items, level, slots, depth, k - 1, cur);
        let prev = branch_leaves(pools, depth, k - 1, cur);
        let c = pools[depth][k - 1];
        if allowed(cur, c) {
            lemma_candidates_members(items, level, slots[depth]);
            assert(pools[depth] == candidates(items, level, slots[depth]));
            assert(pools[depth].contains(c));
            let nc = cur.push(c);
            let t = slots.take(depth + 1);
            assert(t.drop_last() =~= slots.take(depth));
            assert(nc.drop_last() =~= cur);
            assert(follows(nc, t));
            lemma_leaves_follow(items, level, slots, depth + 1, nc);
            let l = leaves(pools, depth + 1, nc);
            let all = prev + l;
            assert forall|i: int| 0 <= i < all.len() implies follows(#[trigger] all[i], slots) by {
                if i < prev.len() {
                    assert(all[i] == prev[i]);
                } else {
                    assert(all[i] == l[i - prev.len()]);
                }
            }
        }
    }
}

/// Every build of the search space follows one of the layouts: its items
/// fill slots of the layout in order, each with an item of the slot's type.
pub proof fn lemma_search_space_follows(items: Seq<EquipmentModel>, level: i32)
    ensures
        forall|b: Seq<EquipmentModel>|
            #[trigger] search_space(items, level).contains(b) ==> exists|s: int|
                0 <= s < 3 && follows(b, #[trigger] setups()[s]),
{
    let e = Seq::<EquipmentModel>::empty();
    lemma_leaves_follow(items, level, setups()[0], 0, e);
    lemma_leaves_follow(items, level, setups()[1], 0, e);
    lemma_leaves_follow(items, level, setups()[2], 0, e);
    let l0 = leaves(slot_pools(items, level, setups()[0]), 0, e);
    let l1 = leaves(slot_pools(items, level, setups()[1]), 0, e);
    let l2 = leaves(slot_pools(items, level, setups()[2]), 0, e);
    let space = search_space(items, level);
    assert(space == l0 + l1 + l2);
    assert forall|b: Seq<EquipmentModel>| #[trigger] space.contains(b) implies exists|s: int|
        0 <= s < 3 && follows(b, #[trigger] setups()[s]) by {
        let i = choose|i: int| 0 <= i < space.len() && space[i] == b;
        if i < l0.len() {
            assert(space[i] == l0[i]);
            assert(follows(b, setups()[0]));
        } else if i < l0.len() + l1.len() {
            assert(space[i] == l1[i - l0.len()]);
            assert(follows(b, setups()[1]));
        } else {
            assert(space[i] == l2[i - l0.len() - l1.len()]);
            assert(follows(b, setups()[2]));
        }
    }
}

/// Every build that branches off a valid `cur` holds more items than `cur`.
pub proof fn lemma_branch_longer(
    pools: Seq<Seq<EquipmentModel>>,
    depth: int,
    k: int,
    cur: Seq<EquipmentModel>,
)
    requires
        valid_build(cur),
        0 <= depth < pools.len(),
        k <= pools[depth].len(),
    ensures
        forall|i: int|
            0 <= i < branch_leaves(pools, depth, k, cur).len() ==> #[trigger] branch_leaves(
                pools,
                depth,
                k,
                cur,
            )[i].len() > cur.len(),
    decreases k,
{
    if k > 0 {
        lemma_branch_longer(pools, depth, k - 1, cur);
        let prev = branch_leaves(pools, depth, k - 1, cur);
        let c = pools[depth][k - 1];
        if allowed(cur, c) {
            lemma_allowed_keeps_valid(cur, c);
            lemma_leaves_shape(pools, depth + 1, cur.push(c));
            let l = leaves(pools, depth + 1, cur.push(c));
            let all = prev + l;
            assert(branch_leaves(pools, depth, k, cur) == all);
            assert forall|i: int| 0 <= i < all.len() implies #[trigger] all[i].len() > cur.len() by {
                if i < prev.len() {
                    assert(all[i] == prev[i]);
                } else {
                    assert(all[i] == l[i - prev.len()]);
                }
            }
        }
    }
}

/// When a slot from `depth` on has an item, every build that the search
/// reaches from the empty build holds an item.
pub proof fn lemma_leaves_nonempty(pools: Seq<Seq<EquipmentModel>>, depth: int)
    requires
        0 <= depth <= pools.len(),
        exists|j: int| depth <= j < pools.len() && #[trigger] pools[j].len() > 0,
    ensures
        forall|i: int|
            0 <= i < leaves(pools, depth, Seq::empty()).len() ==> #[trigger] leaves(
                pools,
                depth,
                Seq::empty(),
            )[i].len() > 0,
    decreases pools.len() - depth,
{
    let e = Seq::<EquipmentModel>::empty();
    assert(valid_build(e));
    let j = choose|j: int| depth <= j < pools.len() && #[trigger] pools[j].len() > 0;
    if pools[depth].len() > 0 {
        assert(allowed(e, pools[depth][0]));
        assert(leaves(pools, depth, e) == branch_leaves(pools, depth, pools[depth].len() as int, e));
        lemma_branch_longer(pools, depth, pools[depth].len() as int, e);
    } else {
        assert(pools[j].len() > 0 && j > depth);
        assert(leaves(pools, depth, e) == leaves(pools, depth + 1, e));
        lemma_leaves_nonempty(pools, depth + 1);
    }
}

/// An eligible catalogue item that fits a slot of layout `s` makes every
/// build that the search tries for that layout hold an item.
pub proof fn lemma_layout_nonempty(items: Seq<EquipmentModel>, level: i32, s: int, e: EquipmentModel)
    requires
        0 <= s < 3,
        items.contains(e),
        eligible(e, level),
        setups()[s].contains(e.id_type),
    ensures
        forall|i: int|
            0 <= i < leaves(slot_pools(items, level, setups()[s]), 0, Seq::empty()).len()
                ==> #[trigger] leaves(slot_pools(items, level, setups()[s]), 0, Seq::empty())[i].len()
                > 0,
{
    let slots = setups()[s];
    let pools = slot_pools(items, level, slots);
    let j = choose|j: int| 0 <= j < slots.len() && slots[j] == e.id_type;
    lemma_candidates_complete(items, level, slots[j], e);
    assert(pools[j] == candidates(items, level, slots[j]));
    assert(pools[j].len() > 0);
    lemma_leaves_nonempty(pools, 0);
}

/// When an eligible catalogue item fits a slot of every layout, the build
/// that the search returns holds at least one item.
pub proof fn lemma_perfect_build_nonempty(items: Seq<EquipmentModel>, level: i32, p: ProfileModel)
    requires
        exists|k: int|
            0 <= k < items.len() && eligible(#[trigger] items[k], level) && setups()[0].contains(
                items[k].id_type,
            ) && setups()[1].contains(items[k].id_type) && setups()[2].contains(items[k].id_type),
    ensures
        perfect_build(items, level, p).len() > 0,
{
    let k = choose|k: int|
        0 <= k < items.len() && eligible(#[trigger] items[k], level) && setups()[0].contains(
            items[k].id_type,
        ) && setups()[1].contains(items[k].id_type) && setups()[2].contains(items[k].id_type);
    let e = items[k];
    assert(items.contains(e));
    lemma_layout_nonempty(items, level, 0, e);
    lemma_layout_nonempty(items, level, 1, e);
    lemma_layout_nonempty(items, level, 2, e);
    lemma_perfect_build_is_optimal(items, level, p);
    let pb = perfect_build(items, level, p);
    let em = Seq::<EquipmentModel>::empty();
    let l0 = leaves(slot_pools(items, level, setups()[0]), 0, em);
    let l1 = leaves(slot_pools(items, level, setups()[1]), 0, em);
    let l2 = leaves(slot_pools(items, level, setups()[2]), 0, em);
    let space = search_space(items, level);
    assert(space == l0 + l1 + l2);
    let i = choose|i: int| 0 <= i < space.len() && space[i] == pb;
    if i < l0.len() {
        assert(space[i] == l0[i]);
    } else if i < l0.len() + l1.len() {
        assert(space[i] == l1[i - l0.len()]);
    } else {
        assert(space[i] == l2[i - l0.len() - l1.len()]);
    }
}

/// Every build of the search space holds no item twice, at most one epic and
/// one relic, and only catalogue items of level at most `level` that are eligible.
pub proof fn lemma_search_space_valid(items: Seq<EquipmentModel>, level: i32)
    ensures
        forall|b: Seq<EquipmentModel>|
            #[trigger] search_space(items, level).contains(b) ==> valid_build(b) && b.len() <= 13
                && forall|k: int|
                0 <= k < b.len() ==> eligible(#[trigger] b[k], level) && items.contains(b[k]),
{
    let e = Seq::<EquipmentModel>::empty();
    assert(valid_build(e));
    let ps0 = slot_pools(items, level, setups()[0]);
    let ps1 = slot_pools(items, level, setups()[1]);
    let ps2 = slot_pools(items, level, setups()[2]);
    lemma_leaves_shape(ps0, 0, e);
    lemma_leaves_shape(ps1, 0, e);
    lemma_leaves_shape(ps2, 0, e);
    let l0 = leaves(ps0, 0, e);
    let l1 = leaves(ps1, 0, e);
    let l2 = leaves(ps2, 0, e);
    let space = search_space(items, level);
    assert(space == l0 + l1 + l2);
    assert(setups()[0].len() == 12 && setups()[1].len() == 13 && setups()[2].len() == 13);
    assert forall|b: Seq<EquipmentModel>| #[trigger] space.contains(b) implies valid_build(b)
        && b.len() <= 13 && forall|k: int| 0 <= k < b.len() ==> eligible(#[trigger] b[k], level) && items.contains(
        b[k],
    ) by {
        let i = choose|i: int| 0 <= i < space.len() && space[i] == b;
        let ghost ps = if i < l0.len() {
            ps0
        } else if i < l0.len() + l1.len() {
            ps1
        } else {
            ps2
        };
        if i < l0.len() {
            assert(space[i] == l0[i]);
        } else if i < l0.len() + l1.len() {
            assert(space[i] == l1[i - l0.len()]);
        } else {
            assert(space[i] == l2[i - l0.len() - l1.len()]);
        }
        assert(drawn_from(b, 0, ps));
        assert forall|k: int| 0 <= k < b.len() implies eligible(#[trigger] b[k], level) && items.contains(
            b[k],
        ) by {
            let d = choose|d: int| 0 <= d < ps.len() && ps[d].contains(b[k]);
            let s = if i < l0.len() {
                setups()[0]
            } else if i < l0.len() + l1.len() {
                setups()[1]
            } else {
                setups()[2]
            };
            assert(ps == slot_pools(items, level, s));
            assert(ps[d] == candidates(items, level, s[d]));
            lemma_candidates_members(items, level, s[d]);
        }
    }
}

/// The best statistic of an item gains nothing or more, and at least as much
/// as every candidate; the statistic chosen is a candidate with exactly that gain.
pub proof fn lemma_best_stat(item: EquipmentModel, stats: Seq<i32>, ws: Seq<(i32, i64)>)
    ensures
        best_stat(item, stats, ws).0 >= 0,
        forall|i: int|
            0 <= i < stats.len() ==> enchant_gain(#[trigger] stats[i], item, ws) <= best_stat(
                item,
                stats,
                ws,
            ).0,
        best_stat(item, stats, ws).1 matches Some(s) ==> stats.contains(s) && best_stat(
            item,
            stats,
            ws,
        ).0 == enchant_gain(s, item, ws),
        best_stat(item, stats, ws).1 is None ==> best_stat(item, stats, ws).0 == 0,
    decreases stats.len(),
{
    if stats.len() > 0 {
        let d = stats.drop_last();
        lemma_best_stat(item, d, ws);
        assert forall|i: int| 0 <= i < stats.len() implies enchant_gain(
            #[trigger] stats[i],
            item,
            ws,
        ) <= best_stat(item, stats, ws).0 by {
            if i < d.len() {
                assert(stats[i] == d[i]);
            }
        }
        if let Some(s) = best_stat(item, stats, ws).1 {
            if best_stat(item, stats, ws) == best_stat(item, d, ws) {
                let j = choose|j: int| 0 <= j < d.len() && d[j] == s;
                assert(stats[j] == s);
            } else {
                assert(stats[stats.len() - 1] == s);
            }
        }
    }
}

/// The statistics chosen for a build form an allocation.
pub proof fn lemma_choices_allocation(build: Seq<EquipmentModel>, ws: Seq<(i32, i64)>)
    ensures
        is_allocation(build, choices(build, ws)),
{
    let ch = choices(build, ws);
    assert forall|i: int| 0 <= i < ch.len() implies (#[trigger] ch[i] matches Some(s)
        ==> build_enchant_stats().contains(s)) by {
        lemma_best_stat(build[i], build_enchant_stats(), ws);
    }
}

/// Four enchantments of a candidate statistic raise the score by their amount
/// times the statistic's weight, and leave the penalty unchanged.
pub proof fn lemma_enchant_stat_effect(v: Seq<int>, s: i32, a: int, p: ProfileModel)
    requires
        v.len() == 22,
        build_enchant_stats().contains(s),
    ensures
        add_stat(v, s, a).len() == 22,
        score(add_stat(v, s, a), p) == score(v, p) + if is_tracked(s) {
            a * score_weight(p.weights, s)
        } else {
            0
        },
        penalty(add_stat(v, s, a), p) == penalty(v, p),
{
    let k = choose|k: int| 0 <= k < build_enchant_stats().len() && build_enchant_stats()[k] == s;
    assert(s == 120 || s == 1052 || s == 1053 || s == 1055 || s == 149 || s == 180 || s == 173 || s
        == 175 || s == 171 || s == 82 || s == 83 || s == 84 || s == 85 || s == 20 || s == 26);
    lemma_weighted_sum_add_stat(v, s, a, p.weights);
    let w = add_stat(v, s, a);
    assert(w[5] == v[5] && w[6] == v[6] && w[7] == v[7] && w[8] == v[8]);
    assert(stat_of(w, 31) == stat_of(v, 31));
    assert(stat_of(w, 41) == stat_of(v, 41));
    assert(stat_of(w, 80) == stat_of(v, 80));
}

/// Enchanting the items of a build as `alloc` says adds `alloc_gain` to its
/// score and leaves its penalty unchanged.
pub proof fn lemma_alloc_score(
    v: Seq<int>,
    build: Seq<EquipmentModel>,
    alloc: Seq<Option<i32>>,
    p: ProfileModel,
)
    requires
        v.len() == 22,
        is_allocation(build, alloc),
    ensures
        apply_alloc(v, build, alloc).len() == 22,
        score(apply_alloc(v, build, alloc), p) == score(v, p) + alloc_gain(build, alloc, p.weights),
        penalty(apply_alloc(v, build, alloc), p) == penalty(v, p),
    decreases build.len(),
{
    if build.len() > 0 {
        let d = build.drop_last();
        let ad = alloc.drop_last();
        assert forall|i: int| 0 <= i < ad.len() implies (#[trigger] ad[i] matches Some(s)
            ==> build_enchant_stats().contains(s)) by {
            assert(ad[i] == alloc[i]);
        }
        lemma_alloc_score(v, d, ad, p);
        let prev = apply_alloc(v, d, ad);
        assert(alloc[alloc.len() - 1] == alloc.last());
        if let Some(s) = alloc.last() {
            if !no_sockets(build.last().id_type) {
                lemma_enchant_stat_effect(prev, s, socket_value(s, build.last()), p);
            }
        }
    }
}

/// No allocation gains more than the statistics chosen for a build.
pub proof fn lemma_alloc_gain_best(
    build: Seq<EquipmentModel>,
    alloc: Seq<Option<i32>>,
    ws: Seq<(i32, i64)>,
)
    requires
        is_allocation(build, alloc),
    ensures
        alloc_gain(build, alloc, ws) <= alloc_gain(build, choices(build, ws), ws),
    decreases build.len(),
{
    if build.len() > 0 {
        let d = build.drop_last();
        let ad = alloc.drop_last();
        assert forall|i: int| 0 <= i < ad.len() implies (#[trigger] ad[i] matches Some(s)
            ==> build_enchant_stats().contains(s)) by {
            assert(ad[i] == alloc[i]);
        }
        lemma_alloc_gain_best(d, ad, ws);
        assert(choices(build, ws).drop_last() =~= choices(d, ws));
        assert(choices(build, ws).last() == item_choice(build.last(), ws));
        let it = build.last();
        lemma_best_stat(it, build_enchant_stats(), ws);
        assert(alloc[alloc.len() - 1] == alloc.last());
        if let Some(s) = alloc.last() {
            if !no_sockets(it.id_type) {
                let j = choose|j: int|
                    0 <= j < build_enchant_stats().len() && build_enchant_stats()[j] == s;
                assert(enchant_gain(build_enchant_stats()[j], it, ws) <= best_stat(
                    it,
                    build_enchant_stats(),
                    ws,
                ).0);
            }
        }
    }
}

/// The enchantments chosen for a build give it the highest score, before and
/// after penalties, of all allocations of the candidate statistics to its items.
pub proof fn lemma_enchantment_is_best(
    build: Seq<EquipmentModel>,
    alloc: Seq<Option<i32>>,
    p: ProfileModel,
)
    requires
        is_allocation(build, alloc),
    ensures
        score(apply_alloc(build_base(build), build, alloc), p) <= score(
            enchanted_stats(build, p.weights),
            p,
        ),
        final_score(apply_alloc(build_base(build), build, alloc), p) <= final_score(
            enchanted_stats(build, p.weights),
            p,
        ),
{
    let base = build_base(build);
    if build.len() > 0 {
        assert(base == add_stats(build_base(build.drop_last()), base_vector(build.last())));
    }
    assert(base.len() == 22);
    lemma_choices_allocation(build, p.weights);
    lemma_alloc_score(base, build, alloc, p);
    lemma_alloc_score(base, build, choices(build, p.weights), p);
    lemma_alloc_gain_best(build, alloc, p.weights);
}

/// When a single elemental mastery counts, the score of the sum of two stat
/// vectors is the sum of their scores.
pub proof fn lemma_score_is_additive(a: Seq<int>, b: Seq<int>, p: ProfileModel)
    requires
        a.len() == 22,
        b.len() == 22,
        p.element != Element::All,
    ensures
        score(add_stats(a, b), p) == score(a, p) + score(b, p),
{
    lemma_score_additive(a, b, p);
}

/// Every element of `s`, and `x`, is in `insert_desc(s, x)`.
pub proof fn lemma_insert_keeps_all<T>(s: Seq<(int, T)>, x: (int, T))
    ensures
        insert_desc(s, x).contains(x),
        forall|e: (int, T)| #[trigger] s.contains(e) ==> insert_desc(s, x).contains(e),
    decreases s.len(),
{
    let r = insert_desc(s, x);
    if s.len() == 0 {
        assert(r[0] == x);
    } else if s.last().0 >= x.0 {
        assert(r[s.len() as int] == x);
        assert forall|e: (int, T)| #[trigger] s.contains(e) implies r.contains(e) by {
            let i = choose|i: int| 0 <= i < s.len() && s[i] == e;
            assert(r[i] == e);
        }
    } else {
        let d = s.drop_last();
        lemma_insert_keeps_all(d, x);
        let rd = insert_desc(d, x);
        let i = choose|i: int| 0 <= i < rd.len() && rd[i] == x;
        assert(r[i] == x);
        assert forall|e: (int, T)| #[trigger] s.contains(e) implies r.contains(e) by {
            let i = choose|i: int| 0 <= i < s.len() && s[i] == e;
            if i == s.len() - 1 {
                assert(r[r.len() - 1] == e);
            } else {
                assert(d[i] == e);
                assert(d.contains(e));
                let k = choose|k: int| 0 <= k < rd.len() && rd[k] == e;
                assert(r[k] == e);
            }
        }
    }
}

/// Every element of `s` is in `sort_desc(s)`.
pub proof fn lemma_sort_keeps_all<T>(s: Seq<(int, T)>)
    ensures
        forall|e: (int, T)| #[trigger] s.contains(e) ==> sort_desc(s).contains(e),
    decreases s.len(),
{
    if s.len() > 0 {
        let d = s.drop_last();
        lemma_sort_keeps_all(d);
        lemma_insert_keeps_all(sort_desc(d), s.last());
        assert forall|e: (int, T)| #[trigger] s.contains(e) implies sort_desc(s).contains(e) by {
            let i = choose|i: int| 0 <= i < s.len() && s[i] == e;
            if i < d.len() {
                assert(d[i] == e);
                assert(d.contains(e));
            }
        }
    }
}

/// The enchantment recommended for an item with sockets is one of the
/// candidate statistics, with its gain, and no candidate statistic gains more.
pub proof fn lemma_socket_choice_is_best(item: EquipmentModel, ws: Seq<(i32, i64)>)
    requires
        !no_sockets(item.id_type),
    ensures
        socket_choice(item, ws).len() == 1,
        item_enchant_stats().contains(socket_choice(item, ws)[0].0),
        socket_choice(item, ws)[0].1 == socket_gain(socket_choice(item, ws)[0].0, item, ws),
        forall|i: int|
            0 <= i < item_enchant_stats().len() ==> socket_gain(#[trigger] item_enchant_stats()[i], item, ws)
                <= socket_choice(item, ws)[0].1,
        exists|j: int|
            0 <= j < item_enchant_stats().len() && item_enchant_stats()[j] == socket_choice(item, ws)[0].0
                && forall|i: int|
                0 <= i < j ==> socket_gain(#[trigger] item_enchant_stats()[i], item, ws) < socket_choice(
                    item,
                    ws,
                )[0].1,
{
    let cands = item_enchant_stats().map_values(|s: i32| (socket_gain(s, item, ws), s));
    let sorted = sort_desc(cands);
    lemma_sort_head(cands);
    lemma_first_best(cands);
    let fb = first_best(cands);
    let jb = choose|j: int|
        0 <= j < cands.len() && cands[j] == fb && forall|i: int| 0 <= i < j ==> #[trigger] cands[i].0 < fb.0;
    assert forall|i: int| 0 <= i < jb implies socket_gain(#[trigger] item_enchant_stats()[i], item, ws)
        < socket_choice(item, ws)[0].1 by {
        assert(cands[i].0 < fb.0);
    }
    assert(item_enchant_stats()[jb] == socket_choice(item, ws)[0].0);
    lemma_sort_len(cands);
    lemma_sort_sorted(cands);
    lemma_sort_members(cands);
    lemma_sort_keeps_all(cands);
    assert(socket_choice(item, ws)[0] == (sorted[0].1, sorted[0].0));
    assert(cands.contains(sorted[0]));
    let j = choose|j: int| 0 <= j < cands.len() && cands[j] == sorted[0];
    assert(item_enchant_stats()[j] == sorted[0].1);
    assert forall|i: int| 0 <= i < item_enchant_stats().len() implies socket_gain(
        #[trigger] item_enchant_stats()[i],
        item,
        ws,
    ) <= socket_choice(item, ws)[0].1 by {
        assert(cands[i] == (socket_gain(item_enchant_stats()[i], item, ws), item_enchant_stats()[i]));
        assert(cands.contains(cands[i]));
        let k = choose|k: int| 0 <= k < sorted.len() && sorted[k] == cands[i];
        if k > 0 {
            assert(sorted[0].0 >= sorted[k].0);
        }
    }
}

/// Moving the selection down then up, or up then down, comes back to the same
/// setting, and the selection stays among the five settings.
pub proof fn lemma_selection_round_trip(i: usize)
    requires
        i < 5,
    ensures
        prev_index(next_index(i)) == i,
        next_index(prev_index(i)) == i,
        next_index(i) < 5,
        prev_index(i) < 5,
{
}

/// Turning a setting forwards then backwards, or backwards then forwards,
/// restores it; the mode flips back on a second change.
pub proof fn lemma_adjust_round_trip(r: Role, m: Mode, g: Range, e: Element, forward: bool)
    ensures
        cycle_role(cycle_role(r, forward), !forward) == r,
        toggle_mode(toggle_mode(m)) == m,
        cycle_range(cycle_range(g, forward), !forward) == g,
        cycle_element(cycle_element(e, forward), !forward) == e,
{
}

/// Turning forwards as many times as there are choices restores a setting.
pub proof fn lemma_adjust_full_turn(r: Role, g: Range, e: Element, forward: bool)
    ensures
        cycle_role(cycle_role(cycle_role(r, forward), forward), forward) == r,
        cycle_range(cycle_range(cycle_range(g, forward), forward), forward) == g,
        cycle_element(
            cycle_element(
                cycle_element(cycle_element(cycle_element(e, forward), forward), forward),
                forward,
            ),
            forward,
        ) == e,
{
}

/// The level always lands within 1..=245, and a step up then down (or down
/// then up) inside that range comes back to the same level.
pub proof fn lemma_level_bounds(level: int, delta: int)
    ensures
        1 <= clamp(level + delta, 1, 245) <= 245,
        1 <= level <= 244 ==> clamp(clamp(level + 1, 1, 245) - 1, 1, 245) == level,
        2 <= level <= 245 ==> clamp(clamp(level - 1, 1, 245) + 1, 1, 245) == level,
{
}

} // verus!
