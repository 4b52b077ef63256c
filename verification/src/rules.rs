use vstd::prelude::*;
use crate::engine::{
    aggregate_ids, build_base, build_enchant_stats, choices, enchant_gain, enchant_plan,
    enchanted_stats, item_choice, apply_alloc,
};
use crate::laws::{lemma_best_stat, lemma_candidates_complete};
use crate::models::EquipmentModel;
use crate::profile::{
    Element, Mode, ProfileModel, Range, Role, profile_for, weight_or, lookup_weight, distinct_keys,
};
use crate::pruning::lemma_weighted_sum_zero;
use crate::report::{StatsSummary, aggregate_map, summarizes, best_mastery};
use crate::scoring::{peak, score, score_weight, lemma_weighted_sum_add_stat};
use crate::search::{candidates, eligible, name_allowed};
use crate::text::{lowercase, has_substring, has_prefix, word_count};
use crate::stats::{add_stat, stat_of, is_tracked, zero_stats};

verus! {

/// An item above level 1 and not above `level`, whose name lets it in, is
/// eligible for a build of level `level`, and is then a candidate of its slot
/// type in any catalogue that holds it; an item above `level`, or of level 1
/// or below, never is.
pub proof fn lemma_level_eligibility(items: Seq<EquipmentModel>, item: EquipmentModel, level: i32)
    ensures
        1 < item.level <= level && name_allowed(lowercase(item.name), item.name, item.id_type)
            ==> eligible(item, level),
        1 < item.level <= level && name_allowed(lowercase(item.name), item.name, item.id_type)
            && items.contains(item) ==> candidates(items, level, item.id_type).contains(item),
        item.level > level || item.level <= 1 ==> !eligible(item, level),
{
    if 1 < item.level <= level && name_allowed(lowercase(item.name), item.name, item.id_type)
        && items.contains(item) {
        lemma_candidates_complete(items, level, item.id_type, item);
    }
}

/// The weights of the damage role: life and resistance count only in solo
/// play; general, critical, rear-critical and berserk-critical statistics are
/// always weighted; melee fighters favour melee, rear and critical-rear
/// mastery and are penalised for distance mastery, distance fighters favour
/// distance mastery and range and are penalised for melee mastery, hybrid
/// fighters weigh melee, distance and rear mastery alike.
pub proof fn lemma_damage_weights(mode: Mode, range: Range, element: Element, a: i32, m: i32, r: i64)
    ensures
        ({
            let ws = profile_for(Role::DPS, mode, range, element, a, m, r).weights;
            let solo = mode == Mode::Solo;
            &&& weight_or(ws, 20, 0) == if solo { 1125int } else { 0int }
            &&& weight_or(ws, 80, 0) == if solo { 4500int } else { 0int }
            &&& weight_or(ws, 120, 0) == 1000
            &&& weight_or(ws, 1068, 0) == 1200
            &&& weight_or(ws, 149, 0) == 1000
            &&& weight_or(ws, 150, 0) == 10000
            &&& weight_or(ws, 1051, 0) == 1800
            &&& weight_or(ws, 1054, 0) == 1800
            &&& range == Range::Melee ==> weight_or(ws, 1052, 0) == 2500 && weight_or(ws, 180, 0)
                == 2000 && weight_or(ws, 1053, 0) == -1000 && weight_or(ws, 173, 0) == 1500
                && weight_or(ws, 160, 0) == 0
            &&& range == Range::Distance ==> weight_or(ws, 1053, 0) == 2000 && weight_or(ws, 160, 0)
                == 8000 && weight_or(ws, 1052, 0) == -1000 && weight_or(ws, 180, 0) == 0
                && weight_or(ws, 173, 0) == 0
            &&& range == Range::Hybrid ==> weight_or(ws, 1052, 0) == 1000 && weight_or(ws, 1053, 0)
                == 1000 && weight_or(ws, 180, 0) == 1000 && weight_or(ws, 160, 0) == 0
                && weight_or(ws, 173, 0) == 0
        }),
{
    reveal_with_fuel(lookup_weight, 13);
}

/// Tanks and supports weigh life, general mastery and resistance alike, and
/// nothing else.
pub proof fn lemma_other_role_weights(
    role: Role,
    mode: Mode,
    range: Range,
    element: Element,
    a: i32,
    m: i32,
    r: i64,
    id: i32,
)
    requires
        role != Role::DPS,
    ensures
        ({
            let ws = profile_for(role, mode, range, element, a, m, r).weights;
            &&& weight_or(ws, 20, 0) == 1000
            &&& weight_or(ws, 120, 0) == 1000
            &&& weight_or(ws, 80, 0) == 1000
            &&& id != 20 && id != 120 && id != 80 ==> weight_or(ws, id, 0) == 0
        }),
{
    reveal_with_fuel(lookup_weight, 4);
}

/// The elemental mastery that counts for an element is that element's own
/// mastery statistic (fire 122, earth 123, water 124, air 125), and the best
/// of the four for `All`.
pub proof fn lemma_peak_reads_element(v: Seq<int>)
    requires
        v.len() == 22,
    ensures
        peak(v, Element::Fire) == stat_of(v, 122),
        peak(v, Element::Earth) == stat_of(v, 123),
        peak(v, Element::Water) == stat_of(v, 124),
        peak(v, Element::Air) == stat_of(v, 125),
        peak(v, Element::All) >= stat_of(v, 122) && peak(v, Element::All) >= stat_of(v, 123)
            && peak(v, Element::All) >= stat_of(v, 124) && peak(v, Element::All) >= stat_of(v, 125),
        peak(v, Element::All) == stat_of(v, 122) || peak(v, Element::All) == stat_of(v, 123)
            || peak(v, Element::All) == stat_of(v, 124) || peak(v, Element::All) == stat_of(v, 125),
{
}

/// Raising the mastery of the chosen element by `d` hundredths raises the
/// score by twice that, plus what the weights give the statistic.
pub proof fn lemma_element_mastery_score(v: Seq<int>, p: ProfileModel, d: int)
    requires
        v.len() == 22,
        p.element != Element::All,
    ensures
        ({
            let id: i32 = match p.element {
                Element::Fire => 122,
                Element::Earth => 123,
                Element::Water => 124,
                _ => 125,
            };
            score(add_stat(v, id, d), p) == score(v, p) + 2000 * d + d * score_weight(p.weights, id)
        }),
{
    let id: i32 = match p.element {
        Element::Fire => 122,
        Element::Earth => 123,
        Element::Water => 124,
        _ => 125,
    };
    lemma_weighted_sum_add_stat(v, id, d, p.weights);
    let w = add_stat(v, id, d);
    assert(peak(w, p.element) == peak(v, p.element) + d);
    assert(2000 * (peak(v, p.element) + d) == 2000 * peak(v, p.element) + 2000 * d);
}

/// Whether items of slot type `t` take no enchantment: emblems (646), daggers
/// (112), shields (189), pets (582) and mounts (611).
pub open spec fn socketless_type(t: i32) -> bool {
    t == 646 || t == 112 || t == 189 || t == 582 || t == 611
}

/// Emblems, daggers, shields, pets and mounts never receive an enchantment;
/// an item of any other type receives one whenever some candidate statistic
/// adds to the score.
pub proof fn lemma_socketless_items(item: EquipmentModel, ws: Seq<(i32, i64)>)
    ensures
        socketless_type(item.id_type) ==> item_choice(item, ws) is None,
        !socketless_type(item.id_type) && (exists|i: int|
            0 <= i < build_enchant_stats().len() && enchant_gain(
                #[trigger] build_enchant_stats()[i],
                item,
                ws,
            ) > 0) ==> item_choice(item, ws) is Some,
{
    lemma_best_stat(item, build_enchant_stats(), ws);
}

/// A build made only of emblems, daggers, shields, pets and mounts gets no
/// enchantment: its plan is empty and its enchanted statistics are its base
/// statistics.
pub proof fn lemma_socketless_build(build: Seq<EquipmentModel>, ws: Seq<(i32, i64)>)
    requires
        forall|i: int| 0 <= i < build.len() ==> socketless_type(#[trigger] build[i].id_type),
    ensures
        enchant_plan(build, ws) == Seq::<(i32, i32)>::empty(),
        enchanted_stats(build, ws) == build_base(build),
{
    lemma_socketless_alloc(build_base(build), build, ws);
    lemma_socketless_plan(build, ws);
}

/// Enchanting a build of socketless items as chosen leaves any statistics unchanged.
proof fn lemma_socketless_alloc(v: Seq<int>, build: Seq<EquipmentModel>, ws: Seq<(i32, i64)>)
    requires
        forall|i: int| 0 <= i < build.len() ==> socketless_type(#[trigger] build[i].id_type),
    ensures
        apply_alloc(v, build, choices(build, ws)) == v,
    decreases build.len(),
{
    if build.len() > 0 {
        let d = build.drop_last();
        assert forall|i: int| 0 <= i < d.len() implies socketless_type(#[trigger] d[i].id_type) by {
            assert(d[i] == build[i]);
        }
        lemma_socketless_alloc(v, d, ws);
        assert(choices(build, ws).drop_last() =~= choices(d, ws));
        assert(socketless_type(build[build.len() - 1].id_type));
        assert(choices(build, ws).last() == item_choice(build.last(), ws));
    }
}

/// A build of socketless items has an empty plan.
proof fn lemma_socketless_plan(build: Seq<EquipmentModel>, ws: Seq<(i32, i64)>)
    requires
        forall|i: int| 0 <= i < build.len() ==> socketless_type(#[trigger] build[i].id_type),
    ensures
        enchant_plan(build, ws) == Seq::<(i32, i32)>::empty(),
    decreases build.len(),
{
    if build.len() > 0 {
        let d = build.drop_last();
        assert forall|i: int| 0 <= i < d.len() implies socketless_type(#[trigger] d[i].id_type) by {
            assert(d[i] == build[i]);
        }
        lemma_socketless_plan(d, ws);
        assert(socketless_type(build[build.len() - 1].id_type));
    }
}

/// The totals shown under a build read its statistics: life (20), action
/// points (31, on top of the base 6 and one more from level 25), movement
/// points (41, on top of the base 3), resistance (80), critical hit (150, on
/// top of the base 3 %), melee (1052) and rear (180) mastery, and the best
/// elemental mastery (122 to 125, at least zero).
pub proof fn lemma_summary_reads_stats(s: StatsSummary, v: Seq<int>, level: i32)
    requires
        v.len() == 22,
        forall|i: int| 0 <= i < 22 ==> i64::MIN <= #[trigger] v[i] <= i64::MAX,
        summarizes(s, aggregate_map(v), level),
    ensures
        s.life == stat_of(v, 20),
        s.action_points == stat_of(v, 31) + 600 + if level >= 25 { 100int } else { 0int },
        s.movement_points == stat_of(v, 41) + 300,
        s.resistance == stat_of(v, 80),
        s.critical_hit == stat_of(v, 150) + 300,
        s.melee_mastery == stat_of(v, 1052),
        s.rear_mastery == stat_of(v, 180),
        s.max_elemental_mastery >= 0,
        s.max_elemental_mastery >= stat_of(v, 122) && s.max_elemental_mastery >= stat_of(v, 123)
            && s.max_elemental_mastery >= stat_of(v, 124) && s.max_elemental_mastery >= stat_of(v, 125),
        s.max_elemental_mastery == 0 || s.max_elemental_mastery == stat_of(v, 122)
            || s.max_elemental_mastery == stat_of(v, 123) || s.max_elemental_mastery == stat_of(v, 124)
            || s.max_elemental_mastery == stat_of(v, 125),
{
    let t = aggregate_map(v);
    assert forall|id: i32| #[trigger] aggregate_ids().contains(id) implies t.contains_key(id) && t[id]
        == stat_of(v, id) by {
        if crate::stats::is_tracked(id) {
            assert(i64::MIN <= v[crate::stats::stat_slot(id)] <= i64::MAX);
        }
    }
    assert(aggregate_ids()[0] == 20);
    assert(aggregate_ids()[1] == 31);
    assert(aggregate_ids()[2] == 41);
    assert(aggregate_ids()[3] == 80);
    assert(aggregate_ids()[4] == 122);
    assert(aggregate_ids()[5] == 123);
    assert(aggregate_ids()[6] == 124);
    assert(aggregate_ids()[7] == 125);
    assert(aggregate_ids()[8] == 1052);
    assert(aggregate_ids()[10] == 180);
    assert(aggregate_ids()[11] == 150);
}

/// The totals of a build report, with their values, every statistic that the
/// summary under the build reads: life, action and movement points,
/// resistance, the four elemental masteries, melee and rear mastery, and
/// critical hit.
pub proof fn lemma_totals_report_summary_stats(totals: Map<i32, i64>, v: Seq<int>)
    requires
        v.len() == 22,
        forall|i: int| 0 <= i < 22 ==> i64::MIN <= #[trigger] v[i] <= i64::MAX,
        forall|id: i32| #[trigger] totals.contains_key(id) <==> aggregate_ids().contains(id),
        forall|id: i32| #[trigger] totals.contains_key(id) ==> totals[id] == stat_of(v, id),
    ensures
        forall|id: i32|
            (id == 20 || id == 31 || id == 41 || id == 80 || id == 122 || id == 123 || id == 124 || id
                == 125 || id == 1052 || id == 180 || id == 150) ==> #[trigger] totals.contains_key(id)
                && totals[id] == stat_of(v, id),
{
    assert(aggregate_ids()[0] == 20);
    assert(aggregate_ids()[1] == 31);
    assert(aggregate_ids()[2] == 41);
    assert(aggregate_ids()[3] == 80);
    assert(aggregate_ids()[4] == 122);
    assert(aggregate_ids()[5] == 123);
    assert(aggregate_ids()[6] == 124);
    assert(aggregate_ids()[7] == 125);
    assert(aggregate_ids()[8] == 1052);
    assert(aggregate_ids()[10] == 180);
    assert(aggregate_ids()[11] == 150);
}

/// Name rules: an item whose lowercase name holds "ancien" is never eligible;
/// neither is an emblem (646) whose lowercase name holds "modulation", nor a
/// two-word emblem whose lowercase name starts with "embl"; an item of
/// another type whose lowercase name holds no "ancien" is eligible at any
/// level above 1 and not above the build's.
pub proof fn lemma_name_rules(item: EquipmentModel, level: i32)
    ensures
        has_substring(lowercase(item.name), "ancien"@) ==> !eligible(item, level),
        item.id_type == 646 && has_substring(lowercase(item.name), "modulation"@) ==> !eligible(
            item,
            level,
        ),
        item.id_type == 646 && has_prefix(lowercase(item.name), "embl"@) && word_count(item.name) == 2
            ==> !eligible(item, level),
        item.id_type != 646 && 1 < item.level <= level && !has_substring(
            lowercase(item.name),
            "ancien"@,
        ) ==> eligible(item, level),
{
}

/// The totals of a build hold exactly these statistics: life, action and
/// movement points, resistance, the four elemental masteries, melee and
/// distance mastery, rear mastery, critical hit, range, critical and berserk
/// critical mastery, the two critical-related statistics 175 and 26, and
/// rear-critical mastery.
pub proof fn lemma_totals_keys(totals: Map<i32, i64>)
    requires
        forall|id: i32| #[trigger] totals.contains_key(id) <==> aggregate_ids().contains(id),
    ensures
        forall|id: i32|
            #[trigger] totals.contains_key(id) <==> (id == 20 || id == 31 || id == 41 || id == 80 || id
                == 122 || id == 123 || id == 124 || id == 125 || id == 1052 || id == 1053 || id == 180
                || id == 150 || id == 160 || id == 171 || id == 173 || id == 175 || id == 26 || id
                == 1055),
{
    let a = aggregate_ids();
    assert forall|id: i32| #[trigger] totals.contains_key(id) <==> (id == 20 || id == 31 || id == 41
        || id == 80 || id == 122 || id == 123 || id == 124 || id == 125 || id == 1052 || id == 1053
        || id == 180 || id == 150 || id == 160 || id == 171 || id == 173 || id == 175 || id == 26
        || id == 1055) by {
        if a.contains(id) {
            let k = choose|k: int| 0 <= k < a.len() && a[k] == id;
            assert(0 <= k < 18);
        }
        if id == 20 { assert(a[0] == id); }
        if id == 31 { assert(a[1] == id); }
        if id == 41 { assert(a[2] == id); }
        if id == 80 { assert(a[3] == id); }
        if id == 122 { assert(a[4] == id); }
        if id == 123 { assert(a[5] == id); }
        if id == 124 { assert(a[6] == id); }
        if id == 125 { assert(a[7] == id); }
        if id == 1052 { assert(a[8] == id); }
        if id == 1053 { assert(a[9] == id); }
        if id == 180 { assert(a[10] == id); }
        if id == 150 { assert(a[11] == id); }
        if id == 160 { assert(a[12] == id); }
        if id == 171 { assert(a[13] == id); }
        if id == 173 { assert(a[14] == id); }
        if id == 175 { assert(a[15] == id); }
        if id == 26 { assert(a[16] == id); }
        if id == 1055 { assert(a[17] == id); }
    }
}

/// Splitting off the first weight: its share, then the share of the others.
proof fn lemma_score_weight_front(ws: Seq<(i32, i64)>, id: i32)
    requires
        ws.len() > 0,
    ensures
        score_weight(ws, id) == (if ws[0].0 == id { ws[0].1 as int } else { 0int }) + score_weight(
            ws.subrange(1, ws.len() as int),
            id,
        ),
    decreases ws.len(),
{
    let rest = ws.subrange(1, ws.len() as int);
    if ws.len() == 1 {
        assert(ws.drop_last() =~= Seq::<(i32, i64)>::empty());
        assert(rest =~= Seq::<(i32, i64)>::empty());
    } else {
        let d = ws.drop_last();
        lemma_score_weight_front(d, id);
        assert(d.subrange(1, d.len() as int) =~= rest.drop_last());
        assert(rest.last() == ws.last());
    }
}

/// When each statistic is weighted once, the score counts one unit of a
/// statistic at the weight that the profile gives it, and nothing for an
/// unweighted statistic.
pub proof fn lemma_score_weight_is_weight(ws: Seq<(i32, i64)>, id: i32)
    requires
        distinct_keys(ws),
    ensures
        score_weight(ws, id) == weight_or(ws, id, 0),
    decreases ws.len(),
{
    if ws.len() > 0 {
        let rest = ws.subrange(1, ws.len() as int);
        assert forall|i: int, j: int| 0 <= i < j < rest.len() implies #[trigger] rest[i].0
            != #[trigger] rest[j].0 by {
            assert(rest[i] == ws[i + 1] && rest[j] == ws[j + 1]);
        }
        lemma_score_weight_front(ws, id);
        lemma_score_weight_is_weight(rest, id);
        if ws[0].0 == id {
            lemma_absent_weight(rest, id);
        }
    }
}

/// A statistic that no weight names weighs nothing.
proof fn lemma_absent_weight(ws: Seq<(i32, i64)>, id: i32)
    requires
        forall|i: int| 0 <= i < ws.len() ==> #[trigger] ws[i].0 != id,
    ensures
        score_weight(ws, id) == 0,
    decreases ws.len(),
{
    if ws.len() > 0 {
        let d = ws.drop_last();
        assert forall|i: int| 0 <= i < d.len() implies #[trigger] d[i].0 != id by {
            assert(d[i] == ws[i]);
        }
        lemma_absent_weight(d, id);
        assert(ws[ws.len() - 1].0 != id);
    }
}

/// Raising a tracked statistic other than the four elemental masteries by
/// `d` hundredths raises the score by `d` times the statistic's weight; the
/// score of the all-zero statistics is zero.
pub proof fn lemma_score_per_stat(v: Seq<int>, p: ProfileModel, id: i32, d: int)
    requires
        v.len() == 22,
        is_tracked(id),
        id != 122 && id != 123 && id != 124 && id != 125,
        distinct_keys(p.weights),
    ensures
        score(add_stat(v, id, d), p) == score(v, p) + d * weight_or(p.weights, id, 0),
        score(zero_stats(), p) == 0,
{
    lemma_weighted_sum_add_stat(v, id, d, p.weights);
    lemma_score_weight_is_weight(p.weights, id);
    let w = add_stat(v, id, d);
    assert(w[5] == v[5] && w[6] == v[6] && w[7] == v[7] && w[8] == v[8]);
    lemma_weighted_sum_zero(p.weights);
    assert(peak(zero_stats(), p.element) == 0);
}

} // verus!
