use vstd::prelude::*;
use crate::models::{Equipment, EquipmentModel};
use crate::profile::{BuildProfile, lookup_weight, weight_or, DEFAULT_SOCKET_WEIGHT, WEIGHT_LIMIT};

verus! {

/// Whether an enchantment of statistic `stat` counts twice on an item of slot type `slot`.
pub open spec fn doubled_on_slot(stat: i32, slot: i32) -> bool {
    if stat == 120 {
        slot == 136 || slot == 132
    } else if stat == 1052 {
        slot == 134 || slot == 132
    } else if stat == 1053 {
        slot == 133 || slot == 518 || slot == 519
    } else if stat == 1055 {
        slot == 120 || slot == 132
    } else if stat == 149 {
        slot == 138 || slot == 518 || slot == 519
    } else if stat == 180 {
        slot == 133 || slot == 119
    } else if stat == 173 {
        slot == 103
    } else if stat == 175 {
        slot == 103
    } else if stat == 171 {
        slot == 120 || slot == 132
    } else if stat == 82 {
        slot == 136 || slot == 133
    } else if stat == 83 {
        slot == 138 || slot == 136
    } else if stat == 84 {
        slot == 136 || slot == 119
    } else if stat == 85 {
        slot == 136 || slot == 132
    } else if stat == 20 {
        slot == 518 || slot == 519 || slot == 134
    } else if stat == 26 {
        slot == 138 || slot == 120
    } else {
        false
    }
}

/// Highest enchantment level that an item of level `level` takes.
pub open spec fn max_enchant_level(level: i32) -> int {
    if level >= 216 { 11 }
    else if level >= 186 { 10 }
    else if level >= 171 { 9 }
    else if level >= 141 { 8 }
    else if level >= 126 { 7 }
    else if level >= 96 { 6 }
    else if level >= 81 { 5 }
    else if level >= 66 { 4 }
    else if level >= 51 { 3 }
    else if level >= 36 { 2 }
    else { 1 }
}

/// The smaller of two integers.
pub open spec fn min_int(a: int, b: int) -> int {
    if a <= b { a } else { b }
}

/// Amount, in hundredths, that one enchantment of statistic `stat` at level
/// `lvl` gives: a fixed amount per level, up to a cap.
pub open spec fn enchant_value(stat: i32, lvl: int) -> int {
    if stat == 20 {
        min_int(lvl * 800, 8800)
    } else if stat == 80 || stat == 82 || stat == 83 || stat == 84 || stat == 85 {
        min_int(lvl * 250, 2700)
    } else if stat == 120 || stat == 122 || stat == 123 || stat == 124 || stat == 125 || stat
        == 1052 || stat == 1053 || stat == 1051 || stat == 1054 || stat == 149 || stat == 180
        || stat == 26 || stat == 1055 {
        min_int(lvl * 300, 3300)
    } else if stat == 150 {
        min_int(lvl * 100, 1100)
    } else if stat == 171 || stat == 173 || stat == 175 {
        min_int(lvl * 400, 4400)
    } else {
        0
    }
}

/// Slot types whose items take no enchantment.
pub open spec fn no_sockets(slot: i32) -> bool {
    slot == 646 || slot == 112 || slot == 189 || slot == 582 || slot == 611
}

/// Amount, in hundredths, that four enchantments of `stat` give on `item`.
pub open spec fn socket_value(stat: i32, item: EquipmentModel) -> int {
    let v = enchant_value(stat, max_enchant_level(item.level)) * 4;
    if doubled_on_slot(stat, item.id_type) { v * 2 } else { v }
}

/// Score, in hundred-thousandths, that four enchantments of `stat` bring on
/// `item` under weights `ws` (unweighted statistics weigh a tenth).
pub open spec fn socket_gain(stat: i32, item: EquipmentModel, ws: Seq<(i32, i64)>) -> int {
    socket_value(stat, item) * weight_or(ws, stat, DEFAULT_SOCKET_WEIGHT as int)
}

/// Whether an enchantment of `stat` counts twice on slot type `slot`.
pub fn doubled(stat: i32, slot: i32) -> (res: bool)
    ensures
        res == doubled_on_slot(stat, slot),
{
    match stat {
        120 => slot == 136 || slot == 132,
        1052 => slot == 134 || slot == 132,
        1053 => slot == 133 || slot == 518 || slot == 519,
        1055 => slot == 120 || slot == 132,
        149 => slot == 138 || slot == 518 || slot == 519,
        180 => slot == 133 || slot == 119,
        173 => slot == 103,
        175 => slot == 103,
        171 => slot == 120 || slot == 132,
        82 => slot == 136 || slot == 133,
        83 => slot == 138 || slot == 136,
        84 => slot == 136 || slot == 119,
        85 => slot == 136 || slot == 132,
        20 => slot == 518 || slot == 519 || slot == 134,
        26 => slot == 138 || slot == 120,
        _ => false,
    }
}

/// Highest enchantment level that an item of level `level` takes.
pub fn enchantment_max_level(level: i32) -> (res: i32)
    ensures
        res == max_enchant_level(level),
        1 <= res <= 11,
{
    if level >= 216 {
        11
    } else if level >= 186 {
        10
    } else if level >= 171 {
        9
    } else if level >= 141 {
        8
    } else if level >= 126 {
        7
    } else if level >= 96 {
        6
    } else if level >= 81 {
        5
    } else if level >= 66 {
        4
    } else if level >= 51 {
        3
    } else if level >= 36 {
        2
    } else {
        1
    }
}

fn capped(x: i64, cap: i64) -> (res: i64)
    ensures
        res == min_int(x as int, cap as int),
{
    if x <= cap {
        x
    } else {
        cap
    }
}

/// Amount, in hundredths, of one enchantment of `stat` at level `lvl`.
pub fn enchantment_value(stat: i32, lvl: i32) -> (res: i64)
    ensures
        res == enchant_value(stat, lvl as int),
{
    let l = lvl as i64;
    match stat {
        20 => capped(l * 800, 8800),
        80 | 82 | 83 | 84 | 85 => capped(l * 250, 2700),
        120 | 122 | 123 | 124 | 125 | 1052 | 1053 | 1051 | 1054 | 149 | 180 | 26 | 1055 => capped(
            l * 300,
            3300,
        ),
        150 => capped(l * 100, 1100),
        171 | 173 | 175 => capped(l * 400, 4400),
        _ => 0,
    }
}

/// Whether items of slot type `slot` take no enchantment.
pub fn has_no_sockets(slot: i32) -> (res: bool)
    ensures
        res == no_sockets(slot),
{
    slot == 646 || slot == 112 || slot == 189 || slot == 582 || slot == 611
}

/// Amount, in hundredths, that four enchantments of `stat` give on `item`.
pub fn item_socket_value(stat: i32, item: &Equipment) -> (res: i64)
    ensures
        res == socket_value(stat, item@),
        0 <= res <= 70400,
{
    let lvl = enchantment_max_level(item.level);
    let v = enchantment_value(stat, lvl) * 4;
    if doubled(stat, item.id_type) {
        v * 2
    } else {
        v
    }
}

/// Score, in hundred-thousandths, that four enchantments of `stat` bring on `item`.
pub fn item_socket_gain(stat: i32, item: &Equipment, profile: &BuildProfile) -> (res: i64)
    requires
        profile.wf(),
    ensures
        res == socket_gain(stat, item@, profile.weights@),
{
    let v = item_socket_value(stat, item);
    let w = profile.weight_or(stat, DEFAULT_SOCKET_WEIGHT);
    proof {
        lemma_lookup_bounded(profile.weights@, stat);
        assert(-WEIGHT_LIMIT <= w <= WEIGHT_LIMIT);
        assert(-70400 * WEIGHT_LIMIT <= v * w <= 70400 * WEIGHT_LIMIT) by (nonlinear_arith)
            requires
                0 <= v <= 70400,
                -WEIGHT_LIMIT <= w <= WEIGHT_LIMIT,
        ;
    }
    v * w
}

/// A weight found in a list of bounded weights is bounded.
pub proof fn lemma_lookup_bounded(ws: Seq<(i32, i64)>, id: i32)
    requires
        forall|i: int| 0 <= i < ws.len() ==> -WEIGHT_LIMIT <= #[trigger] ws[i].1 <= WEIGHT_LIMIT,
    ensures
        lookup_weight(ws, id) matches Some(w) ==> -WEIGHT_LIMIT <= w <= WEIGHT_LIMIT,
    decreases ws.len(),
{
    if ws.len() > 0 && ws[0].0 != id {
        let rest = ws.subrange(1, ws.len() as int);
        assert forall|i: int| 0 <= i < rest.len() implies -WEIGHT_LIMIT <= #[trigger] rest[i].1
            <= WEIGHT_LIMIT by {
            assert(rest[i] == ws[i + 1]);
        }
        lemma_lookup_bounded(rest, id);
    }
}

} // verus!
