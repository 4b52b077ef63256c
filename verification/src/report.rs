use vstd::prelude::*;
use vstd::string::*;
use std::collections::HashMap;
use crate::engine::{Optimizer, socket_choice};
use crate::models::{Equipment, EquipmentModel};
use crate::profile::{BuildProfile, Element, Mode, Range, Role};
use crate::sockets::doubled_on_slot;

verus! {

broadcast use vstd::std_specs::hash::group_hash_axioms;

/// Display name of a slot type.
pub open spec fn slot_label(t: i32) -> Seq<char> {
    if t == 134 { "Coiffe"@ }
    else if t == 120 { "Amulette"@ }
    else if t == 138 { "Épaulières"@ }
    else if t == 132 { "Cape"@ }
    else if t == 136 { "Plastron"@ }
    else if t == 133 { "Ceinture"@ }
    else if t == 103 { "Anneau"@ }
    else if t == 119 { "Bottes"@ }
    else if t == 519 { "Arme 2H"@ }
    else if t == 518 { "Arme 1H"@ }
    else if t == 112 { "Dague"@ }
    else if t == 189 { "Bouclier"@ }
    else if t == 582 { "Familier"@ }
    else if t == 646 { "Emblème"@ }
    else { "Autre"@ }
}

/// Tag shown before the name of an epic or relic item.
pub open spec fn rarity_label(r: i32) -> Seq<char> {
    if r == 7 { "[ÉPIQUE] "@ } else if r == 5 { "[RELIQUE] "@ } else { ""@ }
}

/// Short name of an enchantment statistic.
pub open spec fn enchant_label(stat: i32) -> Seq<char> {
    if stat == 1052 { "Mêlée"@ }
    else if stat == 1053 { "Distance"@ }
    else if stat == 120 { "Élém."@ }
    else if stat == 20 { "Vie"@ }
    else if stat == 80 { "Rési"@ }
    else if stat == 180 { "Dos"@ }
    else if stat == 149 { "Crit M."@ }
    else if stat == 1054 { "Zone"@ }
    else if stat == 26 { "Soin"@ }
    else if stat == 1055 { "Berserk"@ }
    else if stat == 171 { "Init."@ }
    else if stat == 173 { "Tacle"@ }
    else if stat == 175 { "Esquive"@ }
    else { "Stat"@ }
}

/// Text of an enchantment recommendation: four sockets of the statistic, and
/// a mark when they count twice.
pub open spec fn enchant_text(stat: i32, doubled: bool) -> Seq<char> {
    "| 4x "@ + enchant_label(stat) + if doubled { " (DOUBLÉ)"@ } else { ""@ }
}

/// Display name of a slot type.
pub fn slot_name(t: i32) -> (res: &'static str)
    ensures
        res@ == slot_label(t),
{
    match t {
        134 => "Coiffe",
        120 => "Amulette",
        138 => "Épaulières",
        132 => "Cape",
        136 => "Plastron",
        133 => "Ceinture",
        103 => "Anneau",
        119 => "Bottes",
        519 => "Arme 2H",
        518 => "Arme 1H",
        112 => "Dague",
        189 => "Bouclier",
        582 => "Familier",
        646 => "Emblème",
        _ => "Autre",
    }
}

/// Tag shown before the name of an epic or relic item.
pub fn rarity_tag(r: i32) -> (res: &'static str)
    ensures
        res@ == rarity_label(r),
{
    match r {
        7 => "[ÉPIQUE] ",
        5 => "[RELIQUE] ",
        _ => "",
    }
}

/// Short name of an enchantment statistic.
pub fn enchant_name(stat: i32) -> (res: &'static str)
    ensures
        res@ == enchant_label(stat),
{
    match stat {
        1052 => "Mêlée",
        1053 => "Distance",
        120 => "Élém.",
        20 => "Vie",
        80 => "Rési",
        180 => "Dos",
        149 => "Crit M.",
        1054 => "Zone",
        26 => "Soin",
        1055 => "Berserk",
        171 => "Init.",
        173 => "Tacle",
        175 => "Esquive",
        _ => "Stat",
    }
}

/// Display name of a role.
pub fn role_label(r: Role) -> (res: &'static str)
    ensures
        res@ == match r {
            Role::DPS => "DPS"@,
            Role::Tank => "Tank"@,
            Role::Support => "Support"@,
        },
{
    match r {
        Role::DPS => "DPS",
        Role::Tank => "Tank",
        Role::Support => "Support",
    }
}

/// Display name of a mode.
pub fn mode_label(m: Mode) -> (res: &'static str)
    ensures
        res@ == match m {
            Mode::Solo => "Solo"@,
            Mode::Team => "Team"@,
        },
{
    match m {
        Mode::Solo => "Solo",
        Mode::Team => "Team",
    }
}

/// Display name of a range.
pub fn range_label(r: Range) -> (res: &'static str)
    ensures
        res@ == match r {
            Range::Melee => "Melee"@,
            Range::Distance => "Distance"@,
            Range::Hybrid => "Hybrid"@,
        },
{
    match r {
        Range::Melee => "Melee",
        Range::Distance => "Distance",
        Range::Hybrid => "Hybrid",
    }
}

/// Display name of an element.
pub fn element_label(e: Element) -> (res: &'static str)
    ensures
        res@ == match e {
            Element::Fire => "Feu"@,
            Element::Earth => "Terre"@,
            Element::Water => "Eau"@,
            Element::Air => "Air"@,
            Element::All => "Auto (Best)"@,
        },
{
    match e {
        Element::Fire => "Feu",
        Element::Earth => "Terre",
        Element::Water => "Eau",
        Element::Air => "Air",
        Element::All => "Auto (Best)",
    }
}

/// Text of an enchantment recommendation.
pub fn enchant_recommendation(stat: i32, doubled: bool) -> (res: String)
    ensures
        res@ == enchant_text(stat, doubled),
{
    let mut s = String::from_str("| 4x ");
    s.append(enchant_name(stat));
    if doubled {
        s.append(" (DOUBLÉ)");
    } else {
        s.append("");
    }
    s
}

/// Name of an item, preceded by its rarity tag.
pub fn item_title(item: &Equipment) -> (res: String)
    ensures
        res@ == rarity_label(item.id_rarity) + item.name@,
{
    let mut s = String::from_str(rarity_tag(item.id_rarity));
    s.append(item.name.as_str());
    s
}

/// `line` lists `item` with the enchantment text `enchant`.
pub open spec fn lists(line: ItemLine, item: EquipmentModel, enchant: Seq<char>) -> bool {
    &&& line.slot@ == slot_label(item.id_type)
    &&& line.level == item.level
    &&& line.title@ == rarity_label(item.id_rarity) + item.name
    &&& line.enchant@ == enchant
}

/// One line of a build listing.
pub struct ItemLine {
    pub slot: &'static str,
    pub level: i32,
    pub title: String,
    pub enchant: String,
}

/// The enchantment statistic that a plan gives the item with id `id`: the
/// last entry for that id wins.
pub open spec fn planned_stat(plan: Seq<(i32, i32)>, id: i32) -> Option<i32>
    decreases plan.len(),
{
    if plan.len() == 0 {
        None
    } else if plan.last().0 == id {
        Some(plan.last().1)
    } else {
        planned_stat(plan.drop_last(), id)
    }
}

/// The enchantment text of `item` under a plan: empty when the plan gives it
/// nothing (or statistic 0).
pub open spec fn planned_text(plan: Seq<(i32, i32)>, item: EquipmentModel) -> Seq<char> {
    match planned_stat(plan, item.id) {
        Some(stat) => if stat == 0 {
            ""@
        } else {
            enchant_text(stat, doubled_on_slot(stat, item.id_type))
        },
        None => ""@,
    }
}

/// The enchantment text of `item` on its own: its recommended statistic, or empty.
pub open spec fn recommended_text(item: EquipmentModel, ws: Seq<(i32, i64)>) -> Seq<char> {
    let c = socket_choice(item, ws);
    if c.len() == 0 {
        ""@
    } else {
        enchant_text(c.last().0, doubled_on_slot(c.last().0, item.id_type))
    }
}

/// The last statistic that `plan` gives the item with id `id`.
pub fn find_planned_stat(plan: &Vec<(i32, i32)>, id: i32) -> (res: Option<i32>)
    ensures
        res == planned_stat(plan@, id),
{
    let mut i = plan.len();
    assert(plan@.take(i as int) =~= plan@);
    while i > 0
        invariant
            0 <= i <= plan@.len(),
            planned_stat(plan@, id) == planned_stat(plan@.take(i as int), id),
        decreases i,
    {
        let ghost t = plan@.take(i as int);
        assert(t.drop_last() =~= plan@.take(i - 1));
        if plan[i - 1].0 == id {
            return Some(plan[i - 1].1);
        }
        i -= 1;
    }
    None
}

impl Optimizer {
    /// Listing line of `item` with the enchantment recommended for it alone.
    pub fn recommended_line(&self, item: &Equipment, profile: &BuildProfile) -> (res: ItemLine)
        requires
            profile.wf(),
        ensures
            lists(res, item@, recommended_text(item@, profile.weights@)),
    {
        let potential = self.get_socket_potential(item, profile);
        let ghost c = socket_choice(item@, profile.weights@);
        assert(potential@.len() == c.len());
        let enchant = if potential.len() == 0 {
            String::from_str("")
        } else {
            let stat = potential[potential.len() - 1].0;
            assert(c.last().0 == stat);
            enchant_recommendation(stat, self.is_stat_doubled_on_slot(stat, item.id_type))
        };
        ItemLine {
            slot: slot_name(item.id_type),
            level: item.level,
            title: item_title(item),
            enchant,
        }
    }
}

/// Listing line of `item` with the enchantment that `plan` gives it.
pub fn planned_line(item: &Equipment, plan: &Vec<(i32, i32)>) -> (res: ItemLine)
    ensures
        lists(res, item@, planned_text(plan@, item@)),
{
    let enchant = match find_planned_stat(plan, item.id) {
        Some(stat) => if stat == 0 {
            String::from_str("")
        } else {
            enchant_recommendation(stat, crate::sockets::doubled(stat, item.id_type))
        },
        None => String::from_str(""),
    };
    ItemLine { slot: slot_name(item.id_type), level: item.level, title: item_title(item), enchant }
}

/// Totals shown under a build, in hundredths of a point.
pub struct StatsSummary {
    pub life: i64,
    pub action_points: i64,
    pub movement_points: i64,
    pub max_elemental_mastery: i64,
    pub melee_mastery: i64,
    pub contact_power: i64,
    pub rear_mastery: i64,
    pub critical_hit: i64,
    pub resistance: i64,
}

/// The value of `id` in `totals`, zero when absent.
pub open spec fn total_of(totals: Map<i32, i64>, id: i32) -> int {
    if totals.contains_key(id) { totals[id] as int } else { 0 }
}

/// Largest of four elemental masteries, and at least zero.
pub open spec fn best_mastery(totals: Map<i32, i64>) -> int {
    let a = total_of(totals, 122);
    let b = total_of(totals, 123);
    let c = total_of(totals, 124);
    let d = total_of(totals, 125);
    let m1 = if a > 0 { a } else { 0 };
    let m2 = if b > m1 { b } else { m1 };
    let m3 = if c > m2 { c } else { m2 };
    if d > m3 { d } else { m3 }
}

fn total_or_zero(totals: &HashMap<i32, i64>, id: i32) -> (res: i64)
    ensures
        res == total_of(totals@, id),
{
    match totals.get(&id) {
        Some(v) => *v,
        None => 0,
    }
}

/// `s` holds the totals shown under a build of level `level` whose statistics
/// are `totals`: AP count the base 6 and one more from level 25, MP the base 3,
/// critical hit the base 3 %.
pub open spec fn summarizes(s: StatsSummary, totals: Map<i32, i64>, level: i32) -> bool {
    &&& s.life == total_of(totals, 20)
    &&& s.action_points == total_of(totals, 31) + 600 + if level >= 25 { 100int } else { 0 }
    &&& s.movement_points == total_of(totals, 41) + 300
    &&& s.max_elemental_mastery == best_mastery(totals)
    &&& s.melee_mastery == total_of(totals, 1052)
    &&& s.contact_power == best_mastery(totals) + total_of(totals, 1052)
    &&& s.rear_mastery == total_of(totals, 180)
    &&& s.critical_hit == total_of(totals, 150) + 300
    &&& s.resistance == total_of(totals, 80)
}

/// The totals shown under a build of level `level`.
pub fn summarize_stats(totals: &HashMap<i32, i64>, level: i32) -> (res: StatsSummary)
    requires
        forall|id: i32|
            #[trigger] totals@.contains_key(id) ==> -0x2000_0000_0000_0000 <= totals@[id]
                <= 0x2000_0000_0000_0000,
    ensures
        summarizes(res, totals@, level),
{
    let major: i64 = if level >= 25 {
        100
    } else {
        0
    };
    let mut m: i64 = 0;
    let a = total_or_zero(totals, 122);
    if a > m {
        m = a;
    }
    let b = total_or_zero(totals, 123);
    if b > m {
        m = b;
    }
    let c = total_or_zero(totals, 124);
    if c > m {
        m = c;
    }
    let d = total_or_zero(totals, 125);
    if d > m {
        m = d;
    }
    let melee = total_or_zero(totals, 1052);
    StatsSummary {
        life: total_or_zero(totals, 20),
        action_points: total_or_zero(totals, 31) + 600 + major,
        movement_points: total_or_zero(totals, 41) + 300,
        max_elemental_mastery: m,
        melee_mastery: melee,
        contact_power: m + melee,
        rear_mastery: total_or_zero(totals, 180),
        critical_hit: total_or_zero(totals, 150) + 300,
        resistance: total_or_zero(totals, 80),
    }
}

/// The totals that `aggregate_stats` reports for statistics `v`.
pub open spec fn aggregate_map(v: Seq<int>) -> Map<i32, i64> {
    Map::new(|k: i32| crate::engine::aggregate_ids().contains(k), |k: i32| crate::stats::stat_of(v, k) as i64)
}

/// A build listed line by line, with its totals.
pub struct BuildReport {
    pub lines: Vec<ItemLine>,
    pub summary: StatsSummary,
}

/// Horizontal or vertical margins that centre a block taking `percent` of the
/// space: what is left, split in two, on each side.
pub fn centered_split(percent: u16) -> (res: (u16, u16, u16))
    requires
        percent <= 100,
    ensures
        res.0 == (100 - percent) / 2,
        res.1 == percent,
        res.2 == (100 - percent) / 2,
{
    let side = (100 - percent) / 2;
    (side, percent, side)
}

} // verus!
