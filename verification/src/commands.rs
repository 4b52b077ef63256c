use vstd::prelude::*;
use vstd::string::*;
use std::collections::HashMap;
use crate::engine::{Optimizer, aggregate_ids, enchanted_stats, socket_choice};
use crate::models::{Equipment, EquipmentModel, models};
use crate::profile::{BuildProfile, Element, Mode, Range, Role, profile_for};
use crate::report::{slot_label, enchant_label, slot_name, enchant_name};
use crate::search::{all_ok, perfect_build};
use crate::sockets::doubled_on_slot;
use crate::stats::stat_of;

verus! {

/// A statistic as the desktop interface lists it.
pub struct StatInfoEntry {
    pub id: i32,
    pub name: &'static str,
    pub is_percentage: bool,
}

/// A build request from the desktop interface; `min_res` is in hundredths.
pub struct OptimizeRequest {
    pub level: i32,
    pub role: String,
    pub mode: String,
    pub range: String,
    pub element: String,
    pub min_ap: Option<i32>,
    pub min_mp: Option<i32>,
    pub min_res: Option<i64>,
}

/// An item of a build as the desktop interface shows it, with the enchantment
/// recommended for it.
pub struct ItemDisplay {
    pub id: i32,
    pub name: String,
    pub level: i32,
    pub rarity: i32,
    pub slot_type: i32,
    pub slot_name: String,
    pub equipment_type: String,
    pub enchant_stat: Option<i32>,
    pub enchant_name: Option<String>,
    pub enchant_doubled: bool,
}

/// A build found for the desktop interface and its totals, in hundredths.
pub struct BuildResult {
    pub items: Vec<ItemDisplay>,
    pub stats: HashMap<i32, i64>,
}

/// The statistics that the desktop interface lists: id, name, and whether the
/// value is a percentage.
pub open spec fn stats_info_table() -> Seq<(i32, Seq<char>, bool)> {
    seq![
        (20i32, "Vie"@, false),
        (31i32, "PA"@, false),
        (41i32, "PM"@, false),
        (80i32, "Résistance"@, false),
        (120i32, "Maîtrise Élémentaire"@, false),
        (122i32, "Maîtrise Feu"@, false),
        (123i32, "Maîtrise Terre"@, false),
        (124i32, "Maîtrise Eau"@, false),
        (125i32, "Maîtrise Air"@, false),
        (149i32, "Critique (Maîtrise)"@, false),
        (150i32, "Taux Critique"@, true),
        (160i32, "Portée"@, false),
        (171i32, "Initiative"@, false),
        (173i32, "Tacle"@, false),
        (175i32, "Esquive"@, false),
        (180i32, "Dégâts Dos"@, false),
        (1052i32, "Maîtrise Mêlée"@, false),
        (1053i32, "Maîtrise Distance"@, false),
        (1054i32, "Maîtrise Zone"@, false),
        (1055i32, "Maîtrise Berserk"@, false),
        (1068i32, "Maîtrise Élémentaire (total)"@, false),
        (26i32, "Soins"@, false),
    ]
}

/// The role that a request names.
pub open spec fn parse_role(s: Seq<char>) -> Option<Role> {
    if s == "dps"@ {
        Some(Role::DPS)
    } else if s == "tank"@ {
        Some(Role::Tank)
    } else if s == "support"@ {
        Some(Role::Support)
    } else {
        None
    }
}

/// The mode that a request names.
pub open spec fn parse_mode(s: Seq<char>) -> Option<Mode> {
    if s == "solo"@ {
        Some(Mode::Solo)
    } else if s == "team"@ {
        Some(Mode::Team)
    } else {
        None
    }
}

/// The range that a request names.
pub open spec fn parse_range(s: Seq<char>) -> Option<Range> {
    if s == "melee"@ {
        Some(Range::Melee)
    } else if s == "distance"@ {
        Some(Range::Distance)
    } else if s == "hybrid"@ {
        Some(Range::Hybrid)
    } else {
        None
    }
}

/// The element that a request names.
pub open spec fn parse_element(s: Seq<char>) -> Option<Element> {
    if s == "fire"@ {
        Some(Element::Fire)
    } else if s == "earth"@ {
        Some(Element::Earth)
    } else if s == "water"@ {
        Some(Element::Water)
    } else if s == "air"@ {
        Some(Element::Air)
    } else if s == "all"@ {
        Some(Element::All)
    } else {
        None
    }
}

/// The message of the first setting of a request that names nothing known.
pub open spec fn request_error(r: &OptimizeRequest) -> Option<Seq<char>> {
    if parse_role(r.role@) is None {
        Some("Invalid role"@)
    } else if parse_mode(r.mode@) is None {
        Some("Invalid mode"@)
    } else if parse_range(r.range@) is None {
        Some("Invalid range"@)
    } else if parse_element(r.element@) is None {
        Some("Invalid element"@)
    } else {
        None
    }
}

/// The value of an optional setting, or its default.
pub open spec fn or_default<T>(o: Option<T>, d: T) -> T {
    match o {
        Some(x) => x,
        None => d,
    }
}

/// `d` shows `item` with the enchantment recommended for it under weights `ws`.
pub open spec fn shows(d: ItemDisplay, item: EquipmentModel, ws: Seq<(i32, i64)>) -> bool {
    let c = socket_choice(item, ws);
    &&& d.id == item.id
    &&& d.name@ == item.name
    &&& d.level == item.level
    &&& d.rarity == item.id_rarity
    &&& d.slot_type == item.id_type
    &&& d.slot_name@ == slot_label(item.id_type)
    &&& d.equipment_type@ == item.equipment_type
    &&& if c.len() == 0 {
        &&& d.enchant_stat is None
        &&& d.enchant_name is None
        &&& !d.enchant_doubled
    } else {
        &&& d.enchant_stat == Some(c[0].0)
        &&& d.enchant_name matches Some(n) && n@ == enchant_label(c[0].0)
        &&& d.enchant_doubled == doubled_on_slot(c[0].0, item.id_type)
    }
}

/// The statistics that the desktop interface lists.
pub fn get_stats_info() -> (res: Vec<StatInfoEntry>)
    ensures
        res@.map_values(|e: StatInfoEntry| (e.id, e.name@, e.is_percentage)) == stats_info_table(),
{
    let res = vec![
        StatInfoEntry { id: 20, name: "Vie", is_percentage: false },
        StatInfoEntry { id: 31, name: "PA", is_percentage: false },
        StatInfoEntry { id: 41, name: "PM", is_percentage: false },
        StatInfoEntry { id: 80, name: "Résistance", is_percentage: false },
        StatInfoEntry { id: 120, name: "Maîtrise Élémentaire", is_percentage: false },
        StatInfoEntry { id: 122, name: "Maîtrise Feu", is_percentage: false },
        StatInfoEntry { id: 123, name: "Maîtrise Terre", is_percentage: false },
        StatInfoEntry { id: 124, name: "Maîtrise Eau", is_percentage: false },
        StatInfoEntry { id: 125, name: "Maîtrise Air", is_percentage: false },
        StatInfoEntry { id: 149, name: "Critique (Maîtrise)", is_percentage: false },
        StatInfoEntry { id: 150, name: "Taux Critique", is_percentage: true },
        StatInfoEntry { id: 160, name: "Portée", is_percentage: false },
        StatInfoEntry { id: 171, name: "Initiative", is_percentage: false },
        StatInfoEntry { id: 173, name: "Tacle", is_percentage: false },
        StatInfoEntry { id: 175, name: "Esquive", is_percentage: false },
        StatInfoEntry { id: 180, name: "Dégâts Dos", is_percentage: false },
        StatInfoEntry { id: 1052, name: "Maîtrise Mêlée", is_percentage: false },
        StatInfoEntry { id: 1053, name: "Maîtrise Distance", is_percentage: false },
        StatInfoEntry { id: 1054, name: "Maîtrise Zone", is_percentage: false },
        StatInfoEntry { id: 1055, name: "Maîtrise Berserk", is_percentage: false },
        StatInfoEntry { id: 1068, name: "Maîtrise Élémentaire (total)", is_percentage: false },
        StatInfoEntry { id: 26, name: "Soins", is_percentage: false },
    ];
    assert(res@.map_values(|e: StatInfoEntry| (e.id, e.name@, e.is_percentage)) =~= stats_info_table());
    res
}

fn same_text(s: &String, lit: &str) -> (res: bool)
    ensures
        res == (s@ == lit@),
{
    let t = String::from_str(lit);
    *s == t
}

fn role_from(s: &String) -> (res: Option<Role>)
    ensures
        res == parse_role(s@),
{
    if same_text(s, "dps") {
        Some(Role::DPS)
    } else if same_text(s, "tank") {
        Some(Role::Tank)
    } else if same_text(s, "support") {
        Some(Role::Support)
    } else {
        None
    }
}

fn mode_from(s: &String) -> (res: Option<Mode>)
    ensures
        res == parse_mode(s@),
{
    if same_text(s, "solo") {
        Some(Mode::Solo)
    } else if same_text(s, "team") {
        Some(Mode::Team)
    } else {
        None
    }
}

fn range_from(s: &String) -> (res: Option<Range>)
    ensures
        res == parse_range(s@),
{
    if same_text(s, "melee") {
        Some(Range::Melee)
    } else if same_text(s, "distance") {
        Some(Range::Distance)
    } else if same_text(s, "hybrid") {
        Some(Range::Hybrid)
    } else {
        None
    }
}

fn element_from(s: &String) -> (res: Option<Element>)
    ensures
        res == parse_element(s@),
{
    if same_text(s, "fire") {
        Some(Element::Fire)
    } else if same_text(s, "earth") {
        Some(Element::Earth)
    } else if same_text(s, "water") {
        Some(Element::Water)
    } else if same_text(s, "air") {
        Some(Element::Air)
    } else if same_text(s, "all") {
        Some(Element::All)
    } else {
        None
    }
}

impl Optimizer {
    /// How the desktop interface shows `item` of a build.
    pub fn item_display(&self, item: &Equipment, profile: &BuildProfile) -> (res: ItemDisplay)
        requires
            profile.wf(),
        ensures
            shows(res, item@, profile.weights@),
    {
        let potential = self.get_socket_potential(item, profile);
        let ghost c = socket_choice(item@, profile.weights@);
        assert(potential@.len() == c.len());
        let (enchant_stat, enchant_name_text, enchant_doubled) = if potential.len() == 0 {
            (None, None, false)
        } else {
            let stat = potential[0].0;
            assert(c[0].0 == stat);
            (
                Some(stat),
                Some(String::from_str(enchant_name(stat))),
                self.is_stat_doubled_on_slot(stat, item.id_type),
            )
        };
        ItemDisplay {
            id: item.id,
            name: item.name.clone(),
            level: item.level,
            rarity: item.id_rarity,
            slot_type: item.id_type,
            slot_name: String::from_str(slot_name(item.id_type)),
            equipment_type: item.equipment_type.clone(),
            enchant_stat,
            enchant_name: enchant_name_text,
            enchant_doubled,
        }
    }
}

/// Answers a build request: rejects a setting that names nothing known (role,
/// then mode, range and element), else finds the best build for it (at least
/// 10 AP, 4 MP and no resistance unless asked otherwise) and reports its items
/// and totals.
pub fn optimize_build(request: OptimizeRequest, items: Vec<Equipment>) -> (res: Result<
    BuildResult,
    String,
>)
    requires
        all_ok(models(items@)),
    ensures
        match res {
            Err(e) => request_error(&request) == Some(e@),
            Ok(r) => {
                let p = profile_for(
                    parse_role(request.role@)->0,
                    parse_mode(request.mode@)->0,
                    parse_range(request.range@)->0,
                    parse_element(request.element@)->0,
                    or_default(request.min_ap, 10),
                    or_default(request.min_mp, 4),
                    or_default(request.min_res, 0),
                );
                let b = perfect_build(models(items@), request.level, p);
                &&& request_error(&request) is None
                &&& r.items@.len() == b.len()
                &&& forall|i: int| 0 <= i < b.len() ==> shows(#[trigger] r.items@[i], b[i], p.weights)
                &&& forall|id: i32| #[trigger] r.stats@.contains_key(id) <==> aggregate_ids().contains(id)
                &&& forall|id: i32|
                    #[trigger] r.stats@.contains_key(id) ==> r.stats@[id] == stat_of(
                        enchanted_stats(b, p.weights),
                        id,
                    )
            },
        },
{
    let role = match role_from(&request.role) {
        Some(r) => r,
        None => return Err(String::from_str("Invalid role")),
    };
    let mode = match mode_from(&request.mode) {
        Some(m) => m,
        None => return Err(String::from_str("Invalid mode")),
    };
    let range = match range_from(&request.range) {
        Some(r) => r,
        None => return Err(String::from_str("Invalid range")),
    };
    let element = match element_from(&request.element) {
        Some(e) => e,
        None => return Err(String::from_str("Invalid element")),
    };
    let min_ap = match request.min_ap {
        Some(x) => x,
        None => 10,
    };
    let min_mp = match request.min_mp {
        Some(x) => x,
        None => 4,
    };
    let min_res = match request.min_res {
        Some(x) => x,
        None => 0,
    };
    let profile = BuildProfile::new_with_constraints(role, mode, range, element, min_ap, min_mp, min_res);
    let opt = Optimizer::new(items);
    let final_items = opt.find_perfect_build(request.level, &profile);
    let stats = opt.aggregate_stats(final_items.as_slice(), &profile);
    let ghost b = models(final_items@);
    let mut display: Vec<ItemDisplay> = Vec::new();
    let n = final_items.len();
    let mut i: usize = 0;
    while i < n
        invariant
            n == final_items@.len(),
            b == models(final_items@),
            profile.wf(),
            0 <= i <= n,
            display@.len() == i,
            forall|j: int| 0 <= j < i ==> shows(#[trigger] display@[j], b[j], profile.weights@),
        decreases n - i,
    {
        let d = opt.item_display(&final_items[i], &profile);
        display.push(d);
        i += 1;
    }
    Ok(BuildResult { items: display, stats })
}

} // verus!
