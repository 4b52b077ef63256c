use wakfu_builder::engine::Optimizer;
use wakfu_builder::models::{Effect, EffectValue, Equipment, StatInfo};
use wakfu_builder::profile::{BuildProfile, Element, Mode, Range, Role};
use wakfu_builder::scoring::{calculate_score, item_base_vector, item_within_limits};
use wakfu_builder::search::{eligible_item, name_allows};
use wakfu_builder::stats::{id_to_idx, StatVector};
use wakfu_builder::text::{chars_of, count_words};

fn value(stat: i32, damage: i64) -> EffectValue {
    EffectValue {
        damage,
        statistics: Some(StatInfo { id_stats: stat, name_stats: format!("stat {}", stat) }),
    }
}

fn item(id: i32, name: &str, level: i32, rarity: i32, slot: i32, stats: &[(i32, i64)]) -> Equipment {
    Equipment {
        id,
        name: name.to_string(),
        level,
        id_rarity: rarity,
        id_type: slot,
        equipment_type: "type".to_string(),
        effects: vec![Effect {
            name_effect: "effect".to_string(),
            values: stats.iter().map(|&(s, d)| value(s, d)).collect(),
        }],
    }
}

fn melee_profile(min_ap: i32, min_mp: i32) -> BuildProfile {
    BuildProfile::new_with_constraints(Role::DPS, Mode::Solo, Range::Melee, Element::All, min_ap, min_mp, 0)
}

#[test]
fn stat_positions() {
    assert_eq!(id_to_idx(20), 0);
    assert_eq!(id_to_idx(1068), 14);
    assert_eq!(id_to_idx(175), 21);
    assert_eq!(id_to_idx(26), 22);
}

#[test]
fn stat_vector_get_and_add() {
    let mut a = StatVector::default();
    a.values[9] = 500;
    let mut b = StatVector::default();
    b.values[9] = 250;
    b.values[0] = 7;
    a.add_assign(&b);
    assert_eq!(a.get(1052), 750);
    assert_eq!(a.get(20), 7);
    assert_eq!(a.get(26), 0);
}

#[test]
fn dps_weights() {
    let p = melee_profile(10, 4);
    assert_eq!(p.weights.len(), 12);
    assert_eq!(p.weights[0], (20, 1125));
    assert_eq!(p.weights[1], (80, 4500));
    assert_eq!(p.weight_or(1052, 100), 2500);
    assert_eq!(p.weight_or(1053, 100), -1000);
    assert_eq!(p.weight_or(999, 100), 100);
    let team = BuildProfile::new_with_constraints(Role::DPS, Mode::Team, Range::Distance, Element::Fire, 10, 4, 0);
    assert_eq!(team.weight_or(20, 100), 0);
    assert_eq!(team.weight_or(160, 100), 8000);
    let tank = BuildProfile::new_with_constraints(Role::Tank, Mode::Team, Range::Melee, Element::Fire, 10, 4, 0);
    assert_eq!(tank.weights, vec![(20, 1000), (120, 1000), (80, 1000)]);
}

#[test]
fn elemental_mastery_raises_four_elements() {
    let it = item(1, "Anneau", 100, 3, 103, &[(1068, 5000), (1052, 300), (26, 900)]);
    let v = item_base_vector(&it);
    for i in 5..=8 {
        assert_eq!(v.values[i], 5000);
    }
    assert_eq!(v.values[14], 0);
    assert_eq!(v.get(1052), 300);
    assert_eq!(v.get(26), 0);
}

#[test]
fn score_of_vector() {
    let p = melee_profile(10, 4);
    let mut v = StatVector::default();
    v.values[9] = 100; // 1 point of melee mastery
    v.values[6] = 300; // 3 points of earth mastery
    // 2000 * 300 + 100 * 2500
    assert_eq!(calculate_score(&v, &p), 850_000);
}

#[test]
fn doubled_slots() {
    let opt = Optimizer::new(Vec::new());
    assert!(opt.is_stat_doubled_on_slot(120, 136));
    assert!(!opt.is_stat_doubled_on_slot(120, 134));
    assert!(opt.is_stat_doubled_on_slot(173, 103));
    assert!(opt.is_stat_doubled_on_slot(20, 519));
    assert!(!opt.is_stat_doubled_on_slot(999, 103));
}

#[test]
fn global_enchantment_chooses_per_item() {
    let opt = Optimizer::new(Vec::new());
    let p = melee_profile(10, 4);
    let build = vec![
        item(1, "Casque", 200, 3, 134, &[(1052, 1000)]),
        item(2, "Cape", 200, 3, 132, &[]),
        item(3, "Emblème", 200, 3, 646, &[]),
    ];
    let (v, plan) = opt.optimize_global_enchantment(&build, &p);
    // Helmet: life, 4 x 80 points doubled, weighs 1.125 (72 points of score)
    // beats melee mastery, 4 x 30 doubled at 2.5 (60 points).
    // Cloak: melee mastery doubled (60 points) beats life (36 points).
    assert_eq!(plan, vec![(1, 20), (2, 1052)]);
    assert_eq!(v.get(1052), 1000 + 24000);
    assert_eq!(v.get(20), 64000);
}

#[test]
fn global_enchantment_helmet_and_belt() {
    let opt = Optimizer::new(Vec::new());
    let p = melee_profile(10, 4);
    let build = vec![item(1, "Casque", 200, 3, 134, &[]), item(2, "Ceinture", 200, 3, 133, &[])];
    let (v, plan) = opt.optimize_global_enchantment(&build, &p);
    // On the belt, berserk mastery is doubled: 4 x 30 x 2 points at weight 2
    // (48 points) beats life, 4 x 80 points at 1.125 (36 points).
    assert_eq!(plan, vec![(1, 20), (2, 180)]);
    assert_eq!(v.get(20), 64000);
    assert_eq!(v.get(180), 24000);
    let score_joint = calculate_score(&v, &p);
    let mut life_only = StatVector::default();
    life_only.values[0] = 64000 + 32000;
    assert!(calculate_score(&life_only, &p) < score_joint);
}

#[test]
fn global_enchantment_without_weights() {
    let opt = Optimizer::new(Vec::new());
    let p = BuildProfile {
        role: Role::Tank,
        mode: Mode::Team,
        range: Range::Melee,
        element: Element::Fire,
        min_ap: 0,
        min_mp: 0,
        min_res: 0,
        weights: Vec::new(),
    };
    let build = vec![item(1, "Anneau", 200, 3, 103, &[(20, 500)])];
    let (v, plan) = opt.optimize_global_enchantment(&build, &p);
    assert!(plan.is_empty());
    assert_eq!(v.get(20), 500);
}

#[test]
fn global_enchantment_needs_positive_gain() {
    let opt = Optimizer::new(Vec::new());
    let p = melee_profile(10, 4);
    let build = vec![item(3, "Emblème", 200, 3, 646, &[(20, 100)])];
    let (v, plan) = opt.optimize_global_enchantment(&build, &p);
    assert!(plan.is_empty());
    assert_eq!(v.get(20), 100);
}

#[test]
fn socket_potential_is_single_best() {
    let opt = Optimizer::new(Vec::new());
    let p = melee_profile(10, 4);
    let helmet = item(1, "Casque", 200, 3, 134, &[]);
    // Life: 4 x 80 points, doubled on a helmet, weighs 1.125.
    assert_eq!(opt.get_socket_potential(&helmet, &p), vec![(20, 72_000_000)]);
    let emblem = item(2, "Emblème", 200, 3, 646, &[]);
    assert!(opt.get_socket_potential(&emblem, &p).is_empty());
}

#[test]
fn aggregate_reports_eighteen_stats() {
    let opt = Optimizer::new(Vec::new());
    let p = melee_profile(10, 4);
    let build = vec![item(1, "Casque", 200, 3, 134, &[(31, 100), (1052, 1000)])];
    let totals = opt.aggregate_stats(&build, &p);
    assert_eq!(totals.len(), 18);
    assert_eq!(totals[&31], 100);
    // Alone, the helmet gains most from life (doubled on helmets).
    assert_eq!(totals[&1052], 1000);
    assert_eq!(totals[&20], 64000);
    assert!(!totals.contains_key(&1068));
}

#[test]
fn score_is_additive() {
    let p = BuildProfile::new_with_constraints(Role::DPS, Mode::Solo, Range::Melee, Element::Fire, 0, 0, 0);
    let mut a = StatVector::default();
    a.values[5] = 300;
    a.values[9] = 100;
    let mut b = StatVector::default();
    b.values[5] = 50;
    b.values[0] = 400;
    let (sa, sb) = (calculate_score(&a, &p), calculate_score(&b, &p));
    a.add_assign(&b);
    assert_eq!(calculate_score(&a, &p), sa + sb);
}

#[test]
fn name_rules_on_lowered_names() {
    let ancien = chars_of("ancien");
    let modulation = chars_of("modulation");
    let embl = chars_of("embl");
    let allows = |lower: &str, name: &str, t: i32| {
        name_allows(&chars_of(lower), &chars_of(name), t, &ancien, &modulation, &embl)
    };
    assert!(allows("casque", "Casque", 134));
    assert!(!allows("l'ancien casque", "L'Ancien Casque", 134));
    assert!(!allows("emblème modulation", "Emblème Modulation", 646));
    assert!(!allows("emblème test", "Emblème Test", 646));
    assert!(allows("emblème du héros", "Emblème du héros", 646));
    // The word count is taken on the name itself.
    assert!(allows("emblème test", "Emblème-Test", 646));
    assert!(allows("emblème test", "Emblème test", 134));
}

#[test]
fn white_space_separates_words() {
    assert_eq!(count_words(&chars_of("a\u{3000}b")), 2);
    assert_eq!(count_words(&chars_of("a\u{200B}b")), 1);
    assert_eq!(count_words(&chars_of("a\u{A0}b\u{85}c")), 3);
}

#[test]
fn eligibility_rules() {
    let ancien = chars_of("ancien");
    let modulation = chars_of("modulation");
    let embl = chars_of("embl");
    let ok = |it: &Equipment, lvl: i32| eligible_item(it, lvl, &ancien, &modulation, &embl);
    assert!(ok(&item(1, "Casque", 100, 3, 134, &[]), 200));
    assert!(!ok(&item(1, "Casque", 201, 3, 134, &[]), 200));
    assert!(!ok(&item(1, "Casque", 1, 3, 134, &[]), 200));
    assert!(!ok(&item(1, "Ancien Casque", 100, 3, 134, &[]), 200));
    assert!(!ok(&item(1, "Emblème Modulation", 100, 3, 646, &[]), 200));
    assert!(!ok(&item(1, "Emblème Test", 100, 3, 646, &[]), 200));
    assert!(ok(&item(1, "Emblème du héros", 100, 3, 646, &[]), 200));
    assert!(ok(&item(1, "Emblème Test", 100, 3, 134, &[]), 200));
}

#[test]
fn limits_of_items() {
    assert!(item_within_limits(&item(1, "Casque", 100, 3, 134, &[(20, 1_000_000)])));
    assert!(!item_within_limits(&item(1, "Casque", 100, 3, 134, &[(20, i64::MAX)])));
    assert!(!item_within_limits(&item(1, "Casque", 100, 3, 134, &[(20, i64::MIN)])));
}

fn catalogue() -> Vec<Equipment> {
    vec![
        item(1, "Casque", 100, 3, 134, &[(1052, 10000)]),
        item(2, "Casque faible", 100, 3, 134, &[(1052, 5000)]),
        item(3, "Casque haut", 230, 3, 134, &[(1052, 99900)]),
        item(4, "Ancien Casque", 100, 3, 134, &[(1052, 90000)]),
        item(5, "Amulette", 150, 7, 120, &[(1052, 20000)]),
        item(6, "Cape", 150, 7, 132, &[(1052, 30000)]),
        item(7, "Anneau", 100, 3, 103, &[(1052, 4000)]),
        item(8, "Anneau bis", 100, 3, 103, &[(120, 3000)]),
        item(9, "Emblème Modulation", 50, 3, 646, &[(1052, 50000)]),
        item(10, "Emblème Test", 50, 3, 646, &[(1052, 50000)]),
        item(11, "Emblème du héros", 50, 3, 646, &[(1052, 1000)]),
        item(12, "Casque novice", 1, 3, 134, &[(1052, 80000)]),
    ]
}

#[test]
fn perfect_build_respects_rules() {
    let opt = Optimizer::new(catalogue());
    let p = melee_profile(0, 0);
    let build = opt.find_perfect_build(200, &p);
    let ids: Vec<i32> = build.iter().map(|e| e.id).collect();
    // The amulet slot comes first and takes the only epic it can; the cape,
    // also epic, cannot join; both rings are used once.
    assert_eq!(ids, vec![1, 5, 7, 8, 11]);
}

#[test]
fn perfect_build_on_empty_catalogue() {
    let opt = Optimizer::new(Vec::new());
    let p = melee_profile(10, 4);
    assert!(opt.find_perfect_build(200, &p).is_empty());
}

#[test]
fn perfect_build_tries_every_item() {
    let opt = Optimizer::new(vec![
        item(1, "Anneau A", 100, 3, 103, &[(1052, 1000)]),
        item(2, "Anneau B", 100, 3, 103, &[(1052, 2000)]),
        item(3, "Anneau C", 100, 3, 103, &[(1052, 3000)]),
    ]);
    let p = melee_profile(0, 0);
    let build = opt.find_perfect_build(200, &p);
    let ids: Vec<i32> = build.iter().map(|e| e.id).collect();
    // Both ring slots are filled with the two best rings, the first pair found.
    assert_eq!(ids, vec![2, 3]);
}

#[test]
fn perfect_build_reaches_minimum_action_points() {
    let opt = Optimizer::new(vec![
        item(1, "Amulette A", 100, 3, 120, &[(1052, 5000)]),
        item(2, "Amulette B", 100, 3, 120, &[(120, 4000)]),
        item(3, "Amulette C", 100, 3, 120, &[(149, 3000)]),
        item(4, "Amulette D", 100, 3, 120, &[(180, 2000)]),
        item(5, "Amulette E", 100, 3, 120, &[(31, 100)]),
    ]);
    // Eight action points asked: six, one more for asking over six, and one
    // from the only amulet that gives it, although it scores lowest alone.
    let p = melee_profile(8, 0);
    let build = opt.find_perfect_build(200, &p);
    let ids: Vec<i32> = build.iter().map(|e| e.id).collect();
    assert_eq!(ids, vec![5]);
}

#[test]
fn statistics_listed_by_id_with_last_name() {
    let named = |stat: i32, name: &str| EffectValue {
        damage: 100,
        statistics: Some(StatInfo { id_stats: stat, name_stats: name.to_string() }),
    };
    let mut first = item(1, "Casque", 100, 3, 134, &[]);
    first.effects = vec![Effect {
        name_effect: "effect".to_string(),
        values: vec![named(1052, "Maîtrise Mêlée"), EffectValue { damage: 5, statistics: None }],
    }];
    let mut second = item(2, "Cape", 100, 3, 132, &[]);
    second.effects = vec![Effect {
        name_effect: "effect".to_string(),
        values: vec![named(20, "PV"), named(1052, "Mêlée")],
    }];
    let names = wakfu_builder::stat_names::stat_names_by_id(&vec![first, second]);
    assert_eq!(names, vec![(20, "PV".to_string()), (1052, "Mêlée".to_string())]);
    assert!(wakfu_builder::stat_names::stat_names_by_id(&Vec::new()).is_empty());
}

#[test]
fn perfect_build_over_a_full_catalogue() {
    let types = [134, 120, 138, 132, 136, 133, 103, 119, 582, 646, 519, 518, 112, 189];
    let mut items = Vec::new();
    for (t, &slot) in types.iter().enumerate() {
        for k in 0..4 {
            let id = (t as i32) * 10 + k;
            items.push(item(id, "Objet", 100, 3, slot, &[(1052, 1000 * (k as i64 + 1))]));
        }
    }
    let opt = Optimizer::new(items);
    let p = melee_profile(0, 0);
    let build = opt.find_perfect_build(200, &p);
    let ids: Vec<i32> = build.iter().map(|e| e.id).collect();
    // The best item of each slot, the two best rings, and the second layout
    // (the first to reach the highest score).
    assert_eq!(ids, vec![3, 13, 23, 33, 43, 53, 62, 63, 73, 83, 93, 113, 123]);
}

#[test]
fn white_space_agrees_with_std() {
    for u in 0u32..=0x10FFFF {
        if let Some(c) = char::from_u32(u) {
            assert_eq!(wakfu_builder::text::is_whitespace(c), c.is_whitespace(), "U+{:04X}", u);
        }
    }
}
