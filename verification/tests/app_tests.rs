use std::collections::HashMap;
use wakfu_builder::cli::CliOptions;
use wakfu_builder::commands::{get_stats_info, optimize_build, OptimizeRequest};
use wakfu_builder::engine::Optimizer;
use wakfu_builder::models::{Effect, EffectValue, Equipment, StatInfo};
use wakfu_builder::profile::{BuildProfile, Element, Mode, Range, Role};
use wakfu_builder::report::{
    centered_split, element_label, enchant_name, enchant_recommendation, find_planned_stat, item_title,
    planned_line, rarity_tag, slot_name, summarize_stats,
};
use wakfu_builder::scraper::{Pagination, PAGE_SIZE};
use wakfu_builder::text::{chars_of, contains_chars, count_words, starts_with_chars};
use wakfu_builder::tui::{App, AppState, KeyInput};

fn item(id: i32, name: &str, level: i32, rarity: i32, slot: i32, stats: &[(i32, i64)]) -> Equipment {
    Equipment {
        id,
        name: name.to_string(),
        level,
        id_rarity: rarity,
        id_type: slot,
        equipment_type: "type".to_string(),
        effects: vec![Effect {
            name_effect: "effect".to_string(),
            values: stats
                .iter()
                .map(|&(s, d)| EffectValue {
                    damage: d,
                    statistics: Some(StatInfo { id_stats: s, name_stats: String::new() }),
                })
                .collect(),
        }],
    }
}

#[test]
fn app_starts_on_setup() {
    let app = App::new();
    assert_eq!(app.state, AppState::Setup);
    assert_eq!(app.level, 200);
    assert_eq!(app.role, Role::DPS);
    assert_eq!(app.mode, Mode::Solo);
    assert_eq!(app.range, Range::Hybrid);
    assert_eq!(app.element, Element::All);
    assert_eq!(app.selected_index, 0);
    assert!(app.items.is_empty() && app.best_build.is_empty());
}

#[test]
fn selection_wraps() {
    let mut app = App::new();
    app.prev_setting();
    assert_eq!(app.selected_index, 4);
    app.next_setting();
    assert_eq!(app.selected_index, 0);
    for _ in 0..5 {
        app.next_setting();
    }
    assert_eq!(app.selected_index, 0);
}

#[test]
fn adjusting_settings() {
    let mut app = App::new();
    app.adjust_setting(100);
    assert_eq!(app.level, 245);
    app.adjust_setting(-1000);
    assert_eq!(app.level, 1);
    app.next_setting();
    app.adjust_setting(1);
    assert_eq!(app.role, Role::Tank);
    app.adjust_setting(-1);
    assert_eq!(app.role, Role::DPS);
    app.adjust_setting(0);
    assert_eq!(app.role, Role::Support);
    app.next_setting();
    app.adjust_setting(1);
    assert_eq!(app.mode, Mode::Team);
    app.adjust_setting(-1);
    assert_eq!(app.mode, Mode::Solo);
    app.next_setting();
    app.adjust_setting(1);
    assert_eq!(app.range, Range::Melee);
    app.next_setting();
    app.adjust_setting(1);
    assert_eq!(app.element, Element::Fire);
    app.adjust_setting(-1);
    assert_eq!(app.element, Element::All);
}

#[test]
fn space_searches_then_returns() {
    let mut app = App::new();
    app.items = vec![
        item(1, "Casque", 100, 3, 134, &[(1052, 10000)]),
        item(2, "Anneau", 100, 3, 103, &[(1052, 4000)]),
    ];
    assert!(app.handle_key(KeyInput::Space));
    assert_eq!(app.state, AppState::Results);
    let ids: Vec<i32> = app.best_build.iter().map(|e| e.id).collect();
    assert_eq!(ids, vec![1, 2]);
    let report = app.results_report().unwrap();
    assert_eq!(report.lines.len(), 2);
    assert_eq!(report.lines[0].slot, "Coiffe");
    assert_eq!(report.lines[0].enchant, "| 4x Vie (DOUBLÉ)");
    assert!(app.handle_key(KeyInput::Space));
    assert_eq!(app.state, AppState::Setup);
    assert!(app.handle_key(KeyInput::Down));
    assert_eq!(app.selected_index, 1);
    assert!(app.handle_key(KeyInput::Right));
    assert_eq!(app.role, Role::Tank);
    assert!(!app.handle_key(KeyInput::Quit));
}

#[test]
fn no_report_without_build() {
    let app = App::new();
    assert!(app.results_report().is_none());
}

#[test]
fn labels() {
    assert_eq!(slot_name(134), "Coiffe");
    assert_eq!(slot_name(138), "Épaulières");
    assert_eq!(slot_name(1), "Autre");
    assert_eq!(rarity_tag(7), "[ÉPIQUE] ");
    assert_eq!(rarity_tag(5), "[RELIQUE] ");
    assert_eq!(rarity_tag(3), "");
    assert_eq!(enchant_name(1052), "Mêlée");
    assert_eq!(enchant_name(82), "Stat");
    assert_eq!(element_label(Element::All), "Auto (Best)");
    assert_eq!(enchant_recommendation(173, false), "| 4x Tacle");
    assert_eq!(enchant_recommendation(1052, true), "| 4x Mêlée (DOUBLÉ)");
    assert_eq!(item_title(&item(1, "Cape", 100, 7, 132, &[])), "[ÉPIQUE] Cape");
}

#[test]
fn planned_enchantments() {
    let plan = vec![(1, 1052), (2, 20), (1, 120)];
    assert_eq!(find_planned_stat(&plan, 1), Some(120));
    assert_eq!(find_planned_stat(&plan, 3), None);
    let line = planned_line(&item(2, "Coiffe X", 100, 3, 134, &[]), &plan);
    assert_eq!(line.enchant, "| 4x Vie (DOUBLÉ)");
    assert_eq!(line.level, 100);
    let none = planned_line(&item(5, "Coiffe Y", 100, 3, 134, &[]), &plan);
    assert_eq!(none.enchant, "");
}

#[test]
fn summary_of_totals() {
    let mut totals: HashMap<i32, i64> = HashMap::new();
    totals.insert(31, 200);
    totals.insert(122, -50);
    totals.insert(124, 700);
    totals.insert(1052, 300);
    let s = summarize_stats(&totals, 30);
    assert_eq!(s.action_points, 900);
    assert_eq!(s.movement_points, 300);
    assert_eq!(s.max_elemental_mastery, 700);
    assert_eq!(s.contact_power, 1000);
    assert_eq!(s.critical_hit, 300);
    assert_eq!(s.life, 0);
    let low = summarize_stats(&HashMap::new(), 10);
    assert_eq!(low.action_points, 600);
    assert_eq!(low.max_elemental_mastery, 0);
}

#[test]
fn cli_defaults() {
    let opts = CliOptions {
        level: None,
        role: None,
        mode: None,
        range: None,
        element: None,
        min_ap: None,
        min_mp: None,
        min_res: None,
        cli: false,
    };
    assert!(!opts.wants_cli());
    let s = opts.settings();
    assert_eq!(s.level, 200);
    assert_eq!(s.role, Role::DPS);
    assert_eq!(s.min_ap, 10);
    assert_eq!(s.min_mp, 4);
    assert_eq!(s.min_res, 0);
    let given = CliOptions { level: Some(120), min_ap: Some(11), ..opts };
    assert!(given.wants_cli());
    assert_eq!(given.settings().level, 120);
    let only_element = CliOptions { element: Some(Element::Fire), ..opts };
    assert!(!only_element.wants_cli());
}

#[test]
fn cli_report_lists_build() {
    let opt = Optimizer::new(vec![
        item(1, "Casque", 100, 3, 134, &[(1052, 10000)]),
        item(2, "Emblème du héros", 100, 5, 646, &[(1052, 1000)]),
    ]);
    let opts = CliOptions {
        level: Some(150),
        role: None,
        mode: None,
        range: Some(Range::Melee),
        element: None,
        min_ap: None,
        min_mp: None,
        min_res: None,
        cli: true,
    };
    let report = opt.cli_report(&opts.settings());
    assert_eq!(report.lines.len(), 2);
    assert_eq!(report.lines[1].title, "[RELIQUE] Emblème du héros");
    assert_eq!(report.lines[1].enchant, "");
    assert_eq!(report.lines[0].enchant, "| 4x Vie (DOUBLÉ)");
    assert_eq!(report.summary.action_points, 700);
}

fn request(role: &str, mode: &str, range: &str, element: &str) -> OptimizeRequest {
    OptimizeRequest {
        level: 200,
        role: role.to_string(),
        mode: mode.to_string(),
        range: range.to_string(),
        element: element.to_string(),
        min_ap: None,
        min_mp: None,
        min_res: None,
    }
}

#[test]
fn request_errors() {
    assert_eq!(optimize_build(request("mage", "solo", "melee", "fire"), Vec::new()).err().unwrap(), "Invalid role");
    assert_eq!(optimize_build(request("dps", "duo", "melee", "fire"), Vec::new()).err().unwrap(), "Invalid mode");
    assert_eq!(optimize_build(request("dps", "solo", "far", "fire"), Vec::new()).err().unwrap(), "Invalid range");
    assert_eq!(optimize_build(request("tank", "team", "hybrid", "void"), Vec::new()).err().unwrap(), "Invalid element");
    assert_eq!(optimize_build(request("DPS", "solo", "melee", "fire"), Vec::new()).err().unwrap(), "Invalid role");
}

#[test]
fn request_builds() {
    let items = vec![
        item(1, "Casque", 100, 3, 134, &[(1052, 10000)]),
        item(2, "Familier", 100, 3, 582, &[(20, 1000)]),
    ];
    let res = optimize_build(request("dps", "solo", "melee", "all"), items).ok().unwrap();
    assert_eq!(res.items.len(), 2);
    assert_eq!(res.items[0].slot_name, "Coiffe");
    assert_eq!(res.items[0].enchant_stat, Some(20));
    assert_eq!(res.items[0].enchant_name.as_deref(), Some("Vie"));
    assert!(res.items[0].enchant_doubled);
    assert_eq!(res.items[1].slot_name, "Familier");
    assert_eq!(res.items[1].enchant_stat, None);
    assert_eq!(res.stats.len(), 18);
}

#[test]
fn stats_info_table() {
    let info = get_stats_info();
    assert_eq!(info.len(), 22);
    assert_eq!(info[0].id, 20);
    assert_eq!(info[0].name, "Vie");
    assert!(info[10].is_percentage);
    assert_eq!(info[21].name, "Soins");
}

#[test]
fn text_helpers() {
    let s = chars_of("Emblème du héros");
    assert_eq!(count_words(&s), 3);
    assert_eq!(count_words(&chars_of("  two\twords ")), 2);
    assert_eq!(count_words(&chars_of("")), 0);
    assert!(contains_chars(&s, &chars_of("du h")));
    assert!(!contains_chars(&s, &chars_of("zz")));
    assert!(starts_with_chars(&s, &chars_of("Embl")));
}

#[test]
fn pagination_stops_on_short_page() {
    let mut p = Pagination::new();
    assert_eq!(p.to_skip, 0);
    p.receive(PAGE_SIZE);
    assert_eq!(p.to_skip, 75);
    assert!(!p.done);
    p.receive(75);
    assert_eq!(p.to_skip, 150);
    p.receive(12);
    assert!(p.done);
    assert_eq!(p.to_skip, 150);
    let mut empty = Pagination::new();
    empty.receive(0);
    assert!(empty.done);
}

#[test]
fn centered_margins() {
    assert_eq!(centered_split(60), (20, 60, 20));
    assert_eq!(centered_split(40), (30, 40, 30));
    assert_eq!(centered_split(100), (0, 100, 0));
}

#[test]
fn profile_for_interactive_search() {
    let app = App::new();
    let p = app.profile();
    assert_eq!(p.min_ap, 10);
    assert_eq!(p.min_mp, 4);
    assert_eq!(p.min_res, 0);
    let q = BuildProfile::new_with_constraints(Role::DPS, Mode::Solo, Range::Hybrid, Element::All, 10, 4, 0);
    assert_eq!(p.weights, q.weights);
}
