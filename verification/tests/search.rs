use army_optimizer::optimizer::{close_round, composition_from};
use army_optimizer::solver::Solved;
use army_optimizer::{
    apply_preset, catalog_is_sound, find_combination_recursive, optimize_k, plan_search,
    search_for_army, search_optimal, search_paths, search_validated, ArmyComposition, Budget,
    Constraint, ConstraintBuilder, Errors, GameModes, MaximizationTargets, RangedBand,
    RangedStats, Unit, UnitStats, UnitTypes,
};

fn stats(gold: i32, manpower: i32, hp: i32, attack: i32, escorted: bool) -> UnitStats {
    UnitStats {
        manpower_cost: manpower,
        gold_cost: gold,
        hp,
        organization: 60,
        stamina: None,
        melee_attack: attack,
        melee_defense: 4,
        charge_penetration: 0,
        charge_resistance: 0,
        ranged_stats: None,
        has_skirmishers: escorted,
    }
}

fn unit(name: &str, unit_type: UnitTypes, unit_stats: UnitStats) -> Unit {
    Unit { name: name.to_string(), unit_type, unit_stats, damage_resistances: Vec::new() }
}

/// Unit A of the scenarios.
fn line() -> Unit {
    unit("Line Infantry", UnitTypes::Infantry, stats(50, 125, 1000, 10, false))
}

/// Unit B of the scenarios: it requires an escort.
fn dragoons() -> Unit {
    unit("Dragoons", UnitTypes::Cavalry, stats(40, 100, 500, 100, true))
}

fn hussars() -> Unit {
    unit("Hussars", UnitTypes::Cavalry, stats(80, 110, 600, 15, false))
}

fn rifles() -> Unit {
    unit("Rifles", UnitTypes::Infantry, stats(10, 10, 200, 5, false))
}

fn rockets() -> Unit {
    unit("Rocket battery", UnitTypes::Artillery, stats(10, 10, 100, 1, false))
}

fn skirmishers() -> Unit {
    unit("Skirmishers", UnitTypes::SkirmishInfantry, stats(0, 0, 100, 0, false))
}

fn roster(army: &ArmyComposition) -> Vec<(String, i32)> {
    army.unit_roster.iter().map(|(unit, count)| (unit.name.clone(), *count)).collect()
}

fn rosters(armies: &[ArmyComposition]) -> Vec<Vec<(String, i32)>> {
    armies.iter().map(roster).collect()
}

fn entry(name: &str, count: i32) -> (String, i32) {
    (name.to_string(), count)
}

fn preset_of(entries: &[(Unit, usize)]) -> ArmyComposition {
    let mut army = ArmyComposition::new(GameModes::Clash, skirmishers());
    for (unit, count) in entries {
        army.add_units(unit, *count);
    }
    army
}

#[test]
fn the_walk_buys_as_much_as_it_can_first() {
    let found = search_for_army(
        None,
        1000,
        100,
        Constraint::default(),
        GameModes::Clash,
        &vec![line(), skirmishers()],
        10,
        &skirmishers(),
    );
    assert_eq!(
        rosters(&found),
        vec![vec![entry("Line Infantry", 2)], vec![entry("Line Infantry", 1)], vec![]]
    );
}

#[test]
fn the_walk_goes_through_the_units_in_order() {
    let found = search_for_army(
        None,
        1000,
        130,
        Constraint::default(),
        GameModes::Clash,
        &vec![line(), hussars()],
        10,
        &skirmishers(),
    );
    assert_eq!(
        rosters(&found),
        vec![
            vec![entry("Line Infantry", 2)],
            vec![entry("Line Infantry", 1), entry("Hussars", 1)],
            vec![entry("Line Infantry", 1)],
            vec![entry("Hussars", 1)],
            vec![],
        ]
    );
}

#[test]
fn the_walk_stops_at_the_number_asked_for() {
    let catalog = vec![line(), hussars()];
    let sk = skirmishers();
    let found =
        search_for_army(None, 1000, 130, Constraint::default(), GameModes::Clash, &catalog, 2, &sk);
    assert_eq!(
        rosters(&found),
        vec![vec![entry("Line Infantry", 2)], vec![entry("Line Infantry", 1), entry("Hussars", 1)]]
    );
    let found =
        search_for_army(None, 1000, 130, Constraint::default(), GameModes::Clash, &catalog, 0, &sk);
    assert!(found.is_empty());
}

#[test]
fn the_walk_keeps_what_breaches_no_bound() {
    let constraint = ConstraintBuilder::new().min_cav(Some(1)).build();
    let found = search_for_army(
        None,
        1000,
        130,
        constraint.clone(),
        GameModes::Clash,
        &vec![line(), hussars()],
        10,
        &skirmishers(),
    );
    assert_eq!(
        rosters(&found),
        vec![vec![entry("Line Infantry", 1), entry("Hussars", 1)], vec![entry("Hussars", 1)]]
    );
    for army in &found {
        assert!(!constraint.army_violates(army));
    }
}

#[test]
fn the_walk_is_held_to_both_budgets() {
    let found = search_for_army(
        None,
        130,
        1000,
        Constraint::default(),
        GameModes::Clash,
        &vec![line()],
        10,
        &skirmishers(),
    );
    assert_eq!(rosters(&found), vec![vec![entry("Line Infantry", 1)], vec![]]);
    let found = search_for_army(
        None,
        -1,
        1000,
        Constraint::default(),
        GameModes::Clash,
        &vec![line()],
        10,
        &skirmishers(),
    );
    assert_eq!(rosters(&found), vec![Vec::new()]);
}

#[test]
fn the_walk_is_held_to_the_caps_of_the_mode() {
    let catalog = vec![rifles(), rockets()];
    let sk = skirmishers();
    let found =
        search_for_army(None, 1000, 1000, Constraint::default(), GameModes::Clash, &catalog, 3, &sk);
    assert_eq!(
        rosters(&found),
        vec![
            vec![entry("Rifles", 3), entry("Rocket battery", 1)],
            vec![entry("Rifles", 3)],
            vec![entry("Rifles", 2), entry("Rocket battery", 1)],
        ]
    );
    let found = search_for_army(
        None,
        1000,
        1000,
        Constraint::default(),
        GameModes::GrandBattle,
        &catalog,
        2,
        &sk,
    );
    assert_eq!(
        rosters(&found),
        vec![vec![entry("Rifles", 8), entry("Rocket battery", 2)], vec![
            entry("Rifles", 8),
            entry("Rocket battery", 1)
        ]]
    );
}

#[test]
fn the_walk_buys_no_unit_without_a_price_or_off_the_allow_list() {
    let constraint = ConstraintBuilder::new().allowed_units(Some(vec![hussars()])).build();
    let found = search_for_army(
        None,
        1000,
        100,
        constraint,
        GameModes::Clash,
        &vec![line(), hussars(), skirmishers()],
        10,
        &skirmishers(),
    );
    assert_eq!(rosters(&found), vec![vec![entry("Hussars", 1)], vec![]]);
}

#[test]
fn the_walk_brings_the_escorts_along() {
    let found = search_for_army(
        None,
        1000,
        170,
        Constraint::default(),
        GameModes::Clash,
        &vec![dragoons()],
        10,
        &skirmishers(),
    );
    assert_eq!(
        rosters(&found),
        vec![
            vec![entry("Dragoons", 4), entry("Skirmishers", 1)],
            vec![entry("Dragoons", 3)],
            vec![entry("Dragoons", 2)],
            vec![entry("Dragoons", 1)],
            vec![],
        ]
    );
}

#[test]
fn the_walk_starts_from_the_preset() {
    let preset = preset_of(&[(hussars(), 2)]);
    let constraint = ConstraintBuilder::new().min_cav(Some(2)).min_inf(Some(1)).build();
    let found = search_for_army(
        Some(preset),
        1000,
        100,
        constraint,
        GameModes::Clash,
        &vec![line()],
        10,
        &skirmishers(),
    );
    assert_eq!(
        rosters(&found),
        vec![
            vec![entry("Hussars", 2), entry("Line Infantry", 2)],
            vec![entry("Hussars", 2), entry("Line Infantry", 1)],
        ]
    );
}

#[test]
fn one_walk_from_the_middle_of_the_catalog() {
    let catalog = vec![line(), hussars()];
    let mut army = ArmyComposition::new(GameModes::Clash, skirmishers());
    army.add_unit(&line());
    let mut found = vec![ArmyComposition::new(GameModes::Clash, skirmishers())];
    find_combination_recursive(
        &catalog,
        1,
        &mut army,
        &mut found,
        1000,
        100,
        3,
        1,
        &Constraint::default(),
        3,
    );
    assert_eq!(
        rosters(&found),
        vec![
            vec![],
            vec![entry("Line Infantry", 1), entry("Hussars", 1)],
            vec![entry("Line Infantry", 1)],
        ]
    );
    assert_eq!(roster(&army), vec![entry("Line Infantry", 1)]);
}

#[test]
fn without_a_target_the_search_is_the_walk() {
    let catalog = vec![line(), hussars()];
    let sk = skirmishers();
    let found =
        search_paths(None, 1000, 130, Constraint::default(), GameModes::Clash, &catalog, 10, &sk);
    let walked =
        search_for_army(None, 1000, 130, Constraint::default(), GameModes::Clash, &catalog, 10, &sk);
    assert_eq!(rosters(&found), rosters(&walked));
    assert_eq!(found.len(), 5);
}

fn scenario() -> Constraint {
    ConstraintBuilder::new()
        .min_inf(Some(5))
        .maximization_targets(Some(MaximizationTargets::HP))
        .build()
}

#[test]
fn the_optimizer_finds_the_most_hit_points_within_the_budget() {
    let found = search_paths(
        None,
        1000,
        500,
        scenario(),
        GameModes::Clash,
        &vec![line(), dragoons(), skirmishers()],
        1,
        &skirmishers(),
    );
    assert_eq!(found.len(), 1);
    let best = &found[0];
    let bought = best.get_unit_name_count("Dragoons");
    assert!(best.get_unit_type_count(UnitTypes::Infantry) >= 5);
    assert!(best.get_gold_cost() <= 500);
    assert!(best.get_manpower_cost() <= 1000);
    assert_eq!(best.get_unit_name_count("Skirmishers"), bought / 4);
    assert_eq!(
        best.get_total_hp(),
        1000 * best.get_unit_name_count("Line Infantry") + 500 * bought + 100 * (bought / 4)
    );
    assert!(!scenario().army_violates(best));
    assert_eq!(best.get_total_hp(), 8000);
    assert_eq!(roster(best), vec![entry("Line Infantry", 8)]);
}

#[test]
fn the_optimizer_buys_the_escorted_unit_where_it_scores_best() {
    let constraint = ConstraintBuilder::new()
        .min_inf(Some(5))
        .maximization_targets(Some(MaximizationTargets::MeleeAttack))
        .build();
    let found = search_paths(
        None,
        2000,
        1000,
        constraint.clone(),
        GameModes::Clash,
        &vec![line(), dragoons(), skirmishers()],
        1,
        &skirmishers(),
    );
    assert_eq!(found.len(), 1);
    let best = &found[0];
    assert_eq!(
        roster(best),
        vec![entry("Line Infantry", 5), entry("Dragoons", 13), entry("Skirmishers", 3)]
    );
    assert_eq!(best.get_total_hp(), 5000 + 6500 + 300);
    assert_eq!(best.get_melee_attack(), 1350);
    assert_eq!(best.get_gold_cost(), 770);
    assert!(!constraint.army_violates(best));
}

#[test]
fn later_solutions_score_lower() {
    let found = search_paths(
        None,
        1000,
        500,
        scenario(),
        GameModes::Clash,
        &vec![line(), dragoons(), skirmishers()],
        3,
        &skirmishers(),
    );
    let scores: Vec<i32> = found.iter().map(|army| army.get_total_hp()).collect();
    assert_eq!(scores, vec![8000, 7500, 7000]);
    for army in &found {
        assert!(!scenario().army_violates(army));
        assert!(army.get_gold_cost() <= 500);
        assert!(army.get_manpower_cost() <= 1000);
    }
}

#[test]
fn the_search_ends_when_no_solution_is_left() {
    let constraint =
        ConstraintBuilder::new().maximization_targets(Some(MaximizationTargets::HP)).build();
    let found = search_paths(
        None,
        250,
        100,
        constraint,
        GameModes::Clash,
        &vec![line(), skirmishers()],
        50,
        &skirmishers(),
    );
    let scores: Vec<i32> = found.iter().map(|army| army.get_total_hp()).collect();
    assert_eq!(scores, vec![2000, 1000, 0]);
}

#[test]
fn bounds_that_cannot_be_met_leave_no_composition() {
    let constraint = ConstraintBuilder::new()
        .min_inf(Some(9))
        .maximization_targets(Some(MaximizationTargets::HP))
        .build();
    let found = search_paths(
        None,
        1000,
        500,
        constraint,
        GameModes::Clash,
        &vec![line(), dragoons()],
        3,
        &skirmishers(),
    );
    assert!(found.is_empty());
}

#[test]
fn a_preset_is_extended_and_merged_back() {
    let preset = preset_of(&[(line(), 5)]);
    let catalog = vec![line(), dragoons(), skirmishers()];
    let sk = skirmishers();
    let found =
        search_paths(Some(preset.clone()), 1000, 500, scenario(), GameModes::Clash, &catalog, 1, &sk);
    assert_eq!(found.len(), 1);
    let merged = &found[0];
    assert!(merged.get_unit_type_count(UnitTypes::Infantry) >= 5);
    let mut budget = Budget { gold: 500, manpower: 1000 };
    let mut left = scenario();
    apply_preset(&preset, &mut budget, &mut left);
    let increments =
        search_optimal(None, budget.manpower, budget.gold, left, GameModes::Clash, &catalog, 1, &sk);
    assert_eq!(increments.len(), 1);
    assert_eq!(merged.get_gold_cost(), preset.get_gold_cost() + increments[0].get_gold_cost());
    assert_eq!(roster(&increments[0]), vec![entry("Line Infantry", 3)]);
    assert_eq!(roster(merged), vec![entry("Line Infantry", 8)]);
    assert_eq!(merged.get_gold_cost(), 250 + 150);
    assert!(!scenario().army_violates(merged));
}

#[test]
fn a_preset_takes_its_share_off_every_bound() {
    let mut guns = stats(120, 80, 300, 2, false);
    guns.ranged_stats = Some(RangedStats::new(&[RangedBand::new(10, 0, 100, 0, -50, 3)]));
    let mut guns = unit("6-lb Foot Artillery", UnitTypes::Artillery, guns);
    guns.damage_resistances = vec![("Musket".to_string(), 50)];
    // hit points 3000 + 1200 + 300, gold 150 + 160 + 120 + 20, manpower 375 + 220 + 80 + 20
    let preset =
        preset_of(&[(line(), 3), (hussars(), 2), (guns.clone(), 1), (rifles(), 2)]);
    let mut constraint = ConstraintBuilder::new()
        .min_inf(Some(10))
        .min_cav(Some(10))
        .min_art(Some(10))
        .max_inf(Some(20))
        .max_cav(Some(20))
        .max_art(Some(20))
        .max_rifles(Some(3))
        .max_rockets(Some(1))
        .min_hp(Some(10_000))
        .min_ehp_vs_sources(Some(vec![("Musket".to_string(), 6000), ("Bayonet".to_string(), 5000)]))
        .min_damage_at_ranges(Some(vec![(30, 50), (12, 150)]))
        .min_melee_damage(Some(100))
        .min_melee_dmg_for_types(Some(vec![(UnitTypes::Cavalry, 100), (UnitTypes::Infantry, 100)]))
        .min_melee_defense(Some(100))
        .min_melee_def_for_types(Some(vec![(UnitTypes::Artillery, 100)]))
        .maximization_targets(Some(MaximizationTargets::HP))
        .allowed_units(Some(vec![line()]))
        .min_gold_target(Some(1000))
        .min_manpower_target(Some(1000))
        .build();
    let mut budget = Budget { gold: 2000, manpower: 3000 };
    apply_preset(&preset, &mut budget, &mut constraint);
    assert_eq!(budget, Budget { gold: 2000 - 450, manpower: 3000 - 695 });
    assert_eq!(constraint.minimum_infantry, Some(5));
    assert_eq!(constraint.minimum_cavalry, Some(8));
    assert_eq!(constraint.minimum_artillery, Some(9));
    assert_eq!(constraint.maximum_infantry, Some(15));
    assert_eq!(constraint.maximum_cavalry, Some(18));
    assert_eq!(constraint.maximum_artillery, Some(19));
    assert_eq!(constraint.maximum_rifles, Some(1));
    assert_eq!(constraint.maximum_rockets, Some(1));
    assert_eq!(constraint.minimum_hp, Some(10_000 - 4900));
    assert_eq!(
        constraint.minimum_ehp_vs_sources,
        Some(vec![("Musket".to_string(), 6000 - 5200), ("Bayonet".to_string(), 5000 - 4900)])
    );
    assert_eq!(constraint.minimum_damage_at_ranges, Some(vec![(23, 50), (12, 150)]));
    assert_eq!(constraint.minimum_melee_damage, Some(100 - 72));
    assert_eq!(
        constraint.minimum_melee_damage_over_types,
        Some(vec![(UnitTypes::Cavalry, 70), (UnitTypes::Infantry, 60)])
    );
    assert_eq!(constraint.minimum_melee_defense, Some(100 - 32));
    assert_eq!(constraint.minimum_melee_defense_over_types, Some(vec![(UnitTypes::Artillery, 96)]));
    assert_eq!(constraint.maximization_targets, Some(MaximizationTargets::HP));
    assert_eq!(constraint.allowed_units.map(|units| units.len()), Some(1));
    assert_eq!(constraint.minimum_gold_target, Some(550));
    assert_eq!(constraint.minimum_manpower_target, Some(305));
}

#[test]
fn a_preset_leaves_unset_bounds_unset() {
    let preset = preset_of(&[(line(), 3)]);
    let mut constraint = Constraint::default();
    let mut budget = Budget { gold: i32::MIN, manpower: 0 };
    apply_preset(&preset, &mut budget, &mut constraint);
    assert_eq!(budget, Budget { gold: i32::MIN, manpower: -375 });
    assert_eq!(constraint.minimum_infantry, None);
    assert_eq!(constraint.minimum_hp, None);
    assert_eq!(constraint.minimum_ehp_vs_sources, None);
    assert_eq!(constraint.minimum_damage_at_ranges, None);
    assert_eq!(constraint.minimum_gold_target, None);
}

#[test]
fn the_caps_of_the_mode_stand_in_for_unset_caps() {
    let constraint =
        ConstraintBuilder::new().maximization_targets(Some(MaximizationTargets::HP)).build();
    let catalog = vec![rifles(), rockets()];
    let sk = skirmishers();
    let found =
        search_optimal(None, 1000, 1000, constraint, GameModes::Battle, &catalog, 1, &sk);
    assert_eq!(rosters(&found), vec![vec![entry("Rifles", 6), entry("Rocket battery", 2)]]);
    let constraint = ConstraintBuilder::new()
        .max_rifles(Some(1))
        .max_rockets(Some(0))
        .maximization_targets(Some(MaximizationTargets::HP))
        .build();
    let found =
        search_optimal(None, 1000, 1000, constraint, GameModes::Battle, &catalog, 1, &sk);
    assert_eq!(rosters(&found), vec![vec![entry("Rifles", 1)]]);
}

#[test]
fn no_unit_is_bought_more_often_than_the_budget_pays_for_its_category() {
    let constraint =
        ConstraintBuilder::new().maximization_targets(Some(MaximizationTargets::HP)).build();
    let found = search_optimal(
        None,
        1000,
        500,
        constraint,
        GameModes::Clash,
        &vec![line(), hussars()],
        1,
        &skirmishers(),
    );
    assert_eq!(rosters(&found), vec![vec![entry("Line Infantry", 8)]]);
}

#[test]
fn the_allow_list_restricts_what_the_optimizer_buys() {
    let constraint = ConstraintBuilder::new()
        .allowed_units(Some(vec![hussars()]))
        .maximization_targets(Some(MaximizationTargets::HP))
        .build();
    let found = search_paths(
        None,
        1000,
        500,
        constraint,
        GameModes::Clash,
        &vec![line(), hussars()],
        1,
        &skirmishers(),
    );
    assert_eq!(rosters(&found), vec![vec![entry("Hussars", 6)]]);
}

#[test]
fn the_optimizer_at_a_given_cap() {
    let catalog = vec![line(), dragoons()];
    let found = optimize_k(
        &Constraint::default(),
        &Budget { gold: 10_000, manpower: 10_000 },
        &catalog,
        MaximizationTargets::HP,
        2,
        3,
        GameModes::GrandBattle,
        &skirmishers(),
    );
    assert_eq!(
        rosters(&found),
        vec![
            vec![entry("Line Infantry", 3), entry("Dragoons", 3), entry("Skirmishers", 1)],
            vec![entry("Line Infantry", 3), entry("Dragoons", 2)],
        ]
    );
}

#[test]
fn values_buy_a_composition() {
    let catalog = vec![line(), dragoons(), hussars()];
    let army = composition_from(&catalog, &vec![2, 9, 0, 77, 77], GameModes::Clash, skirmishers());
    assert_eq!(
        roster(&army),
        vec![entry("Line Infantry", 2), entry("Dragoons", 9), entry("Skirmishers", 2)]
    );
    let army = composition_from(&catalog, &vec![-4, 0, 1], GameModes::Clash, skirmishers());
    assert_eq!(roster(&army), vec![entry("Hussars", 1)]);
}

#[test]
fn a_round_is_closed_on_what_the_solver_found() {
    let catalog = vec![line(), dragoons()];
    let mut results = vec![ArmyComposition::new(GameModes::Clash, skirmishers())];
    let solved = Solved { values: vec![1, 4, 1, 1], objective: 3100 };
    let bound = close_round(&mut results, &catalog, Some(solved), GameModes::Clash, &skirmishers());
    assert_eq!(bound, Some(3100));
    assert_eq!(
        rosters(&results),
        vec![vec![], vec![entry("Line Infantry", 1), entry("Dragoons", 4), entry("Skirmishers", 1)]]
    );
    let bound = close_round(&mut results, &catalog, None, GameModes::Clash, &skirmishers());
    assert_eq!(bound, None);
    assert_eq!(results.len(), 2);
}

fn names(units: &[Unit]) -> Vec<String> {
    units.iter().map(|unit| unit.name.clone()).collect()
}

#[test]
fn a_plan_keeps_the_units_with_a_price() {
    let mut free_gold = hussars();
    free_gold.unit_stats.gold_cost = 0;
    free_gold.name = "Militia".to_string();
    let mut free = rockets();
    free.unit_stats.gold_cost = 0;
    free.unit_stats.manpower_cost = 0;
    let catalog = vec![line(), skirmishers(), free_gold, free, dragoons()];
    let plan = plan_search(1000, 500, Constraint::default(), GameModes::Clash, &catalog);
    assert_eq!(names(&plan.units), vec!["Line Infantry", "Militia", "Dragoons"]);
    assert_eq!(plan.budget, Budget { gold: 500, manpower: 1000 });
}

#[test]
fn a_plan_keeps_the_units_of_the_allow_list() {
    let catalog = vec![line(), hussars(), dragoons(), skirmishers()];
    let constraint =
        ConstraintBuilder::new().allowed_units(Some(vec![dragoons(), rifles(), line()])).build();
    let plan = plan_search(1000, 500, constraint, GameModes::Clash, &catalog);
    assert_eq!(names(&plan.units), vec!["Line Infantry", "Dragoons"]);
    let constraint = ConstraintBuilder::new().allowed_units(Some(vec![])).build();
    let plan = plan_search(1000, 500, constraint, GameModes::Clash, &catalog);
    assert!(plan.units.is_empty());
    assert_eq!(plan.hard_cap, 0);
}

#[test]
fn a_plan_takes_the_caps_of_the_mode_where_none_is_set() {
    let plan = plan_search(1, 1, Constraint::default(), GameModes::Battle, &vec![line()]);
    assert_eq!(plan.constraints.maximum_rifles, Some(6));
    assert_eq!(plan.constraints.maximum_rockets, Some(2));
    let constraint = ConstraintBuilder::new().max_rifles(Some(0)).min_hp(Some(5)).build();
    let plan = plan_search(1, 1, constraint, GameModes::Battle, &vec![line()]);
    assert_eq!(plan.constraints.maximum_rifles, Some(0));
    assert_eq!(plan.constraints.maximum_rockets, Some(2));
    assert_eq!(plan.constraints.minimum_hp, Some(5));
}

#[test]
fn the_hard_cap_is_what_the_budgets_pay_for_in_the_best_category() {
    // infantry: min(500 / 50, 1000 / 125) = 8; cavalry: min(500 / 40, 1000 / 100) = 10
    let catalog = vec![line(), hussars(), dragoons()];
    let plan = plan_search(1000, 500, Constraint::default(), GameModes::Clash, &catalog);
    assert_eq!(plan.hard_cap, 10);
    let plan = plan_search(1000, 500, Constraint::default(), GameModes::Clash, &vec![line()]);
    assert_eq!(plan.hard_cap, 8);
    // the least costs of a category may come from different units
    let plan =
        plan_search(1000, 500, Constraint::default(), GameModes::Clash, &vec![hussars(), dragoons()]);
    assert_eq!(plan.hard_cap, 10);
    let plan = plan_search(1000, 500, Constraint::default(), GameModes::Clash, &vec![hussars()]);
    assert_eq!(plan.hard_cap, 6);
}

#[test]
fn the_hard_cap_of_a_catalog_without_units_is_zero() {
    let plan = plan_search(1000, 500, Constraint::default(), GameModes::Clash, &Vec::new());
    assert_eq!(plan.hard_cap, 0);
    let plan =
        plan_search(1000, 500, Constraint::default(), GameModes::Clash, &vec![skirmishers()]);
    assert_eq!(plan.hard_cap, 0);
}

#[test]
fn a_cost_of_zero_sets_no_limit() {
    let mut levy = line();
    levy.unit_stats.gold_cost = 0;
    let plan = plan_search(1000, 500, Constraint::default(), GameModes::Clash, &vec![levy.clone()]);
    assert_eq!(plan.hard_cap, 8);
    levy.unit_stats.gold_cost = 50;
    levy.unit_stats.manpower_cost = 0;
    let plan = plan_search(1000, 500, Constraint::default(), GameModes::Clash, &vec![levy]);
    assert_eq!(plan.hard_cap, 10);
}

#[test]
fn a_budget_below_zero_pays_for_nothing() {
    let plan = plan_search(1000, -120, Constraint::default(), GameModes::Clash, &vec![line()]);
    assert_eq!(plan.hard_cap, 0);
    let found = search_optimal(
        None,
        1000,
        -120,
        ConstraintBuilder::new().maximization_targets(Some(MaximizationTargets::HP)).build(),
        GameModes::Clash,
        &vec![line()],
        2,
        &skirmishers(),
    );
    assert!(found.is_empty());
}

fn armoured_line() -> Unit {
    let mut unit = line();
    unit.damage_resistances = vec![("Musket".to_string(), 50)];
    unit
}

#[test]
fn a_constraint_that_names_what_the_catalog_lacks_is_not_searched() {
    let catalog = vec![armoured_line(), dragoons()];
    let sk = skirmishers();
    let unknown = ConstraintBuilder::new()
        .min_ehp_vs_sources(Some(vec![("Bayonet".to_string(), 1)]))
        .maximization_targets(Some(MaximizationTargets::HP))
        .build();
    let outcome = search_validated(None, 1000, 500, unknown, GameModes::Clash, &catalog, 3, &sk);
    assert_eq!(outcome.map(|found| found.len()), Err(Errors::InvalidInput));
    let unit_as_source = ConstraintBuilder::new()
        .min_ehp_vs_sources(Some(vec![("Dragoons".to_string(), 1)]))
        .maximization_targets(Some(MaximizationTargets::HP))
        .build();
    let outcome =
        search_validated(None, 1000, 500, unit_as_source, GameModes::Clash, &catalog, 3, &sk);
    assert_eq!(outcome.map(|found| found.len()), Err(Errors::InvalidInput));
    let unknown = ConstraintBuilder::new().allowed_units(Some(vec![hussars()])).build();
    let outcome = search_validated(None, 1000, 500, unknown, GameModes::Clash, &catalog, 3, &sk);
    assert_eq!(outcome.map(|found| found.len()), Err(Errors::InvalidInput));
}

#[test]
fn a_floor_on_a_damage_source_of_the_catalog_is_searched_under() {
    let catalog = vec![armoured_line(), dragoons()];
    let sk = skirmishers();
    // against muskets a line infantry stands for 2000, a dragoon for 500
    let listed = ConstraintBuilder::new()
        .min_ehp_vs_sources(Some(vec![("Musket".to_string(), 16_000)]))
        .maximization_targets(Some(MaximizationTargets::MeleeAttack))
        .build();
    let found = search_validated(None, 1000, 500, listed, GameModes::Clash, &catalog, 1, &sk)
        .expect("valid input");
    assert_eq!(rosters(&found), vec![vec![entry("Line Infantry", 8)]]);
    let lower = ConstraintBuilder::new()
        .min_ehp_vs_sources(Some(vec![("Musket".to_string(), 2_000)]))
        .maximization_targets(Some(MaximizationTargets::MeleeAttack))
        .build();
    let found = search_validated(None, 1000, 500, lower, GameModes::Clash, &catalog, 1, &sk)
        .expect("valid input");
    assert_eq!(rosters(&found), vec![vec![entry("Dragoons", 10), entry("Skirmishers", 2)]]);
    assert_eq!(found[0].get_ehp_vs_source("Musket"), 10 * 500 + 2 * 100);
    assert_eq!(found[0].get_melee_attack(), 1000);
}

#[test]
fn a_constraint_that_names_what_the_catalog_lists_is_searched() {
    let catalog = vec![armoured_line(), dragoons()];
    let sk = skirmishers();
    let listed = ConstraintBuilder::new()
        .allowed_units(Some(vec![line()]))
        .maximization_targets(Some(MaximizationTargets::EHPVsSource("Musket".to_string())))
        .build();
    let found = search_validated(None, 1000, 500, listed, GameModes::Clash, &catalog, 1, &sk)
        .expect("valid input");
    assert_eq!(rosters(&found), vec![vec![entry("Line Infantry", 8)]]);
    let found =
        search_validated(None, 1000, 100, Constraint::default(), GameModes::Clash, &catalog, 2, &sk)
            .expect("valid input");
    assert_eq!(
        rosters(&found),
        vec![vec![entry("Line Infantry", 2)], vec![entry("Line Infantry", 1), entry("Dragoons", 1)]]
    );
}

#[test]
fn a_preset_is_taken_off_the_budgets_of_the_walk_and_merged_back() {
    let infantry = unit("A", UnitTypes::Infantry, stats(50, 125, 1000, 10, false));
    let cavalry = unit("C", UnitTypes::Cavalry, stats(80, 100, 600, 10, false));
    let artillery = unit("T", UnitTypes::Artillery, stats(200, 300, 300, 10, false));
    let catalog = vec![infantry.clone(), cavalry, artillery];
    let preset = preset_of(&[(infantry, 1)]);
    let found = search_paths(
        Some(preset),
        250,
        100,
        Constraint::default(),
        GameModes::Clash,
        &catalog,
        1,
        &skirmishers(),
    );
    assert_eq!(found.len(), 1);
    assert_eq!(found[0].get_unit_name_count("A"), 2);
    assert_eq!(found[0].get_gold_cost(), 100);
    assert_eq!(roster(&found[0]), vec![entry("A", 2)]);
}

#[test]
fn a_preset_counts_toward_the_bounds_of_the_walk() {
    let catalog = vec![line(), hussars()];
    let preset = preset_of(&[(hussars(), 2)]);
    let constraint = ConstraintBuilder::new().min_cav(Some(2)).min_inf(Some(1)).build();
    let found = search_paths(
        Some(preset),
        1000,
        260,
        constraint.clone(),
        GameModes::Clash,
        &catalog,
        10,
        &skirmishers(),
    );
    // the preset costs 160 gold; 100 are left for the walk
    assert_eq!(
        rosters(&found),
        vec![
            vec![entry("Line Infantry", 2), entry("Hussars", 2)],
            vec![entry("Line Infantry", 1), entry("Hussars", 2)],
        ]
    );
    for army in &found {
        assert!(!constraint.army_violates(army));
        assert!(army.get_gold_cost() <= 260);
    }
}

#[test]
fn a_preset_counts_toward_the_caps_of_the_mode() {
    let catalog = vec![rifles()];
    let preset = preset_of(&[(rifles(), 2)]);
    let sk = skirmishers();
    let found =
        search_paths(Some(preset.clone()), 1000, 1000, Constraint::default(), GameModes::Clash, &catalog, 5, &sk);
    assert_eq!(rosters(&found), vec![vec![entry("Rifles", 3)], vec![entry("Rifles", 2)]]);
    let target =
        ConstraintBuilder::new().maximization_targets(Some(MaximizationTargets::HP)).build();
    let found = search_paths(Some(preset), 1000, 1000, target, GameModes::Clash, &catalog, 1, &sk);
    assert_eq!(rosters(&found), vec![vec![entry("Rifles", 3)]]);
}

#[test]
fn the_walk_is_held_to_the_caps_of_the_constraint() {
    let catalog = vec![rifles(), rockets()];
    let constraint = ConstraintBuilder::new().max_rifles(Some(1)).max_rockets(Some(0)).build();
    let found = search_for_army(
        None,
        1000,
        1000,
        constraint,
        GameModes::Clash,
        &catalog,
        5,
        &skirmishers(),
    );
    assert_eq!(rosters(&found), vec![vec![entry("Rifles", 1)], vec![]]);
}

#[test]
fn the_optimizer_spends_at_least_the_floors() {
    let catalog = vec![line(), hussars()];
    let sk = skirmishers();
    // hussars cost more gold for each point of melee attack
    let free = ConstraintBuilder::new()
        .max_inf(Some(2))
        .max_cav(Some(2))
        .maximization_targets(Some(MaximizationTargets::MeleeDefense))
        .build();
    let found = search_paths(None, 1000, 500, free, GameModes::Clash, &catalog, 1, &sk);
    assert_eq!(found[0].get_melee_defense(), 16);
    let floor = ConstraintBuilder::new()
        .min_gold_target(Some(501))
        .maximization_targets(Some(MaximizationTargets::HP))
        .build();
    assert!(search_paths(None, 1000, 500, floor, GameModes::Clash, &catalog, 1, &sk).is_empty());
    let floor = ConstraintBuilder::new()
        .min_gold_target(Some(480))
        .min_manpower_target(Some(700))
        .maximization_targets(Some(MaximizationTargets::HP))
        .build();
    let found = search_paths(None, 1000, 500, floor.clone(), GameModes::Clash, &catalog, 3, &sk);
    assert!(!found.is_empty());
    for army in &found {
        assert!(army.get_gold_cost() >= 480);
        assert!(army.get_manpower_cost() >= 700);
        assert!(!floor.army_violates(army));
    }
    let nothing = ConstraintBuilder::new()
        .min_gold_target(Some(1))
        .maximization_targets(Some(MaximizationTargets::HP))
        .build();
    assert!(search_paths(None, 1000, 500, nothing, GameModes::Clash, &Vec::new(), 1, &sk).is_empty());
}

#[test]
fn a_catalog_is_sound_when_each_of_its_units_is() {
    let mut immune = hussars();
    immune.damage_resistances = vec![("Musket".to_string(), 100)];
    assert!(catalog_is_sound(&[]));
    assert!(catalog_is_sound(&[line(), dragoons(), skirmishers()]));
    assert!(!catalog_is_sound(&[line(), immune, skirmishers()]));
}

#[test]
fn each_round_is_cut_below_the_value_of_the_round_before() {
    let catalog = vec![line(), dragoons()];
    let found = optimize_k(
        &Constraint::default(),
        &Budget { gold: 100, manpower: 1000 },
        &catalog,
        MaximizationTargets::HP,
        10,
        2,
        GameModes::Clash,
        &skirmishers(),
    );
    let scores: Vec<i32> = found.iter().map(|army| army.get_total_hp()).collect();
    assert_eq!(scores, vec![2000, 1500, 1000, 500, 0]);
    let again = optimize_k(
        &Constraint::default(),
        &Budget { gold: 100, manpower: 1000 },
        &catalog,
        MaximizationTargets::HP,
        2,
        2,
        GameModes::Clash,
        &skirmishers(),
    );
    assert_eq!(rosters(&again), rosters(&found[..2]));
}
