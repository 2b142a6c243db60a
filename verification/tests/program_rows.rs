use army_optimizer::program::{
    add_budget, add_escort_rule, add_exclusions, build_program, variable_bounds,
};
use army_optimizer::{
    add_stat_floor_with_skirm, add_type_bounds, cap_named, Budget, Constraint, ConstraintBuilder,
    GameModes, IntegerProgram, LinearConstraint, MaximizationTargets, RangedBand, RangedStats,
    Relation, Unit, UnitStats, UnitTypes,
};

fn stats(gold: i32, manpower: i32, hp: i32, attack: i32, defense: i32, escorted: bool) -> UnitStats {
    UnitStats {
        manpower_cost: manpower,
        gold_cost: gold,
        hp,
        organization: 60,
        stamina: None,
        melee_attack: attack,
        melee_defense: defense,
        charge_penetration: 0,
        charge_resistance: 0,
        ranged_stats: None,
        has_skirmishers: escorted,
    }
}

fn unit(name: &str, unit_type: UnitTypes, unit_stats: UnitStats) -> Unit {
    Unit { name: name.to_string(), unit_type, unit_stats, damage_resistances: Vec::new() }
}

fn skirmishers() -> Unit {
    let mut unit_stats = stats(0, 0, 100, 3, 1, false);
    unit_stats.ranged_stats = Some(RangedStats::new(&[RangedBand::new(4, 0, 200, 0, 0, 2)]));
    let mut escort = unit("Skirmishers", UnitTypes::SkirmishInfantry, unit_stats);
    escort.damage_resistances = vec![("Musket".to_string(), 75)];
    escort
}

/// Line infantry, dragoons (escorted), rifles (escorted), a battery.
fn catalog() -> Vec<Unit> {
    let mut guns = stats(120, 80, 300, 2, 1, false);
    guns.ranged_stats = Some(RangedStats::new(&[RangedBand::new(10, 0, 100, 0, -50, 3)]));
    let mut guns = unit("6-lb Foot Artillery", UnitTypes::Artillery, guns);
    guns.damage_resistances = vec![("Musket".to_string(), 50)];
    vec![
        unit("Line Infantry", UnitTypes::Infantry, stats(50, 125, 1000, 10, 4, false)),
        unit("Dragoons", UnitTypes::Cavalry, stats(40, 100, 500, 12, 5, true)),
        unit("Rifles", UnitTypes::Infantry, stats(90, 60, 400, 6, 2, true)),
        guns,
    ]
}

fn empty() -> IntegerProgram {
    IntegerProgram { upper_bounds: Vec::new(), objective: Vec::new(), constraints: Vec::new() }
}

fn rows(program: &IntegerProgram) -> Vec<(Vec<i32>, Relation, i32)> {
    program
        .constraints
        .iter()
        .map(|row: &LinearConstraint| (row.coefficients.clone(), row.relation, row.bound))
        .collect()
}

#[test]
fn the_budget_is_two_rows_on_the_units_bought() {
    let mut program = empty();
    add_budget(&mut program, &catalog(), &Budget { gold: 500, manpower: 1000 });
    assert_eq!(
        rows(&program),
        vec![
            (vec![50, 40, 90, 120, 0, 0], Relation::AtMost, 500),
            (vec![125, 100, 60, 80, 0, 0], Relation::AtMost, 1000),
        ]
    );
}

#[test]
fn the_escort_rule_is_three_rows() {
    let mut program = empty();
    add_escort_rule(&mut program, &catalog(), GameModes::Battle);
    assert_eq!(
        rows(&program),
        vec![
            (vec![0, 1, 1, 0, -5, 0], Relation::AtLeast, 0),
            (vec![0, 1, 1, 0, -5, 0], Relation::AtMost, 4),
            (vec![0, 0, 0, 0, -2, 1], Relation::Exactly, 0),
        ]
    );
    let mut program = empty();
    add_escort_rule(&mut program, &catalog(), GameModes::Combat);
    assert_eq!(rows(&program)[1], (vec![0, 1, 1, 0, -8, 0], Relation::AtMost, 7));
    assert_eq!(rows(&program)[2], (vec![0, 0, 0, 0, -4, 1], Relation::Exactly, 0));
}

#[test]
fn category_bounds_come_in_a_fixed_order() {
    let constraint = ConstraintBuilder::new()
        .max_art(Some(6))
        .min_art(Some(5))
        .max_cav(Some(4))
        .min_cav(Some(3))
        .max_inf(Some(2))
        .min_inf(Some(1))
        .build();
    let mut program = empty();
    add_type_bounds(&mut program, &catalog(), &constraint);
    assert_eq!(
        rows(&program),
        vec![
            (vec![1, 0, 1, 0, 0, 0], Relation::AtLeast, 1),
            (vec![1, 0, 1, 0, 0, 0], Relation::AtMost, 2),
            (vec![0, 1, 0, 0, 0, 0], Relation::AtLeast, 3),
            (vec![0, 1, 0, 0, 0, 0], Relation::AtMost, 4),
            (vec![0, 0, 0, 1, 0, 0], Relation::AtLeast, 5),
            (vec![0, 0, 0, 1, 0, 0], Relation::AtMost, 6),
        ]
    );
}

#[test]
fn unset_category_bounds_add_no_row() {
    let mut program = empty();
    add_type_bounds(&mut program, &catalog(), &Constraint::default());
    assert!(program.constraints.is_empty());
    let constraint = ConstraintBuilder::new().max_cav(Some(4)).build();
    add_type_bounds(&mut program, &catalog(), &constraint);
    assert_eq!(rows(&program), vec![(vec![0, 1, 0, 0, 0, 0], Relation::AtMost, 4)]);
}

#[test]
fn a_cap_by_name_is_one_row() {
    let mut program = empty();
    cap_named(&mut program, &catalog(), "Rifles", 3);
    cap_named(&mut program, &catalog(), "Rocket battery", 0);
    assert_eq!(
        rows(&program),
        vec![
            (vec![0, 0, 1, 0, 0, 0], Relation::AtMost, 3),
            (vec![0, 0, 0, 0, 0, 0], Relation::AtMost, 0),
        ]
    );
}

#[test]
fn a_cap_below_zero_is_a_row_that_nothing_meets() {
    let mut program = empty();
    cap_named(&mut program, &catalog(), "Rifles", -1);
    assert_eq!(rows(&program), vec![(vec![0, 0, 1, 0, 0, 0], Relation::AtMost, -1)]);
}

#[test]
fn an_unset_cap_adds_no_row() {
    let program = build_program(
        &Constraint::default(),
        &Budget { gold: 500, manpower: 1000 },
        &catalog(),
        &MaximizationTargets::HP,
        10,
        GameModes::Clash,
        &skirmishers(),
        None,
    );
    assert_eq!(rows(&program).len(), 5);
    let capped = ConstraintBuilder::new().max_rockets(Some(-2)).build();
    let program = build_program(
        &capped,
        &Budget { gold: 500, manpower: 1000 },
        &catalog(),
        &MaximizationTargets::HP,
        10,
        GameModes::Clash,
        &skirmishers(),
        None,
    );
    assert_eq!(rows(&program).len(), 6);
    assert_eq!(rows(&program)[5], (vec![0, 0, 0, 0, 0, 0], Relation::AtMost, -2));
}

#[test]
fn units_outside_the_allow_list_are_kept_at_zero() {
    let catalog = catalog();
    let mut program = empty();
    add_exclusions(&mut program, &catalog, &[catalog[2].clone(), catalog[0].clone()]);
    assert_eq!(
        rows(&program),
        vec![
            (vec![0, 1, 0, 0, 0, 0], Relation::AtMost, 0),
            (vec![0, 0, 0, 1, 0, 0], Relation::AtMost, 0),
        ]
    );
    let mut program = empty();
    add_exclusions(&mut program, &catalog, &catalog);
    assert!(program.constraints.is_empty());
}

#[test]
fn floors_on_statistics_count_the_escorts_where_the_statistic_does() {
    let constraint = ConstraintBuilder::new()
        .min_hp(Some(9000))
        .min_damage_at_ranges(Some(vec![(30, 50), (12, 150)]))
        .min_ehp_vs_sources(Some(vec![("Musket".to_string(), 7000), ("Bayonet".to_string(), 1)]))
        .min_melee_damage(Some(77))
        .min_melee_dmg_for_types(Some(vec![(UnitTypes::Infantry, 20), (UnitTypes::Cavalry, 24)]))
        .min_melee_defense(Some(33))
        .min_melee_def_for_types(Some(vec![(UnitTypes::Artillery, 2)]))
        .min_gold_target(Some(400))
        .min_manpower_target(Some(900))
        .build();
    let mut program = empty();
    add_stat_floor_with_skirm(&mut program, &catalog(), &skirmishers(), &constraint);
    assert_eq!(
        rows(&program),
        vec![
            (vec![1000, 500, 400, 300, 0, 100], Relation::AtLeast, 9000),
            (vec![0, 0, 0, 7, 0, 4], Relation::AtLeast, 30),
            (vec![0, 0, 0, 0, 0, 4], Relation::AtLeast, 12),
            (vec![1000, 500, 400, 600, 0, 400], Relation::AtLeast, 7000),
            (vec![1000, 500, 400, 300, 0, 100], Relation::AtLeast, 1),
            (vec![10, 12, 6, 2, 0, 3], Relation::AtLeast, 77),
            (vec![10, 0, 6, 0, 0, 0], Relation::AtLeast, 20),
            (vec![0, 12, 0, 0, 0, 0], Relation::AtLeast, 24),
            (vec![4, 5, 2, 1, 0, 1], Relation::AtLeast, 33),
            (vec![0, 0, 0, 1, 0, 0], Relation::AtLeast, 2),
            (vec![50, 40, 90, 120, 0, 0], Relation::AtLeast, 400),
            (vec![125, 100, 60, 80, 0, 0], Relation::AtLeast, 900),
        ]
    );
}

#[test]
fn spend_floors_count_what_the_escorts_cost() {
    let mut escort = skirmishers();
    escort.unit_stats.gold_cost = 7;
    escort.unit_stats.manpower_cost = 9;
    let constraint =
        ConstraintBuilder::new().min_gold_target(Some(1)).min_manpower_target(Some(2)).build();
    let mut program = empty();
    add_stat_floor_with_skirm(&mut program, &catalog(), &escort, &constraint);
    assert_eq!(
        rows(&program),
        vec![
            (vec![50, 40, 90, 120, 0, 7], Relation::AtLeast, 1),
            (vec![125, 100, 60, 80, 0, 9], Relation::AtLeast, 2),
        ]
    );
}

#[test]
fn unset_floors_add_no_row() {
    let mut program = empty();
    add_stat_floor_with_skirm(&mut program, &catalog(), &skirmishers(), &Constraint::default());
    assert!(program.constraints.is_empty());
}

#[test]
fn rows_are_added_after_those_that_are_there() {
    let mut program = empty();
    cap_named(&mut program, &catalog(), "Rifles", 3);
    add_budget(&mut program, &catalog(), &Budget { gold: 1, manpower: 2 });
    assert_eq!(rows(&program).len(), 3);
    assert_eq!(rows(&program)[0], (vec![0, 0, 1, 0, 0, 0], Relation::AtMost, 3));
    assert_eq!(rows(&program)[2], (vec![125, 100, 60, 80, 0, 0], Relation::AtMost, 2));
}

#[test]
fn bounds_of_the_escort_variables_follow_the_hard_cap() {
    // two escorted units, hard cap 10: multiplier up to 20 / 5, escorts twice that
    assert_eq!(variable_bounds(&catalog(), 10, GameModes::Battle), vec![10, 10, 10, 10, 4, 8]);
    assert_eq!(variable_bounds(&catalog(), 10, GameModes::Clash), vec![10, 10, 10, 10, 5, 5]);
    assert_eq!(variable_bounds(&catalog(), 10, GameModes::Combat), vec![10, 10, 10, 10, 2, 8]);
    assert_eq!(variable_bounds(&catalog(), 0, GameModes::Clash), vec![0, 0, 0, 0, 0, 0]);
    assert_eq!(variable_bounds(&catalog(), -3, GameModes::Clash), vec![-3, -3, -3, -3, 0, 0]);
    assert_eq!(variable_bounds(&[], 10, GameModes::Clash), vec![0, 0]);
}

#[test]
fn the_program_of_a_search_holds_every_group_of_rows_in_order() {
    let catalog = catalog();
    let constraint = ConstraintBuilder::new()
        .min_inf(Some(5))
        .max_rifles(Some(2))
        .allowed_units(Some(vec![catalog[0].clone(), catalog[1].clone(), catalog[2].clone()]))
        .min_hp(Some(100))
        .build();
    let program = build_program(
        &constraint,
        &Budget { gold: 500, manpower: 1000 },
        &catalog,
        &MaximizationTargets::HP,
        10,
        GameModes::Clash,
        &skirmishers(),
        None,
    );
    assert_eq!(program.upper_bounds, vec![10, 10, 10, 10, 5, 5]);
    assert_eq!(program.objective, vec![1000, 500, 400, 300, 0, 100]);
    assert_eq!(
        rows(&program),
        vec![
            (vec![50, 40, 90, 120, 0, 0], Relation::AtMost, 500),
            (vec![125, 100, 60, 80, 0, 0], Relation::AtMost, 1000),
            (vec![0, 1, 1, 0, -4, 0], Relation::AtLeast, 0),
            (vec![0, 1, 1, 0, -4, 0], Relation::AtMost, 3),
            (vec![0, 0, 0, 0, -1, 1], Relation::Exactly, 0),
            (vec![1, 0, 1, 0, 0, 0], Relation::AtLeast, 5),
            (vec![0, 0, 1, 0, 0, 0], Relation::AtMost, 2),
            (vec![0, 0, 0, 1, 0, 0], Relation::AtMost, 0),
            (vec![1000, 500, 400, 300, 0, 100], Relation::AtLeast, 100),
        ]
    );
}

#[test]
fn after_a_solution_the_objective_is_cut_below_its_value() {
    let catalog = catalog();
    let program = build_program(
        &Constraint::default(),
        &Budget { gold: 500, manpower: 1000 },
        &catalog,
        &MaximizationTargets::MeleeAttack,
        10,
        GameModes::Clash,
        &skirmishers(),
        Some(90),
    );
    assert_eq!(program.objective, vec![10, 12, 6, 2, 0, 3]);
    assert_eq!(rows(&program).last().unwrap(), &(vec![10, 12, 6, 2, 0, 3], Relation::AtMost, 89));
    assert_eq!(rows(&program).len(), 6);
    let program = build_program(
        &Constraint::default(),
        &Budget { gold: 500, manpower: 1000 },
        &catalog,
        &MaximizationTargets::MeleeAttack,
        10,
        GameModes::Clash,
        &skirmishers(),
        Some(i32::MIN),
    );
    assert_eq!(rows(&program).last().unwrap().2, i32::MIN);
}
