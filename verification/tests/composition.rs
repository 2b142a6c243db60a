use army_optimizer::{
    ArmyComposition, DamageResistanceTemplates, GameModes, RangedBand, RangedStats, Templates,
    Unit, UnitStats, UnitTemplate, UnitTypes,
};

fn stats(gold: i32, manpower: i32, hp: i32, escorted: bool) -> UnitStats {
    UnitStats {
        manpower_cost: manpower,
        gold_cost: gold,
        hp,
        organization: 60,
        stamina: Some(5),
        melee_attack: 10,
        melee_defense: 4,
        charge_penetration: 1,
        charge_resistance: 2,
        ranged_stats: None,
        has_skirmishers: escorted,
    }
}

fn unit(name: &str, unit_type: UnitTypes, unit_stats: UnitStats) -> Unit {
    Unit { name: name.to_string(), unit_type, unit_stats, damage_resistances: Vec::new() }
}

fn line() -> Unit {
    unit("Line Infantry", UnitTypes::Infantry, stats(50, 125, 1000, false))
}

fn dragoons() -> Unit {
    unit("Dragoons", UnitTypes::Cavalry, stats(40, 100, 500, true))
}

fn grenadiers() -> Unit {
    let mut unit_stats = stats(70, 150, 1200, true);
    unit_stats.melee_attack = 25;
    unit_stats.melee_defense = 9;
    unit("Grenadiers", UnitTypes::Infantry, unit_stats)
}

fn guns() -> Unit {
    let mut unit_stats = stats(120, 80, 300, false);
    unit_stats.ranged_stats = Some(RangedStats::new(&[RangedBand::new(10, 0, 100, 0, -50, 3)]));
    let mut guns = unit("6-lb Foot Artillery", UnitTypes::Artillery, unit_stats);
    guns.damage_resistances = vec![("Musket".to_string(), 50)];
    guns
}

fn skirmishers() -> Unit {
    let mut unit_stats = stats(0, 0, 100, false);
    unit_stats.melee_attack = 3;
    unit_stats.melee_defense = 1;
    unit_stats.organization = 20;
    unit("Skirmishers", UnitTypes::SkirmishInfantry, unit_stats)
}

fn army(mode: GameModes) -> ArmyComposition {
    ArmyComposition::new(mode, skirmishers())
}

fn roster(army: &ArmyComposition) -> Vec<(String, i32)> {
    army.unit_roster.iter().map(|(unit, count)| (unit.name.clone(), *count)).collect()
}

fn entry(name: &str, count: i32) -> (String, i32) {
    (name.to_string(), count)
}

#[test]
fn mode_fixes_the_caps_and_the_escort_ratio() {
    assert_eq!(GameModes::Clash.get_maximum_rifles(), 3);
    assert_eq!(GameModes::Combat.get_maximum_rifles(), 4);
    assert_eq!(GameModes::Battle.get_maximum_rifles(), 6);
    assert_eq!(GameModes::GrandBattle.get_maximum_rifles(), 8);
    assert_eq!(GameModes::Clash.get_maximum_rockets(), 1);
    assert_eq!(GameModes::Combat.get_maximum_rockets(), 1);
    assert_eq!(GameModes::Battle.get_maximum_rockets(), 2);
    assert_eq!(GameModes::GrandBattle.get_maximum_rockets(), 2);
    assert_eq!(GameModes::Clash.get_skirmisher_ratio(), (1, 4));
    assert_eq!(GameModes::Combat.get_skirmisher_ratio(), (4, 8));
    assert_eq!(GameModes::Battle.get_skirmisher_ratio(), (2, 5));
    assert_eq!(GameModes::GrandBattle.get_skirmisher_ratio(), (1, 3));
}

#[test]
fn a_new_composition_is_empty() {
    let army = army(GameModes::Clash);
    assert_eq!(army.game_mode, GameModes::Clash);
    assert!(army.unit_roster.is_empty());
    assert_eq!(army.get_gold_cost(), 0);
    assert_eq!(army.get_total_hp(), 0);
    assert_eq!(army.get_unit_name_count("Skirmishers"), 0);
}

#[test]
fn adding_a_unit_twice_counts_it_twice_in_one_entry() {
    let mut army = army(GameModes::Clash);
    army.add_unit(&line());
    army.add_unit(&line());
    assert_eq!(roster(&army), vec![entry("Line Infantry", 2)]);
}

#[test]
fn sums_weigh_each_template_by_its_count() {
    let mut army = army(GameModes::Clash);
    army.add_units(&line(), 3);
    army.add_units(&guns(), 2);
    assert_eq!(army.get_gold_cost(), 3 * 50 + 2 * 120);
    assert_eq!(army.get_manpower_cost(), 3 * 125 + 2 * 80);
    assert_eq!(army.get_total_hp(), 3 * 1000 + 2 * 300);
    assert_eq!(army.get_total_organization(), 5 * 60);
    assert_eq!(army.get_melee_attack(), 5 * 10);
    assert_eq!(army.get_melee_defense(), 5 * 4);
    assert_eq!(army.get_unit_type_count(UnitTypes::Infantry), 3);
    assert_eq!(army.get_unit_type_count(UnitTypes::Artillery), 2);
    assert_eq!(army.get_unit_type_count(UnitTypes::Cavalry), 0);
    assert_eq!(army.get_unit_name_count("Line Infantry"), 3);
    assert_eq!(army.get_unit_name_count("Hussars"), 0);
}

#[test]
fn sums_count_the_escort_units_in() {
    let mut army = army(GameModes::Clash);
    army.add_units(&dragoons(), 9);
    assert_eq!(roster(&army), vec![entry("Dragoons", 9), entry("Skirmishers", 2)]);
    assert_eq!(army.get_total_hp(), 9 * 500 + 2 * 100);
    assert_eq!(army.get_melee_attack(), 9 * 10 + 2 * 3);
    assert_eq!(army.get_melee_defense(), 9 * 4 + 2);
    assert_eq!(army.get_total_organization(), 9 * 60 + 2 * 20);
    assert_eq!(army.get_gold_cost(), 9 * 40);
    assert_eq!(army.get_unit_type_count(UnitTypes::SkirmishInfantry), 2);
}

#[test]
fn melee_by_category_counts_the_listed_categories_only() {
    let mut army = army(GameModes::Clash);
    army.add_units(&line(), 3);
    army.add_units(&grenadiers(), 2);
    army.add_units(&dragoons(), 4);
    assert_eq!(army.get_melee_attack_unit_types(&[UnitTypes::Infantry]), 3 * 10 + 2 * 25);
    assert_eq!(army.get_melee_defense_unit_types(&[UnitTypes::Infantry]), 3 * 4 + 2 * 9);
    assert_eq!(army.get_melee_attack_unit_types(&[UnitTypes::Cavalry]), 40);
    assert_eq!(
        army.get_melee_attack_unit_types(&[UnitTypes::Cavalry, UnitTypes::Infantry]),
        120
    );
    assert_eq!(army.get_melee_attack_unit_types(&[UnitTypes::SkirmishInfantry]), 3);
    assert_eq!(army.get_melee_attack_unit_types(&[]), 0);
    assert_eq!(army.get_melee_attack(), 123);
}

#[test]
fn ranged_sums_follow_the_profiles() {
    let mut army = army(GameModes::Clash);
    army.add_units(&guns(), 2);
    army.add_units(&line(), 3);
    assert_eq!(army.get_ranged_damage_at_range(50), 14);
    assert_eq!(army.get_ranged_damage_at_range(0), 20);
    assert_eq!(army.get_ranged_damage_at_range(101), 0);
    assert_eq!(army.get_average_damage_over_band((0, 4)), 18);
    assert_eq!(army.get_average_damage_over_band((50, 50)), 14);
    assert_eq!(army.get_average_damage_over_band((4, 0)), 0);
    assert_eq!(army.get_total_odp_at_rng(50), 42);
    assert_eq!(army.get_avg_odp_over_band((0, 4)), 54);
}

#[test]
fn effective_hit_points_are_summed_over_the_roster() {
    let mut army = army(GameModes::Clash);
    army.add_units(&guns(), 2);
    army.add_units(&line(), 3);
    assert_eq!(army.get_ehp_vs_source("Musket"), 2 * 600 + 3 * 1000);
    assert_eq!(army.get_ehp_vs_source("Bayonet"), 2 * 300 + 3 * 1000);
}

#[test]
fn a_sum_that_leaves_the_range_is_held_at_the_limit() {
    let mut heavy = line();
    heavy.unit_stats.hp = i32::MAX;
    let mut army = army(GameModes::Clash);
    army.add_units(&heavy, 2);
    assert_eq!(army.get_total_hp(), i32::MAX);
    let mut army = self::army(GameModes::Clash);
    heavy.unit_stats.hp = i32::MIN;
    army.add_units(&heavy, 2);
    assert_eq!(army.get_total_hp(), i32::MIN);
}

#[test]
fn escort_count_follows_the_ratio_of_the_mode() {
    for (mode, expected) in [
        (GameModes::Clash, [0, 0, 0, 0, 1, 1, 1, 1, 2, 2, 2]),
        (GameModes::Combat, [0, 0, 0, 0, 0, 0, 0, 0, 4, 4, 4]),
        (GameModes::Battle, [0, 0, 0, 0, 0, 2, 2, 2, 2, 2, 4]),
        (GameModes::GrandBattle, [0, 0, 0, 1, 1, 1, 2, 2, 2, 3, 3]),
    ] {
        let mut army = army(mode);
        for bought in 0..expected.len() {
            assert_eq!(army.get_unit_name_count("Skirmishers"), expected[bought]);
            assert_eq!(army.get_unit_name_count("Dragoons"), bought as i32);
            army.add_unit(&dragoons());
        }
    }
}

#[test]
fn escort_count_follows_all_escorted_units_together() {
    let mut army = army(GameModes::Clash);
    army.add_units(&dragoons(), 3);
    army.add_units(&line(), 5);
    assert_eq!(army.get_unit_name_count("Skirmishers"), 0);
    army.add_units(&grenadiers(), 2);
    assert_eq!(army.get_unit_name_count("Skirmishers"), 1);
    army.add_units(&grenadiers(), 3);
    assert_eq!(army.get_unit_name_count("Skirmishers"), 2);
}

#[test]
fn no_escort_entry_without_escorts() {
    let mut army = army(GameModes::Clash);
    army.add_units(&dragoons(), 3);
    assert_eq!(roster(&army), vec![entry("Dragoons", 3)]);
    army.add_unit(&dragoons());
    assert_eq!(roster(&army), vec![entry("Dragoons", 4), entry("Skirmishers", 1)]);
    army.remove_unit(&dragoons());
    assert_eq!(roster(&army), vec![entry("Dragoons", 3)]);
}

#[test]
fn the_escort_entry_moves_to_the_end_when_set_anew() {
    let mut army = army(GameModes::Clash);
    army.add_units(&dragoons(), 4);
    army.add_unit(&line());
    assert_eq!(
        roster(&army),
        vec![entry("Dragoons", 4), entry("Skirmishers", 1), entry("Line Infantry", 1)]
    );
    army.add_unit(&dragoons());
    assert_eq!(
        roster(&army),
        vec![entry("Dragoons", 5), entry("Line Infantry", 1), entry("Skirmishers", 1)]
    );
}

#[test]
fn removing_the_last_unit_of_an_entry_takes_the_entry_out() {
    let mut army = army(GameModes::Clash);
    army.add_units(&line(), 2);
    army.add_unit(&guns());
    army.remove_unit(&line());
    assert_eq!(roster(&army), vec![entry("Line Infantry", 1), entry("6-lb Foot Artillery", 1)]);
    army.remove_unit(&line());
    assert_eq!(roster(&army), vec![entry("6-lb Foot Artillery", 1)]);
}

#[test]
fn removing_a_unit_that_is_not_there_changes_nothing() {
    let mut army = army(GameModes::Clash);
    army.add_units(&line(), 2);
    army.remove_unit(&guns());
    assert_eq!(roster(&army), vec![entry("Line Infantry", 2)]);
}

#[test]
fn adding_then_removing_restores_the_other_entries() {
    let mut army = army(GameModes::Clash);
    army.add_units(&dragoons(), 7);
    army.add_units(&line(), 2);
    army.add_units(&guns(), 1);
    let before: Vec<(String, i32)> =
        roster(&army).into_iter().filter(|(name, _)| name != "Skirmishers").collect();
    for unit in [dragoons(), line(), guns(), grenadiers()] {
        army.add_unit(&unit);
        army.remove_unit(&unit);
        let after: Vec<(String, i32)> =
            roster(&army).into_iter().filter(|(name, _)| name != "Skirmishers").collect();
        assert_eq!(after, before);
        assert_eq!(army.get_unit_name_count("Skirmishers"), 1);
    }
}

#[test]
fn adding_an_escorted_unit_sets_the_escorts_anew_each_way() {
    let mut army = army(GameModes::Clash);
    army.add_units(&dragoons(), 7);
    assert_eq!(army.get_unit_name_count("Skirmishers"), 1);
    army.add_unit(&dragoons());
    assert_eq!(army.get_unit_name_count("Skirmishers"), 2);
    army.remove_unit(&dragoons());
    assert_eq!(army.get_unit_name_count("Skirmishers"), 1);
}

#[test]
fn recalculation_replaces_a_stale_escort_entry() {
    let mut army = army(GameModes::Clash);
    army.add_units(&dragoons(), 8);
    army.add_units(&skirmishers(), 5);
    assert_eq!(army.get_unit_name_count("Skirmishers"), 7);
    army.force_skirmisher_recalculation();
    assert_eq!(roster(&army), vec![entry("Dragoons", 8), entry("Skirmishers", 2)]);
}

#[test]
fn merging_adds_the_counts_name_by_name() {
    let mut first = army(GameModes::Clash);
    first.add_units(&line(), 3);
    first.add_units(&guns(), 1);
    let mut second = army(GameModes::Clash);
    second.add_units(&guns(), 2);
    second.add_units(&grenadiers(), 1);
    let merged = first.merge_with(&second);
    assert_eq!(
        roster(&merged),
        vec![entry("Line Infantry", 3), entry("6-lb Foot Artillery", 3), entry("Grenadiers", 1)]
    );
    assert_eq!(roster(&first), vec![entry("Line Infantry", 3), entry("6-lb Foot Artillery", 1)]);
}

#[test]
fn merging_sets_the_escorts_from_the_units_of_both() {
    let mut first = army(GameModes::Clash);
    first.add_units(&dragoons(), 3);
    let mut second = army(GameModes::Clash);
    second.add_units(&dragoons(), 3);
    second.add_units(&grenadiers(), 3);
    assert_eq!(first.get_unit_name_count("Skirmishers"), 0);
    assert_eq!(second.get_unit_name_count("Skirmishers"), 1);
    let merged = first.merge_with(&second);
    assert_eq!(merged.get_unit_name_count("Skirmishers"), 2);
    assert_eq!(
        roster(&merged),
        vec![entry("Dragoons", 6), entry("Grenadiers", 3), entry("Skirmishers", 2)]
    );
}

#[test]
fn merging_in_either_order_gives_the_same_sums() {
    let mut first = army(GameModes::Battle);
    first.add_units(&dragoons(), 3);
    first.add_units(&line(), 2);
    let mut second = army(GameModes::Battle);
    second.add_units(&guns(), 2);
    second.add_units(&dragoons(), 4);
    second.add_units(&grenadiers(), 6);
    let one = first.merge_with(&second);
    let other = second.merge_with(&first);
    assert_eq!(one.get_gold_cost(), other.get_gold_cost());
    assert_eq!(one.get_manpower_cost(), other.get_manpower_cost());
    assert_eq!(one.get_total_hp(), other.get_total_hp());
    assert_eq!(one.get_total_organization(), other.get_total_organization());
    assert_eq!(one.get_melee_attack(), other.get_melee_attack());
    assert_eq!(one.get_melee_defense(), other.get_melee_defense());
    assert_eq!(one.get_unit_name_count("Skirmishers"), 4);
    assert_eq!(other.get_unit_name_count("Skirmishers"), 4);
    assert_eq!(one.get_total_hp(), 7 * 500 + 2 * 1000 + 2 * 300 + 6 * 1200 + 4 * 100);
}

#[test]
fn merging_three_gives_the_same_sums_in_either_grouping() {
    let mut first = army(GameModes::GrandBattle);
    first.add_units(&dragoons(), 2);
    let mut second = army(GameModes::GrandBattle);
    second.add_units(&grenadiers(), 2);
    second.add_units(&line(), 1);
    let mut third = army(GameModes::GrandBattle);
    third.add_units(&dragoons(), 2);
    third.add_units(&guns(), 1);
    let left = first.merge_with(&second).merge_with(&third);
    let right = first.merge_with(&second.merge_with(&third));
    assert_eq!(left.get_gold_cost(), right.get_gold_cost());
    assert_eq!(left.get_manpower_cost(), right.get_manpower_cost());
    assert_eq!(left.get_total_hp(), right.get_total_hp());
    assert_eq!(left.get_total_organization(), right.get_total_organization());
    assert_eq!(left.get_melee_attack(), right.get_melee_attack());
    assert_eq!(left.get_melee_defense(), right.get_melee_defense());
    assert_eq!(left.get_unit_name_count("Skirmishers"), 2);
    assert_eq!(right.get_unit_name_count("Skirmishers"), 2);
}

#[test]
fn a_count_is_held_at_the_top_of_the_range() {
    let mut army = army(GameModes::Clash);
    army.unit_roster.push((line(), i32::MAX - 1));
    army.add_unit(&line());
    assert_eq!(army.get_unit_name_count("Line Infantry"), i32::MAX);
    army.add_unit(&line());
    assert_eq!(army.get_unit_name_count("Line Infantry"), i32::MAX);
}

#[test]
fn a_copy_of_a_composition_holds_the_same_roster() {
    let mut army = army(GameModes::Combat);
    army.add_units(&dragoons(), 9);
    let copy = army.clone();
    assert_eq!(copy.game_mode, GameModes::Combat);
    assert_eq!(roster(&copy), roster(&army));
    assert_eq!(copy.skirmisher.name, "Skirmishers");
}

fn catalog() -> (Templates, DamageResistanceTemplates) {
    let template = |unit: Unit| UnitTemplate {
        name: unit.name,
        unit_type: unit.unit_type,
        unit_stats: unit.unit_stats,
    };
    let templates = Templates {
        units: vec![
            template(line()),
            template(dragoons()),
            template(guns()),
            template(skirmishers()),
        ],
    };
    let resistances = DamageResistanceTemplates {
        damage_resistances: vec![
            ("Dragoons".to_string(), vec![("Musket".to_string(), 20)]),
            (
                "6-lb Foot Artillery".to_string(),
                vec![("Musket".to_string(), 50), ("Bayonet".to_string(), -10)],
            ),
        ],
    };
    (templates, resistances)
}

#[test]
fn units_are_added_by_their_name_in_the_catalog() {
    let (templates, resistances) = catalog();
    let escort = templates.get_unit_by_name(&resistances, "Skirmishers");
    let mut army = ArmyComposition::new(GameModes::Clash, escort);
    army.add_unit_by_name(&templates, &resistances, "Line Infantry");
    army.add_units_by_name(&templates, &resistances, "Dragoons", 4);
    assert_eq!(
        roster(&army),
        vec![entry("Line Infantry", 1), entry("Dragoons", 4), entry("Skirmishers", 1)]
    );
    assert_eq!(army.get_ehp_vs_source("Musket"), 1000 + 4 * 625 + 100);
}

#[test]
fn summary_holds_the_figures_of_a_report() {
    let mut army = army(GameModes::Clash);
    army.add_units(&guns(), 2);
    army.add_units(&line(), 3);
    army.add_units(&dragoons(), 4);
    let figures = army.summary();
    assert_eq!(figures.gold, 2 * 120 + 3 * 50 + 4 * 40);
    assert_eq!(figures.manpower, 2 * 80 + 3 * 125 + 4 * 100);
    assert_eq!(figures.average_damage, army.get_average_damage_over_band((20, 40)));
    assert_eq!(figures.average_damage, 16);
    assert_eq!(figures.average_odp, 48);
    assert_eq!(figures.melee_attack, 93);
    assert_eq!(figures.melee_defense, 37);
    assert_eq!(figures.hp, 600 + 3000 + 2000 + 100);
    assert_eq!(figures.organization, 9 * 60 + 20);
    assert_eq!(figures.infantry_attack, 30);
    assert_eq!(figures.infantry_defense, 12);
    assert_eq!(figures.cavalry_attack, 40);
    assert_eq!(figures.cavalry_defense, 16);
}

#[test]
fn a_roster_built_by_adding_is_sound() {
    let mut army = army(GameModes::Clash);
    assert!(army.roster_is_sound());
    army.add_units(&dragoons(), 9);
    army.add_units(&guns(), 2);
    army.remove_unit(&guns());
    assert!(army.roster_is_sound());
    assert!(army.data_is_sound());
    assert!(army.merge_with(&army).roster_is_sound());
}

#[test]
fn a_roster_with_a_name_twice_or_an_empty_entry_is_not_sound() {
    let mut twice = army(GameModes::Clash);
    twice.unit_roster.push((line(), 1));
    twice.unit_roster.push((guns(), 1));
    twice.unit_roster.push((line(), 2));
    assert!(!twice.roster_is_sound());
    let mut empty = army(GameModes::Clash);
    empty.unit_roster.push((line(), 0));
    assert!(!empty.roster_is_sound());
    let mut negative = army(GameModes::Clash);
    negative.unit_roster.push((guns(), 3));
    negative.unit_roster.push((line(), -1));
    assert!(!negative.roster_is_sound());
}

#[test]
fn data_that_cannot_be_computed_with_is_not_sound() {
    let mut immune = line();
    immune.damage_resistances = vec![("Musket".to_string(), 99), ("Bayonet".to_string(), 100)];
    let mut flat = guns();
    flat.unit_stats.ranged_stats = Some(RangedStats::new(&[
        RangedBand::new(10, 0, 100, 0, -50, 3),
        RangedBand::new(10, 120, 120, 0, 0, 3),
    ]));
    assert!(line().is_sound());
    assert!(guns().is_sound());
    assert!(!immune.is_sound());
    assert!(!flat.is_sound());
    let mut army = army(GameModes::Clash);
    army.add_unit(&guns());
    assert!(army.data_is_sound());
    army.add_unit(&immune);
    assert!(!army.data_is_sound());
    let mut army = ArmyComposition::new(GameModes::Clash, flat);
    army.add_unit(&line());
    assert!(!army.data_is_sound());
}

#[test]
fn merging_armies_of_different_modes_takes_the_mode_of_the_first() {
    let mut first = army(GameModes::Clash);
    first.add_units(&dragoons(), 3);
    let mut second = army(GameModes::GrandBattle);
    second.add_units(&dragoons(), 5);
    second.add_units(&line(), 1);
    let mut third = army(GameModes::Combat);
    third.add_units(&grenadiers(), 4);
    assert_eq!(second.get_unit_name_count("Skirmishers"), 1);
    let merged = first.merge_with(&second);
    assert_eq!(merged.game_mode, GameModes::Clash);
    assert_eq!(merged.get_unit_name_count("Skirmishers"), 2);
    let left = first.merge_with(&second).merge_with(&third);
    let right = first.merge_with(&second.merge_with(&third));
    assert_eq!(left.game_mode, GameModes::Clash);
    assert_eq!(right.game_mode, GameModes::Clash);
    assert_eq!(left.get_unit_name_count("Skirmishers"), 3);
    assert_eq!(right.get_unit_name_count("Skirmishers"), 3);
    assert_eq!(left.get_total_hp(), right.get_total_hp());
    assert_eq!(left.get_gold_cost(), right.get_gold_cost());
    assert_eq!(left.get_melee_attack(), right.get_melee_attack());
    assert_eq!(left.get_unit_name_count("Dragoons"), 8);
    assert_eq!(right.get_unit_name_count("Dragoons"), 8);
}

#[test]
fn the_escort_rule_stays_when_a_unit_without_escort_comes_or_goes() {
    let mut army = army(GameModes::Clash);
    army.add_units(&dragoons(), 9);
    army.add_unit(&line());
    assert_eq!(army.get_unit_name_count("Skirmishers"), 2);
    army.add_unit(&guns());
    army.remove_unit(&line());
    army.remove_unit(&line());
    assert_eq!(army.get_unit_name_count("Skirmishers"), 2);
    army.remove_unit(&dragoons());
    army.remove_unit(&dragoons());
    assert_eq!(army.get_unit_name_count("Skirmishers"), 1);
}
