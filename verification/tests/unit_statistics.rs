use army_optimizer::{RangedBand, RangedStats, Unit, UnitStats, UnitTypes};

fn stats(gold: i32, manpower: i32, hp: i32) -> UnitStats {
    UnitStats {
        manpower_cost: manpower,
        gold_cost: gold,
        hp,
        organization: 60,
        stamina: None,
        melee_attack: 12,
        melee_defense: 8,
        charge_penetration: 0,
        charge_resistance: 0,
        ranged_stats: None,
        has_skirmishers: false,
    }
}

fn musketeers() -> Unit {
    let mut unit_stats = stats(50, 125, 1000);
    unit_stats.ranged_stats = Some(RangedStats::new(&[RangedBand::new(10, 0, 100, 0, -50, 3)]));
    Unit {
        name: "Musketeers".to_string(),
        unit_type: UnitTypes::Infantry,
        unit_stats,
        damage_resistances: vec![
            ("Musket".to_string(), 50),
            ("Bayonet".to_string(), 30),
            ("Musket".to_string(), 10),
        ],
    }
}

fn pikemen() -> Unit {
    Unit {
        name: "Pikemen".to_string(),
        unit_type: UnitTypes::Infantry,
        unit_stats: stats(30, 100, 700),
        damage_resistances: Vec::new(),
    }
}

#[test]
fn resistance_is_that_of_the_first_entry_under_the_source() {
    let unit = musketeers();
    assert_eq!(unit.get_damage_modifier("Musket"), 50);
    assert_eq!(unit.get_damage_modifier("Bayonet"), 30);
}

#[test]
fn resistance_against_an_unlisted_source_is_zero() {
    assert_eq!(musketeers().get_damage_modifier("Cavalry Sword"), 0);
    assert_eq!(pikemen().get_damage_modifier("Musket"), 0);
}

#[test]
fn effective_hit_points_scale_with_resistance() {
    let unit = musketeers();
    assert_eq!(unit.get_ehp_vs_src("Musket"), 2000);
    assert_eq!(unit.get_ehp_vs_src("Bayonet"), 1428);
    assert_eq!(unit.get_ehp_vs_src("Cavalry Sword"), 1000);
    assert_eq!(pikemen().get_ehp_vs_src("Musket"), 700);
}

#[test]
fn effective_hit_points_at_the_highest_resistance() {
    let mut unit = pikemen();
    unit.damage_resistances = vec![("Musket".to_string(), 99)];
    assert_eq!(unit.get_ehp_vs_src("Musket"), 70000);
    unit.unit_stats.hp = i32::MAX;
    assert_eq!(unit.get_ehp_vs_src("Musket"), i32::MAX);
}

#[test]
fn a_weakness_lowers_effective_hit_points() {
    let mut unit = pikemen();
    unit.damage_resistances = vec![("Musket".to_string(), -100)];
    assert_eq!(unit.get_ehp_vs_src("Musket"), 350);
}

#[test]
fn ranged_statistics_of_a_unit_without_a_profile_are_zero() {
    let unit = pikemen();
    assert_eq!(unit.get_damage_at_range(10), 0);
    assert_eq!(unit.get_dmg_over_band((0, 10)), 0);
    assert_eq!(unit.get_ranged_odp(10), 0);
    assert_eq!(unit.get_avg_odp_over_band((0, 10)), 0);
    assert_eq!(unit.get_ranged_org_damage(1000, 10), 0);
}

#[test]
fn ranged_statistics_of_a_unit_follow_its_profile() {
    let unit = musketeers();
    assert_eq!(unit.get_damage_at_range(50), 7);
    assert_eq!(unit.get_dmg_over_band((0, 4)), 9);
    assert_eq!(unit.get_dmg_over_band((50, 50)), 7);
    assert_eq!(unit.get_dmg_over_band((4, 0)), 0);
    assert_eq!(unit.get_ranged_odp(50), 21);
    assert_eq!(unit.get_avg_odp_over_band((0, 4)), 27);
}

#[test]
fn melee_organization_damage() {
    assert_eq!(Unit::ORGANIZATION_DMG_RATIO_MELEE, 240);
    let unit = musketeers();
    // 240 * 12 / 1000 * 10
    assert_eq!(unit.get_melee_org_damage(1000), 28);
    assert_eq!(unit.get_melee_org_damage(12), 2400);
    assert_eq!(unit.get_melee_org_damage(-1000), -28);
}

#[test]
fn organization_damage_on_a_target_without_hit_points() {
    let mut unit = musketeers();
    assert_eq!(unit.get_melee_org_damage(0), i32::MAX);
    assert_eq!(unit.get_ranged_org_damage(0, 50), i32::MAX);
    assert_eq!(unit.get_ranged_org_damage(0, 500), 0);
    unit.unit_stats.melee_attack = 0;
    assert_eq!(unit.get_melee_org_damage(0), 0);
    unit.unit_stats.melee_attack = -3;
    assert_eq!(unit.get_melee_org_damage(0), i32::MIN);
}

#[test]
fn ranged_organization_damage() {
    let unit = musketeers();
    // ratio 3, damage 7 at range 50: 3 * 7 * 10 / 100
    assert_eq!(unit.get_ranged_org_damage(100, 50), 2);
    assert_eq!(unit.get_ranged_org_damage(10, 50), 21);
    assert_eq!(unit.get_ranged_org_damage(10, 0), 30);
}

#[test]
fn a_copy_of_a_unit_holds_the_same_values() {
    let unit = musketeers();
    let copy = unit.clone();
    assert_eq!(copy.name, unit.name);
    assert_eq!(copy.unit_type, unit.unit_type);
    assert_eq!(copy.damage_resistances, unit.damage_resistances);
    assert_eq!(copy.unit_stats.hp, 1000);
    assert_eq!(copy.unit_stats.gold_cost, 50);
    assert_eq!(copy.get_damage_at_range(50), 7);
}
