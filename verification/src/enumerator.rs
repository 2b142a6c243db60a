//! The exhaustive search that stands in where no statistic is to be
//! maximized: a depth-first walk over the counts of the purchasable
//! units that keeps the compositions which breach no bound.

use vstd::prelude::*;
use crate::arith::{clamp_i32, sat_sub, saturating_difference};
use crate::army_composition::{
    armies_view, lemma_add_unit_data_wf, lemma_data_wf_supports, lemma_remove_unit_data_wf,
    ArmyComposition, ArmyView, GameModes,
};
use crate::constraint::{has_unit_named, lists_name, Constraint, ConstraintView};
use crate::program::{catalog_wf, rifles, rifles_name, rocket_battery, rockets_name};
use crate::unit_templates::units_view;
use crate::units::{Statistic, Unit, UnitView};

verus! {

/// A unit that has a price: its gold or its manpower cost is above 0.
pub open spec fn has_price(unit: UnitView) -> bool {
    unit.unit_stats.gold_cost > 0 || unit.unit_stats.manpower_cost > 0
}

/// A unit that may be bought: it has a price and, where an allow-list
/// is set, the list has its name.
pub open spec fn purchasable(unit: UnitView, allowed: Option<Seq<UnitView>>) -> bool {
    has_price(unit) && match allowed {
        Some(allowed) => lists_name(allowed, unit.name),
        None => true,
    }
}

/// The units of the catalog that may be bought, in order.
pub open spec fn purchasable_units(
    units: Seq<UnitView>,
    allowed: Option<Seq<UnitView>>,
) -> Seq<UnitView>
    decreases units.len(),
{
    if units.len() == 0 {
        units
    } else if purchasable(units.last(), allowed) {
        purchasable_units(units.drop_last(), allowed).push(units.last())
    } else {
        purchasable_units(units.drop_last(), allowed)
    }
}

/// What is kept of the catalog holds sound templates with a price.
pub proof fn lemma_purchasable_units(units: Seq<UnitView>, allowed: Option<Seq<UnitView>>)
    ensures
        purchasable_units(units, allowed).len() <= units.len(),
        catalog_wf(units) ==> catalog_wf(purchasable_units(units, allowed)),
        forall|i: int|
            0 <= i < purchasable_units(units, allowed).len() ==> purchasable(
                #[trigger] purchasable_units(units, allowed)[i],
                allowed,
            ),
    decreases units.len(),
{
    if units.len() > 0 {
        lemma_purchasable_units(units.drop_last(), allowed);
    }
}

/// The units of the catalog that may be bought.
pub fn select_purchasable(units: &[Unit], allowed: &Option<Vec<Unit>>) -> (kept: Vec<Unit>)
    ensures
        units_view(kept@) == purchasable_units(
            units_view(units@),
            crate::constraint::optional_units_view(*allowed),
        ),
        kept@.len() <= units@.len(),
{
    let ghost catalog = units_view(units@);
    let ghost listed = crate::constraint::optional_units_view(*allowed);
    let mut kept: Vec<Unit> = Vec::new();
    let mut i: usize = 0;
    while i < units.len()
        invariant
            i <= units.len(),
            catalog == units_view(units@),
            listed == crate::constraint::optional_units_view(*allowed),
            units_view(kept@) == purchasable_units(catalog.take(i as int), listed),
            kept@.len() <= i,
        decreases units.len() - i,
    {
        let unit = &units[i];
        proof {
            assert(catalog.take(i as int + 1).drop_last() == catalog.take(i as int));
            assert(catalog.take(i as int + 1).last() == unit@);
        }
        let priced: bool = unit.unit_stats.gold_cost > 0 || unit.unit_stats.manpower_cost > 0;
        let listed_here: bool = match allowed {
            Some(list) => has_unit_named(list.as_slice(), &unit.name),
            None => true,
        };
        if priced && listed_here {
            let ghost before = units_view(kept@);
            kept.push(unit.clone());
            assert(units_view(kept@) =~= before.push(unit@));
        }
        i += 1;
    }
    assert(catalog.take(i as int) == catalog);
    kept
}

/// The budget that bounds how often `unit` can still be bought: gold
/// for a unit that costs gold, manpower for one that does not.
pub open spec fn budget_left(unit: UnitView, manpower: i32, gold: i32) -> int {
    if unit.unit_stats.gold_cost > 0 {
        gold as int
    } else {
        manpower as int
    }
}

/// One more of `unit` can be bought: it has a price, both budgets
/// cover it, and the cap on rifles or on rocket batteries is not
/// reached where the unit is one of those.
pub open spec fn can_add(
    unit: UnitView,
    army: ArmyView,
    manpower: i32,
    gold: i32,
    maximum_rifles: i32,
    maximum_rockets: i32,
) -> bool {
    &&& has_price(unit)
    &&& sat_sub(gold as int, unit.unit_stats.gold_cost as int) >= 0
    &&& sat_sub(manpower as int, unit.unit_stats.manpower_cost as int) >= 0
    &&& if unit.name == rifles_name() {
        clamp_i32(army.name_count(rifles_name())) < maximum_rifles
    } else if unit.name == rockets_name() {
        clamp_i32(army.name_count(rockets_name())) < maximum_rockets
    } else {
        true
    }
}

/// The walk from one state of the search: the compositions found so
/// far with those that the walk adds, and the army as the walk leaves
/// it.
///
/// At a unit, the walk first buys one more of it and goes on from
/// there without moving on, where [`can_add`] allows, and takes the
/// unit back; then it moves on to the next unit.  Past the last unit
/// the army is kept if it breaches no bound.  The walk ends as soon as
/// `limit` compositions are found.
pub open spec fn explore(
    units: Seq<UnitView>,
    index: int,
    army: ArmyView,
    manpower: i32,
    gold: i32,
    maximum_rifles: i32,
    maximum_rockets: i32,
    c: ConstraintView,
    limit: nat,
    found: Seq<ArmyView>,
) -> (Seq<ArmyView>, ArmyView)
    decreases
            units.len() - index,
            if 0 <= index < units.len() {
                budget_left(units[index], manpower, gold)
            } else {
                0
            },
{
    if found.len() >= limit || index < 0 {
        (found, army)
    } else if index >= units.len() {
        if c.violates(army) {
            (found, army)
        } else {
            (found.push(army), army)
        }
    } else {
        let unit = units[index];
        let bought = if can_add(unit, army, manpower, gold, maximum_rifles, maximum_rockets) {
            let deeper = explore(
                units,
                index,
                army.add_unit(unit),
                sat_sub(manpower as int, unit.unit_stats.manpower_cost as int) as i32,
                sat_sub(gold as int, unit.unit_stats.gold_cost as int) as i32,
                maximum_rifles,
                maximum_rockets,
                c,
                limit,
                found,
            );
            (deeper.0, deeper.1.remove_unit(unit))
        } else {
            (found, army)
        };
        explore(
            units,
            index + 1,
            bought.1,
            manpower,
            gold,
            maximum_rifles,
            maximum_rockets,
            c,
            limit,
            bought.0,
        )
    }
}

/// What the walk finds: it keeps what was found before, adds only
/// compositions that breach no bound, and stops at the limit.
pub proof fn lemma_explore(
    units: Seq<UnitView>,
    index: int,
    army: ArmyView,
    manpower: i32,
    gold: i32,
    maximum_rifles: i32,
    maximum_rockets: i32,
    c: ConstraintView,
    limit: nat,
    found: Seq<ArmyView>,
)
    ensures
        ({
            let after = explore(
                units,
                index,
                army,
                manpower,
                gold,
                maximum_rifles,
                maximum_rockets,
                c,
                limit,
                found,
            ).0;
            &&& found.len() <= after.len()
            &&& after.len() <= limit || after.len() == found.len()
            &&& forall|j: int| 0 <= j < found.len() ==> after[j] == found[j]
            &&& forall|j: int| found.len() <= j < after.len() ==> !c.violates(#[trigger] after[j])
        }),
    decreases
            units.len() - index,
            if 0 <= index < units.len() {
                budget_left(units[index], manpower, gold)
            } else {
                0
            },
{
    if found.len() >= limit || index < 0 {
    } else if index >= units.len() {
    } else {
        let unit = units[index];
        if can_add(unit, army, manpower, gold, maximum_rifles, maximum_rockets) {
            let new_manpower = sat_sub(manpower as int, unit.unit_stats.manpower_cost as int) as i32;
            let new_gold = sat_sub(gold as int, unit.unit_stats.gold_cost as int) as i32;
            lemma_explore(
                units,
                index,
                army.add_unit(unit),
                new_manpower,
                new_gold,
                maximum_rifles,
                maximum_rockets,
                c,
                limit,
                found,
            );
            let deeper = explore(
                units,
                index,
                army.add_unit(unit),
                new_manpower,
                new_gold,
                maximum_rifles,
                maximum_rockets,
                c,
                limit,
                found,
            );
            lemma_explore(
                units,
                index + 1,
                deeper.1.remove_unit(unit),
                manpower,
                gold,
                maximum_rifles,
                maximum_rockets,
                c,
                limit,
                deeper.0,
            );
        } else {
            lemma_explore(
                units,
                index + 1,
                army,
                manpower,
                gold,
                maximum_rifles,
                maximum_rockets,
                c,
                limit,
                found,
            );
        }
    }
}

/// `unit` goes by `name`.
fn is_named(unit: &Unit, name: &str) -> (named: bool)
    ensures
        named == (unit@.name == name@),
{
    let owned: String = name.to_owned();
    unit.name == owned
}

/// Whether one more of `unit` can be bought.
fn addable(
    unit: &Unit,
    army: &ArmyComposition,
    manpower_budget: i32,
    gold_budget: i32,
    maximum_rifles: i32,
    maximum_rockets: i32,
) -> (allowed: bool)
    ensures
        allowed == can_add(
            unit@,
            army@,
            manpower_budget,
            gold_budget,
            maximum_rifles,
            maximum_rockets,
        ),
{
    let priced: bool = unit.unit_stats.gold_cost > 0 || unit.unit_stats.manpower_cost > 0;
    let new_gold: i32 = saturating_difference(gold_budget, unit.unit_stats.gold_cost);
    let new_manpower: i32 = saturating_difference(manpower_budget, unit.unit_stats.manpower_cost);
    let within_budget: bool = new_gold >= 0 && new_manpower >= 0;
    let mut special_limits_ok = true;
    if is_named(unit, rifles()) {
        if army.get_unit_name_count(rifles()) >= maximum_rifles {
            special_limits_ok = false;
        }
    } else if is_named(unit, rocket_battery()) {
        if army.get_unit_name_count(rocket_battery()) >= maximum_rockets {
            special_limits_ok = false;
        }
    }
    priced && within_budget && special_limits_ok
}

/// One walk of the search, from the unit at `unit_index` on.
pub fn find_combination_recursive(
    purchasable_units: &Vec<Unit>,
    unit_index: usize,
    current_composition: &mut ArmyComposition,
    valid_armies: &mut Vec<ArmyComposition>,
    manpower_budget: i32,
    gold_budget: i32,
    maximum_rifles: i32,
    maximum_rockets: i32,
    constraint: &Constraint,
    num_comps: usize,
)
    requires
        unit_index <= purchasable_units.len(),
        catalog_wf(units_view(purchasable_units@)),
        old(current_composition)@.wf(),
        old(current_composition)@.data_wf(),
    ensures
        (armies_view(final(valid_armies)@), final(current_composition)@) == explore(
            units_view(purchasable_units@),
            unit_index as int,
            old(current_composition)@,
            manpower_budget,
            gold_budget,
            maximum_rifles,
            maximum_rockets,
            constraint@,
            num_comps as nat,
            armies_view(old(valid_armies)@),
        ),
        final(current_composition)@.wf(),
        final(current_composition)@.data_wf(),
        (forall|j: int| 0 <= j < old(valid_armies)@.len() ==> (#[trigger] old(valid_armies)@[j])@.wf())
            ==> forall|j: int|
            0 <= j < final(valid_armies)@.len() ==> (#[trigger] final(valid_armies)@[j])@.wf(),
    decreases
            purchasable_units.len() - unit_index,
            if unit_index < purchasable_units.len() {
                budget_left(purchasable_units@[unit_index as int]@, manpower_budget, gold_budget)
            } else {
                0
            },
{
    let ghost catalog = units_view(purchasable_units@);
    if valid_armies.len() >= num_comps {
        return ;
    }
    if unit_index == purchasable_units.len() {
        proof {
            if let Some(floors) = constraint@.minimum_damage_at_ranges {
                assert forall|k: int| 0 <= k < floors.len() implies current_composition@.supports(
                    Statistic::DamageAt((#[trigger] floors[k]).1 as int),
                ) by {
                    lemma_data_wf_supports(
                        current_composition@,
                        Statistic::DamageAt(floors[k].1 as int),
                    );
                }
            }
        }
        if !constraint.army_violates(current_composition) {
            let ghost before = armies_view(valid_armies@);
            valid_armies.push(current_composition.clone());
            assert(armies_view(valid_armies@) =~= before.push(current_composition@));
        }
        return ;
    }
    let unit_to_try = &purchasable_units[unit_index];
    assert(catalog[unit_index as int] == unit_to_try@);
    if addable(
        unit_to_try,
        current_composition,
        manpower_budget,
        gold_budget,
        maximum_rifles,
        maximum_rockets,
    ) {
        proof {
            lemma_add_unit_data_wf(current_composition@, unit_to_try@);
        }
        current_composition.add_unit(unit_to_try);
        find_combination_recursive(
            purchasable_units,
            unit_index,
            current_composition,
            valid_armies,
            saturating_difference(manpower_budget, unit_to_try.unit_stats.manpower_cost),
            saturating_difference(gold_budget, unit_to_try.unit_stats.gold_cost),
            maximum_rifles,
            maximum_rockets,
            constraint,
            num_comps,
        );
        proof {
            lemma_remove_unit_data_wf(current_composition@, unit_to_try@);
        }
        current_composition.remove_unit(unit_to_try);
    }
    find_combination_recursive(
        purchasable_units,
        unit_index + 1,
        current_composition,
        valid_armies,
        manpower_budget,
        gold_budget,
        maximum_rifles,
        maximum_rockets,
        constraint,
        num_comps,
    )
}

/// The cap on rifles that a search works under: that of the
/// constraint, or that of the mode where the constraint sets none.
pub open spec fn rifles_cap(c: ConstraintView, mode: GameModes) -> i32 {
    match c.maximum_rifles {
        Some(cap) => cap,
        None => mode.maximum_rifles() as i32,
    }
}

/// The cap on rocket batteries that a search works under: that of the
/// constraint, or that of the mode where the constraint sets none.
pub open spec fn rockets_cap(c: ConstraintView, mode: GameModes) -> i32 {
    match c.maximum_rockets {
        Some(cap) => cap,
        None => mode.maximum_rockets() as i32,
    }
}

/// The compositions that the search finds from `start`: what the walk
/// over the purchasable units finds within the two budgets, under the
/// caps on rifles and on rocket batteries.
pub open spec fn search_for_army_spec(
    start: ArmyView,
    manpower_budget: i32,
    gold_budget: i32,
    c: ConstraintView,
    mode: GameModes,
    units: Seq<UnitView>,
    limit: nat,
) -> Seq<ArmyView> {
    explore(
        purchasable_units(units, c.allowed_units),
        0,
        start,
        manpower_budget,
        gold_budget,
        rifles_cap(c, mode),
        rockets_cap(c, mode),
        c,
        limit,
        Seq::empty(),
    ).0
}

/// Up to `num_comps` compositions that breach no bound of
/// `constraints`, in the order in which the depth-first walk over the
/// purchasable units finds them.  The walk starts from `preset`, or
/// from the empty army of `mode` where there is none, and works under
/// the caps of the constraint on rifles and on rocket batteries, or
/// under those of `mode` where the constraint sets none.
pub fn search_for_army(
    preset: Option<ArmyComposition>,
    manpower_budget: i32,
    gold_budget: i32,
    constraints: Constraint,
    mode: GameModes,
    units: &Vec<Unit>,
    num_comps: usize,
    skirmisher: &Unit,
) -> (valid_armies: Vec<ArmyComposition>)
    requires
        catalog_wf(units_view(units@)),
        skirmisher@.wf(),
        preset matches Some(army) ==> army@.wf() && army@.data_wf(),
    ensures
        armies_view(valid_armies@) == search_for_army_spec(
            match preset {
                Some(army) => army@,
                None => ArmyView { game_mode: mode, roster: Seq::empty(), skirmisher: skirmisher@ },
            },
            manpower_budget,
            gold_budget,
            constraints@,
            mode,
            units_view(units@),
            num_comps as nat,
        ),
        valid_armies@.len() <= num_comps,
        forall|j: int|
            0 <= j < valid_armies@.len() ==> !constraints@.violates((#[trigger] valid_armies@[j])@),
        forall|j: int| 0 <= j < valid_armies@.len() ==> (#[trigger] valid_armies@[j])@.wf(),
{
    let purchasable: Vec<Unit> = select_purchasable(units.as_slice(), &constraints.allowed_units);
    proof {
        lemma_purchasable_units(units_view(units@), constraints@.allowed_units);
    }
    let maximum_rifles: i32 = match constraints.maximum_rifles {
        Some(cap) => cap,
        None => mode.get_maximum_rifles(),
    };
    let maximum_rockets: i32 = match constraints.maximum_rockets {
        Some(cap) => cap,
        None => mode.get_maximum_rockets(),
    };
    let mut valid_armies: Vec<ArmyComposition> = Vec::new();
    let mut current_composition = match preset {
        Some(composition) => composition,
        None => ArmyComposition::new(mode, skirmisher.clone()),
    };
    let ghost start = current_composition@;
    assert(armies_view(valid_armies@) =~= Seq::<ArmyView>::empty());
    find_combination_recursive(
        &purchasable,
        0,
        &mut current_composition,
        &mut valid_armies,
        manpower_budget,
        gold_budget,
        maximum_rifles,
        maximum_rockets,
        &constraints,
        num_comps,
    );
    proof {
        lemma_explore(
            units_view(purchasable@),
            0,
            start,
            manpower_budget,
            gold_budget,
            maximum_rifles,
            maximum_rockets,
            constraints@,
            num_comps as nat,
            Seq::empty(),
        );
        assert forall|j: int| 0 <= j < valid_armies@.len() implies !constraints@.violates(
            (#[trigger] valid_armies@[j])@,
        ) by {
            assert(armies_view(valid_armies@)[j] == valid_armies@[j]@);
        }
    }
    valid_armies
}

} // verus!
