//! The optimizer: one integer program for each solution asked for,
//! each after the first cut below the value found before.

use vstd::prelude::*;
use crate::arith::{clamp_i32, quotient, sat_sub, saturate, saturating_difference, trunc_div};
use crate::army_composition::{
    armies_view, lemma_data_wf_supports, ArmyComposition, ArmyView, GameModes,
};
use crate::constraint::{
    fill_mode_caps, named_floors_view, optional_list_view, optional_named_floors_view,
    with_mode_caps, Budget, Constraint, ConstraintView, Errors, MaximizationTargets,
};
use crate::enumerator::{
    lemma_purchasable_units, purchasable_units, search_for_army, search_for_army_spec,
    select_purchasable,
};
use crate::program::{
    allow_rows, army_floor_rows, budget_rows, build_program, cap_rows, catalog_wf, cut_rows,
    escort_rows, exclusion_rows, optional_attack_rows, optional_damage_rows, optional_defense_rows,
    optional_ehp_rows, program_for, rifles, rifles_name, rocket_battery, rockets_name, ints,
    stat_floor_rows, type_bound_rows, Row,
};
use crate::program_laws::{
    distinct_names, escort_uncapped, lemma_purchasable_names, lemma_solution_breaches_no_bound,
    lemma_solution_scores_objective, none_named,
};
use crate::solver::{answer_for, solve_program, solved_view, Solved};
use crate::unit_templates::units_view;
use crate::units::{Selector, Statistic, Unit, UnitTypes, UnitView};

verus! {

/// The units that a value stands for: none for a value below 1.
pub open spec fn units_bought(value: i32) -> nat {
    if value > 0 {
        value as nat
    } else {
        0
    }
}

/// `army` after the first `upto` units of the catalog are bought, each
/// as often as its value says.
pub open spec fn bought(
    units: Seq<UnitView>,
    values: Seq<i32>,
    upto: int,
    army: ArmyView,
) -> ArmyView
    decreases upto,
{
    if upto <= 0 {
        army
    } else {
        bought(units, values, upto - 1, army).add_units(
            units[upto - 1],
            units_bought(values[upto - 1]),
        )
    }
}

/// The composition that `values` buy: every unit of the catalog added
/// to an empty army as often as its value says.
pub open spec fn purchase(
    units: Seq<UnitView>,
    values: Seq<i32>,
    mode: GameModes,
    skirmisher: UnitView,
) -> ArmyView {
    bought(
        units,
        values,
        units.len() as int,
        ArmyView { game_mode: mode, roster: Seq::empty(), skirmisher },
    )
}

/// `army` is what some values for the variables of the program buy.
pub open spec fn is_purchase(
    army: ArmyView,
    units: Seq<UnitView>,
    mode: GameModes,
    skirmisher: UnitView,
) -> bool {
    exists|values: Seq<i32>|
        values.len() == units.len() + 2 && army == #[trigger] purchase(units, values, mode, skirmisher)
}

/// The composition that the values of a solution buy.
pub fn composition_from(
    units: &[Unit],
    values: &Vec<i32>,
    mode: GameModes,
    skirmisher: Unit,
) -> (army: ArmyComposition)
    requires
        values@.len() >= units@.len(),
    ensures
        army@ == purchase(units_view(units@), values@, mode, skirmisher@),
        army@.wf(),
{
    let ghost catalog = units_view(units@);
    let ghost start = ArmyView { game_mode: mode, roster: Seq::empty(), skirmisher: skirmisher@ };
    let mut army = ArmyComposition::new(mode, skirmisher);
    let mut i: usize = 0;
    while i < units.len()
        invariant
            i <= units.len(),
            values@.len() >= units@.len(),
            catalog == units_view(units@),
            army@.wf(),
            army@ == bought(catalog, values@, i as int, start),
        decreases units.len() - i,
    {
        let count: i32 = values[i];
        assert(catalog[i as int] == units@[i as int]@);
        if count > 0 {
            army.add_units(&units[i], count as usize);
        }
        i += 1;
    }
    army
}

/// Every row of `rows` has `len` coefficients.
pub open spec fn rows_fit(rows: Seq<Row>, len: nat) -> bool {
    forall|r: int| 0 <= r < rows.len() ==> (#[trigger] rows[r]).coefficients.len() == len
}

/// Two groups of rows that fit, joined, fit.
proof fn lemma_fit_concat(a: Seq<Row>, b: Seq<Row>, len: nat)
    requires
        rows_fit(a, len),
        rows_fit(b, len),
    ensures
        rows_fit(a + b, len),
{
}

/// The rows of an allow-list speak of every variable.
proof fn lemma_exclusion_rows_fit(units: Seq<UnitView>, allowed: Seq<UnitView>, upto: int)
    ensures
        rows_fit(exclusion_rows(units, allowed, upto), units.len() + 2),
    decreases upto,
{
    if upto > 0 {
        lemma_exclusion_rows_fit(units, allowed, upto - 1);
    }
}

/// Every row of the program of a search speaks of every variable.
pub proof fn lemma_program_wf(
    c: ConstraintView,
    budget: Budget,
    units: Seq<UnitView>,
    target: Statistic,
    hard_cap: i32,
    mode: GameModes,
    skirmisher: UnitView,
    previous_best: Option<i32>,
)
    ensures
        program_for(c, budget, units, target, hard_cap, mode, skirmisher, previous_best).wf(),
{
    let len: nat = units.len() + 2;
    let budgets = budget_rows(units, budget);
    let escorts = escort_rows(units, mode);
    let types = type_bound_rows(units, c);
    let rifles = cap_rows(units, rifles_name(), c.maximum_rifles);
    let rockets = cap_rows(units, rockets_name(), c.maximum_rockets);
    let allowed = allow_rows(units, c.allowed_units);
    let floors = stat_floor_rows(units, skirmisher, c);
    let cut = cut_rows(units, skirmisher, target, previous_best);
    assert(rows_fit(budgets, len));
    assert(rows_fit(escorts, len));
    assert(rows_fit(types, len));
    assert(rows_fit(rifles, len));
    assert(rows_fit(rockets, len));
    assert(rows_fit(allowed, len)) by {
        if let Some(list) = c.allowed_units {
            lemma_exclusion_rows_fit(units, list, units.len() as int);
        }
    }
    assert(rows_fit(floors, len)) by {
        lemma_floor_rows_fit(units, skirmisher, c);
    }
    assert(rows_fit(cut, len));
    lemma_fit_concat(budgets, escorts, len);
    lemma_fit_concat(budgets + escorts, types, len);
    lemma_fit_concat(budgets + escorts + types, rifles, len);
    lemma_fit_concat(budgets + escorts + types + rifles, rockets, len);
    lemma_fit_concat(budgets + escorts + types + rifles + rockets, allowed, len);
    lemma_fit_concat(budgets + escorts + types + rifles + rockets + allowed, floors, len);
    lemma_fit_concat(budgets + escorts + types + rifles + rockets + allowed + floors, cut, len);
}

/// The rows of the floors on statistics speak of every variable.
proof fn lemma_floor_rows_fit(units: Seq<UnitView>, skirmisher: UnitView, c: ConstraintView)
    ensures
        rows_fit(stat_floor_rows(units, skirmisher, c), units.len() + 2),
{
    let len: nat = units.len() + 2;
    let hp = army_floor_rows(c.minimum_hp, units, skirmisher, Statistic::Hp);
    let damage = optional_damage_rows(units, skirmisher, c.minimum_damage_at_ranges);
    let ehp = optional_ehp_rows(units, skirmisher, c.minimum_ehp_vs_sources);
    let attack = army_floor_rows(c.minimum_melee_damage, units, skirmisher, Statistic::MeleeAttack);
    let attack_by = optional_attack_rows(units, c.minimum_melee_damage_over_types);
    let defense = army_floor_rows(c.minimum_melee_defense, units, skirmisher, Statistic::MeleeDefense);
    let defense_by = optional_defense_rows(units, c.minimum_melee_defense_over_types);
    let gold = army_floor_rows(c.minimum_gold_target, units, skirmisher, Statistic::GoldCost);
    let manpower = army_floor_rows(
        c.minimum_manpower_target,
        units,
        skirmisher,
        Statistic::ManpowerCost,
    );
    assert(rows_fit(gold, len));
    assert(rows_fit(manpower, len));
    assert(rows_fit(hp, len));
    assert(rows_fit(damage, len));
    assert(rows_fit(ehp, len));
    assert(rows_fit(attack, len));
    assert(rows_fit(attack_by, len));
    assert(rows_fit(defense, len));
    assert(rows_fit(defense_by, len));
    lemma_fit_concat(hp, damage, len);
    lemma_fit_concat(hp + damage, ehp, len);
    lemma_fit_concat(hp + damage + ehp, attack, len);
    lemma_fit_concat(hp + damage + ehp + attack, attack_by, len);
    lemma_fit_concat(hp + damage + ehp + attack + attack_by, defense, len);
    lemma_fit_concat(hp + damage + ehp + attack + attack_by + defense, defense_by, len);
    lemma_fit_concat(hp + damage + ehp + attack + attack_by + defense + defense_by, gold, len);
    lemma_fit_concat(
        hp + damage + ehp + attack + attack_by + defense + defense_by + gold,
        manpower,
        len,
    );
}

/// The values of what the solver found; none where it found nothing.
pub open spec fn bought_values(outcome: Option<Solved>) -> Seq<i32> {
    match outcome {
        Some(found) => found.values@,
        None => Seq::empty(),
    }
}

/// Closes one round of the search on what the solver found.  A
/// solution adds the composition that it buys, and its value is the
/// bound for the next round; without a solution nothing is added and
/// the search is over.
pub fn close_round(
    results: &mut Vec<ArmyComposition>,
    units: &[Unit],
    outcome: Option<Solved>,
    mode: GameModes,
    sk_unit: &Unit,
) -> (bound: Option<i32>)
    requires
        outcome matches Some(found) ==> found.values@.len() >= units@.len(),
    ensures
        match outcome {
            Some(found) => {
                &&& bound == Some(found.objective)
                &&& final(results)@.len() == old(results)@.len() + 1
                &&& armies_view(final(results)@) == armies_view(old(results)@).push(
                    purchase(units_view(units@), found.values@, mode, sk_unit@),
                )
                &&& final(results)@.last()@.wf()
            },
            None => bound.is_none() && final(results)@ == old(results)@,
        },
        forall|j: int| 0 <= j < old(results)@.len() ==> final(results)@[j] == old(results)@[j],
{
    match outcome {
        Some(found) => {
            let army = composition_from(units, &found.values, mode, sk_unit.clone());
            let ghost before = armies_view(results@);
            results.push(army);
            assert(armies_view(results@) =~= before.push(army@));
            Some(found.objective)
        },
        None => None,
    }
}

/// The compositions that up to `left` rounds of the search find, the
/// first of them with the objective cut below `previous_best` where
/// there is one.
///
/// A round hands the program of the search to the solver.  Where the
/// solver has an answer, the round finds the composition that the
/// answer buys, and the next round is cut below the value of the
/// objective at that answer.  The search is over where the solver has
/// no answer, and where the value found is the least that an `i32`
/// holds: no value lies below it.
pub open spec fn rounds(
    c: ConstraintView,
    budget: Budget,
    units: Seq<UnitView>,
    target: Statistic,
    left: nat,
    hard_cap: i32,
    mode: GameModes,
    skirmisher: UnitView,
    previous_best: Option<i32>,
) -> Seq<ArmyView>
    decreases left,
{
    if left == 0 {
        Seq::empty()
    } else {
        match answer_for(
            program_for(c, budget, units, target, hard_cap, mode, skirmisher, previous_best),
        ) {
            Some(found) => seq![purchase(units, found.0, mode, skirmisher)] + if found.1
                == i32::MIN {
                Seq::empty()
            } else {
                rounds(
                    c,
                    budget,
                    units,
                    target,
                    (left - 1) as nat,
                    hard_cap,
                    mode,
                    skirmisher,
                    Some(found.1),
                )
            },
            None => Seq::empty(),
        }
    }
}

/// `army` is bought by values that are feasible for the program of the
/// search, uncut or cut below some value.
pub open spec fn bought_by_feasible(
    army: ArmyView,
    c: ConstraintView,
    budget: Budget,
    units: Seq<UnitView>,
    target: Statistic,
    hard_cap: i32,
    mode: GameModes,
    skirmisher: UnitView,
) -> bool {
    exists|values: Seq<i32>, previous: Option<i32>|
        values.len() == units.len() + 2 && #[trigger] program_for(
            c,
            budget,
            units,
            target,
            hard_cap,
            mode,
            skirmisher,
            previous,
        ).feasible(ints(values)) && army == purchase(units, values, mode, skirmisher)
}

/// What `army` scores for `target`, held at the limits of `i32`.
pub open spec fn score(army: ArmyView, target: Statistic) -> int {
    clamp_i32(army.total(target))
}

/// Each composition scores less than those before it.
pub open spec fn falling(armies: Seq<ArmyView>, target: Statistic) -> bool {
    forall|i: int, j: int|
        0 <= i < j < armies.len() ==> score(#[trigger] armies[i], target) > score(
            #[trigger] armies[j],
            target,
        )
}

/// Up to `k` compositions of falling value for `target`.
///
/// Each round solves the program of the search, after the first round
/// with the objective cut to lie below the value found before, and
/// buys what the solution says.  The rounds end with the first program
/// for which the solver finds no solution.
///
/// Every composition found is bought by values that are feasible for
/// the program.  For a catalog in which no two units share a name and
/// none goes by the name of the escort unit, each composition scores
/// less than those before it, and where no ceiling is set on the
/// category of the escort unit, none breaches a bound of the
/// constraint.
pub fn optimize_k(
    constraints: &Constraint,
    budget: &Budget,
    units: &[Unit],
    target: MaximizationTargets,
    k: usize,
    hard_cap: i32,
    mode: GameModes,
    sk_unit: &Unit,
) -> (results: Vec<ArmyComposition>)
    requires
        units.len() + 2 <= usize::MAX,
        catalog_wf(units_view(units@)),
        sk_unit@.wf(),
    ensures
        armies_view(results@) == rounds(
            constraints@,
            *budget,
            units_view(units@),
            target@,
            k as nat,
            hard_cap,
            mode,
            sk_unit@,
            None,
        ),
        results@.len() <= k,
        forall|j: int|
            0 <= j < results@.len() ==> is_purchase(
                (#[trigger] results@[j])@,
                units_view(units@),
                mode,
                sk_unit@,
            ) && results@[j]@.wf(),
        forall|j: int|
            0 <= j < results@.len() ==> bought_by_feasible(
                (#[trigger] results@[j])@,
                constraints@,
                *budget,
                units_view(units@),
                target@,
                hard_cap,
                mode,
                sk_unit@,
            ),
        distinct_names(units_view(units@)) && none_named(units_view(units@), sk_unit@.name)
            ==> falling(armies_view(results@), target@),
        distinct_names(units_view(units@)) && none_named(units_view(units@), sk_unit@.name)
            && escort_uncapped(constraints@, sk_unit@) ==> forall|j: int|
            0 <= j < results@.len() ==> !constraints@.violates((#[trigger] results@[j])@),
{
    let ghost catalog = units_view(units@);
    let ghost sound = distinct_names(catalog) && none_named(catalog, sk_unit@.name);
    let ghost all = rounds(
        constraints@,
        *budget,
        catalog,
        target@,
        k as nat,
        hard_cap,
        mode,
        sk_unit@,
        None,
    );
    let mut results: Vec<ArmyComposition> = Vec::new();
    let mut ub_obj: Option<i32> = None;
    let mut exhausted = false;
    let mut round: usize = 0;
    assert(armies_view(results@) + all =~= all);
    while round < k && !exhausted
        invariant
            round <= k,
            units.len() + 2 <= usize::MAX,
            catalog == units_view(units@),
            catalog_wf(catalog),
            sk_unit@.wf(),
            sound == (distinct_names(catalog) && none_named(catalog, sk_unit@.name)),
            results@.len() <= round,
            forall|j: int|
                0 <= j < results@.len() ==> is_purchase(
                    (#[trigger] results@[j])@,
                    catalog,
                    mode,
                    sk_unit@,
                ) && results@[j]@.wf(),
            forall|j: int|
                0 <= j < results@.len() ==> bought_by_feasible(
                    (#[trigger] results@[j])@,
                    constraints@,
                    *budget,
                    catalog,
                    target@,
                    hard_cap,
                    mode,
                    sk_unit@,
                ),
            sound ==> falling(armies_view(results@), target@),
            sound && escort_uncapped(constraints@, sk_unit@) ==> forall|j: int|
                0 <= j < results@.len() ==> !constraints@.violates((#[trigger] results@[j])@),
            ub_obj.is_none() ==> results@.len() == 0,
            !exhausted ==> (ub_obj matches Some(bound) ==> bound > i32::MIN),
            sound ==> (ub_obj matches Some(bound) ==> forall|j: int|
                0 <= j < results@.len() ==> score((#[trigger] results@[j])@, target@) >= bound),
            all == rounds(
                constraints@,
                *budget,
                catalog,
                target@,
                k as nat,
                hard_cap,
                mode,
                sk_unit@,
                None,
            ),
            exhausted ==> armies_view(results@) == all,
            !exhausted ==> armies_view(results@) + rounds(
                constraints@,
                *budget,
                catalog,
                target@,
                (k - round) as nat,
                hard_cap,
                mode,
                sk_unit@,
                ub_obj,
            ) == all,
        decreases k - round + if exhausted { 0int } else { 1int },
    {
        let program = build_program(
            constraints,
            budget,
            units,
            &target,
            hard_cap,
            mode,
            sk_unit,
            ub_obj,
        );
        proof {
            lemma_program_wf(
                constraints@,
                *budget,
                catalog,
                target@,
                hard_cap,
                mode,
                sk_unit@,
                ub_obj,
            );
        }
        let outcome = solve_program(&program);
        let ghost answer = solved_view(outcome);
        let ghost values = bought_values(outcome);
        let ghost before = armies_view(results@);
        let ghost earlier = results@;
        let ghost cut = ub_obj;
        let ghost rest = rounds(
            constraints@,
            *budget,
            catalog,
            target@,
            (k - round) as nat,
            hard_cap,
            mode,
            sk_unit@,
            ub_obj,
        );
        assert(answer == answer_for(program@));
        match close_round(&mut results, units, outcome, mode, sk_unit) {
            Some(best) => {
                let ghost bought = purchase(catalog, values, mode, sk_unit@);
                assert(armies_view(results@).last() == bought);
                assert(results@.last()@ == armies_view(results@).last());
                assert(answer == Some((values, best)));
                assert(program@.feasible(ints(values)));
                assert(bought_by_feasible(
                    bought,
                    constraints@,
                    *budget,
                    catalog,
                    target@,
                    hard_cap,
                    mode,
                    sk_unit@,
                ));
                assert(armies_view(results@) =~= before.push(bought));
                proof {
                    if sound {
                        lemma_solution_scores_objective(
                            constraints@,
                            *budget,
                            catalog,
                            target@,
                            hard_cap,
                            mode,
                            sk_unit@,
                            cut,
                            values,
                        );
                        assert(score(bought, target@) == best);
                        assert forall|i: int, j: int|
                            0 <= i < j < results@.len() implies score(
                            #[trigger] armies_view(results@)[i],
                            target@,
                        ) > score(#[trigger] armies_view(results@)[j], target@) by {
                            if j < earlier.len() {
                                assert(armies_view(results@)[i] == before[i]);
                                assert(armies_view(results@)[j] == before[j]);
                            } else {
                                assert(armies_view(results@)[j] == bought);
                                assert(armies_view(results@)[i] == earlier[i]@);
                            }
                        }
                        assert forall|j: int| 0 <= j < results@.len() implies score(
                            (#[trigger] results@[j])@,
                            target@,
                        ) >= best by {
                            if j < earlier.len() {
                                assert(results@[j] == earlier[j]);
                            }
                        }
                        if escort_uncapped(constraints@, sk_unit@) {
                            lemma_solution_breaches_no_bound(
                                constraints@,
                                *budget,
                                catalog,
                                target@,
                                hard_cap,
                                mode,
                                sk_unit@,
                                cut,
                                values,
                            );
                        }
                    }
                }
                if best == i32::MIN {
                    assert(rest =~= seq![bought]);
                    assert(before.push(bought) =~= before + seq![bought]);
                    exhausted = true;
                } else {
                    let ghost later = rounds(
                        constraints@,
                        *budget,
                        catalog,
                        target@,
                        (k - round - 1) as nat,
                        hard_cap,
                        mode,
                        sk_unit@,
                        Some(best),
                    );
                    assert(rest == seq![bought] + later);
                    assert(before.push(bought) + later =~= before + (seq![bought] + later));
                }
                ub_obj = Some(best);
                round += 1;
            },
            None => {
                assert(answer.is_none());
                assert(rest =~= Seq::<ArmyView>::empty());
                assert(before + rest =~= before);
                exhausted = true;
            },
        }
    }
    assert(!exhausted ==> armies_view(results@) + Seq::<ArmyView>::empty() =~= armies_view(
        results@,
    ));
    results
}

/// The least value of `statistic` among the units of a category, if
/// the catalog has one.
pub open spec fn cheapest(
    units: Seq<UnitView>,
    unit_type: UnitTypes,
    statistic: Statistic,
) -> Option<int>
    decreases units.len(),
{
    if units.len() == 0 {
        None
    } else {
        let rest = cheapest(units.drop_last(), unit_type, statistic);
        let unit = units.last();
        if unit.unit_type != unit_type {
            rest
        } else {
            match rest {
                Some(least) => Some(
                    if unit.stat(statistic) < least {
                        unit.stat(statistic)
                    } else {
                        least
                    },
                ),
                None => Some(unit.stat(statistic)),
            }
        }
    }
}

/// How many units a budget pays for at the least cost: the quotient
/// rounded toward zero; no limit where the least cost is 0.
pub open spec fn resource_cap(budget: i32, least_cost: int) -> int {
    if least_cost == 0 {
        i32::MAX as int
    } else {
        clamp_i32(trunc_div(budget as int, least_cost))
    }
}

/// The most units of a category that the budgets pay for: the lesser
/// of what gold and what manpower pay for at the least cost of the
/// category, 0 for a category without units.
pub open spec fn category_cap(
    units: Seq<UnitView>,
    unit_type: UnitTypes,
    manpower_budget: i32,
    gold_budget: i32,
) -> int {
    match (
        cheapest(units, unit_type, Statistic::GoldCost),
        cheapest(units, unit_type, Statistic::ManpowerCost),
    ) {
        (Some(gold), Some(manpower)) => {
            let by_gold = resource_cap(gold_budget, gold);
            let by_manpower = resource_cap(manpower_budget, manpower);
            if by_gold < by_manpower {
                by_gold
            } else {
                by_manpower
            }
        },
        _ => 0,
    }
}

/// The most that any one unit can be bought: the greatest of the caps
/// of the three categories that armies are built from.
pub open spec fn hard_cap_for(units: Seq<UnitView>, manpower_budget: i32, gold_budget: i32) -> int {
    let infantry = category_cap(units, UnitTypes::Infantry, manpower_budget, gold_budget);
    let cavalry = category_cap(units, UnitTypes::Cavalry, manpower_budget, gold_budget);
    let artillery = category_cap(units, UnitTypes::Artillery, manpower_budget, gold_budget);
    let heavy = if artillery > cavalry {
        artillery
    } else {
        cavalry
    };
    if infantry > heavy {
        infantry
    } else {
        heavy
    }
}

/// The least cost among the units of a category.
fn cheapest_cost(units: &[Unit], unit_type: UnitTypes, selector: &Selector) -> (least: Option<i32>)
    requires
        selector@ == Statistic::GoldCost || selector@ == Statistic::ManpowerCost,
    ensures
        match least {
            Some(cost) => cheapest(units_view(units@), unit_type, selector@) == Some(cost as int),
            None => cheapest(units_view(units@), unit_type, selector@).is_none(),
        },
{
    let ghost catalog = units_view(units@);
    let mut least: Option<i32> = None;
    let mut i: usize = 0;
    while i < units.len()
        invariant
            i <= units.len(),
            catalog == units_view(units@),
            selector@ == Statistic::GoldCost || selector@ == Statistic::ManpowerCost,
            match least {
                Some(cost) => cheapest(catalog.take(i as int), unit_type, selector@) == Some(
                    cost as int,
                ),
                None => cheapest(catalog.take(i as int), unit_type, selector@).is_none(),
            },
        decreases units.len() - i,
    {
        let unit = &units[i];
        proof {
            assert(catalog.take(i as int + 1).drop_last() == catalog.take(i as int));
            assert(catalog.take(i as int + 1).last() == unit@);
        }
        if unit.unit_type == unit_type {
            let cost: i32 = unit.stat(selector);
            least = match least {
                Some(current) => Some(if cost < current { cost } else { current }),
                None => Some(cost),
            };
        }
        i += 1;
    }
    assert(catalog.take(i as int) == catalog);
    least
}

/// How many units a budget pays for at the least cost.
fn paid_for(budget: i32, least_cost: i32) -> (cap: i32)
    ensures
        cap as int == resource_cap(budget, least_cost as int),
{
    if least_cost == 0 {
        i32::MAX
    } else {
        saturate(quotient(budget as i128, least_cost as i128))
    }
}

/// The most units of a category that the budgets pay for.
fn cap_of(
    units: &[Unit],
    unit_type: UnitTypes,
    manpower_budget: i32,
    gold_budget: i32,
) -> (cap: i32)
    ensures
        cap as int == category_cap(units_view(units@), unit_type, manpower_budget, gold_budget),
{
    let by_gold = cheapest_cost(units, unit_type, &Selector::GoldCost);
    let by_manpower = cheapest_cost(units, unit_type, &Selector::ManpowerCost);
    match (by_gold, by_manpower) {
        (Some(gold), Some(manpower)) => {
            let gold_cap: i32 = paid_for(gold_budget, gold);
            let manpower_cap: i32 = paid_for(manpower_budget, manpower);
            if gold_cap < manpower_cap {
                gold_cap
            } else {
                manpower_cap
            }
        },
        _ => 0,
    }
}

/// What the optimizer is handed for one search.
#[derive(Debug)]
pub struct SearchPlan {
    /// The units that may be bought.
    pub units: Vec<Unit>,
    /// The constraint, with the caps of the mode where it sets none.
    pub constraints: Constraint,
    pub budget: Budget,
    /// The most that any one unit can be bought.
    pub hard_cap: i32,
}

/// Prepares a search: keeps the purchasable units of the catalog,
/// lets the caps of `mode` on rifles and rocket batteries stand in for
/// caps that the constraint does not set, and bounds the count of any
/// one unit by what the budgets pay for in its category.
pub fn plan_search(
    manpower_budget: i32,
    gold_budget: i32,
    constraints: Constraint,
    mode: GameModes,
    units: &Vec<Unit>,
) -> (plan: SearchPlan)
    ensures
        units_view(plan.units@) == purchasable_units(units_view(units@), constraints@.allowed_units),
        plan.units@.len() <= units@.len(),
        plan.constraints@ == with_mode_caps(constraints@, mode),
        plan.budget == (Budget { gold: gold_budget, manpower: manpower_budget }),
        plan.hard_cap as int == hard_cap_for(
            purchasable_units(units_view(units@), constraints@.allowed_units),
            manpower_budget,
            gold_budget,
        ),
{
    let mut constraints = constraints;
    let purchasable_units: Vec<Unit> = select_purchasable(
        units.as_slice(),
        &constraints.allowed_units,
    );
    let maximum_infantry: i32 = cap_of(
        purchasable_units.as_slice(),
        UnitTypes::Infantry,
        manpower_budget,
        gold_budget,
    );
    let maximum_cavalry: i32 = cap_of(
        purchasable_units.as_slice(),
        UnitTypes::Cavalry,
        manpower_budget,
        gold_budget,
    );
    let maximum_artillery: i32 = cap_of(
        purchasable_units.as_slice(),
        UnitTypes::Artillery,
        manpower_budget,
        gold_budget,
    );
    fill_mode_caps(&mut constraints, mode);
    let heavy: i32 = if maximum_artillery > maximum_cavalry {
        maximum_artillery
    } else {
        maximum_cavalry
    };
    let hard_cap: i32 = if maximum_infantry > heavy {
        maximum_infantry
    } else {
        heavy
    };
    SearchPlan {
        units: purchasable_units,
        constraints,
        budget: Budget { gold: gold_budget, manpower: manpower_budget },
        hard_cap,
    }
}

/// The names of the catalog are in order: no two units share a name,
/// and none goes by the name of the escort unit.
pub open spec fn sound_names(units: Seq<UnitView>, skirmisher: UnitView) -> bool {
    distinct_names(units) && none_named(units, skirmisher.name)
}

/// The statistic that the constraint asks to maximize; hit points
/// where it names none.
pub open spec fn target_of(c: ConstraintView) -> Statistic {
    match c.maximization_targets {
        Some(target) => target,
        None => Statistic::Hp,
    }
}

/// What the optimizer finds for a catalog, two budgets and a
/// constraint with a target: the rounds of the search over the
/// purchasable units, with the caps of the mode where the constraint
/// sets none and no unit bought more often than the budgets pay for in
/// its category.
pub open spec fn search_optimal_spec(
    manpower_budget: i32,
    gold_budget: i32,
    c: ConstraintView,
    mode: GameModes,
    units: Seq<UnitView>,
    limit: nat,
    skirmisher: UnitView,
) -> Seq<ArmyView> {
    let purchasable = purchasable_units(units, c.allowed_units);
    rounds(
        with_mode_caps(c, mode),
        Budget { gold: gold_budget, manpower: manpower_budget },
        purchasable,
        target_of(c),
        limit,
        hard_cap_for(purchasable, manpower_budget, gold_budget) as i32,
        mode,
        skirmisher,
        None,
    )
}

/// Up to `num_comps` compositions of non-increasing value for the
/// target of `constraints`, bought from the purchasable units of the
/// catalog within the two budgets: what [`optimize_k`] finds for the
/// plan of [`plan_search`].  The preset is not read: what it brings
/// is taken off the budgets and the constraint before this search.
///
/// For a catalog in which no two units share a name and none goes by
/// the name of the escort unit, each composition scores less than
/// those before it, and where no ceiling is set on the category of the
/// escort unit, none breaches a bound of the constraint.
pub fn search_optimal(
    preset: Option<ArmyComposition>,
    manpower_budget: i32,
    gold_budget: i32,
    constraints: Constraint,
    mode: GameModes,
    units: &Vec<Unit>,
    num_comps: usize,
    skirmisher: &Unit,
) -> (results: Vec<ArmyComposition>)
    requires
        constraints@.maximization_targets.is_some(),
        units.len() + 2 <= usize::MAX,
        catalog_wf(units_view(units@)),
        skirmisher@.wf(),
    ensures
        armies_view(results@) == search_optimal_spec(
            manpower_budget,
            gold_budget,
            constraints@,
            mode,
            units_view(units@),
            num_comps as nat,
            skirmisher@,
        ),
        results@.len() <= num_comps,
        forall|j: int|
            0 <= j < results@.len() ==> is_purchase(
                (#[trigger] results@[j])@,
                purchasable_units(units_view(units@), constraints@.allowed_units),
                mode,
                skirmisher@,
            ) && results@[j]@.wf(),
        sound_names(units_view(units@), skirmisher@) ==> falling(
            armies_view(results@),
            target_of(constraints@),
        ),
        sound_names(units_view(units@), skirmisher@) && escort_uncapped(constraints@, skirmisher@)
            ==> forall|j: int|
            0 <= j < results@.len() ==> !constraints@.violates((#[trigger] results@[j])@),
{
    let plan = plan_search(manpower_budget, gold_budget, constraints, mode, units);
    proof {
        lemma_purchasable_units(units_view(units@), constraints@.allowed_units);
        if sound_names(units_view(units@), skirmisher@) {
            lemma_purchasable_names(
                units_view(units@),
                constraints@.allowed_units,
                skirmisher@.name,
            );
        }
    }
    let target = match &plan.constraints.maximization_targets {
        Some(target) => target.clone(),
        None => MaximizationTargets::HP,
    };
    optimize_k(
        &plan.constraints,
        &plan.budget,
        plan.units.as_slice(),
        target,
        num_comps,
        plan.hard_cap,
        mode,
        skirmisher,
    )
}

/// A bound lowered by what an army already brings, where the bound is set.
pub open spec fn lowered(bound: Option<i32>, by: int) -> Option<i32> {
    match bound {
        Some(bound) => Some(lowered_value(bound, by)),
        None => None,
    }
}

/// A bound lowered by what an army already brings.
pub open spec fn lowered_value(bound: i32, by: int) -> i32 {
    sat_sub(bound as int, clamp_i32(by)) as i32
}

/// The floors on effective hit points, each lowered by what `army` has
/// against its source.
pub open spec fn lowered_ehp(
    floors: Seq<(Seq<char>, i32)>,
    army: ArmyView,
) -> Seq<(Seq<char>, i32)> {
    Seq::new(
        floors.len(),
        |k: int| (floors[k].0, lowered_value(floors[k].1, army.total(Statistic::EhpVs(floors[k].0)))),
    )
}

/// The damage floors, each lowered by what `army` deals at its range.
pub open spec fn lowered_damage(floors: Seq<(i32, i32)>, army: ArmyView) -> Seq<(i32, i32)> {
    Seq::new(
        floors.len(),
        |k: int|
            (
                lowered_value(floors[k].0, army.total(Statistic::DamageAt(floors[k].1 as int))),
                floors[k].1,
            ),
    )
}

/// The floors on the melee attack of a category, each lowered by what
/// `army` has in that category.
pub open spec fn lowered_attack(
    floors: Seq<(UnitTypes, i32)>,
    army: ArmyView,
) -> Seq<(UnitTypes, i32)> {
    Seq::new(
        floors.len(),
        |k: int|
            (
                floors[k].0,
                lowered_value(floors[k].1, army.total(Statistic::MeleeAttackOf(seq![floors[k].0]))),
            ),
    )
}

/// The floors on the melee defense of a category, each lowered by what
/// `army` has in that category.
pub open spec fn lowered_defense(
    floors: Seq<(UnitTypes, i32)>,
    army: ArmyView,
) -> Seq<(UnitTypes, i32)> {
    Seq::new(
        floors.len(),
        |k: int|
            (
                floors[k].0,
                lowered_value(floors[k].1, army.total(Statistic::MeleeDefenseOf(seq![floors[k].0]))),
            ),
    )
}

/// The constraint that is left for the units still to buy when `army`
/// is already there: every count, cap and floor lowered by what the
/// army brings.  The target and the allow-list stay.
pub open spec fn adjusted_constraint(c: ConstraintView, army: ArmyView) -> ConstraintView {
    let infantry = army.total(Statistic::Headcount(UnitTypes::Infantry));
    let cavalry = army.total(Statistic::Headcount(UnitTypes::Cavalry));
    let artillery = army.total(Statistic::Headcount(UnitTypes::Artillery));
    ConstraintView {
        minimum_infantry: lowered(c.minimum_infantry, infantry),
        minimum_cavalry: lowered(c.minimum_cavalry, cavalry),
        minimum_artillery: lowered(c.minimum_artillery, artillery),
        maximum_infantry: lowered(c.maximum_infantry, infantry),
        maximum_cavalry: lowered(c.maximum_cavalry, cavalry),
        maximum_artillery: lowered(c.maximum_artillery, artillery),
        maximum_rifles: lowered(c.maximum_rifles, army.name_count(rifles_name())),
        maximum_rockets: lowered(c.maximum_rockets, army.name_count(rockets_name())),
        minimum_hp: lowered(c.minimum_hp, army.total(Statistic::Hp)),
        minimum_ehp_vs_sources: match c.minimum_ehp_vs_sources {
            Some(floors) => Some(lowered_ehp(floors, army)),
            None => None,
        },
        minimum_damage_at_ranges: match c.minimum_damage_at_ranges {
            Some(floors) => Some(lowered_damage(floors, army)),
            None => None,
        },
        minimum_melee_damage: lowered(c.minimum_melee_damage, army.total(Statistic::MeleeAttack)),
        minimum_melee_damage_over_types: match c.minimum_melee_damage_over_types {
            Some(floors) => Some(lowered_attack(floors, army)),
            None => None,
        },
        minimum_melee_defense_over_types: match c.minimum_melee_defense_over_types {
            Some(floors) => Some(lowered_defense(floors, army)),
            None => None,
        },
        minimum_melee_defense: lowered(c.minimum_melee_defense, army.total(Statistic::MeleeDefense)),
        maximization_targets: c.maximization_targets,
        allowed_units: c.allowed_units,
        minimum_gold_target: lowered(c.minimum_gold_target, army.total(Statistic::GoldCost)),
        minimum_manpower_target: lowered(
            c.minimum_manpower_target,
            army.total(Statistic::ManpowerCost),
        ),
    }
}

/// The budget that is left when `army` is paid for.
pub open spec fn adjusted_budget(budget: Budget, army: ArmyView) -> Budget {
    Budget {
        gold: lowered_value(budget.gold, army.total(Statistic::GoldCost)),
        manpower: lowered_value(budget.manpower, army.total(Statistic::ManpowerCost)),
    }
}

/// A bound lowered by `by`, where it is set.
fn lower(bound: Option<i32>, by: i32) -> (lowered: Option<i32>)
    ensures
        lowered == match bound {
            Some(bound) => Some(sat_sub(bound as int, by as int) as i32),
            None => None,
        },
{
    match bound {
        Some(bound) => Some(saturating_difference(bound, by)),
        None => None,
    }
}

/// The floors on effective hit points, lowered by what `army` has.
fn lower_ehp(
    floors: Option<Vec<(String, i32)>>,
    army: &ArmyComposition,
) -> (lowered: Option<Vec<(String, i32)>>)
    requires
        army@.data_wf(),
    ensures
        optional_named_floors_view(lowered) == match optional_named_floors_view(floors) {
            Some(floors) => Some(lowered_ehp(floors, army@)),
            None => None,
        },
{
    match floors {
        Some(floors) => {
            let ghost listed = named_floors_view(floors@);
            let mut lowered: Vec<(String, i32)> = Vec::new();
            let mut k: usize = 0;
            while k < floors.len()
                invariant
                    k <= floors.len(),
                    army@.data_wf(),
                    listed == named_floors_view(floors@),
                    lowered@.len() == k,
                    forall|j: int|
                        0 <= j < k ==> (lowered@[j].0@, lowered@[j].1) == lowered_ehp(
                            listed,
                            army@,
                        )[j],
                decreases floors.len() - k,
            {
                let floor = &floors[k];
                proof {
                    assert(listed[k as int] == (floor.0@, floor.1));
                    lemma_data_wf_supports(army@, Statistic::EhpVs(floor.0@));
                }
                let have: i32 = army.total(&Selector::EhpVs(&floor.0));
                lowered.push((floor.0.clone(), saturating_difference(floor.1, have)));
                k += 1;
            }
            assert(named_floors_view(lowered@) =~= lowered_ehp(listed, army@));
            Some(lowered)
        },
        None => None,
    }
}

/// The damage floors, lowered by what `army` deals.
fn lower_damage(
    floors: Option<Vec<(i32, i32)>>,
    army: &ArmyComposition,
) -> (lowered: Option<Vec<(i32, i32)>>)
    requires
        army@.data_wf(),
    ensures
        optional_list_view(lowered) == match optional_list_view(floors) {
            Some(floors) => Some(lowered_damage(floors, army@)),
            None => None,
        },
{
    match floors {
        Some(floors) => {
            let mut lowered: Vec<(i32, i32)> = Vec::new();
            let mut k: usize = 0;
            while k < floors.len()
                invariant
                    k <= floors.len(),
                    army@.data_wf(),
                    lowered@.len() == k,
                    forall|j: int| 0 <= j < k ==> lowered@[j] == lowered_damage(floors@, army@)[j],
                decreases floors.len() - k,
            {
                let floor: (i32, i32) = floors[k];
                proof {
                    lemma_data_wf_supports(army@, Statistic::DamageAt(floor.1 as int));
                }
                let have: i32 = army.get_ranged_damage_at_range(floor.1);
                lowered.push((saturating_difference(floor.0, have), floor.1));
                k += 1;
            }
            assert(lowered@ =~= lowered_damage(floors@, army@));
            Some(lowered)
        },
        None => None,
    }
}

/// The floors on the melee attack (or, with `defense`, the melee
/// defense) of categories, lowered by what `army` has.
fn lower_by_category(
    floors: Option<Vec<(UnitTypes, i32)>>,
    army: &ArmyComposition,
    defense: bool,
) -> (lowered: Option<Vec<(UnitTypes, i32)>>)
    ensures
        optional_list_view(lowered) == match optional_list_view(floors) {
            Some(floors) => Some(
                if defense {
                    lowered_defense(floors, army@)
                } else {
                    lowered_attack(floors, army@)
                },
            ),
            None => None,
        },
{
    match floors {
        Some(floors) => {
            let ghost target = if defense {
                lowered_defense(floors@, army@)
            } else {
                lowered_attack(floors@, army@)
            };
            let mut lowered: Vec<(UnitTypes, i32)> = Vec::new();
            let mut k: usize = 0;
            while k < floors.len()
                invariant
                    k <= floors.len(),
                    target == if defense {
                        lowered_defense(floors@, army@)
                    } else {
                        lowered_attack(floors@, army@)
                    },
                    lowered@.len() == k,
                    forall|j: int| 0 <= j < k ==> lowered@[j] == target[j],
                decreases floors.len() - k,
            {
                let floor: (UnitTypes, i32) = floors[k];
                let mut types: Vec<UnitTypes> = Vec::new();
                types.push(floor.0);
                assert(types@ =~= seq![floor.0]);
                let have: i32 = if defense {
                    army.get_melee_defense_unit_types(types.as_slice())
                } else {
                    army.get_melee_attack_unit_types(types.as_slice())
                };
                lowered.push((floor.0, saturating_difference(floor.1, have)));
                k += 1;
            }
            assert(lowered@ =~= target);
            Some(lowered)
        },
        None => None,
    }
}

/// Takes what `army_comp` already brings off the budget and off every
/// count, cap and floor of the constraint, so that both speak of the
/// units still to buy.
pub fn apply_preset(army_comp: &ArmyComposition, budget: &mut Budget, constraints: &mut Constraint)
    requires
        army_comp@.data_wf(),
    ensures
        final(constraints)@ == adjusted_constraint(old(constraints)@, army_comp@),
        *final(budget) == adjusted_budget(*old(budget), army_comp@),
{
    let infantry: i32 = army_comp.get_unit_type_count(UnitTypes::Infantry);
    let cavalry: i32 = army_comp.get_unit_type_count(UnitTypes::Cavalry);
    let artillery: i32 = army_comp.get_unit_type_count(UnitTypes::Artillery);
    let gold: i32 = army_comp.get_gold_cost();
    let manpower: i32 = army_comp.get_manpower_cost();
    constraints.minimum_infantry = lower(constraints.minimum_infantry, infantry);
    constraints.minimum_cavalry = lower(constraints.minimum_cavalry, cavalry);
    constraints.minimum_artillery = lower(constraints.minimum_artillery, artillery);
    constraints.maximum_infantry = lower(constraints.maximum_infantry, infantry);
    constraints.maximum_cavalry = lower(constraints.maximum_cavalry, cavalry);
    constraints.maximum_artillery = lower(constraints.maximum_artillery, artillery);
    constraints.maximum_rifles = lower(
        constraints.maximum_rifles,
        army_comp.get_unit_name_count(rifles()),
    );
    constraints.maximum_rockets = lower(
        constraints.maximum_rockets,
        army_comp.get_unit_name_count(rocket_battery()),
    );
    constraints.minimum_hp = lower(constraints.minimum_hp, army_comp.get_total_hp());
    let ehp = constraints.minimum_ehp_vs_sources.take();
    constraints.minimum_ehp_vs_sources = lower_ehp(ehp, army_comp);
    constraints.minimum_gold_target = lower(constraints.minimum_gold_target, gold);
    constraints.minimum_manpower_target = lower(constraints.minimum_manpower_target, manpower);
    constraints.minimum_melee_damage = lower(
        constraints.minimum_melee_damage,
        army_comp.get_melee_attack(),
    );
    let attack = constraints.minimum_melee_damage_over_types.take();
    constraints.minimum_melee_damage_over_types = lower_by_category(attack, army_comp, false);
    constraints.minimum_melee_defense = lower(
        constraints.minimum_melee_defense,
        army_comp.get_melee_defense(),
    );
    let defense = constraints.minimum_melee_defense_over_types.take();
    constraints.minimum_melee_defense_over_types = lower_by_category(defense, army_comp, true);
    let damage = constraints.minimum_damage_at_ranges.take();
    constraints.minimum_damage_at_ranges = lower_damage(damage, army_comp);
    budget.gold = saturating_difference(budget.gold, gold);
    budget.manpower = saturating_difference(budget.manpower, manpower);
}

/// `army` is what the search gives back for a preset: a purchase from
/// `units` merged with the preset, or the purchase itself where there
/// is no preset.
pub open spec fn is_extension(
    army: ArmyView,
    preset: Option<ArmyView>,
    units: Seq<UnitView>,
    mode: GameModes,
    skirmisher: UnitView,
) -> bool {
    match preset {
        Some(preset) => exists|increment: ArmyView|
            is_purchase(increment, units, mode, skirmisher) && army == #[trigger] increment.merge_with(
                preset,
            ),
        None => is_purchase(army, units, mode, skirmisher),
    }
}

/// Each of `increments` merged with `preset`.
pub open spec fn merged_with(increments: Seq<ArmyView>, preset: ArmyView) -> Seq<ArmyView> {
    Seq::new(increments.len(), |i: int| increments[i].merge_with(preset))
}

/// What one of the two engines finds for the units still to buy: the
/// exhaustive walk from the empty army of the mode where the
/// constraint names no target, the optimizer where it names one.
pub open spec fn engine_spec(
    manpower_budget: i32,
    gold_budget: i32,
    c: ConstraintView,
    mode: GameModes,
    units: Seq<UnitView>,
    limit: nat,
    skirmisher: UnitView,
) -> Seq<ArmyView> {
    if c.maximization_targets.is_none() {
        search_for_army_spec(
            ArmyView { game_mode: mode, roster: Seq::empty(), skirmisher },
            manpower_budget,
            gold_budget,
            c,
            mode,
            units,
            limit,
        )
    } else {
        search_optimal_spec(manpower_budget, gold_budget, c, mode, units, limit, skirmisher)
    }
}

/// The budgets and the constraint that a preset leaves for the units
/// still to buy: the caps of the mode stand in for caps that the
/// constraint does not set, and what the preset brings is taken off
/// the budgets and off every count, cap and floor.
pub open spec fn left_by(
    preset: ArmyView,
    manpower_budget: i32,
    gold_budget: i32,
    c: ConstraintView,
    mode: GameModes,
) -> (Budget, ConstraintView) {
    (
        adjusted_budget(Budget { gold: gold_budget, manpower: manpower_budget }, preset),
        adjusted_constraint(with_mode_caps(c, mode), preset),
    )
}

/// What the search finds.  Without a preset it is what the engine
/// finds for the budgets and the constraint as given.  With a preset,
/// the engine works on what the preset leaves of the budgets and of
/// the constraint, and each composition that it finds is merged with
/// the preset.
pub open spec fn search_paths_spec(
    preset: Option<ArmyView>,
    manpower_budget: i32,
    gold_budget: i32,
    c: ConstraintView,
    mode: GameModes,
    units: Seq<UnitView>,
    limit: nat,
    skirmisher: UnitView,
) -> Seq<ArmyView> {
    match preset {
        Some(army) => {
            let left = left_by(army, manpower_budget, gold_budget, c, mode);
            merged_with(
                engine_spec(left.0.manpower, left.0.gold, left.1, mode, units, limit, skirmisher),
                army,
            )
        },
        None => engine_spec(manpower_budget, gold_budget, c, mode, units, limit, skirmisher),
    }
}

/// The compositions that meet the requirements, at most `num_comps`.
///
/// The engine is the exhaustive walk where the constraint names no
/// target and the optimizer where it names one.  Where there is a
/// preset, what it already brings is first taken off the budgets and
/// off the constraint, the engine finds what to buy in addition, and
/// each composition found is merged with the preset.
pub fn search_paths(
    preset: Option<ArmyComposition>,
    manpower_budget: i32,
    gold_budget: i32,
    constraints: Constraint,
    mode: GameModes,
    units: &Vec<Unit>,
    num_comps: usize,
    skirmisher: &Unit,
) -> (result: Vec<ArmyComposition>)
    requires
        units.len() + 2 <= usize::MAX,
        catalog_wf(units_view(units@)),
        skirmisher@.wf(),
        preset matches Some(army) ==> army@.wf() && army@.data_wf(),
    ensures
        armies_view(result@) == search_paths_spec(
            match preset {
                Some(army) => Some(army@),
                None => None,
            },
            manpower_budget,
            gold_budget,
            constraints@,
            mode,
            units_view(units@),
            num_comps as nat,
            skirmisher@,
        ),
        result@.len() <= num_comps,
        forall|j: int| 0 <= j < result@.len() ==> (#[trigger] result@[j])@.wf(),
        preset.is_none() && constraints@.maximization_targets.is_none() ==> forall|j: int|
            0 <= j < result@.len() ==> !constraints@.violates((#[trigger] result@[j])@),
        preset.is_none() && constraints@.maximization_targets.is_some() && sound_names(
            units_view(units@),
            skirmisher@,
        ) ==> falling(armies_view(result@), target_of(constraints@)),
        preset.is_none() && constraints@.maximization_targets.is_some() && sound_names(
            units_view(units@),
            skirmisher@,
        ) && escort_uncapped(constraints@, skirmisher@) ==> forall|j: int|
            0 <= j < result@.len() ==> !constraints@.violates((#[trigger] result@[j])@),
        constraints@.maximization_targets.is_some() ==> forall|j: int|
            0 <= j < result@.len() ==> is_extension(
                (#[trigger] result@[j])@,
                match preset {
                    Some(army) => Some(army@),
                    None => None,
                },
                purchasable_units(units_view(units@), constraints@.allowed_units),
                mode,
                skirmisher@,
            ),
{
    let ghost catalog = purchasable_units(units_view(units@), constraints@.allowed_units);
    let mut budget = Budget { gold: gold_budget, manpower: manpower_budget };
    let mut constraint = constraints.clone();
    if let Some(army) = &preset {
        fill_mode_caps(&mut constraint, mode);
        apply_preset(army, &mut budget, &mut constraint);
    }
    let targeted: bool = constraint.maximization_targets.is_some();
    let mut result = if targeted {
        search_optimal(
            None,
            budget.manpower,
            budget.gold,
            constraint,
            mode,
            units,
            num_comps,
            skirmisher,
        )
    } else {
        search_for_army(
            None,
            budget.manpower,
            budget.gold,
            constraint,
            mode,
            units,
            num_comps,
            skirmisher,
        )
    };
    let ghost increments = armies_view(result@);
    if let Some(army) = &preset {
        let mut j: usize = 0;
        while j < result.len()
            invariant
                j <= result.len(),
                result@.len() <= num_comps,
                army@.wf(),
                preset == Some(*army),
                result@.len() == increments.len(),
                forall|i: int|
                    0 <= i < j ==> (#[trigger] result@[i])@ == increments[i].merge_with(army@),
                forall|i: int|
                    j <= i < result@.len() ==> (#[trigger] result@[i])@ == increments[i],
                forall|i: int| 0 <= i < result@.len() ==> (#[trigger] result@[i])@.wf(),
                targeted ==> forall|i: int|
                    0 <= i < increments.len() ==> is_purchase(
                        #[trigger] increments[i],
                        catalog,
                        mode,
                        skirmisher@,
                    ),
            decreases result.len() - j,
        {
            let merged = result[j].merge_with(army);
            let ghost increment = result@[j as int]@;
            assert(merged@ == increment.merge_with(army@));
            result.set(j, merged);
            j += 1;
        }
        assert(armies_view(result@) =~= merged_with(increments, army@));
        assert(targeted ==> forall|i: int|
            0 <= i < result@.len() ==> is_extension(
                (#[trigger] result@[i])@,
                Some(army@),
                catalog,
                mode,
                skirmisher@,
            )) by {
            if targeted {
                assert forall|i: int| 0 <= i < result@.len() implies is_extension(
                    (#[trigger] result@[i])@,
                    Some(army@),
                    catalog,
                    mode,
                    skirmisher@,
                ) by {
                    assert(is_purchase(increments[i], catalog, mode, skirmisher@));
                    assert(result@[i]@ == increments[i].merge_with(army@));
                }
            }
        }
    }
    result
}

/// The search behind a check of the names that the constraint refers
/// to.  A name that the catalog does not list makes the input invalid,
/// and nothing is searched; else the result is that of
/// [`search_paths`].
pub fn search_validated(
    preset: Option<ArmyComposition>,
    manpower_budget: i32,
    gold_budget: i32,
    constraints: Constraint,
    mode: GameModes,
    units: &Vec<Unit>,
    num_comps: usize,
    skirmisher: &Unit,
) -> (outcome: Result<Vec<ArmyComposition>, Errors>)
    requires
        units.len() + 2 <= usize::MAX,
        catalog_wf(units_view(units@)),
        skirmisher@.wf(),
        preset matches Some(army) ==> army@.wf() && army@.data_wf(),
    ensures
        outcome.is_ok() == constraints@.references_ok(units_view(units@)),
        outcome matches Err(error) ==> error == Errors::InvalidInput,
        outcome matches Ok(result) ==> {
            &&& armies_view(result@) == search_paths_spec(
                match preset {
                    Some(army) => Some(army@),
                    None => None,
                },
                manpower_budget,
                gold_budget,
                constraints@,
                mode,
                units_view(units@),
                num_comps as nat,
                skirmisher@,
            )
            &&& result@.len() <= num_comps
            &&& forall|j: int| 0 <= j < result@.len() ==> (#[trigger] result@[j])@.wf()
        },
{
    match constraints.check_references(units.as_slice()) {
        Ok(()) => Ok(
            search_paths(
                preset,
                manpower_budget,
                gold_budget,
                constraints,
                mode,
                units,
                num_comps,
                skirmisher,
            ),
        ),
        Err(error) => Err(error),
    }
}

} // verus!
