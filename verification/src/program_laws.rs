//! What holds of the program of a search: what its rows say of the
//! composition that a solution buys.

use vstd::prelude::*;
use crate::arith::{clamp_i32, sat_sub};
use crate::army_composition::{roster_total, ArmyView, GameModes, Roster};
use crate::composition_laws::{
    agrees, lemma_add_unit_escort_rule, lemma_add_units_outside, lemma_eligible_as_total,
    lemma_named_outside, outside,
};
use crate::constraint::{above, below, damage_floors_breached, Budget, ConstraintView};
use crate::enumerator::{lemma_purchasable_units, purchasable_units};
use crate::optimizer::{bought, purchase, units_bought};
use crate::program::{
    army_floor_rows, bought_rows, budget_rows, cap_rows, coefficients_of, cut_rows, damage_rows,
    dot, escort_rows, ints, optional_attack_rows, optional_damage_rows, optional_defense_rows,
    optional_ehp_rows, program_for, stat_floor_rows, type_bound_rows, allow_rows, rifles_name,
    rockets_name, Relation, Row,
};
use crate::units::{lemma_stat_bounded, Statistic, UnitTypes, UnitView};

verus! {

/// `values` meet every row of `rows`.
pub open spec fn rows_hold(rows: Seq<Row>, values: Seq<int>) -> bool {
    forall|r: int| 0 <= r < rows.len() ==> (#[trigger] rows[r]).holds(values)
}

/// Values that meet the rows of two groups joined meet those of each.
pub proof fn lemma_rows_hold_split(first: Seq<Row>, second: Seq<Row>, values: Seq<int>)
    requires
        rows_hold(first + second, values),
    ensures
        rows_hold(first, values),
        rows_hold(second, values),
{
    let joined = first + second;
    assert forall|r: int| 0 <= r < first.len() implies (#[trigger] first[r]).holds(values) by {
        assert(joined[r] == first[r]);
    }
    assert forall|r: int| 0 <= r < second.len() implies (#[trigger] second[r]).holds(values) by {
        assert(joined[first.len() + r] == second[r]);
    }
}

/// The cut keeps the next solution below the last: values that are
/// feasible for the program cut at `best` give the objective a value
/// below `best`.
pub proof fn lemma_cut_lowers_objective(
    c: ConstraintView,
    budget: Budget,
    units: Seq<UnitView>,
    target: Statistic,
    hard_cap: i32,
    mode: GameModes,
    skirmisher: UnitView,
    best: i32,
    values: Seq<int>,
)
    requires
        program_for(c, budget, units, target, hard_cap, mode, skirmisher, Some(best)).feasible(
            values,
        ),
        best > i32::MIN,
    ensures
        program_for(c, budget, units, target, hard_cap, mode, skirmisher, Some(best)).value(values)
            < best,
{
    let program = program_for(c, budget, units, target, hard_cap, mode, skirmisher, Some(best));
    let cut = cut_rows(units, skirmisher, target, Some(best));
    let last = program.constraints.len() - 1;
    assert(program.constraints[last] == cut[0]);
    assert(program.constraints[last].holds(values));
}

/// The sum of `statistic` over the first `upto` units of the catalog,
/// each weighted by its value.
pub open spec fn weighted(
    units: Seq<UnitView>,
    values: Seq<int>,
    statistic: Statistic,
    upto: int,
) -> int
    decreases upto,
{
    if upto <= 0 {
        0
    } else {
        weighted(units, values, statistic, upto - 1) + units[upto - 1].stat(statistic) * values[upto
            - 1]
    }
}

/// The first `upto` terms of a sum of values times coefficients.
pub open spec fn partial_dot(coefficients: Seq<i32>, values: Seq<int>, upto: int) -> int
    decreases upto,
{
    if upto <= 0 {
        0
    } else {
        partial_dot(coefficients, values, upto - 1) + coefficients[upto - 1] * values[upto - 1]
    }
}

/// The sum over all coefficients is the partial sum up to the last.
proof fn lemma_dot_partial(coefficients: Seq<i32>, values: Seq<int>)
    ensures
        dot(coefficients, values) == partial_dot(coefficients, values, coefficients.len() as int),
    decreases coefficients.len(),
{
    if coefficients.len() > 0 {
        let rest = coefficients.drop_last();
        lemma_dot_partial(rest, values);
        lemma_partial_dot_prefix(coefficients, rest, values, rest.len() as int);
    }
}

/// Partial sums of rows that agree on a prefix agree on that prefix.
proof fn lemma_partial_dot_prefix(first: Seq<i32>, second: Seq<i32>, values: Seq<int>, upto: int)
    requires
        0 <= upto <= first.len(),
        upto <= second.len(),
        forall|i: int| 0 <= i < upto ==> first[i] == second[i],
    ensures
        partial_dot(first, values, upto) == partial_dot(second, values, upto),
    decreases upto,
{
    if upto > 0 {
        lemma_partial_dot_prefix(first, second, values, upto - 1);
    }
}

/// Over the units, a row of a statistic sums what the units score.
proof fn lemma_partial_dot_weighted(
    units: Seq<UnitView>,
    statistic: Statistic,
    multiplier: i32,
    escort: i32,
    values: Seq<int>,
    upto: int,
)
    requires
        0 <= upto <= units.len(),
    ensures
        partial_dot(coefficients_of(units, Some(statistic), multiplier, escort), values, upto)
            == weighted(units, values, statistic, upto),
    decreases upto,
{
    if upto > 0 {
        lemma_partial_dot_weighted(units, statistic, multiplier, escort, values, upto - 1);
        lemma_stat_bounded(units[upto - 1], statistic);
    }
}

/// Over the units, a row without a statistic sums to 0.
proof fn lemma_partial_dot_zero(
    units: Seq<UnitView>,
    multiplier: i32,
    escort: i32,
    values: Seq<int>,
    upto: int,
)
    requires
        0 <= upto <= units.len(),
    ensures
        partial_dot(coefficients_of(units, None, multiplier, escort), values, upto) == 0,
    decreases upto,
{
    if upto > 0 {
        lemma_partial_dot_zero(units, multiplier, escort, values, upto - 1);
    }
}

/// What a row over the catalog sums to: the sum over the units
/// bought, the escort multiplier times its coefficient and the escort
/// count times its.
pub proof fn lemma_row_value(
    units: Seq<UnitView>,
    statistic: Option<Statistic>,
    multiplier: i32,
    escort: i32,
    values: Seq<int>,
)
    requires
        values.len() == units.len() + 2,
    ensures
        dot(coefficients_of(units, statistic, multiplier, escort), values) == (match statistic {
            Some(statistic) => weighted(units, values, statistic, units.len() as int),
            None => 0,
        }) + multiplier * values[units.len() as int] + escort * values[units.len() as int + 1],
{
    let coefficients = coefficients_of(units, statistic, multiplier, escort);
    let n = units.len() as int;
    lemma_dot_partial(coefficients, values);
    reveal_with_fuel(partial_dot, 3);
    match statistic {
        Some(statistic) => {
            lemma_partial_dot_weighted(units, statistic, multiplier, escort, values, n);
        },
        None => {
            lemma_partial_dot_zero(units, multiplier, escort, values, n);
        },
    }
}

/// The three rows of the escort rule say what the rule says: the
/// escort count is the whole number of full groups among the units
/// bought that require an escort, times the escorts per group.
pub proof fn lemma_escort_rows(units: Seq<UnitView>, mode: GameModes, values: Seq<int>)
    requires
        values.len() == units.len() + 2,
        rows_hold(escort_rows(units, mode), values),
    ensures
        values[units.len() as int + 1] == (weighted(
            units,
            values,
            Statistic::EscortEligible,
            units.len() as int,
        ) / mode.ratio_denominator()) * mode.ratio_numerator(),
{
    let rows = escort_rows(units, mode);
    let den = mode.ratio_denominator();
    let num = mode.ratio_numerator();
    let eligible = weighted(units, values, Statistic::EscortEligible, units.len() as int);
    let multiplier = values[units.len() as int];
    let escorts = values[units.len() as int + 1];
    assert(rows[0].holds(values));
    assert(rows[1].holds(values));
    assert(rows[2].holds(values));
    lemma_row_value(units, Some(Statistic::EscortEligible), (-den) as i32, 0, values);
    lemma_row_value(units, None, (-num) as i32, 1, values);
    let minus_den = (-den) as i32;
    let minus_num = (-num) as i32;
    assert(minus_den * multiplier == -(den * multiplier)) by (nonlinear_arith)
        requires
            minus_den == -den,
    ;
    assert(minus_num * multiplier == -(num * multiplier)) by (nonlinear_arith)
        requires
            minus_num == -num,
    ;
    assert(0 * escorts == 0);
    assert(1 * escorts == escorts);
    assert(dot(rows[0].coefficients, values) == eligible - den * multiplier);
    assert(dot(rows[2].coefficients, values) == escorts - num * multiplier);
    assert(eligible - den * multiplier >= 0);
    assert(eligible - den * multiplier <= den - 1);
    assert(escorts - num * multiplier == 0);
    assert(multiplier == eligible / den) by (nonlinear_arith)
        requires
            den > 0,
            0 <= eligible - den * multiplier <= den - 1,
    ;
    assert(escorts == (eligible / den) * num) by (nonlinear_arith)
        requires
            escorts - num * multiplier == 0,
            multiplier == eligible / den,
    ;
}

/// No two units of the catalog share a name.
pub open spec fn distinct_names(units: Seq<UnitView>) -> bool {
    forall|i: int, j: int|
        0 <= i < j < units.len() ==> (#[trigger] units[i]).name != (#[trigger] units[j]).name
}

/// No unit of the catalog goes by `name`.
pub open spec fn none_named(units: Seq<UnitView>, name: Seq<char>) -> bool {
    forall|i: int| 0 <= i < units.len() ==> (#[trigger] units[i]).name != name
}

/// Every entry under the name of the escort unit holds its template.
pub open spec fn escort_entries_ok(roster: Roster, skirmisher: UnitView) -> bool {
    forall|i: int|
        0 <= i < roster.len() && (#[trigger] roster[i]).0.name == skirmisher.name ==> roster[i].0
            == skirmisher
}

/// The template of every entry, the escort entry aside, is one of the
/// first `upto` units of the catalog.
pub open spec fn templates_among(
    roster: Roster,
    units: Seq<UnitView>,
    upto: int,
    escort: Seq<char>,
) -> bool {
    forall|i: int|
        0 <= i < roster.len() && (#[trigger] roster[i]).0.name != escort ==> exists|j: int|
            0 <= j < upto && (#[trigger] units[j]) == roster[i].0
}

/// A sum over a roster is the sum over the units outside the escort
/// entry and the escorts times the value of the escort unit.
pub proof fn lemma_total_split(roster: Roster, skirmisher: UnitView, statistic: Statistic)
    requires
        escort_entries_ok(roster, skirmisher),
    ensures
        roster_total(roster, statistic) == roster_total(roster, outside(skirmisher.name, statistic))
            + roster_total(roster, Statistic::Named(skirmisher.name)) * skirmisher.stat(statistic),
    decreases roster.len(),
{
    let name = skirmisher.name;
    if roster.len() == 0 {
        assert(0 * skirmisher.stat(statistic) == 0);
    } else {
        let rest = roster.drop_last();
        let last = roster.last();
        assert(last == roster[roster.len() - 1]);
        assert forall|i: int| 0 <= i < rest.len() && (#[trigger] rest[i]).0.name
            == name implies rest[i].0 == skirmisher by {
            assert(rest[i] == roster[i]);
        }
        lemma_total_split(rest, skirmisher, statistic);
        let counted = roster_total(rest, Statistic::Named(name));
        let value = skirmisher.stat(statistic);
        if last.0.name == name {
            assert((counted + 1 * last.1) * value == counted * value + value * last.1)
                by (nonlinear_arith);
        } else {
            assert((counted + 0 * last.1) * value == counted * value) by (nonlinear_arith);
        }
    }
}

/// Adding a unit other than the escort unit leaves the escort entry
/// with the template of the escort unit.
pub proof fn lemma_add_unit_escort_entries(army: ArmyView, unit: UnitView)
    requires
        army.wf(),
        escort_entries_ok(army.roster, army.skirmisher),
        unit.name != army.skirmisher.name,
    ensures
        escort_entries_ok(army.add_unit(unit).roster, army.skirmisher),
{
    let escort = army.skirmisher.name;
    let more = crate::army_composition::with_one_more(army.roster, unit);
    crate::army_composition::lemma_find_from(army.roster, unit.name, 0);
    assert(escort_entries_ok(more, army.skirmisher)) by {
        assert forall|i: int| 0 <= i < more.len() && (#[trigger] more[i]).0.name
            == escort implies more[i].0 == army.skirmisher by {
            if i < army.roster.len() {
                assert(army.roster[i].0 == more[i].0);
            }
        }
    }
    if unit.unit_stats.has_skirmishers {
        crate::army_composition::lemma_without_name(more, escort);
    }
}

/// Adding units other than the escort unit keeps the escort rule in
/// force and the escort entry with the template of the escort unit.
pub proof fn lemma_add_units_escorts(army: ArmyView, unit: UnitView, count: nat)
    requires
        army.wf(),
        army.escort_rule(),
        escort_entries_ok(army.roster, army.skirmisher),
        unit.name != army.skirmisher.name,
        agrees(army.roster, unit),
        army.name_count(unit.name) + count <= i32::MAX,
    ensures
        army.add_units(unit, count).escort_rule(),
        escort_entries_ok(army.add_units(unit, count).roster, army.skirmisher),
    decreases count,
{
    if count > 0 {
        let fewer = (count - 1) as nat;
        let before = army.add_units(unit, fewer);
        lemma_add_units_escorts(army, unit, fewer);
        lemma_add_units_outside(army, unit, fewer, Statistic::Hp);
        crate::army_composition::lemma_find_from(before.roster, unit.name, 0);
        lemma_add_unit_escort_rule(before, unit);
        lemma_add_unit_escort_entries(before, unit);
    }
}

/// A sum of a statistic that is 0 for each of the first units is 0.
pub proof fn lemma_weighted_zero(
    units: Seq<UnitView>,
    values: Seq<int>,
    statistic: Statistic,
    upto: int,
)
    requires
        0 <= upto <= units.len(),
        forall|j: int| 0 <= j < upto ==> (#[trigger] units[j]).stat(statistic) == 0,
    ensures
        weighted(units, values, statistic, upto) == 0,
    decreases upto,
{
    if upto > 0 {
        lemma_weighted_zero(units, values, statistic, upto - 1);
        assert(units[upto - 1].stat(statistic) * values[upto - 1] == 0) by (nonlinear_arith)
            requires
                units[upto - 1].stat(statistic) == 0,
        ;
    }
}

/// The army after the first `upto` units of a catalog without
/// repeated names are bought: its sums outside the escort entry are
/// those of the units, each weighted by its value, and the escort
/// rule is in force.
pub proof fn lemma_bought(
    units: Seq<UnitView>,
    values: Seq<i32>,
    upto: int,
    mode: GameModes,
    skirmisher: UnitView,
    statistic: Statistic,
)
    requires
        0 <= upto <= units.len(),
        values.len() >= units.len(),
        distinct_names(units),
        none_named(units, skirmisher.name),
        forall|i: int| 0 <= i < units.len() ==> 0 <= #[trigger] values[i],
    ensures
        ({
            let army = bought(
                units,
                values,
                upto,
                ArmyView { game_mode: mode, roster: Seq::empty(), skirmisher },
            );
            &&& army.wf()
            &&& army.skirmisher == skirmisher
            &&& army.game_mode == mode
            &&& army.escort_rule()
            &&& escort_entries_ok(army.roster, skirmisher)
            &&& templates_among(army.roster, units, upto, skirmisher.name)
            &&& army.total(outside(skirmisher.name, statistic)) == weighted(
                units,
                ints(values),
                statistic,
                upto,
            )
        }),
    decreases upto,
{
    let escort = skirmisher.name;
    let start = ArmyView { game_mode: mode, roster: Seq::empty(), skirmisher };
    if upto > 0 {
        let before = bought(units, values, upto - 1, start);
        let unit = units[upto - 1];
        let count = units_bought(values[upto - 1]);
        let named = Statistic::Named(unit.name);
        lemma_bought(units, values, upto - 1, mode, skirmisher, statistic);
        lemma_bought(units, values, upto - 1, mode, skirmisher, named);
        assert(agrees(before.roster, unit)) by {
            assert forall|j: int| 0 <= j < before.roster.len() && (#[trigger] before.roster[j]).0.name
                == unit.name implies before.roster[j].0 == unit by {
                let k = choose|k: int| 0 <= k < upto - 1 && (#[trigger] units[k]) == before.roster[j].0;
                assert(units[k].name == units[upto - 1].name);
            }
        }
        lemma_named_outside(before.roster, unit.name, escort);
        assert(weighted(units, ints(values), named, upto - 1) == 0) by {
            assert forall|j: int| 0 <= j < upto - 1 implies (#[trigger] units[j]).stat(named) == 0 by {
                assert(units[j].name != units[upto - 1].name);
            }
            lemma_weighted_zero(units, ints(values), named, upto - 1);
        }
        assert(before.name_count(unit.name) == 0);
        lemma_add_units_outside(before, unit, count, statistic);
        lemma_add_units_escorts(before, unit, count);
        let army = before.add_units(unit, count);
        assert(unit.stat(outside(escort, statistic)) == unit.stat(statistic)) by {
            reveal_with_fuel(UnitView::stat, 2);
        }
        assert(count * unit.stat(statistic) == unit.stat(statistic) * ints(values)[upto - 1])
            by (nonlinear_arith)
            requires
                count == ints(values)[upto - 1],
        ;
        assert forall|i: int| 0 <= i < army.roster.len() && (#[trigger] army.roster[i]).0.name
            != escort implies exists|j: int| 0 <= j < upto && (#[trigger] units[j]) == army.roster[i].0 by {
            if army.roster[i].0 == unit {
                assert(units[upto - 1] == army.roster[i].0);
            } else {
                let m = choose|m: int|
                    0 <= m < before.roster.len() && (#[trigger] before.roster[m]).0
                        == army.roster[i].0;
                let k = choose|k: int| 0 <= k < upto - 1 && (#[trigger] units[k]) == before.roster[m].0;
                assert(units[k] == army.roster[i].0);
            }
        }
    } else {
        assert(start.escorted() =~= Seq::<(UnitView, i32)>::empty());
    }
}

/// What the composition that values buy sums to: the units bought,
/// each weighted by its value, and the escorts that the rule gives
/// them.
pub proof fn lemma_purchase_total(
    units: Seq<UnitView>,
    values: Seq<i32>,
    mode: GameModes,
    skirmisher: UnitView,
    statistic: Statistic,
)
    requires
        values.len() >= units.len(),
        distinct_names(units),
        none_named(units, skirmisher.name),
        forall|i: int| 0 <= i < units.len() ==> 0 <= #[trigger] values[i],
    ensures
        purchase(units, values, mode, skirmisher).total(statistic) == weighted(
            units,
            ints(values),
            statistic,
            units.len() as int,
        ) + mode.escort_count(
            weighted(units, ints(values), Statistic::EscortEligible, units.len() as int),
        ) * skirmisher.stat(statistic),
        purchase(units, values, mode, skirmisher).escorts() == mode.escort_count(
            weighted(units, ints(values), Statistic::EscortEligible, units.len() as int),
        ),
        purchase(units, values, mode, skirmisher).escort_rule(),
{
    let army = purchase(units, values, mode, skirmisher);
    lemma_bought(units, values, units.len() as int, mode, skirmisher, statistic);
    lemma_bought(units, values, units.len() as int, mode, skirmisher, Statistic::EscortEligible);
    lemma_total_split(army.roster, skirmisher, statistic);
    lemma_eligible_as_total(army);
}

/// A floor on the whole army that the program holds as a row is met
/// by an army whose sum is what the row sums to.
proof fn lemma_army_floor_met(
    floor: Option<i32>,
    units: Seq<UnitView>,
    skirmisher: UnitView,
    statistic: Statistic,
    values: Seq<int>,
    total: int,
)
    requires
        values.len() == units.len() + 2,
        rows_hold(army_floor_rows(floor, units, skirmisher, statistic), values),
        total == weighted(units, values, statistic, units.len() as int) + values[units.len() as int
            + 1] * skirmisher.stat(statistic),
    ensures
        !below(floor, clamp_i32(total)),
{
    if let Some(least) = floor {
        let rows = army_floor_rows(floor, units, skirmisher, statistic);
        assert(rows[0].holds(values));
        lemma_stat_bounded(skirmisher, statistic);
        lemma_row_value(units, Some(statistic), 0, skirmisher.stat(statistic) as i32, values);
        assert(skirmisher.stat(statistic) * values[units.len() as int + 1] == values[units.len() as int
            + 1] * skirmisher.stat(statistic)) by (nonlinear_arith);
    }
}

/// A bound on the units bought that the program holds as a row.
proof fn lemma_bought_bound(
    bound: Option<i32>,
    units: Seq<UnitView>,
    statistic: Statistic,
    relation: Relation,
    values: Seq<int>,
)
    requires
        values.len() == units.len() + 2,
        rows_hold(bought_rows(bound, units, statistic, relation), values),
    ensures
        bound matches Some(limit) ==> match relation {
            Relation::AtMost => weighted(units, values, statistic, units.len() as int) <= limit,
            Relation::AtLeast => weighted(units, values, statistic, units.len() as int) >= limit,
            Relation::Exactly => weighted(units, values, statistic, units.len() as int) == limit,
        },
{
    if let Some(limit) = bound {
        let rows = bought_rows(bound, units, statistic, relation);
        assert(rows[0].holds(values));
        lemma_row_value(units, Some(statistic), 0, 0, values);
    }
}

/// No ceiling is set on the count of the category that the escort
/// unit belongs to.
pub open spec fn escort_uncapped(c: ConstraintView, skirmisher: UnitView) -> bool {
    &&& skirmisher.unit_type == UnitTypes::Infantry ==> c.maximum_infantry.is_none()
    &&& skirmisher.unit_type == UnitTypes::Cavalry ==> c.maximum_cavalry.is_none()
    &&& skirmisher.unit_type == UnitTypes::Artillery ==> c.maximum_artillery.is_none()
}

/// The bounds on one category are met by the composition bought.
proof fn lemma_category_met(
    floor: Option<i32>,
    ceiling: Option<i32>,
    units: Seq<UnitView>,
    skirmisher: UnitView,
    unit_type: UnitTypes,
    values: Seq<int>,
    total: int,
)
    requires
        values.len() == units.len() + 2,
        rows_hold(bought_rows(floor, units, Statistic::Headcount(unit_type), Relation::AtLeast), values),
        rows_hold(
            bought_rows(ceiling, units, Statistic::Headcount(unit_type), Relation::AtMost),
            values,
        ),
        skirmisher.unit_type == unit_type ==> ceiling.is_none(),
        values[units.len() as int + 1] >= 0,
        total == weighted(units, values, Statistic::Headcount(unit_type), units.len() as int)
            + values[units.len() as int + 1] * skirmisher.stat(Statistic::Headcount(unit_type)),
    ensures
        !below(floor, clamp_i32(total)),
        !above(ceiling, clamp_i32(total)),
{
    let statistic = Statistic::Headcount(unit_type);
    lemma_bought_bound(floor, units, statistic, Relation::AtLeast, values);
    lemma_bought_bound(ceiling, units, statistic, Relation::AtMost, values);
    let escorts = values[units.len() as int + 1];
    assert(escorts * skirmisher.stat(statistic) >= 0) by (nonlinear_arith)
        requires
            escorts >= 0,
            0 <= skirmisher.stat(statistic) <= 1,
    ;
    if skirmisher.unit_type != unit_type {
        assert(escorts * skirmisher.stat(statistic) == 0) by (nonlinear_arith)
            requires
                skirmisher.stat(statistic) == 0,
        ;
    }
}

/// A solution of the program buys a composition that breaches no
/// bound.
///
/// Values that are feasible for the program of a search buy a
/// composition on which the feasibility predicate of the constraint
/// finds nothing breached, and the escort count of that composition
/// is the one in the solution.  This holds of a catalog in which no
/// two units share a name and none goes by the name of the escort
/// unit, when no ceiling is set on the category of the escort unit.
pub proof fn lemma_solution_breaches_no_bound(
    c: ConstraintView,
    budget: Budget,
    units: Seq<UnitView>,
    target: Statistic,
    hard_cap: i32,
    mode: GameModes,
    skirmisher: UnitView,
    previous_best: Option<i32>,
    values: Seq<i32>,
)
    requires
        values.len() == units.len() + 2,
        program_for(c, budget, units, target, hard_cap, mode, skirmisher, previous_best).feasible(
            ints(values),
        ),
        distinct_names(units),
        none_named(units, skirmisher.name),
        escort_uncapped(c, skirmisher),
    ensures
        !c.violates(purchase(units, values, mode, skirmisher)),
        purchase(units, values, mode, skirmisher).escorts() == values[units.len() as int + 1],
        purchase(units, values, mode, skirmisher).escort_rule(),
{
    let program = program_for(c, budget, units, target, hard_cap, mode, skirmisher, previous_best);
    let x = ints(values);
    let n = units.len() as int;
    let army = purchase(units, values, mode, skirmisher);
    let budgets = budget_rows(units, budget);
    let escorts = escort_rows(units, mode);
    let types = type_bound_rows(units, c);
    let rifles = cap_rows(units, rifles_name(), c.maximum_rifles);
    let rockets = cap_rows(units, rockets_name(), c.maximum_rockets);
    let allowed = allow_rows(units, c.allowed_units);
    let floors = stat_floor_rows(units, skirmisher, c);
    let cut = cut_rows(units, skirmisher, target, previous_best);
    assert(rows_hold(program.constraints, x));
    lemma_rows_hold_split(budgets + escorts + types + rifles + rockets + allowed + floors, cut, x);
    lemma_rows_hold_split(budgets + escorts + types + rifles + rockets + allowed, floors, x);
    lemma_rows_hold_split(budgets + escorts + types + rifles + rockets, allowed, x);
    lemma_rows_hold_split(budgets + escorts + types + rifles, rockets, x);
    lemma_rows_hold_split(budgets + escorts + types, rifles, x);
    lemma_rows_hold_split(budgets + escorts, types, x);
    lemma_rows_hold_split(budgets, escorts, x);
    lemma_escort_rows(units, mode, x);
    let eligible = weighted(units, x, Statistic::EscortEligible, n);
    let escort_count = x[n + 1];
    assert(0 <= escort_count <= i32::MAX) by {
        assert(0 <= x[n + 1] <= program.upper_bounds[n + 1]);
    }
    assert(mode.escort_count(eligible) == escort_count);
    assert forall|i: int| 0 <= i < units.len() implies 0 <= #[trigger] values[i] by {
        assert(0 <= x[i]);
    }
    lemma_purchase_total(units, values, mode, skirmisher, Statistic::Hp);
    lemma_purchase_total(units, values, mode, skirmisher, Statistic::MeleeAttack);
    lemma_purchase_total(units, values, mode, skirmisher, Statistic::MeleeDefense);
    lemma_purchase_total(units, values, mode, skirmisher, Statistic::GoldCost);
    lemma_purchase_total(units, values, mode, skirmisher, Statistic::ManpowerCost);
    lemma_purchase_total(units, values, mode, skirmisher, Statistic::Headcount(UnitTypes::Infantry));
    lemma_purchase_total(units, values, mode, skirmisher, Statistic::Headcount(UnitTypes::Cavalry));
    lemma_purchase_total(
        units,
        values,
        mode,
        skirmisher,
        Statistic::Headcount(UnitTypes::Artillery),
    );
    // The bounds by category.
    let infantry = Statistic::Headcount(UnitTypes::Infantry);
    let cavalry = Statistic::Headcount(UnitTypes::Cavalry);
    let artillery = Statistic::Headcount(UnitTypes::Artillery);
    let t1 = bought_rows(c.minimum_infantry, units, infantry, Relation::AtLeast);
    let t2 = bought_rows(c.maximum_infantry, units, infantry, Relation::AtMost);
    let t3 = bought_rows(c.minimum_cavalry, units, cavalry, Relation::AtLeast);
    let t4 = bought_rows(c.maximum_cavalry, units, cavalry, Relation::AtMost);
    let t5 = bought_rows(c.minimum_artillery, units, artillery, Relation::AtLeast);
    let t6 = bought_rows(c.maximum_artillery, units, artillery, Relation::AtMost);
    lemma_rows_hold_split(t1 + t2 + t3 + t4 + t5, t6, x);
    lemma_rows_hold_split(t1 + t2 + t3 + t4, t5, x);
    lemma_rows_hold_split(t1 + t2 + t3, t4, x);
    lemma_rows_hold_split(t1 + t2, t3, x);
    lemma_rows_hold_split(t1, t2, x);
    lemma_category_met(
        c.minimum_infantry,
        c.maximum_infantry,
        units,
        skirmisher,
        UnitTypes::Infantry,
        x,
        army.total(infantry),
    );
    lemma_category_met(
        c.minimum_cavalry,
        c.maximum_cavalry,
        units,
        skirmisher,
        UnitTypes::Cavalry,
        x,
        army.total(cavalry),
    );
    lemma_category_met(
        c.minimum_artillery,
        c.maximum_artillery,
        units,
        skirmisher,
        UnitTypes::Artillery,
        x,
        army.total(artillery),
    );
    // The floors on statistics.
    let hp = army_floor_rows(c.minimum_hp, units, skirmisher, Statistic::Hp);
    let damage = optional_damage_rows(units, skirmisher, c.minimum_damage_at_ranges);
    let ehp = optional_ehp_rows(units, skirmisher, c.minimum_ehp_vs_sources);
    let attack = army_floor_rows(c.minimum_melee_damage, units, skirmisher, Statistic::MeleeAttack);
    let attack_by = optional_attack_rows(units, c.minimum_melee_damage_over_types);
    let defense = army_floor_rows(c.minimum_melee_defense, units, skirmisher, Statistic::MeleeDefense);
    let defense_by = optional_defense_rows(units, c.minimum_melee_defense_over_types);
    let gold = army_floor_rows(c.minimum_gold_target, units, skirmisher, Statistic::GoldCost);
    let manpower = army_floor_rows(
        c.minimum_manpower_target,
        units,
        skirmisher,
        Statistic::ManpowerCost,
    );
    lemma_rows_hold_split(
        hp + damage + ehp + attack + attack_by + defense + defense_by + gold,
        manpower,
        x,
    );
    lemma_rows_hold_split(hp + damage + ehp + attack + attack_by + defense + defense_by, gold, x);
    lemma_rows_hold_split(hp + damage + ehp + attack + attack_by + defense, defense_by, x);
    lemma_rows_hold_split(hp + damage + ehp + attack + attack_by, defense, x);
    lemma_rows_hold_split(hp + damage + ehp + attack, attack_by, x);
    lemma_rows_hold_split(hp + damage + ehp, attack, x);
    lemma_rows_hold_split(hp + damage, ehp, x);
    lemma_rows_hold_split(hp, damage, x);
    lemma_army_floor_met(c.minimum_hp, units, skirmisher, Statistic::Hp, x, army.total(Statistic::Hp));
    lemma_army_floor_met(
        c.minimum_melee_damage,
        units,
        skirmisher,
        Statistic::MeleeAttack,
        x,
        army.total(Statistic::MeleeAttack),
    );
    lemma_army_floor_met(
        c.minimum_melee_defense,
        units,
        skirmisher,
        Statistic::MeleeDefense,
        x,
        army.total(Statistic::MeleeDefense),
    );
    lemma_army_floor_met(
        c.minimum_gold_target,
        units,
        skirmisher,
        Statistic::GoldCost,
        x,
        army.total(Statistic::GoldCost),
    );
    lemma_army_floor_met(
        c.minimum_manpower_target,
        units,
        skirmisher,
        Statistic::ManpowerCost,
        x,
        army.total(Statistic::ManpowerCost),
    );
    if let Some(listed) = c.minimum_damage_at_ranges {
        assert forall|k: int| 0 <= k < listed.len() implies (#[trigger] listed[k]).0 <= clamp_i32(
            army.total(Statistic::DamageAt(listed[k].1 as int)),
        ) by {
            let statistic = Statistic::DamageAt(listed[k].1 as int);
            let row = damage_rows(units, skirmisher, listed)[k];
            assert(row.holds(x));
            lemma_purchase_total(units, values, mode, skirmisher, statistic);
            lemma_stat_bounded(skirmisher, statistic);
            lemma_row_value(units, Some(statistic), 0, skirmisher.stat(statistic) as i32, x);
            assert(skirmisher.stat(statistic) * x[n + 1] == x[n + 1] * skirmisher.stat(statistic))
                by (nonlinear_arith);
        }
        assert(!damage_floors_breached(listed, army));
    }
}

/// Values that are feasible for the program of a search meet each
/// group of its rows.
pub proof fn lemma_program_groups(
    c: ConstraintView,
    budget: Budget,
    units: Seq<UnitView>,
    target: Statistic,
    hard_cap: i32,
    mode: GameModes,
    skirmisher: UnitView,
    previous_best: Option<i32>,
    x: Seq<int>,
)
    requires
        program_for(c, budget, units, target, hard_cap, mode, skirmisher, previous_best).feasible(x),
    ensures
        rows_hold(budget_rows(units, budget), x),
        rows_hold(escort_rows(units, mode), x),
        rows_hold(type_bound_rows(units, c), x),
        rows_hold(stat_floor_rows(units, skirmisher, c), x),
        rows_hold(cut_rows(units, skirmisher, target, previous_best), x),
{
    let program = program_for(c, budget, units, target, hard_cap, mode, skirmisher, previous_best);
    let budgets = budget_rows(units, budget);
    let escorts = escort_rows(units, mode);
    let types = type_bound_rows(units, c);
    let rifles = cap_rows(units, rifles_name(), c.maximum_rifles);
    let rockets = cap_rows(units, rockets_name(), c.maximum_rockets);
    let allowed = allow_rows(units, c.allowed_units);
    let floors = stat_floor_rows(units, skirmisher, c);
    let cut = cut_rows(units, skirmisher, target, previous_best);
    assert(rows_hold(program.constraints, x));
    lemma_rows_hold_split(budgets + escorts + types + rifles + rockets + allowed + floors, cut, x);
    lemma_rows_hold_split(budgets + escorts + types + rifles + rockets + allowed, floors, x);
    lemma_rows_hold_split(budgets + escorts + types + rifles + rockets, allowed, x);
    lemma_rows_hold_split(budgets + escorts + types + rifles, rockets, x);
    lemma_rows_hold_split(budgets + escorts + types, rifles, x);
    lemma_rows_hold_split(budgets + escorts, types, x);
    lemma_rows_hold_split(budgets, escorts, x);
}

/// A solution of the program scores what its objective says.
///
/// Values that are feasible for the program of a search buy a
/// composition whose sum of the target is the value of the objective
/// at them; after a first solution that value lies below the value
/// found before.  This holds of a catalog in which no two units share
/// a name and none goes by the name of the escort unit.
pub proof fn lemma_solution_scores_objective(
    c: ConstraintView,
    budget: Budget,
    units: Seq<UnitView>,
    target: Statistic,
    hard_cap: i32,
    mode: GameModes,
    skirmisher: UnitView,
    previous_best: Option<i32>,
    values: Seq<i32>,
)
    requires
        values.len() == units.len() + 2,
        program_for(c, budget, units, target, hard_cap, mode, skirmisher, previous_best).feasible(
            ints(values),
        ),
        distinct_names(units),
        none_named(units, skirmisher.name),
    ensures
        purchase(units, values, mode, skirmisher).total(target) == program_for(
            c,
            budget,
            units,
            target,
            hard_cap,
            mode,
            skirmisher,
            previous_best,
        ).value(ints(values)),
        previous_best matches Some(best) ==> purchase(units, values, mode, skirmisher).total(target)
            <= sat_sub(best as int, 1),
{
    let program = program_for(c, budget, units, target, hard_cap, mode, skirmisher, previous_best);
    let x = ints(values);
    let n = units.len() as int;
    lemma_program_groups(c, budget, units, target, hard_cap, mode, skirmisher, previous_best, x);
    lemma_escort_rows(units, mode, x);
    assert(0 <= x[n + 1] <= i32::MAX) by {
        assert(0 <= x[n + 1] <= program.upper_bounds[n + 1]);
    }
    assert forall|i: int| 0 <= i < units.len() implies 0 <= #[trigger] values[i] by {
        assert(0 <= x[i]);
    }
    lemma_purchase_total(units, values, mode, skirmisher, target);
    lemma_stat_bounded(skirmisher, target);
    lemma_row_value(units, Some(target), 0, skirmisher.stat(target) as i32, x);
    assert(skirmisher.stat(target) * x[n + 1] == x[n + 1] * skirmisher.stat(target))
        by (nonlinear_arith);
    if let Some(best) = previous_best {
        let cut = cut_rows(units, skirmisher, target, previous_best);
        assert(cut[0].holds(x));
    }
}

/// Each unit that may be bought is a unit of the catalog, and those
/// kept stand in the order of the catalog.
pub proof fn lemma_purchasable_from(units: Seq<UnitView>, allowed: Option<Seq<UnitView>>)
    ensures
        forall|k: int|
            0 <= k < purchasable_units(units, allowed).len() ==> exists|j: int|
                k <= j < units.len() && units[j] == #[trigger] purchasable_units(units, allowed)[k],
        distinct_names(units) ==> distinct_names(purchasable_units(units, allowed)),
    decreases units.len(),
{
    let kept = purchasable_units(units, allowed);
    if units.len() > 0 {
        let rest = units.drop_last();
        let kept_rest = purchasable_units(rest, allowed);
        lemma_purchasable_from(rest, allowed);
        lemma_purchasable_units(rest, allowed);
        assert forall|k: int| 0 <= k < kept.len() implies exists|j: int|
            k <= j < units.len() && units[j] == #[trigger] kept[k] by {
            if k < kept_rest.len() {
                let j = choose|j: int| k <= j < rest.len() && rest[j] == kept_rest[k];
                assert(units[j] == kept[k]);
            } else {
                assert(units[units.len() - 1] == kept[k]);
            }
        }
        if distinct_names(units) {
            assert(distinct_names(rest)) by {
                assert forall|i: int, j: int| 0 <= i < j < rest.len() implies (#[trigger] rest[i]).name
                    != (#[trigger] rest[j]).name by {
                    assert(rest[i] == units[i]);
                    assert(rest[j] == units[j]);
                }
            }
            assert forall|a: int, b: int| 0 <= a < b < kept.len() implies (#[trigger] kept[a]).name
                != (#[trigger] kept[b]).name by {
                if b < kept_rest.len() {
                    assert(kept[a] == kept_rest[a]);
                    assert(kept[b] == kept_rest[b]);
                } else {
                    let j = choose|j: int| a <= j < rest.len() && rest[j] == kept_rest[a];
                    assert(units[j] == kept[a]);
                    assert(units[units.len() - 1] == kept[b]);
                }
            }
        }
    }
}

/// What holds of the names of a catalog holds of the names of the
/// units that may be bought from it.
pub proof fn lemma_purchasable_names(
    units: Seq<UnitView>,
    allowed: Option<Seq<UnitView>>,
    escort: Seq<char>,
)
    requires
        distinct_names(units),
        none_named(units, escort),
    ensures
        distinct_names(purchasable_units(units, allowed)),
        none_named(purchasable_units(units, allowed), escort),
{
    lemma_purchasable_from(units, allowed);
    let kept = purchasable_units(units, allowed);
    assert forall|k: int| 0 <= k < kept.len() implies (#[trigger] kept[k]).name != escort by {
        let j = choose|j: int| k <= j < units.len() && units[j] == kept[k];
        assert(units[j].name != escort);
    }
}

} // verus!
