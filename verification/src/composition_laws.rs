//! What holds of compositions: how the sums over a roster move when
//! units are added, removed and merged, and when the escort rule holds.

use vstd::prelude::*;
use crate::army_composition::{
    find, find_from, lemma_eligible_nonnegative, lemma_find_from, lemma_name_absent, lemma_recalculated,
    lemma_total_push, lemma_without_name, one_more, roster_total, roster_wf, with_one_less,
    with_one_more, without_name, ArmyView, Roster,
};
use crate::units::{Statistic, UnitView};

verus! {

/// What one entry adds to the sum of `statistic`.
pub open spec fn term(entry: (UnitView, i32), statistic: Statistic) -> int {
    entry.0.stat(statistic) * entry.1
}

/// `statistic` with the units under `name` left out.
pub open spec fn outside(name: Seq<char>, statistic: Statistic) -> Statistic {
    Statistic::Outside(name, Box::new(statistic))
}

/// Replacing an entry moves the sum by the difference of the two terms.
pub proof fn lemma_total_update(
    roster: Roster,
    i: int,
    entry: (UnitView, i32),
    statistic: Statistic,
)
    requires
        0 <= i < roster.len(),
    ensures
        roster_total(roster.update(i, entry), statistic) == roster_total(roster, statistic) - term(
            roster[i],
            statistic,
        ) + term(entry, statistic),
    decreases roster.len(),
{
    let updated = roster.update(i, entry);
    if i == roster.len() - 1 {
        assert(updated.drop_last() == roster.drop_last());
    } else {
        assert(updated.drop_last() == roster.drop_last().update(i, entry));
        lemma_total_update(roster.drop_last(), i, entry, statistic);
    }
}

/// Taking an entry out lowers the sum by its term.
pub proof fn lemma_total_remove(roster: Roster, i: int, statistic: Statistic)
    requires
        0 <= i < roster.len(),
    ensures
        roster_total(roster.remove(i), statistic) == roster_total(roster, statistic) - term(
            roster[i],
            statistic,
        ),
    decreases roster.len(),
{
    let removed = roster.remove(i);
    if i == roster.len() - 1 {
        assert(removed == roster.drop_last());
    } else {
        assert(removed.drop_last() == roster.drop_last().remove(i));
        assert(removed.last() == roster.last());
        lemma_total_remove(roster.drop_last(), i, statistic);
    }
}

/// The sum over the roster without the entries under `name` is the
/// sum of the statistic that leaves those units out.
pub proof fn lemma_total_without_name(roster: Roster, name: Seq<char>, statistic: Statistic)
    ensures
        roster_total(without_name(roster, name), statistic) == roster_total(
            roster,
            outside(name, statistic),
        ),
    decreases roster.len(),
{
    if roster.len() > 0 {
        lemma_total_without_name(roster.drop_last(), name, statistic);
        if roster.last().0.name != name {
            lemma_total_push(without_name(roster.drop_last(), name), roster.last(), statistic);
        }
    }
}

/// Two statistics that agree on every template of a roster have the same sum.
pub proof fn lemma_total_pointwise(roster: Roster, first: Statistic, second: Statistic)
    requires
        forall|i: int|
            0 <= i < roster.len() ==> (#[trigger] roster[i]).0.stat(first) == roster[i].0.stat(second),
    ensures
        roster_total(roster, first) == roster_total(roster, second),
    decreases roster.len(),
{
    if roster.len() > 0 {
        assert(roster.last() == roster[roster.len() - 1]);
        assert forall|i: int| 0 <= i < roster.drop_last().len() implies (#[trigger] roster.drop_last()[i]).0.stat(
            first,
        ) == roster.drop_last()[i].0.stat(second) by {
            assert(roster.drop_last()[i] == roster[i]);
        }
        lemma_total_pointwise(roster.drop_last(), first, second);
    }
}

/// In a roster without a repeated name, the units under a name are
/// those of its one entry.
pub proof fn lemma_named_total(roster: Roster, name: Seq<char>)
    requires
        roster_wf(roster),
    ensures
        roster_total(roster, Statistic::Named(name)) == if find(roster, name) < roster.len() {
            roster[find(roster, name)].1 as int
        } else {
            0
        },
{
    lemma_find_from(roster, name, 0);
    let i = find(roster, name);
    if i < roster.len() {
        let rest = roster.remove(i);
        lemma_total_remove(roster, i, Statistic::Named(name));
        assert forall|k: int| 0 <= k < rest.len() implies (#[trigger] rest[k]).0.name != name by {
            if k < i {
                assert(rest[k] == roster[k]);
            } else {
                assert(rest[k] == roster[k + 1]);
            }
        }
        lemma_name_absent(rest, name);
    } else {
        lemma_name_absent(roster, name);
    }
}

/// The template that one more unit of `unit` counts under: that of the
/// entry under its name, or `unit` itself where there is none.
pub open spec fn template_for(roster: Roster, unit: UnitView) -> UnitView {
    if find(roster, unit.name) < roster.len() {
        roster[find(roster, unit.name)].0
    } else {
        unit
    }
}

/// The entry under the name of `unit`, if there is one, can count one more.
pub open spec fn room_for(roster: Roster, unit: UnitView) -> bool {
    find(roster, unit.name) < roster.len() ==> roster[find(roster, unit.name)].1 < i32::MAX
}

/// One more unit raises the sum by the value of its template.
pub proof fn lemma_total_with_one_more(roster: Roster, unit: UnitView, statistic: Statistic)
    requires
        room_for(roster, unit),
    ensures
        roster_total(with_one_more(roster, unit), statistic) == roster_total(roster, statistic)
            + template_for(roster, unit).stat(statistic),
{
    lemma_find_from(roster, unit.name, 0);
    let i = find(roster, unit.name);
    if i < roster.len() {
        let entry = (roster[i].0, one_more(roster[i].1));
        lemma_total_update(roster, i, entry, statistic);
        assert(term(entry, statistic) == term(roster[i], statistic) + roster[i].0.stat(statistic))
            by (nonlinear_arith)
            requires
                entry.0 == roster[i].0,
                entry.1 == roster[i].1 + 1,
        ;
    } else {
        lemma_total_push(roster, (unit, 1i32), statistic);
    }
}

/// One unit less lowers the sum by the value of the template of its
/// entry, where there is one.
pub proof fn lemma_total_with_one_less(roster: Roster, unit: UnitView, statistic: Statistic)
    requires
        roster_wf(roster),
    ensures
        roster_total(with_one_less(roster, unit), statistic) == roster_total(roster, statistic) - if find(
            roster,
            unit.name,
        ) < roster.len() {
            roster[find(roster, unit.name)].0.stat(statistic)
        } else {
            0
        },
{
    lemma_find_from(roster, unit.name, 0);
    let i = find(roster, unit.name);
    if i < roster.len() {
        if roster[i].1 == 1 {
            lemma_total_remove(roster, i, statistic);
        } else {
            let entry = (roster[i].0, (roster[i].1 - 1) as i32);
            lemma_total_update(roster, i, entry, statistic);
            assert(term(entry, statistic) == term(roster[i], statistic) - roster[i].0.stat(
                statistic,
            )) by (nonlinear_arith)
                requires
                    entry.0 == roster[i].0,
                    entry.1 == roster[i].1 - 1,
            ;
        }
    }
}

/// The units of an army that require an escort, as a sum over its roster.
pub proof fn lemma_eligible_as_total(army: ArmyView)
    ensures
        army.eligible() == army.total(outside(army.skirmisher.name, Statistic::EscortEligible)),
{
    lemma_total_without_name(army.roster, army.skirmisher.name, Statistic::EscortEligible);
}

/// After the escort count is set anew, a sum is that of the units
/// outside the escort entry and of the escorts that the rule gives them.
pub proof fn lemma_total_recalculated(army: ArmyView, statistic: Statistic)
    requires
        army.wf(),
    ensures
        army.recalculated().total(statistic) == army.total(
            outside(army.skirmisher.name, statistic),
        ) + army.game_mode.escort_count(army.eligible()) * army.skirmisher.stat(statistic),
        army.game_mode.escort_count(army.eligible()) >= 0,
{
    let name = army.skirmisher.name;
    let kept = army.escorted();
    let count = army.game_mode.escort_count(army.eligible());
    lemma_total_without_name(army.roster, name, statistic);
    lemma_without_name(army.roster, name);
    lemma_eligible_nonnegative(kept);
    assert(0 <= army.eligible() / army.game_mode.ratio_denominator());
    if count >= 1 {
        lemma_total_push(kept, (army.skirmisher, count as i32), statistic);
        assert(term((army.skirmisher, count as i32), statistic) == count * army.skirmisher.stat(
            statistic,
        )) by (nonlinear_arith)
            requires
                1 <= count <= i32::MAX,
        ;
    } else {
        assert(count * army.skirmisher.stat(statistic) == 0) by (nonlinear_arith)
            requires
                count == 0,
        ;
    }
}

/// Every entry under the name of `unit` holds the template `unit`.
pub open spec fn agrees(roster: Roster, unit: UnitView) -> bool {
    forall|j: int| 0 <= j < roster.len() && (#[trigger] roster[j]).0.name == unit.name ==> roster[j].0 == unit
}

/// The template of every entry of `after`, the escort entry aside, is
/// that of an entry of `before` or is `unit`.
pub open spec fn templates_from(
    after: Roster,
    before: Roster,
    unit: UnitView,
    escort: Seq<char>,
) -> bool {
    forall|i: int|
        0 <= i < after.len() && (#[trigger] after[i]).0.name != escort ==> after[i].0 == unit || exists|j: int|
            0 <= j < before.len() && (#[trigger] before[j]).0 == after[i].0
}

/// Leaving units out twice under one name is leaving them out once.
pub proof fn lemma_outside_twice(roster: Roster, name: Seq<char>, statistic: Statistic)
    ensures
        roster_total(roster, outside(name, outside(name, statistic))) == roster_total(
            roster,
            outside(name, statistic),
        ),
{
    reveal_with_fuel(UnitView::stat, 2);
    lemma_total_pointwise(roster, outside(name, outside(name, statistic)), outside(name, statistic));
}

/// Adding one unit raises every sum over the units outside the escort
/// entry by the value of the unit, provided the entry under its name
/// holds the same template and can count one more.
pub proof fn lemma_add_unit_outside(army: ArmyView, unit: UnitView, statistic: Statistic)
    requires
        army.wf(),
        unit.name != army.skirmisher.name ==> agrees(army.roster, unit) && room_for(army.roster, unit),
    ensures
        army.add_unit(unit).total(outside(army.skirmisher.name, statistic)) == army.total(
            outside(army.skirmisher.name, statistic),
        ) + unit.stat(outside(army.skirmisher.name, statistic)),
        templates_from(army.add_unit(unit).roster, army.roster, unit, army.skirmisher.name),
        unit.name != army.skirmisher.name ==> agrees(army.add_unit(unit).roster, unit),
{
    let name = army.skirmisher.name;
    let measured = outside(name, statistic);
    let roster = army.roster;
    let more = with_one_more(roster, unit);
    let added = ArmyView { roster: more, ..army };
    lemma_find_from(roster, unit.name, 0);
    let i = find(roster, unit.name);
    if room_for(roster, unit) {
        lemma_total_with_one_more(roster, unit, measured);
    } else {
        assert(more =~= roster);
    }
    assert(roster_total(more, measured) == roster_total(roster, measured) + unit.stat(measured));
    assert(templates_from(more, roster, unit, name)) by {
        assert forall|k: int| 0 <= k < more.len() && (#[trigger] more[k]).0.name != name implies more[k].0
            == unit || exists|j: int| 0 <= j < roster.len() && (#[trigger] roster[j]).0 == more[k].0 by {
            if k < roster.len() {
                assert(roster[k].0 == more[k].0);
            }
        }
    }
    crate::army_composition::lemma_with_one_more_wf(roster, unit);
    if unit.unit_stats.has_skirmishers {
        let after = added.recalculated();
        lemma_total_recalculated(added, measured);
        lemma_outside_twice(more, name, statistic);
        assert(army.skirmisher.stat(measured) == 0);
        assert(added.game_mode.escort_count(added.eligible()) * army.skirmisher.stat(measured) == 0)
            by (nonlinear_arith)
            requires
                army.skirmisher.stat(measured) == 0,
        ;
        lemma_without_name(more, name);
        let kept = without_name(more, name);
        assert forall|k: int| 0 <= k < after.roster.len() && (#[trigger] after.roster[k]).0.name
            != name implies after.roster[k].0 == unit || exists|j: int|
            0 <= j < roster.len() && (#[trigger] roster[j]).0 == after.roster[k].0 by {
            assert(k < kept.len());
            let m = choose|m: int| k <= m < more.len() && more[m] == kept[k];
            assert(more[m].0.name != name);
        }
        if unit.name != name {
            assert forall|k: int| 0 <= k < after.roster.len() && (#[trigger] after.roster[k]).0.name
                == unit.name implies after.roster[k].0 == unit by {
                assert(k < kept.len());
                let m = choose|m: int| k <= m < more.len() && more[m] == kept[k];
                assert(more[m].0.name == unit.name);
            }
        }
    }
}

/// The escort rule is due after `unit` is added or removed: the unit
/// requires an escort, so that the escort count is set anew; or the
/// rule holds before, the unit is not the escort unit, and every
/// entry under its name holds the unit itself.
pub open spec fn escort_rule_due(army: ArmyView, unit: UnitView) -> bool {
    unit.unit_stats.has_skirmishers || (army.escort_rule() && unit.name != army.skirmisher.name
        && agrees(army.roster, unit))
}

/// The escort rule after a unit is added.  Adding a unit that
/// requires an escort establishes the rule; adding another unit, not
/// the escort unit itself, keeps it where it held before: the roster
/// then holds as many escort units as the ratio of the mode gives to
/// the units that require an escort, the count held at the top of
/// `i32`.
pub proof fn lemma_add_unit_escort_rule(army: ArmyView, unit: UnitView)
    requires
        army.wf(),
        escort_rule_due(army, unit),
    ensures
        army.add_unit(unit).escort_rule(),
        army.add_unit(unit).escorts() == army.game_mode.escort_count(
            army.add_unit(unit).eligible(),
        ),
        army.add_unit(unit).game_mode == army.game_mode,
{
    if unit.unit_stats.has_skirmishers {
        crate::army_composition::lemma_add_unit_wf(army, unit);
    } else {
        reveal_with_fuel(UnitView::stat, 2);
        let name = army.skirmisher.name;
        let after = army.add_unit(unit);
        lemma_find_from(army.roster, unit.name, 0);
        if room_for(army.roster, unit) {
            lemma_total_with_one_more(army.roster, unit, Statistic::Named(name));
            lemma_total_with_one_more(army.roster, unit, outside(name, Statistic::EscortEligible));
        } else {
            assert(after.roster =~= army.roster);
        }
        lemma_eligible_as_total(army);
        lemma_eligible_as_total(after);
    }
}

/// The escort rule after a unit is removed.  Removing a unit that
/// requires an escort establishes the rule; removing another unit,
/// not the escort unit itself, keeps it where it held before, also
/// where the roster has no entry for the unit.
pub proof fn lemma_remove_unit_escort_rule(army: ArmyView, unit: UnitView)
    requires
        army.wf(),
        escort_rule_due(army, unit),
    ensures
        army.remove_unit(unit).escort_rule(),
        army.remove_unit(unit).escorts() == army.game_mode.escort_count(
            army.remove_unit(unit).eligible(),
        ),
        army.remove_unit(unit).game_mode == army.game_mode,
{
    if unit.unit_stats.has_skirmishers {
        crate::army_composition::lemma_remove_unit_wf(army, unit);
    } else {
        reveal_with_fuel(UnitView::stat, 2);
        let name = army.skirmisher.name;
        let after = army.remove_unit(unit);
        lemma_find_from(army.roster, unit.name, 0);
        lemma_total_with_one_less(army.roster, unit, Statistic::Named(name));
        lemma_total_with_one_less(army.roster, unit, outside(name, Statistic::EscortEligible));
        lemma_eligible_as_total(army);
        lemma_eligible_as_total(after);
    }
}

/// The units under a name other than that of the escort, as a sum
/// over the units outside the escort entry.
pub proof fn lemma_named_outside(roster: Roster, name: Seq<char>, escort: Seq<char>)
    requires
        name != escort,
    ensures
        roster_total(roster, outside(escort, Statistic::Named(name))) == roster_total(
            roster,
            Statistic::Named(name),
        ),
{
    reveal_with_fuel(UnitView::stat, 2);
    lemma_total_pointwise(roster, outside(escort, Statistic::Named(name)), Statistic::Named(name));
}

/// Adding `count` units raises every sum over the units outside the
/// escort entry by `count` times the value of the unit, provided the
/// entry under its name holds the same template and the count stays
/// within `i32`.
pub proof fn lemma_add_units_outside(
    army: ArmyView,
    unit: UnitView,
    count: nat,
    statistic: Statistic,
)
    requires
        army.wf(),
        unit.name != army.skirmisher.name ==> agrees(army.roster, unit) && army.name_count(unit.name)
            + count <= i32::MAX,
    ensures
        army.add_units(unit, count).total(outside(army.skirmisher.name, statistic)) == army.total(
            outside(army.skirmisher.name, statistic),
        ) + count * unit.stat(outside(army.skirmisher.name, statistic)),
        army.add_units(unit, count).wf(),
        army.add_units(unit, count).skirmisher == army.skirmisher,
        army.add_units(unit, count).game_mode == army.game_mode,
        templates_from(army.add_units(unit, count).roster, army.roster, unit, army.skirmisher.name),
        unit.name != army.skirmisher.name ==> agrees(army.add_units(unit, count).roster, unit),
    decreases count,
{
    let name = army.skirmisher.name;
    let measured = outside(name, statistic);
    if count == 0 {
        assert(count * unit.stat(measured) == 0) by (nonlinear_arith)
            requires
                count == 0,
        ;
        assert forall|i: int| 0 <= i < army.roster.len() && (#[trigger] army.roster[i]).0.name
            != name implies army.roster[i].0 == unit || exists|j: int|
            0 <= j < army.roster.len() && (#[trigger] army.roster[j]).0 == army.roster[i].0 by {
            assert(army.roster[i].0 == army.roster[i].0);
        }
    } else {
        let fewer = (count - 1) as nat;
        let before = army.add_units(unit, fewer);
        lemma_add_units_outside(army, unit, fewer, statistic);
        if unit.name != name {
            lemma_add_units_outside(army, unit, fewer, Statistic::Named(unit.name));
            lemma_named_outside(before.roster, unit.name, name);
            lemma_named_outside(army.roster, unit.name, name);
            lemma_named_total(before.roster, unit.name);
            assert(unit.stat(outside(name, Statistic::Named(unit.name))) == 1) by {
                reveal_with_fuel(UnitView::stat, 2);
            }
            assert(fewer * 1 == fewer) by (nonlinear_arith);
            assert(room_for(before.roster, unit));
        }
        lemma_add_unit_outside(before, unit, statistic);
        crate::army_composition::lemma_add_unit_wf(before, unit);
        let after = before.add_unit(unit);
        assert(count * unit.stat(measured) == fewer * unit.stat(measured) + unit.stat(measured))
            by (nonlinear_arith)
            requires
                count == fewer + 1,
        ;
        assert forall|i: int| 0 <= i < after.roster.len() && (#[trigger] after.roster[i]).0.name
            != name implies after.roster[i].0 == unit || exists|j: int|
            0 <= j < army.roster.len() && (#[trigger] army.roster[j]).0 == after.roster[i].0 by {
            if after.roster[i].0 != unit {
                let m = choose|m: int|
                    0 <= m < before.roster.len() && (#[trigger] before.roster[m]).0 == after.roster[i].0;
                assert(before.roster[m].0.name != name);
            }
        }
    }
}

/// Entries of the two rosters that share a name, the escort entry
/// aside, hold the same template.
pub open spec fn compatible(first: Roster, second: Roster, escort: Seq<char>) -> bool {
    forall|i: int, j: int|
        0 <= i < first.len() && 0 <= j < second.len() && (#[trigger] first[i]).0.name == (
        #[trigger] second[j]).0.name && first[i].0.name != escort ==> first[i].0 == second[j].0
}

/// Under no name, the escort aside, do the two rosters together count
/// more units than an `i32` holds.
pub open spec fn counts_fit(first: Roster, second: Roster, escort: Seq<char>) -> bool {
    forall|name: Seq<char>|
        name != escort ==> #[trigger] roster_total(first, Statistic::Named(name)) + roster_total(
            second,
            Statistic::Named(name),
        ) <= i32::MAX
}

/// The template of every entry of `after`, the escort entry aside, is
/// that of an entry of `first` or of `second`.
pub open spec fn templates_of(
    after: Roster,
    first: Roster,
    second: Roster,
    escort: Seq<char>,
) -> bool {
    forall|i: int|
        0 <= i < after.len() && (#[trigger] after[i]).0.name != escort ==> (exists|j: int|
            0 <= j < first.len() && (#[trigger] first[j]).0 == after[i].0) || (exists|j: int|
            0 <= j < second.len() && (#[trigger] second[j]).0 == after[i].0)
}

/// A sum of a statistic that is never negative is not negative.
pub proof fn lemma_total_nonnegative(roster: Roster, statistic: Statistic)
    requires
        roster_wf(roster),
        forall|i: int| 0 <= i < roster.len() ==> (#[trigger] roster[i]).0.stat(statistic) >= 0,
    ensures
        roster_total(roster, statistic) >= 0,
    decreases roster.len(),
{
    if roster.len() > 0 {
        let rest = roster.drop_last();
        assert forall|i: int| 0 <= i < rest.len() implies (#[trigger] rest[i]).0.stat(statistic)
            >= 0 by {
            assert(rest[i] == roster[i]);
        }
        lemma_total_nonnegative(rest, statistic);
        assert(roster.last() == roster[roster.len() - 1]);
        assert(roster.last().0.stat(statistic) * roster.last().1 >= 0) by (nonlinear_arith)
            requires
                roster.last().0.stat(statistic) >= 0,
                roster.last().1 >= 1,
        ;
    }
}

/// Taking in the entries of a roster raises every sum over the units
/// outside the escort entry by the sum over those entries.
pub proof fn lemma_absorb_outside(army: ArmyView, entries: Roster, statistic: Statistic)
    requires
        army.wf(),
        roster_wf(entries),
        compatible(army.roster, entries, army.skirmisher.name),
        counts_fit(army.roster, entries, army.skirmisher.name),
    ensures
        army.absorb(entries).total(outside(army.skirmisher.name, statistic)) == army.total(
            outside(army.skirmisher.name, statistic),
        ) + roster_total(entries, outside(army.skirmisher.name, statistic)),
        army.absorb(entries).wf(),
        army.absorb(entries).skirmisher == army.skirmisher,
        army.absorb(entries).game_mode == army.game_mode,
        templates_of(army.absorb(entries).roster, army.roster, entries, army.skirmisher.name),
    decreases entries.len(),
{
    let escort = army.skirmisher.name;
    let measured = outside(escort, statistic);
    if entries.len() == 0 {
        assert forall|i: int| 0 <= i < army.roster.len() && (#[trigger] army.roster[i]).0.name
            != escort implies (exists|j: int|
            0 <= j < army.roster.len() && (#[trigger] army.roster[j]).0 == army.roster[i].0) || (
        exists|j: int| 0 <= j < entries.len() && (#[trigger] entries[j]).0 == army.roster[i].0) by {
            assert(army.roster[i].0 == army.roster[i].0);
        }
    } else {
        let prefix = entries.drop_last();
        let last = entries.last();
        let unit = last.0;
        let count = last.1 as nat;
        let sofar = army.absorb(prefix);
        assert(last == entries[entries.len() - 1]);
        assert forall|i: int| 0 <= i < prefix.len() implies prefix[i] == entries[i] by {}
        assert(roster_wf(prefix));
        assert(compatible(army.roster, prefix, escort));
        assert forall|name: Seq<char>| name != escort implies #[trigger] roster_total(
            army.roster,
            Statistic::Named(name),
        ) + roster_total(prefix, Statistic::Named(name)) <= i32::MAX by {
            assert(last.0.stat(Statistic::Named(name)) * last.1 >= 0) by (nonlinear_arith)
                requires
                    0 <= last.0.stat(Statistic::Named(name)),
                    last.1 >= 1,
            ;
        }
        lemma_absorb_outside(army, prefix, statistic);
        if unit.name != escort {
            let named = Statistic::Named(unit.name);
            lemma_absorb_outside(army, prefix, named);
            lemma_named_outside(sofar.roster, unit.name, escort);
            lemma_named_outside(army.roster, unit.name, escort);
            lemma_named_outside(prefix, unit.name, escort);
            lemma_name_absent(prefix, unit.name);
            assert(roster_total(entries, named) == roster_total(prefix, named) + last.1) by {
                assert(last.0.stat(named) * last.1 == last.1) by (nonlinear_arith)
                    requires
                        last.0.stat(named) == 1,
                ;
            }
            assert(sofar.name_count(unit.name) + count <= i32::MAX);
            assert forall|j: int| 0 <= j < sofar.roster.len() && (#[trigger] sofar.roster[j]).0.name
                == unit.name implies sofar.roster[j].0 == unit by {
                if exists|k: int|
                    0 <= k < army.roster.len() && (#[trigger] army.roster[k]).0 == sofar.roster[j].0 {
                    let k = choose|k: int|
                        0 <= k < army.roster.len() && (#[trigger] army.roster[k]).0
                            == sofar.roster[j].0;
                    assert(army.roster[k].0.name == entries[entries.len() - 1].0.name);
                } else {
                    let k = choose|k: int|
                        0 <= k < prefix.len() && (#[trigger] prefix[k]).0 == sofar.roster[j].0;
                    assert(entries[k].0.name == entries[entries.len() - 1].0.name);
                }
            }
        }
        lemma_add_units_outside(sofar, unit, count, statistic);
        let after = sofar.add_units(unit, count);
        assert(count * unit.stat(measured) == unit.stat(measured) * last.1) by (nonlinear_arith)
            requires
                count == last.1,
        ;
        assert forall|i: int| 0 <= i < after.roster.len() && (#[trigger] after.roster[i]).0.name
            != escort implies (exists|j: int|
            0 <= j < army.roster.len() && (#[trigger] army.roster[j]).0 == after.roster[i].0) || (
        exists|j: int| 0 <= j < entries.len() && (#[trigger] entries[j]).0 == after.roster[i].0) by {
            if after.roster[i].0 == unit {
                assert(entries[entries.len() - 1].0 == after.roster[i].0);
            } else {
                let m = choose|m: int|
                    0 <= m < sofar.roster.len() && (#[trigger] sofar.roster[m]).0 == after.roster[i].0;
                assert(sofar.roster[m].0.name != escort);
                if exists|j: int|
                    0 <= j < army.roster.len() && (#[trigger] army.roster[j]).0 == sofar.roster[m].0 {
                } else {
                    let k = choose|k: int|
                        0 <= k < prefix.len() && (#[trigger] prefix[k]).0 == sofar.roster[m].0;
                    assert(entries[k].0 == after.roster[i].0);
                }
            }
        }
    }
}

/// Two armies that can be merged with every sum adding up: they have
/// the same escort unit, entries that share a name hold the same
/// template, and no joint count leaves `i32`.
pub open spec fn mergeable(first: ArmyView, second: ArmyView) -> bool {
    &&& first.wf()
    &&& second.wf()
    &&& first.skirmisher == second.skirmisher
    &&& compatible(first.roster, second.roster, first.skirmisher.name)
    &&& counts_fit(first.roster, second.roster, first.skirmisher.name)
}

/// The sums over a merged army, the escort entry aside, are those of
/// the two armies added up.
pub proof fn lemma_merge_outside(first: ArmyView, second: ArmyView, statistic: Statistic)
    requires
        mergeable(first, second),
    ensures
        first.merge_with(second).total(outside(first.skirmisher.name, statistic)) == first.total(
            outside(first.skirmisher.name, statistic),
        ) + second.total(outside(first.skirmisher.name, statistic)),
        first.merge_with(second).wf(),
        first.merge_with(second).skirmisher == first.skirmisher,
        first.merge_with(second).game_mode == first.game_mode,
        templates_of(
            first.merge_with(second).roster,
            first.roster,
            second.roster,
            first.skirmisher.name,
        ),
{
    let escort = first.skirmisher.name;
    let measured = outside(escort, statistic);
    let taken = first.absorb(second.roster);
    let merged = first.merge_with(second);
    lemma_absorb_outside(first, second.roster, statistic);
    lemma_total_recalculated(taken, measured);
    lemma_outside_twice(taken.roster, escort, statistic);
    lemma_recalculated(taken);
    assert(taken.game_mode.escort_count(taken.eligible()) * first.skirmisher.stat(measured) == 0)
        by (nonlinear_arith)
        requires
            first.skirmisher.stat(measured) == 0,
    ;
    lemma_without_name(taken.roster, escort);
    let kept = without_name(taken.roster, escort);
    assert forall|i: int| 0 <= i < merged.roster.len() && (#[trigger] merged.roster[i]).0.name
        != escort implies (exists|j: int|
        0 <= j < first.roster.len() && (#[trigger] first.roster[j]).0 == merged.roster[i].0) || (
    exists|j: int| 0 <= j < second.roster.len() && (#[trigger] second.roster[j]).0 == merged.roster[i].0) by {
        assert(i < kept.len());
        let m = choose|m: int| i <= m < taken.roster.len() && taken.roster[m] == kept[i];
        assert(taken.roster[m].0.name != escort);
    }
}

/// What a merged army sums to: the sums of the two armies outside
/// their escort entries, and the escorts that the rule of the first
/// army's mode gives to the escorted units of both.  The escort count
/// follows from the units of both armies together, not from the
/// escort counts of the two, and whatever the mode of the second.
pub proof fn lemma_merge_total(first: ArmyView, second: ArmyView, statistic: Statistic)
    requires
        mergeable(first, second),
    ensures
        first.merge_with(second).total(statistic) == first.total(
            outside(first.skirmisher.name, statistic),
        ) + second.total(outside(first.skirmisher.name, statistic))
            + first.game_mode.escort_count(first.eligible() + second.eligible())
            * first.skirmisher.stat(statistic),
        first.merge_with(second).escorts() == first.game_mode.escort_count(
            first.eligible() + second.eligible(),
        ),
        first.merge_with(second).escort_rule(),
        first.merge_with(second).wf(),
        first.merge_with(second).game_mode == first.game_mode,
{
    let escort = first.skirmisher.name;
    let taken = first.absorb(second.roster);
    lemma_absorb_outside(first, second.roster, statistic);
    lemma_absorb_outside(first, second.roster, Statistic::EscortEligible);
    lemma_total_recalculated(taken, statistic);
    lemma_eligible_as_total(taken);
    lemma_eligible_as_total(first);
    lemma_eligible_as_total(second);
    lemma_recalculated(taken);
    lemma_eligible_as_total(first.merge_with(second));
    lemma_merge_outside(first, second, Statistic::EscortEligible);
}

/// Merging two armies of one mode in either order gives the same sum
/// of every statistic, the count under any name among them.
pub proof fn lemma_merge_commutative(first: ArmyView, second: ArmyView, statistic: Statistic)
    requires
        mergeable(first, second),
        first.game_mode == second.game_mode,
    ensures
        first.merge_with(second).total(statistic) == second.merge_with(first).total(statistic),
{
    let escort = first.skirmisher.name;
    assert(compatible(second.roster, first.roster, escort));
    assert forall|name: Seq<char>| name != escort implies #[trigger] roster_total(
        second.roster,
        Statistic::Named(name),
    ) + roster_total(first.roster, Statistic::Named(name)) <= i32::MAX by {
        assert(roster_total(first.roster, Statistic::Named(name)) + roster_total(
            second.roster,
            Statistic::Named(name),
        ) <= i32::MAX);
    }
    lemma_merge_total(first, second, statistic);
    lemma_merge_total(second, first, statistic);
}

/// Three armies that can be merged in any grouping with every sum
/// adding up.
pub open spec fn mergeable_three(first: ArmyView, second: ArmyView, third: ArmyView) -> bool {
    &&& first.wf() && second.wf() && third.wf()
    &&& first.skirmisher == second.skirmisher && second.skirmisher == third.skirmisher
    &&& compatible(first.roster, second.roster, first.skirmisher.name)
    &&& compatible(first.roster, third.roster, first.skirmisher.name)
    &&& compatible(second.roster, third.roster, first.skirmisher.name)
    &&& forall|name: Seq<char>|
        name != first.skirmisher.name ==> #[trigger] roster_total(
            first.roster,
            Statistic::Named(name),
        ) + roster_total(second.roster, Statistic::Named(name)) + roster_total(
            third.roster,
            Statistic::Named(name),
        ) <= i32::MAX
}

/// Merging three armies gives the same sum of every statistic, the
/// count under any name among them, whichever two are merged first
/// and whatever the modes of the second and the third.
pub proof fn lemma_merge_associative(
    first: ArmyView,
    second: ArmyView,
    third: ArmyView,
    statistic: Statistic,
)
    requires
        mergeable_three(first, second, third),
    ensures
        first.merge_with(second).merge_with(third).total(statistic) == first.merge_with(
            second.merge_with(third),
        ).total(statistic),
{
    let escort = first.skirmisher.name;
    let eligible = Statistic::EscortEligible;
    assert forall|name: Seq<char>|
        roster_total(first.roster, Statistic::Named(name)) >= 0 && roster_total(
            second.roster,
            Statistic::Named(name),
        ) >= 0 && roster_total(third.roster, Statistic::Named(name)) >= 0 by {
        lemma_total_nonnegative(first.roster, Statistic::Named(name));
        lemma_total_nonnegative(second.roster, Statistic::Named(name));
        lemma_total_nonnegative(third.roster, Statistic::Named(name));
    }
    assert(counts_fit(first.roster, second.roster, escort)) by {
        assert forall|name: Seq<char>| name != escort implies #[trigger] roster_total(
            first.roster,
            Statistic::Named(name),
        ) + roster_total(second.roster, Statistic::Named(name)) <= i32::MAX by {
            assert(roster_total(third.roster, Statistic::Named(name)) >= 0);
        }
    }
    assert(counts_fit(second.roster, third.roster, escort)) by {
        assert forall|name: Seq<char>| name != escort implies #[trigger] roster_total(
            second.roster,
            Statistic::Named(name),
        ) + roster_total(third.roster, Statistic::Named(name)) <= i32::MAX by {
            assert(roster_total(first.roster, Statistic::Named(name)) >= 0);
        }
    }
    let left = first.merge_with(second);
    let right = second.merge_with(third);
    lemma_merge_outside(first, second, statistic);
    lemma_merge_outside(first, second, eligible);
    lemma_merge_outside(second, third, statistic);
    lemma_merge_outside(second, third, eligible);
    assert(compatible(left.roster, third.roster, escort));
    assert(compatible(first.roster, right.roster, escort)) by {
        assert forall|i: int, j: int|
            0 <= i < first.roster.len() && 0 <= j < right.roster.len() && (
            #[trigger] first.roster[i]).0.name == (#[trigger] right.roster[j]).0.name
                && first.roster[i].0.name != escort implies first.roster[i].0 == right.roster[j].0 by {
            if exists|k: int|
                0 <= k < second.roster.len() && (#[trigger] second.roster[k]).0 == right.roster[j].0 {
                let k = choose|k: int|
                    0 <= k < second.roster.len() && (#[trigger] second.roster[k]).0
                        == right.roster[j].0;
                assert(first.roster[i].0.name == second.roster[k].0.name);
            } else {
                let k = choose|k: int|
                    0 <= k < third.roster.len() && (#[trigger] third.roster[k]).0 == right.roster[j].0;
                assert(first.roster[i].0.name == third.roster[k].0.name);
            }
        }
    }
    assert(counts_fit(left.roster, third.roster, escort)) by {
        assert forall|name: Seq<char>| name != escort implies #[trigger] roster_total(
            left.roster,
            Statistic::Named(name),
        ) + roster_total(third.roster, Statistic::Named(name)) <= i32::MAX by {
            lemma_merge_outside(first, second, Statistic::Named(name));
            lemma_named_outside(left.roster, name, escort);
            lemma_named_outside(first.roster, name, escort);
            lemma_named_outside(second.roster, name, escort);
            assert(roster_total(first.roster, Statistic::Named(name)) + roster_total(
                second.roster,
                Statistic::Named(name),
            ) + roster_total(third.roster, Statistic::Named(name)) <= i32::MAX);
        }
    }
    assert(counts_fit(first.roster, right.roster, escort)) by {
        assert forall|name: Seq<char>| name != escort implies #[trigger] roster_total(
            first.roster,
            Statistic::Named(name),
        ) + roster_total(right.roster, Statistic::Named(name)) <= i32::MAX by {
            lemma_merge_outside(second, third, Statistic::Named(name));
            lemma_named_outside(right.roster, name, escort);
            lemma_named_outside(second.roster, name, escort);
            lemma_named_outside(third.roster, name, escort);
            assert(roster_total(first.roster, Statistic::Named(name)) + roster_total(
                second.roster,
                Statistic::Named(name),
            ) + roster_total(third.roster, Statistic::Named(name)) <= i32::MAX);
        }
    }
    lemma_merge_total(left, third, statistic);
    lemma_merge_total(first, right, statistic);
    lemma_eligible_as_total(left);
    lemma_eligible_as_total(right);
    lemma_eligible_as_total(first);
    lemma_eligible_as_total(second);
    lemma_eligible_as_total(third);
}

/// Where an entry under a name is found once one more entry is added
/// at the end.
pub proof fn lemma_find_push(roster: Roster, entry: (UnitView, i32), name: Seq<char>, from: int)
    requires
        0 <= from <= roster.len(),
    ensures
        find_from(roster.push(entry), name, from) == if find_from(roster, name, from) < roster.len() {
            find_from(roster, name, from)
        } else if entry.0.name == name {
            roster.len() as int
        } else {
            roster.len() as int + 1
        },
    decreases roster.len() - from,
{
    reveal_with_fuel(find_from, 2);
    let longer = roster.push(entry);
    if from < roster.len() {
        assert(longer[from] == roster[from]);
        if roster[from].0.name != name {
            lemma_find_push(roster, entry, name, from + 1);
        }
    } else {
        assert(longer[from] == entry);
    }
}

/// An entry replaced under its own name is found where it was.
pub proof fn lemma_find_update(
    roster: Roster,
    i: int,
    entry: (UnitView, i32),
    name: Seq<char>,
    from: int,
)
    requires
        0 <= i < roster.len(),
        entry.0.name == roster[i].0.name,
        0 <= from <= roster.len(),
    ensures
        find_from(roster.update(i, entry), name, from) == find_from(roster, name, from),
    decreases roster.len() - from,
{
    if from < roster.len() {
        lemma_find_update(roster, i, entry, name, from + 1);
    }
}

/// A name that some entry goes by is found.
pub proof fn lemma_found(roster: Roster, name: Seq<char>, j: int)
    requires
        0 <= j < roster.len(),
        roster[j].0.name == name,
    ensures
        find(roster, name) <= j,
        roster[find(roster, name)].0.name == name,
{
    lemma_find_from(roster, name, 0);
}

/// Leaving out the entries under one name neither hides nor brings in
/// an entry under another.
pub proof fn lemma_without_name_find(roster: Roster, escort: Seq<char>, name: Seq<char>)
    requires
        name != escort,
    ensures
        find(roster, name) < roster.len() <==> find(without_name(roster, escort), name) < without_name(
            roster,
            escort,
        ).len(),
        roster_wf(roster) && find(roster, name) < roster.len() ==> without_name(roster, escort)[find(
            without_name(roster, escort),
            name,
        )] == roster[find(roster, name)],
    decreases roster.len(),
{
    let kept = without_name(roster, escort);
    lemma_find_from(roster, name, 0);
    lemma_find_from(kept, name, 0);
    lemma_without_name(roster, escort);
    if find(kept, name) < kept.len() {
        let k = find(kept, name);
        let j = choose|j: int| k <= j < roster.len() && roster[j] == kept[k];
        lemma_found(roster, name, j);
        if roster_wf(roster) {
            assert(roster[find(roster, name)].0.name == roster[j].0.name);
        }
    }
    if find(roster, name) < roster.len() && roster.len() > 0 {
        let rest = roster.drop_last();
        let last = roster.last();
        assert(rest.push(last) == roster);
        lemma_find_push(rest, last, name, 0);
        if find(rest, name) < rest.len() {
            lemma_without_name_find(rest, escort, name);
            let kept_rest = without_name(rest, escort);
            if last.0.name != escort {
                lemma_find_push(kept_rest, last, name, 0);
            }
        } else {
            assert(kept.last() == last);
            lemma_found(kept, name, kept.len() - 1);
        }
    }
}

/// Leaving out the escort entry and adding a unit that is not the
/// escort unit can be done in either order.
pub proof fn lemma_without_name_one_more(roster: Roster, unit: UnitView, escort: Seq<char>)
    requires
        unit.name != escort,
    ensures
        without_name(with_one_more(roster, unit), escort) == with_one_more(
            without_name(roster, escort),
            unit,
        ),
    decreases roster.len(),
{
    let name = unit.name;
    let kept = without_name(roster, escort);
    lemma_find_from(roster, name, 0);
    lemma_find_from(kept, name, 0);
    lemma_without_name_find(roster, escort, name);
    if roster.len() == 0 {
        assert(with_one_more(roster, unit) =~= seq![(unit, 1i32)]);
        assert(with_one_more(roster, unit).drop_last() =~= roster);
    } else {
        let rest = roster.drop_last();
        let last = roster.last();
        let kept_rest = without_name(rest, escort);
        assert(rest.push(last) == roster);
        lemma_find_push(rest, last, name, 0);
        lemma_find_from(rest, name, 0);
        lemma_find_from(kept_rest, name, 0);
        lemma_without_name_find(rest, escort, name);
        if find(rest, name) < rest.len() {
            let i = find(rest, name);
            lemma_without_name_one_more(rest, unit, escort);
            let more_rest = with_one_more(rest, unit);
            assert(with_one_more(roster, unit) =~= more_rest.push(last));
            assert(more_rest.push(last).drop_last() =~= more_rest);
            if last.0.name != escort {
                lemma_find_push(kept_rest, last, name, 0);
                assert(with_one_more(kept_rest.push(last), unit) =~= with_one_more(
                    kept_rest,
                    unit,
                ).push(last));
            }
        } else if last.0.name == name {
            let entry = (last.0, one_more(last.1));
            assert(with_one_more(roster, unit) =~= rest.push(entry));
            assert(rest.push(entry).drop_last() =~= rest);
            lemma_find_push(kept_rest, last, name, 0);
            assert(with_one_more(kept_rest.push(last), unit) =~= kept_rest.push(entry));
        } else {
            let entry = (unit, 1i32);
            assert(with_one_more(roster, unit) == roster.push(entry));
            assert(roster.push(entry).drop_last() =~= roster);
        }
    }
}

/// One more unit and then one less leave a roster as it was.
pub proof fn lemma_one_more_one_less(roster: Roster, unit: UnitView)
    requires
        roster_wf(roster),
        room_for(roster, unit),
    ensures
        with_one_less(with_one_more(roster, unit), unit) == roster,
{
    let name = unit.name;
    lemma_find_from(roster, name, 0);
    let i = find(roster, name);
    if i < roster.len() {
        let entry = (roster[i].0, one_more(roster[i].1));
        lemma_find_update(roster, i, entry, name, 0);
        assert(with_one_less(with_one_more(roster, unit), unit) =~= roster);
    } else {
        lemma_find_push(roster, (unit, 1i32), name, 0);
        assert(with_one_less(with_one_more(roster, unit), unit) =~= roster);
    }
}

/// Replacing an escort entry by another leaves the rest of the roster
/// as it was.
pub proof fn lemma_without_name_update(
    roster: Roster,
    i: int,
    entry: (UnitView, i32),
    escort: Seq<char>,
)
    requires
        0 <= i < roster.len(),
        roster[i].0.name == escort,
        entry.0.name == escort,
    ensures
        without_name(roster.update(i, entry), escort) == without_name(roster, escort),
    decreases roster.len(),
{
    let updated = roster.update(i, entry);
    if i == roster.len() - 1 {
        assert(updated.drop_last() == roster.drop_last());
    } else {
        assert(updated.drop_last() == roster.drop_last().update(i, entry));
        assert(updated.last() == roster.last());
        lemma_without_name_update(roster.drop_last(), i, entry, escort);
    }
}

/// Taking an escort entry out leaves the rest of the roster as it was.
pub proof fn lemma_without_name_remove(roster: Roster, i: int, escort: Seq<char>)
    requires
        0 <= i < roster.len(),
        roster[i].0.name == escort,
    ensures
        without_name(roster.remove(i), escort) == without_name(roster, escort),
    decreases roster.len(),
{
    let removed = roster.remove(i);
    if i == roster.len() - 1 {
        assert(removed == roster.drop_last());
    } else {
        assert(removed.drop_last() == roster.drop_last().remove(i));
        assert(removed.last() == roster.last());
        lemma_without_name_remove(roster.drop_last(), i, escort);
    }
}

/// Adding or removing an escort unit by hand leaves the entries
/// outside the escort entry as they were.
pub proof fn lemma_escort_unit_by_hand(army: ArmyView, unit: UnitView)
    requires
        army.wf(),
        unit.name == army.skirmisher.name,
    ensures
        army.add_unit(unit).escorted() == army.escorted(),
        army.remove_unit(unit).escorted() == army.escorted(),
{
    let escort = army.skirmisher.name;
    let roster = army.roster;
    lemma_find_from(roster, escort, 0);
    let i = find(roster, escort);
    let more = with_one_more(roster, unit);
    let less = with_one_less(roster, unit);
    if i < roster.len() {
        lemma_without_name_update(roster, i, (roster[i].0, one_more(roster[i].1)), escort);
        if roster[i].1 == 1 {
            lemma_without_name_remove(roster, i, escort);
        } else {
            lemma_without_name_update(roster, i, (roster[i].0, (roster[i].1 - 1) as i32), escort);
        }
    } else {
        assert(more.drop_last() == roster);
    }
    crate::army_composition::lemma_with_one_more_wf(roster, unit);
    crate::army_composition::lemma_with_one_less_wf(roster, unit);
    if unit.unit_stats.has_skirmishers {
        lemma_recalculated(ArmyView { roster: more, ..army });
        lemma_recalculated(ArmyView { roster: less, ..army });
    }
}

/// Adding a unit and removing it again leaves every entry outside the
/// escort entry as it was, in place and in count.  The escort entry
/// itself is set anew, not put back.  The entry under the name of the
/// unit must be able to count one more, unless the unit is the escort
/// unit itself.
pub proof fn lemma_add_then_remove(army: ArmyView, unit: UnitView)
    requires
        army.wf(),
        unit.name != army.skirmisher.name ==> room_for(army.roster, unit),
    ensures
        army.add_unit(unit).remove_unit(unit).escorted() == army.escorted(),
        unit.unit_stats.has_skirmishers ==> army.add_unit(unit).remove_unit(unit).escort_rule(),
        army.add_unit(unit).remove_unit(unit).game_mode == army.game_mode,
        army.add_unit(unit).remove_unit(unit).skirmisher == army.skirmisher,
        forall|other: Seq<char>|
            other != army.skirmisher.name ==> #[trigger] army.add_unit(unit).remove_unit(
                unit,
            ).name_count(other) == army.name_count(other),
        forall|other: Seq<char>|
            other != army.skirmisher.name ==> (#[trigger] find(
                army.add_unit(unit).remove_unit(unit).roster,
                other,
            ) < army.add_unit(unit).remove_unit(unit).roster.len() <==> find(army.roster, other)
                < army.roster.len()),
{
    let escort = army.skirmisher.name;
    let name = unit.name;
    let roster = army.roster;
    let more = with_one_more(roster, unit);
    let back = army.add_unit(unit).remove_unit(unit);
    crate::army_composition::lemma_with_one_more_wf(roster, unit);
    crate::army_composition::lemma_add_unit_wf(army, unit);
    crate::army_composition::lemma_remove_unit_wf(army.add_unit(unit), unit);
    if name == escort {
        lemma_escort_unit_by_hand(army, unit);
        lemma_escort_unit_by_hand(army.add_unit(unit), unit);
    } else if !unit.unit_stats.has_skirmishers {
        lemma_one_more_one_less(roster, unit);
    } else {
        let added = ArmyView { roster: more, ..army };
        let grown = added.recalculated();
        lemma_recalculated(added);
        let outer = without_name(roster, escort);
        let kept = without_name(more, escort);
        lemma_without_name_one_more(roster, unit, escort);
        lemma_without_name(roster, escort);
        lemma_without_name(more, escort);
        lemma_without_name_find(roster, escort, name);
        lemma_find_from(roster, name, 0);
        lemma_find_from(outer, name, 0);
        lemma_one_more_one_less(outer, unit);
        lemma_find_from(kept, name, 0);
        lemma_find_from(more, name, 0);
        lemma_without_name_find(more, escort, name);
        assert(find(more, name) < more.len()) by {
            if find(roster, name) < roster.len() {
                lemma_find_update(
                    roster,
                    find(roster, name),
                    (roster[find(roster, name)].0, one_more(roster[find(roster, name)].1)),
                    name,
                    0,
                );
            } else {
                lemma_find_push(roster, (unit, 1i32), name, 0);
            }
        }
        assert(find(kept, name) < kept.len());
        let less = with_one_less(grown.roster, unit);
        assert(less =~= if grown.roster.len() > kept.len() {
            with_one_less(kept, unit).push(grown.roster.last())
        } else {
            with_one_less(kept, unit)
        }) by {
            if grown.roster.len() > kept.len() {
                assert(grown.roster == kept.push(grown.roster.last()));
                lemma_find_push(kept, grown.roster.last(), name, 0);
            }
        }
        let removed = ArmyView { roster: less, ..grown };
        crate::army_composition::lemma_with_one_less_wf(grown.roster, unit);
        lemma_recalculated(removed);
        lemma_name_absent(outer, escort);
        if grown.roster.len() > kept.len() {
            assert(less.drop_last() =~= outer);
        }
        assert(without_name(less, escort) == outer);
    }
    assert(back.escorted() == army.escorted());
    assert forall|other: Seq<char>| other != escort implies #[trigger] back.name_count(other)
        == army.name_count(other) by {
        lemma_named_outside(back.roster, other, escort);
        lemma_named_outside(army.roster, other, escort);
        lemma_total_without_name(back.roster, escort, Statistic::Named(other));
        lemma_total_without_name(army.roster, escort, Statistic::Named(other));
    }
    assert forall|other: Seq<char>| other != escort implies (#[trigger] find(back.roster, other)
        < back.roster.len() <==> find(army.roster, other) < army.roster.len()) by {
        lemma_without_name_find(back.roster, escort, other);
        lemma_without_name_find(army.roster, escort, other);
    }
}

} // verus!
