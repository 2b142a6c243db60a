//! A composition: the roster of an army under one ruleset, with the
//! statistics summed over it and the escort rule that every change of
//! the roster re-establishes.

use vstd::prelude::*;
use crate::arith::{clamp_i32, lemma_mul_bounded, saturate};
use crate::composition_laws::{
    escort_rule_due, lemma_add_unit_escort_rule, lemma_merge_total, lemma_remove_unit_escort_rule,
    mergeable,
};
use crate::unit_templates::{
    has_template, template_from, unit_of, DamageResistanceTemplates, Templates,
};
use crate::units::{
    lemma_wf_supports, Selector, Statistic, Unit, UnitTypes, UnitView,
};

verus! {

/// The rulesets.  Each fixes the escort ratio and the caps on rifles
/// and on rocket batteries.
#[derive(Clone, Copy, Debug, PartialEq, Eq, Structural)]
pub enum GameModes {
    Clash,
    Combat,
    Battle,
    GrandBattle,
}

impl GameModes {
    /// The most rifles that the mode admits.
    pub open spec fn maximum_rifles(self) -> int {
        match self {
            GameModes::Clash => 3,
            GameModes::Combat => 4,
            GameModes::Battle => 6,
            GameModes::GrandBattle => 8,
        }
    }

    /// The most rocket batteries that the mode admits.
    pub open spec fn maximum_rockets(self) -> int {
        match self {
            GameModes::Clash => 1,
            GameModes::Combat => 1,
            GameModes::Battle => 2,
            GameModes::GrandBattle => 2,
        }
    }

    /// Escorts per full group of escorted units.
    pub open spec fn ratio_numerator(self) -> int {
        match self {
            GameModes::Clash => 1,
            GameModes::Combat => 4,
            GameModes::Battle => 2,
            GameModes::GrandBattle => 1,
        }
    }

    /// Size of a full group of escorted units.
    pub open spec fn ratio_denominator(self) -> int {
        match self {
            GameModes::Clash => 4,
            GameModes::Combat => 8,
            GameModes::Battle => 5,
            GameModes::GrandBattle => 3,
        }
    }

    /// The escorts that `eligible` escorted units bring with them:
    /// `floor(eligible / denominator) * numerator`.
    pub open spec fn escort_count(self, eligible: int) -> int {
        clamp_i32((eligible / self.ratio_denominator()) * self.ratio_numerator())
    }

    /// The most rifles that the mode admits.
    pub fn get_maximum_rifles(&self) -> (cap: i32)
        ensures
            cap as int == self.maximum_rifles(),
    {
        match self {
            GameModes::Clash => 3,
            GameModes::Combat => 4,
            GameModes::Battle => 6,
            GameModes::GrandBattle => 8,
        }
    }

    /// The most rocket batteries that the mode admits.
    pub fn get_maximum_rockets(&self) -> (cap: i32)
        ensures
            cap as int == self.maximum_rockets(),
    {
        match self {
            GameModes::Clash => 1,
            GameModes::Combat => 1,
            GameModes::Battle => 2,
            GameModes::GrandBattle => 2,
        }
    }

    /// The escort ratio as (numerator, denominator).
    pub fn get_skirmisher_ratio(&self) -> (ratio: (i32, i32))
        ensures
            ratio.0 as int == self.ratio_numerator(),
            ratio.1 as int == self.ratio_denominator(),
    {
        match self {
            GameModes::Clash => (1, 4),
            GameModes::Combat => (4, 8),
            GameModes::Battle => (2, 5),
            GameModes::GrandBattle => (1, 3),
        }
    }
}

/// A roster as plain values: the templates with their counts, in order.
pub type Roster = Seq<(UnitView, i32)>;

/// What an [`ArmyComposition`] holds, as plain values.
pub struct ArmyView {
    pub game_mode: GameModes,
    pub roster: Roster,
    pub skirmisher: UnitView,
}

/// The sum of `statistic` over `roster`, each template weighted by its count.
pub open spec fn roster_total(roster: Roster, statistic: Statistic) -> int
    decreases roster.len(),
{
    if roster.len() == 0 {
        0
    } else {
        roster_total(roster.drop_last(), statistic) + roster.last().0.stat(statistic)
            * roster.last().1
    }
}

/// The first index at or after `from` whose template has the name, or
/// the length of the roster where there is none.
pub open spec fn find_from(roster: Roster, name: Seq<char>, from: int) -> int
    decreases roster.len() - from,
{
    if from < 0 || from >= roster.len() {
        roster.len() as int
    } else if roster[from].0.name == name {
        from
    } else {
        find_from(roster, name, from + 1)
    }
}

/// The index of the entry under `name`, or the length of the roster.
pub open spec fn find(roster: Roster, name: Seq<char>) -> int {
    find_from(roster, name, 0)
}

/// The roster without the entries under `name`, the others in order.
pub open spec fn without_name(roster: Roster, name: Seq<char>) -> Roster
    decreases roster.len(),
{
    if roster.len() == 0 {
        roster
    } else if roster.last().0.name == name {
        without_name(roster.drop_last(), name)
    } else {
        without_name(roster.drop_last(), name).push(roster.last())
    }
}

/// A count one higher, held at the top of the range.
pub open spec fn one_more(count: i32) -> i32 {
    if count < i32::MAX {
        (count + 1) as i32
    } else {
        count
    }
}

/// The roster with one more unit of the template: the entry under its
/// name counts one more, or a new entry is added at the end.
pub open spec fn with_one_more(roster: Roster, unit: UnitView) -> Roster {
    let i = find(roster, unit.name);
    if i < roster.len() {
        roster.update(i, (roster[i].0, one_more(roster[i].1)))
    } else {
        roster.push((unit, 1i32))
    }
}

/// The roster with one unit less under the template's name; an entry
/// that reaches 0 leaves the roster.
pub open spec fn with_one_less(roster: Roster, unit: UnitView) -> Roster {
    let i = find(roster, unit.name);
    if i < roster.len() {
        if roster[i].1 == 1 {
            roster.remove(i)
        } else {
            roster.update(i, (roster[i].0, (roster[i].1 - 1) as i32))
        }
    } else {
        roster
    }
}

/// No two entries share a name, and every count is at least 1.
pub open spec fn roster_wf(roster: Roster) -> bool {
    &&& forall|i: int, j: int|
        0 <= i < j < roster.len() ==> (#[trigger] roster[i]).0.name != (#[trigger] roster[j]).0.name
    &&& forall|i: int| 0 <= i < roster.len() ==> (#[trigger] roster[i]).1 >= 1
}

impl ArmyView {
    /// No two entries share a name, and every count is at least 1.
    pub open spec fn wf(self) -> bool {
        roster_wf(self.roster)
    }

    /// Every template of the roster allows `statistic` to be computed.
    pub open spec fn supports(self, statistic: Statistic) -> bool {
        forall|i: int| 0 <= i < self.roster.len() ==> (#[trigger] self.roster[i]).0.supports(statistic)
    }

    /// Every template of the roster and that of the escort unit meet
    /// the data invariants of a template.
    pub open spec fn data_wf(self) -> bool {
        &&& self.skirmisher.wf()
        &&& forall|i: int| 0 <= i < self.roster.len() ==> (#[trigger] self.roster[i]).0.wf()
    }

    /// The sum of `statistic` over the roster.
    pub open spec fn total(self, statistic: Statistic) -> int {
        roster_total(self.roster, statistic)
    }

    /// The units under `name`.
    pub open spec fn name_count(self, name: Seq<char>) -> int {
        self.total(Statistic::Named(name))
    }

    /// The escort units of the roster.
    pub open spec fn escorts(self) -> int {
        self.name_count(self.skirmisher.name)
    }

    /// The roster without its escort entry.
    pub open spec fn escorted(self) -> Roster {
        without_name(self.roster, self.skirmisher.name)
    }

    /// The units outside the escort entry that require an escort.
    pub open spec fn eligible(self) -> int {
        roster_total(self.escorted(), Statistic::EscortEligible)
    }

    /// The escort rule: the roster holds as many escort units as the
    /// ratio of its mode gives to the escorted units.
    pub open spec fn escort_rule(self) -> bool {
        self.escorts() == self.game_mode.escort_count(self.eligible())
    }

    /// The escort count set anew: the escort entry leaves the roster,
    /// and where the rule gives at least one escort, an entry with that
    /// count is added at the end.
    pub open spec fn recalculated(self) -> ArmyView {
        let kept = self.escorted();
        let count = self.game_mode.escort_count(roster_total(kept, Statistic::EscortEligible));
        ArmyView {
            roster: if count >= 1 {
                kept.push((self.skirmisher, count as i32))
            } else {
                kept
            },
            ..self
        }
    }

    /// One unit added; the escort count is set anew where the unit
    /// requires an escort.
    pub open spec fn add_unit(self, unit: UnitView) -> ArmyView {
        let added = ArmyView { roster: with_one_more(self.roster, unit), ..self };
        if unit.unit_stats.has_skirmishers {
            added.recalculated()
        } else {
            added
        }
    }

    /// One unit removed; the escort count is set anew where the unit
    /// requires an escort.
    pub open spec fn remove_unit(self, unit: UnitView) -> ArmyView {
        let removed = ArmyView { roster: with_one_less(self.roster, unit), ..self };
        if unit.unit_stats.has_skirmishers {
            removed.recalculated()
        } else {
            removed
        }
    }

    /// `count` units added one after the other.
    pub open spec fn add_units(self, unit: UnitView, count: nat) -> ArmyView
        decreases count,
    {
        if count == 0 {
            self
        } else {
            self.add_units(unit, (count - 1) as nat).add_unit(unit)
        }
    }

    /// Every entry of `entries` added with its count, in order.
    pub open spec fn absorb(self, entries: Roster) -> ArmyView
        decreases entries.len(),
    {
        if entries.len() == 0 {
            self
        } else {
            self.absorb(entries.drop_last()).add_units(
                entries.last().0,
                entries.last().1 as nat,
            )
        }
    }

    /// The union of two compositions: the counts of `other` added to
    /// this one name by name, then the escort count set anew once.
    pub open spec fn merge_with(self, other: ArmyView) -> ArmyView {
        self.absorb(other.roster).recalculated()
    }
}

/// Compositions as plain values, one for one.
pub open spec fn armies_view(armies: Seq<ArmyComposition>) -> Seq<ArmyView> {
    armies.map_values(|army: ArmyComposition| army@)
}

/// A roster of executable entries as plain values.
pub open spec fn roster_view(entries: Seq<(Unit, i32)>) -> Roster {
    entries.map_values(|entry: (Unit, i32)| (entry.0@, entry.1))
}

/// The sum over a roster grows with each entry by that entry's term.
pub proof fn lemma_total_push(roster: Roster, entry: (UnitView, i32), statistic: Statistic)
    ensures
        roster_total(roster.push(entry), statistic) == roster_total(roster, statistic)
            + entry.0.stat(statistic) * entry.1,
{
    assert(roster.push(entry).drop_last() == roster);
}

/// What [`find_from`] returns: the first index at or after `from` under
/// the name, with no entry under it before.
pub proof fn lemma_find_from(roster: Roster, name: Seq<char>, from: int)
    requires
        0 <= from <= roster.len(),
    ensures
        from <= find_from(roster, name, from) <= roster.len(),
        find_from(roster, name, from) < roster.len() ==> roster[find_from(
            roster,
            name,
            from,
        )].0.name == name,
        forall|j: int| from <= j < find_from(roster, name, from) ==> (#[trigger] roster[j]).0.name != name,
    decreases roster.len() - from,
{
    if from < roster.len() && roster[from].0.name != name {
        lemma_find_from(roster, name, from + 1);
    }
}

/// What [`without_name`] keeps: no entry under the name, every other
/// entry, in order; a roster that meets its invariant still does.
pub proof fn lemma_without_name(roster: Roster, name: Seq<char>)
    ensures
        without_name(roster, name).len() <= roster.len(),
        forall|k: int|
            0 <= k < without_name(roster, name).len() ==> (#[trigger] without_name(
                roster,
                name,
            )[k]).0.name != name,
        forall|k: int|
            0 <= k < without_name(roster, name).len() ==> exists|j: int|
                k <= j < roster.len() && roster[j] == #[trigger] without_name(roster, name)[k],
        roster_wf(roster) ==> roster_wf(without_name(roster, name)),
    decreases roster.len(),
{
    if roster.len() > 0 {
        let rest = roster.drop_last();
        lemma_without_name(rest, name);
        let kept = without_name(roster, name);
        let kept_rest = without_name(rest, name);
        assert forall|k: int| 0 <= k < kept.len() implies exists|j: int|
            k <= j < roster.len() && roster[j] == #[trigger] kept[k] by {
            if k < kept_rest.len() {
                let j = choose|j: int| k <= j < rest.len() && rest[j] == kept_rest[k];
                assert(roster[j] == kept[k]);
            } else {
                assert(roster[roster.len() - 1] == kept[k]);
            }
        }
        if roster_wf(roster) {
            assert(roster_wf(rest));
            assert forall|a: int, b: int| 0 <= a < b < kept.len() implies (#[trigger] kept[a]).0.name
                != (#[trigger] kept[b]).0.name by {
                if b < kept_rest.len() {
                } else {
                    let j = choose|j: int| a <= j < rest.len() && rest[j] == kept_rest[a];
                    assert(roster[j] == kept[a]);
                    assert(roster[roster.len() - 1] == kept[b]);
                }
            }
            assert forall|a: int| 0 <= a < kept.len() implies (#[trigger] kept[a]).1 >= 1 by {
                let j = choose|j: int| a <= j < roster.len() && roster[j] == kept[a];
            }
        }
    }
}

/// A roster without an entry under `name` is left as it is by
/// [`without_name`] and counts no unit under that name.
pub proof fn lemma_name_absent(roster: Roster, name: Seq<char>)
    requires
        forall|k: int| 0 <= k < roster.len() ==> (#[trigger] roster[k]).0.name != name,
    ensures
        without_name(roster, name) == roster,
        roster_total(roster, Statistic::Named(name)) == 0,
    decreases roster.len(),
{
    if roster.len() > 0 {
        lemma_name_absent(roster.drop_last(), name);
        assert(roster.drop_last().push(roster.last()) == roster);
    }
}

/// The units that require an escort are never fewer than none.
pub proof fn lemma_eligible_nonnegative(roster: Roster)
    requires
        roster_wf(roster),
    ensures
        0 <= roster_total(roster, Statistic::EscortEligible),
    decreases roster.len(),
{
    if roster.len() > 0 {
        lemma_eligible_nonnegative(roster.drop_last());
    }
}

/// Setting the escort count anew keeps the invariant of the roster and
/// establishes the escort rule.
pub proof fn lemma_recalculated(army: ArmyView)
    requires
        army.wf(),
    ensures
        army.recalculated().wf(),
        army.recalculated().escort_rule(),
        army.recalculated().escorted() == army.escorted(),
{
    let name = army.skirmisher.name;
    let kept = army.escorted();
    let after = army.recalculated();
    let count = army.game_mode.escort_count(roster_total(kept, Statistic::EscortEligible));
    lemma_without_name(army.roster, name);
    lemma_name_absent(kept, name);
    if count >= 1 {
        let entry = (army.skirmisher, count as i32);
        assert(after.roster == kept.push(entry));
        assert(after.roster.drop_last() == kept);
        lemma_total_push(kept, entry, Statistic::Named(name));
        assert(without_name(after.roster, name) == kept);
    } else {
        assert(after.roster == kept);
        lemma_eligible_nonnegative(kept);
        assert(0 <= roster_total(kept, Statistic::EscortEligible) / army.game_mode.ratio_denominator());
    }
}

/// One more unit keeps the invariant of the roster.
pub proof fn lemma_with_one_more_wf(roster: Roster, unit: UnitView)
    requires
        roster_wf(roster),
    ensures
        roster_wf(with_one_more(roster, unit)),
{
    lemma_find_from(roster, unit.name, 0);
}

/// One unit less keeps the invariant of the roster.
pub proof fn lemma_with_one_less_wf(roster: Roster, unit: UnitView)
    requires
        roster_wf(roster),
    ensures
        roster_wf(with_one_less(roster, unit)),
{
    lemma_find_from(roster, unit.name, 0);
}

/// Adding units keeps the invariant of the roster.
pub proof fn lemma_add_unit_wf(army: ArmyView, unit: UnitView)
    requires
        army.wf(),
    ensures
        army.add_unit(unit).wf(),
        unit.unit_stats.has_skirmishers ==> army.add_unit(unit).escort_rule(),
{
    lemma_with_one_more_wf(army.roster, unit);
    let added = ArmyView { roster: with_one_more(army.roster, unit), ..army };
    if unit.unit_stats.has_skirmishers {
        lemma_recalculated(added);
    }
}

/// Removing a unit keeps the invariant of the roster.
pub proof fn lemma_remove_unit_wf(army: ArmyView, unit: UnitView)
    requires
        army.wf(),
    ensures
        army.remove_unit(unit).wf(),
        unit.unit_stats.has_skirmishers ==> army.remove_unit(unit).escort_rule(),
{
    lemma_with_one_less_wf(army.roster, unit);
    let removed = ArmyView { roster: with_one_less(army.roster, unit), ..army };
    if unit.unit_stats.has_skirmishers {
        lemma_recalculated(removed);
    }
}

/// An army of sound templates supports every statistic.
pub proof fn lemma_data_wf_supports(army: ArmyView, statistic: Statistic)
    requires
        army.data_wf(),
    ensures
        army.supports(statistic),
{
    assert forall|i: int| 0 <= i < army.roster.len() implies (#[trigger] army.roster[i]).0.supports(
        statistic,
    ) by {
        lemma_wf_supports(army.roster[i].0, statistic);
    }
}

/// Setting the escort count anew keeps the templates sound.
pub proof fn lemma_recalculated_data_wf(army: ArmyView)
    requires
        army.data_wf(),
    ensures
        army.recalculated().data_wf(),
{
    lemma_without_name(army.roster, army.skirmisher.name);
    let kept = army.escorted();
    let after = army.recalculated().roster;
    assert forall|i: int| 0 <= i < after.len() implies (#[trigger] after[i]).0.wf() by {
        if i < kept.len() {
            let j = choose|j: int| i <= j < army.roster.len() && army.roster[j] == kept[i];
            assert(army.roster[j].0.wf());
        }
    }
}

/// Adding a sound template keeps the templates sound.
pub proof fn lemma_add_unit_data_wf(army: ArmyView, unit: UnitView)
    requires
        army.data_wf(),
        unit.wf(),
    ensures
        army.add_unit(unit).data_wf(),
{
    lemma_find_from(army.roster, unit.name, 0);
    let added = ArmyView { roster: with_one_more(army.roster, unit), ..army };
    assert(added.data_wf());
    if unit.unit_stats.has_skirmishers {
        lemma_recalculated_data_wf(added);
    }
}

/// Removing a unit keeps the templates sound.
pub proof fn lemma_remove_unit_data_wf(army: ArmyView, unit: UnitView)
    requires
        army.data_wf(),
    ensures
        army.remove_unit(unit).data_wf(),
{
    lemma_find_from(army.roster, unit.name, 0);
    let removed = ArmyView { roster: with_one_less(army.roster, unit), ..army };
    assert(removed.data_wf());
    if unit.unit_stats.has_skirmishers {
        lemma_recalculated_data_wf(removed);
    }
}

/// An army under one ruleset: the templates bought, each with its
/// count, and the template of the escort unit, whose count follows
/// from the others.
#[derive(Debug)]
pub struct ArmyComposition {
    pub game_mode: GameModes,
    pub unit_roster: Vec<(Unit, i32)>,
    pub skirmisher: Unit,
}

impl View for ArmyComposition {
    type V = ArmyView;

    open spec fn view(&self) -> ArmyView {
        ArmyView {
            game_mode: self.game_mode,
            roster: roster_view(self.unit_roster@),
            skirmisher: self.skirmisher@,
        }
    }
}

impl Clone for ArmyComposition {
    fn clone(&self) -> (copy: Self)
        ensures
            copy@ == self@,
    {
        let mut roster: Vec<(Unit, i32)> = Vec::new();
        let mut i: usize = 0;
        while i < self.unit_roster.len()
            invariant
                i <= self.unit_roster.len(),
                roster@.len() == i,
                forall|j: int|
                    0 <= j < i ==> roster@[j].0@ == self.unit_roster@[j].0@ && roster@[j].1
                        == self.unit_roster@[j].1,
            decreases self.unit_roster.len() - i,
        {
            let entry = &self.unit_roster[i];
            roster.push((entry.0.clone(), entry.1));
            i += 1;
        }
        assert(roster_view(roster@) =~= roster_view(self.unit_roster@));
        ArmyComposition {
            game_mode: self.game_mode,
            unit_roster: roster,
            skirmisher: self.skirmisher.clone(),
        }
    }
}

impl ArmyComposition {
    /// An empty composition for `game_mode`, with the template of its
    /// escort unit.
    pub fn new(game_mode: GameModes, skirmisher: Unit) -> (army: Self)
        ensures
            army@ == (ArmyView {
                game_mode,
                roster: Seq::<(UnitView, i32)>::empty(),
                skirmisher: skirmisher@,
            }),
            army@.wf(),
            army@.escort_rule(),
    {
        let army = ArmyComposition { game_mode, unit_roster: Vec::new(), skirmisher };
        assert(army@.roster =~= Seq::<(UnitView, i32)>::empty());
        army
    }

    /// Index of the entry under `name`, or the length of the roster.
    fn position(&self, name: &String) -> (i: usize)
        ensures
            i as int == find(self@.roster, name@),
            i <= self.unit_roster.len(),
    {
        let mut i: usize = 0;
        while i < self.unit_roster.len()
            invariant
                i <= self.unit_roster.len(),
                find(self@.roster, name@) == find_from(self@.roster, name@, i as int),
            decreases self.unit_roster.len() - i,
        {
            assert(self@.roster[i as int].0.name == self.unit_roster@[i as int].0.name@);
            if self.unit_roster[i].0.name == *name {
                return i;
            }
            i += 1;
        }
        i
    }

    /// Adds one unit: the entry under its name counts one more, or a new
    /// entry is added.  Where the unit requires an escort, the escort
    /// count is set anew.  The escort rule holds after the call where
    /// the unit requires an escort, and where it held before and the
    /// unit is one of the roster's own or new to it, not the escort
    /// unit itself.
    pub fn add_unit(&mut self, unit_to_add: &Unit)
        requires
            old(self)@.wf(),
        ensures
            final(self)@ == old(self)@.add_unit(unit_to_add@),
            final(self)@.wf(),
            final(self)@.game_mode == old(self)@.game_mode,
            escort_rule_due(old(self)@, unit_to_add@) ==> final(self)@.escort_rule(),
    {
        proof {
            if escort_rule_due(self@, unit_to_add@) {
                lemma_add_unit_escort_rule(self@, unit_to_add@);
            }
            lemma_add_unit_wf(self@, unit_to_add@);
            lemma_with_one_more_wf(self@.roster, unit_to_add@);
        }
        let i: usize = self.position(&unit_to_add.name);
        if i < self.unit_roster.len() {
            if self.unit_roster[i].1 < i32::MAX {
                self.unit_roster[i].1 += 1;
            }
        } else {
            self.unit_roster.push((unit_to_add.clone(), 1));
        }
        assert(self@.roster =~= with_one_more(old(self)@.roster, unit_to_add@));
        if unit_to_add.unit_stats.has_skirmishers {
            self.force_skirmisher_recalculation();
        }
    }

    /// Adds `count` units, one after the other.
    pub fn add_units(&mut self, unit_to_add: &Unit, count: usize)
        requires
            old(self)@.wf(),
        ensures
            final(self)@ == old(self)@.add_units(unit_to_add@, count as nat),
            final(self)@.wf(),
            final(self)@.game_mode == old(self)@.game_mode,
    {
        let mut done: usize = 0;
        while done < count
            invariant
                done <= count,
                self@.wf(),
                self@.game_mode == old(self)@.game_mode,
                self@ == old(self)@.add_units(unit_to_add@, done as nat),
            decreases count - done,
        {
            self.add_unit(unit_to_add);
            done += 1;
        }
    }

    /// Removes one unit: the entry under its name counts one less and
    /// leaves the roster at 0.  Where the unit requires an escort, the
    /// escort count is set anew.  The escort rule holds after the call
    /// on the same terms as after adding a unit.
    pub fn remove_unit(&mut self, unit_to_remove: &Unit)
        requires
            old(self)@.wf(),
        ensures
            final(self)@ == old(self)@.remove_unit(unit_to_remove@),
            final(self)@.wf(),
            final(self)@.game_mode == old(self)@.game_mode,
            escort_rule_due(old(self)@, unit_to_remove@) ==> final(self)@.escort_rule(),
    {
        proof {
            if escort_rule_due(self@, unit_to_remove@) {
                lemma_remove_unit_escort_rule(self@, unit_to_remove@);
            }
            lemma_remove_unit_wf(self@, unit_to_remove@);
            lemma_with_one_less_wf(self@.roster, unit_to_remove@);
        }
        let i: usize = self.position(&unit_to_remove.name);
        if i < self.unit_roster.len() {
            assert(self@.roster[i as int].1 >= 1);
            if self.unit_roster[i].1 == 1 {
                self.unit_roster.remove(i);
            } else {
                self.unit_roster[i].1 -= 1;
            }
        }
        assert(self@.roster =~= with_one_less(old(self)@.roster, unit_to_remove@));
        if unit_to_remove.unit_stats.has_skirmishers {
            self.force_skirmisher_recalculation();
        }
    }

    /// Sets the escort count to what the ratio of the mode gives to the
    /// escorted units of the roster.
    pub fn force_skirmisher_recalculation(&mut self)
        requires
            old(self)@.wf(),
        ensures
            final(self)@ == old(self)@.recalculated(),
            final(self)@.wf(),
            final(self)@.escort_rule(),
    {
        let ghost before = self@;
        let mut kept: Vec<(Unit, i32)> = Vec::new();
        let mut eligible: i128 = 0;
        let mut i: usize = 0;
        while i < self.unit_roster.len()
            invariant
                i <= self.unit_roster.len(),
                self@ == before,
                before.wf(),
                roster_view(kept@) == without_name(before.roster.take(i as int), before.skirmisher.name),
                eligible as int == roster_total(roster_view(kept@), Statistic::EscortEligible),
                0 <= eligible <= i * 0x8000_0000,
            decreases self.unit_roster.len() - i,
        {
            let entry = &self.unit_roster[i];
            proof {
                assert(before.roster[i as int] == (entry.0@, entry.1));
                assert(before.roster.take(i as int + 1).drop_last() == before.roster.take(i as int));
                assert(before.roster.take(i as int + 1).last() == before.roster[i as int]);
            }
            if entry.0.name != self.skirmisher.name {
                let ghost kept_before = roster_view(kept@);
                kept.push((entry.0.clone(), entry.1));
                proof {
                    assert(roster_view(kept@) =~= kept_before.push((entry.0@, entry.1)));
                    lemma_total_push(kept_before, (entry.0@, entry.1), Statistic::EscortEligible);
                }
                if entry.0.unit_stats.has_skirmishers {
                    eligible = eligible + entry.1 as i128;
                }
            }
            i += 1;
        }
        assert(before.roster.take(i as int) == before.roster);
        let ratio: (i32, i32) = self.game_mode.get_skirmisher_ratio();
        let groups: i128 = eligible / ratio.1 as i128;
        proof {
            assert(0 <= groups <= eligible) by (nonlinear_arith)
                requires
                    groups == eligible / (ratio.1 as i128),
                    eligible >= 0,
                    ratio.1 >= 1,
            ;
        }
        proof {
            lemma_mul_bounded(groups as int, ratio.0 as int, 0x1_0000_0000_0000_0000_0000_0000, 4);
        }
        let count: i32 = saturate(groups * ratio.0 as i128);
        if count >= 1 {
            let ghost kept_before = roster_view(kept@);
            kept.push((self.skirmisher.clone(), count));
            assert(roster_view(kept@) =~= kept_before.push((self.skirmisher@, count)));
        }
        self.unit_roster = kept;
        proof {
            lemma_recalculated(before);
        }
    }

    /// The union of this composition and `other`, under the mode and
    /// with the escort unit of this one: the counts are added name by
    /// name, and the escort count is set anew from the units of both.
    pub fn merge_with(&self, other: &ArmyComposition) -> (merged: ArmyComposition)
        requires
            self@.wf(),
            other@.wf(),
        ensures
            merged@ == self@.merge_with(other@),
            merged@.wf(),
            merged@.escort_rule(),
            merged@.game_mode == self@.game_mode,
            mergeable(self@, other@) ==> merged@.escorts() == self@.game_mode.escort_count(
                self@.eligible() + other@.eligible(),
            ),
    {
        proof {
            if mergeable(self@, other@) {
                lemma_merge_total(self@, other@, Statistic::Hp);
            }
        }
        let mut result = self.clone();
        let mut j: usize = 0;
        while j < other.unit_roster.len()
            invariant
                j <= other.unit_roster.len(),
                other@.wf(),
                result@.wf(),
                result@.game_mode == self@.game_mode,
                result@ == self@.absorb(other@.roster.take(j as int)),
            decreases other.unit_roster.len() - j,
        {
            let entry = &other.unit_roster[j];
            proof {
                assert(other@.roster[j as int] == (entry.0@, entry.1));
                assert(other@.roster.take(j as int + 1).drop_last() == other@.roster.take(j as int));
                assert(other@.roster.take(j as int + 1).last() == other@.roster[j as int]);
            }
            result.add_units(&entry.0, entry.1 as usize);
            j += 1;
        }
        assert(other@.roster.take(j as int) == other@.roster);
        result.force_skirmisher_recalculation();
        result
    }

    /// Whether the roster meets its invariant: no name twice, no count
    /// below 1.
    pub fn roster_is_sound(&self) -> (sound: bool)
        ensures
            sound == self@.wf(),
    {
        let mut i: usize = 0;
        while i < self.unit_roster.len()
            invariant
                i <= self.unit_roster.len(),
                forall|a: int, b: int|
                    0 <= a < b < i ==> (#[trigger] self@.roster[a]).0.name != (
                    #[trigger] self@.roster[b]).0.name,
                forall|a: int| 0 <= a < i ==> (#[trigger] self@.roster[a]).1 >= 1,
            decreases self.unit_roster.len() - i,
        {
            assert(self@.roster[i as int] == (self.unit_roster@[i as int].0@, self.unit_roster@[i as int].1));
            if self.unit_roster[i].1 < 1 {
                return false;
            }
            let mut j: usize = 0;
            while j < i
                invariant
                    j <= i,
                    i < self.unit_roster.len(),
                    forall|a: int|
                        0 <= a < j ==> (#[trigger] self@.roster[a]).0.name != self@.roster[i as int].0.name,
                decreases i - j,
            {
                assert(self@.roster[j as int].0.name == self.unit_roster@[j as int].0.name@);
                assert(self@.roster[i as int].0.name == self.unit_roster@[i as int].0.name@);
                if self.unit_roster[j].0.name == self.unit_roster[i].0.name {
                    return false;
                }
                j += 1;
            }
            i += 1;
        }
        true
    }

    /// Whether every template of the roster and that of the escort unit
    /// meet the data invariants of a template.
    pub fn data_is_sound(&self) -> (sound: bool)
        ensures
            sound == self@.data_wf(),
    {
        if !self.skirmisher.is_sound() {
            return false;
        }
        let mut i: usize = 0;
        while i < self.unit_roster.len()
            invariant
                i <= self.unit_roster.len(),
                self@.skirmisher.wf(),
                forall|a: int| 0 <= a < i ==> (#[trigger] self@.roster[a]).0.wf(),
            decreases self.unit_roster.len() - i,
        {
            assert(self@.roster[i as int].0 == self.unit_roster@[i as int].0@);
            if !self.unit_roster[i].0.is_sound() {
                return false;
            }
            i += 1;
        }
        true
    }

    /// Adds one unit of the template that the catalog lists under
    /// `unit_name`.  The catalog must list the name.
    pub fn add_unit_by_name(
        &mut self,
        templates: &Templates,
        resistances: &DamageResistanceTemplates,
        unit_name: &str,
    )
        requires
            old(self)@.wf(),
            has_template(templates@, unit_name@),
        ensures
            final(self)@ == old(self)@.add_unit(
                unit_of(templates@[template_from(templates@, unit_name@, 0)], resistances@),
            ),
            final(self)@.wf(),
    {
        let unit_to_add = templates.get_unit_by_name(resistances, unit_name);
        self.add_unit(&unit_to_add);
    }

    /// Adds `count` units of the template that the catalog lists under
    /// `unit_name`.  The catalog must list the name.
    pub fn add_units_by_name(
        &mut self,
        templates: &Templates,
        resistances: &DamageResistanceTemplates,
        unit_name: &str,
        count: usize,
    )
        requires
            old(self)@.wf(),
            has_template(templates@, unit_name@),
        ensures
            final(self)@ == old(self)@.add_units(
                unit_of(templates@[template_from(templates@, unit_name@, 0)], resistances@),
                count as nat,
            ),
            final(self)@.wf(),
    {
        let unit_to_add = templates.get_unit_by_name(resistances, unit_name);
        self.add_units(&unit_to_add, count);
    }

    /// The selected statistic summed over the roster, exactly.
    pub fn exact_total(&self, selector: &Selector) -> (total: i128)
        requires
            self@.supports(selector@),
        ensures
            total as int == self@.total(selector@),
    {
        let mut total: i128 = 0;
        let mut i: usize = 0;
        while i < self.unit_roster.len()
            invariant
                i <= self.unit_roster.len(),
                self@.supports(selector@),
                total as int == roster_total(self@.roster.take(i as int), selector@),
                -i * 0x4000_0000_0000_0000 <= total <= i * 0x4000_0000_0000_0000,
            decreases self.unit_roster.len() - i,
        {
            let entry = &self.unit_roster[i];
            assert(self@.roster[i as int] == (entry.0@, entry.1));
            let value: i32 = entry.0.stat(selector);
            proof {
                lemma_mul_bounded(value as int, entry.1 as int, 0x8000_0000, 0x8000_0000);
                assert(self@.roster.take(i as int + 1).drop_last() == self@.roster.take(i as int));
            }
            total = total + value as i128 * entry.1 as i128;
            i += 1;
        }
        assert(self@.roster.take(i as int) == self@.roster);
        total
    }

    /// The selected statistic summed over the roster, held at the
    /// limits of `i32`.
    pub fn total(&self, selector: &Selector) -> (total: i32)
        requires
            self@.supports(selector@),
        ensures
            total as int == clamp_i32(self@.total(selector@)),
    {
        saturate(self.exact_total(selector))
    }

    /// The gold that the roster costs.
    pub fn get_gold_cost(&self) -> (cost: i32)
        ensures
            cost as int == clamp_i32(self@.total(Statistic::GoldCost)),
    {
        self.total(&Selector::GoldCost)
    }

    /// The manpower that the roster costs.
    pub fn get_manpower_cost(&self) -> (cost: i32)
        ensures
            cost as int == clamp_i32(self@.total(Statistic::ManpowerCost)),
    {
        self.total(&Selector::ManpowerCost)
    }

    /// The units of a category.
    pub fn get_unit_type_count(&self, unit_type: UnitTypes) -> (count: i32)
        ensures
            count as int == clamp_i32(self@.total(Statistic::Headcount(unit_type))),
    {
        self.total(&Selector::Headcount(unit_type))
    }

    /// The units under a name.
    pub fn get_unit_name_count(&self, unit_name: &str) -> (count: i32)
        ensures
            count as int == clamp_i32(self@.name_count(unit_name@)),
    {
        let name: String = unit_name.to_owned();
        self.total(&Selector::Named(&name))
    }

    /// The hit points of all units.
    pub fn get_total_hp(&self) -> (hp: i32)
        ensures
            hp as int == clamp_i32(self@.total(Statistic::Hp)),
    {
        self.total(&Selector::Hp)
    }

    /// The organization of all units.
    pub fn get_total_organization(&self) -> (organization: i32)
        ensures
            organization as int == clamp_i32(self@.total(Statistic::Organization)),
    {
        self.total(&Selector::Organization)
    }

    /// The ranged damage of all units at `range`.
    pub fn get_ranged_damage_at_range(&self, range: i32) -> (damage: i32)
        requires
            self@.supports(Statistic::DamageAt(range as int)),
        ensures
            damage as int == clamp_i32(self@.total(Statistic::DamageAt(range as int))),
    {
        self.total(&Selector::DamageAt(range))
    }

    /// The mean ranged damage of each unit over the ranges from `band.0`
    /// up to, but without, `band.1`, summed over all units.
    pub fn get_average_damage_over_band(&self, band: (i32, i32)) -> (damage: i32)
        requires
            self@.supports(Statistic::DamageOver(band.0 as int, band.1 as int)),
        ensures
            damage as int == clamp_i32(
                self@.total(Statistic::DamageOver(band.0 as int, band.1 as int)),
            ),
    {
        self.total(&Selector::DamageOver(band.0, band.1))
    }

    /// The melee attack of all units.
    pub fn get_melee_attack(&self) -> (attack: i32)
        ensures
            attack as int == clamp_i32(self@.total(Statistic::MeleeAttack)),
    {
        self.total(&Selector::MeleeAttack)
    }

    /// The melee attack of the units of the listed categories.
    pub fn get_melee_attack_unit_types(&self, types: &[UnitTypes]) -> (attack: i32)
        ensures
            attack as int == clamp_i32(self@.total(Statistic::MeleeAttackOf(types@))),
    {
        self.total(&Selector::MeleeAttackOf(types))
    }

    /// The melee defense of all units.
    pub fn get_melee_defense(&self) -> (defense: i32)
        ensures
            defense as int == clamp_i32(self@.total(Statistic::MeleeDefense)),
    {
        self.total(&Selector::MeleeDefense)
    }

    /// The melee defense of the units of the listed categories.
    pub fn get_melee_defense_unit_types(&self, types: &[UnitTypes]) -> (defense: i32)
        ensures
            defense as int == clamp_i32(self@.total(Statistic::MeleeDefenseOf(types@))),
    {
        self.total(&Selector::MeleeDefenseOf(types))
    }

    /// The effective hit points of all units against a damage source.
    pub fn get_ehp_vs_source(&self, src: &str) -> (ehp: i32)
        requires
            self@.supports(Statistic::EhpVs(src@)),
        ensures
            ehp as int == clamp_i32(self@.total(Statistic::EhpVs(src@))),
    {
        let source: String = src.to_owned();
        self.total(&Selector::EhpVs(&source))
    }

    /// The organization-damage potential of all units at `range`.
    pub fn get_total_odp_at_rng(&self, range: i32) -> (odp: i32)
        requires
            self@.supports(Statistic::OdpAt(range as int)),
        ensures
            odp as int == clamp_i32(self@.total(Statistic::OdpAt(range as int))),
    {
        self.total(&Selector::OdpAt(range))
    }

    /// The mean organization-damage potential of each unit over a band
    /// of ranges, summed over all units.
    pub fn get_avg_odp_over_band(&self, band: (i32, i32)) -> (odp: i32)
        requires
            self@.supports(Statistic::OdpOver(band.0 as int, band.1 as int)),
        ensures
            odp as int == clamp_i32(self@.total(Statistic::OdpOver(band.0 as int, band.1 as int))),
    {
        self.total(&Selector::OdpOver(band.0, band.1))
    }

    /// The figures that a report of the composition shows.
    pub fn summary(&self) -> (figures: CompositionSummary)
        requires
            self@.supports(Statistic::DamageOver(20, 40)),
            self@.supports(Statistic::OdpOver(20, 40)),
        ensures
            figures.gold as int == clamp_i32(self@.total(Statistic::GoldCost)),
            figures.manpower as int == clamp_i32(self@.total(Statistic::ManpowerCost)),
            figures.average_damage as int == clamp_i32(self@.total(Statistic::DamageOver(20, 40))),
            figures.average_odp as int == clamp_i32(self@.total(Statistic::OdpOver(20, 40))),
            figures.melee_attack as int == clamp_i32(self@.total(Statistic::MeleeAttack)),
            figures.melee_defense as int == clamp_i32(self@.total(Statistic::MeleeDefense)),
            figures.hp as int == clamp_i32(self@.total(Statistic::Hp)),
            figures.organization as int == clamp_i32(self@.total(Statistic::Organization)),
            figures.infantry_attack as int == clamp_i32(
                self@.total(Statistic::MeleeAttackOf(seq![UnitTypes::Infantry])),
            ),
            figures.infantry_defense as int == clamp_i32(
                self@.total(Statistic::MeleeDefenseOf(seq![UnitTypes::Infantry])),
            ),
            figures.cavalry_attack as int == clamp_i32(
                self@.total(Statistic::MeleeAttackOf(seq![UnitTypes::Cavalry])),
            ),
            figures.cavalry_defense as int == clamp_i32(
                self@.total(Statistic::MeleeDefenseOf(seq![UnitTypes::Cavalry])),
            ),
    {
        let mut infantry: Vec<UnitTypes> = Vec::new();
        infantry.push(UnitTypes::Infantry);
        let mut cavalry: Vec<UnitTypes> = Vec::new();
        cavalry.push(UnitTypes::Cavalry);
        assert(infantry@ =~= seq![UnitTypes::Infantry]);
        assert(cavalry@ =~= seq![UnitTypes::Cavalry]);
        CompositionSummary {
            gold: self.get_gold_cost(),
            manpower: self.get_manpower_cost(),
            average_damage: self.get_average_damage_over_band((20, 40)),
            average_odp: self.get_avg_odp_over_band((20, 40)),
            melee_attack: self.get_melee_attack(),
            melee_defense: self.get_melee_defense(),
            hp: self.get_total_hp(),
            organization: self.get_total_organization(),
            infantry_attack: self.get_melee_attack_unit_types(infantry.as_slice()),
            infantry_defense: self.get_melee_defense_unit_types(infantry.as_slice()),
            cavalry_attack: self.get_melee_attack_unit_types(cavalry.as_slice()),
            cavalry_defense: self.get_melee_defense_unit_types(cavalry.as_slice()),
        }
    }
}

/// The figures of a composition that a report shows: costs, the mean
/// damage and organization-damage potential over the ranges 20 to 40,
/// and the melee statistics, overall and for infantry and cavalry.
#[derive(Clone, Copy, Debug, PartialEq, Eq, Structural)]
pub struct CompositionSummary {
    pub gold: i32,
    pub manpower: i32,
    pub average_damage: i32,
    pub average_odp: i32,
    pub melee_attack: i32,
    pub melee_defense: i32,
    pub hp: i32,
    pub organization: i32,
    pub infantry_attack: i32,
    pub infantry_defense: i32,
    pub cavalry_attack: i32,
    pub cavalry_defense: i32,
}

} // verus!
