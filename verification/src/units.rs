//! Unit templates as the optimizer sees them, and the statistics that
//! are read off a single unit.

use vstd::prelude::*;
use crate::arith::{ratio, saturating_ratio, lemma_mul_bounded};
use crate::unitstats::{
    average_damage, average_odp, damage_at, odp_at, org_ratio_at, UnitStats, UnitStatsView,
};

verus! {

/// Kinds of damage.
#[derive(Clone, Copy, Debug, PartialEq, Eq, Structural)]
pub enum DamageSource {
    Musket,
    ExplosiveShell,
}

/// The categories of units.
#[derive(Clone, Copy, Debug, PartialEq, Eq, Structural)]
pub enum UnitTypes {
    SkirmishInfantry,
    Infantry,
    Cavalry,
    Artillery,
}

/// A unit template: its name, which is its key, its category, its
/// statistics and its table of damage resistances, in percent.
#[derive(Debug)]
pub struct Unit {
    pub name: String,
    pub unit_type: UnitTypes,
    pub unit_stats: UnitStats,
    pub damage_resistances: Vec<(String, i32)>,
}

/// What a [`Unit`] holds, as plain values.
pub struct UnitView {
    pub name: Seq<char>,
    pub unit_type: UnitTypes,
    pub unit_stats: UnitStatsView,
    pub damage_resistances: Seq<(Seq<char>, i32)>,
}

/// A resistance table as plain values.
pub open spec fn resistances_view(table: Seq<(String, i32)>) -> Seq<(Seq<char>, i32)> {
    table.map_values(|entry: (String, i32)| (entry.0@, entry.1))
}

impl View for Unit {
    type V = UnitView;

    open spec fn view(&self) -> UnitView {
        UnitView {
            name: self.name@,
            unit_type: self.unit_type,
            unit_stats: self.unit_stats@,
            damage_resistances: resistances_view(self.damage_resistances@),
        }
    }
}

/// A quantity that is read off one unit and summed over a roster,
/// weighted by the counts.
pub enum Statistic {
    GoldCost,
    ManpowerCost,
    Hp,
    Organization,
    MeleeAttack,
    MeleeDefense,
    /// 1 for a unit of the category, 0 for any other.
    Headcount(UnitTypes),
    /// 1 for a unit of the name, 0 for any other.
    Named(Seq<char>),
    /// 1 for a unit that requires an escort, 0 for any other.
    EscortEligible,
    /// Melee attack of the units of the listed categories.
    MeleeAttackOf(Seq<UnitTypes>),
    /// Melee defense of the units of the listed categories.
    MeleeDefenseOf(Seq<UnitTypes>),
    DamageAt(int),
    DamageOver(int, int),
    OdpAt(int),
    OdpOver(int, int),
    /// Effective hit points against the named damage source.
    EhpVs(Seq<char>),
    /// The inner statistic for a unit that does not go by the name, 0
    /// for one that does.
    Outside(Seq<char>, Box<Statistic>),
}

/// A [`Statistic`] as executable code names it.
pub enum Selector<'a> {
    GoldCost,
    ManpowerCost,
    Hp,
    Organization,
    MeleeAttack,
    MeleeDefense,
    Headcount(UnitTypes),
    Named(&'a String),
    EscortEligible,
    MeleeAttackOf(&'a [UnitTypes]),
    MeleeDefenseOf(&'a [UnitTypes]),
    DamageAt(i32),
    DamageOver(i32, i32),
    OdpAt(i32),
    OdpOver(i32, i32),
    EhpVs(&'a String),
}

impl<'a> View for Selector<'a> {
    type V = Statistic;

    open spec fn view(&self) -> Statistic {
        match *self {
            Selector::GoldCost => Statistic::GoldCost,
            Selector::ManpowerCost => Statistic::ManpowerCost,
            Selector::Hp => Statistic::Hp,
            Selector::Organization => Statistic::Organization,
            Selector::MeleeAttack => Statistic::MeleeAttack,
            Selector::MeleeDefense => Statistic::MeleeDefense,
            Selector::Headcount(unit_type) => Statistic::Headcount(unit_type),
            Selector::Named(name) => Statistic::Named(name@),
            Selector::EscortEligible => Statistic::EscortEligible,
            Selector::MeleeAttackOf(types) => Statistic::MeleeAttackOf(types@),
            Selector::MeleeDefenseOf(types) => Statistic::MeleeDefenseOf(types@),
            Selector::DamageAt(range) => Statistic::DamageAt(range as int),
            Selector::DamageOver(from, to) => Statistic::DamageOver(from as int, to as int),
            Selector::OdpAt(range) => Statistic::OdpAt(range as int),
            Selector::OdpOver(from, to) => Statistic::OdpOver(from as int, to as int),
            Selector::EhpVs(source) => Statistic::EhpVs(source@),
        }
    }
}

/// The resistance that `table` lists for `source`, at or after index
/// `from`: that of the first entry under that name, 0 where there is none.
pub open spec fn modifier_from(table: Seq<(Seq<char>, i32)>, source: Seq<char>, from: int) -> int
    decreases table.len() - from,
{
    if from < 0 || from >= table.len() {
        0
    } else if table[from].0 == source {
        table[from].1 as int
    } else {
        modifier_from(table, source, from + 1)
    }
}

impl UnitView {
    /// Resistance, in percent, against `source`; 0 where the table does
    /// not list it.
    pub open spec fn damage_modifier(self, source: Seq<char>) -> int {
        modifier_from(self.damage_resistances, source, 0)
    }

    /// Effective hit points against `source`: `hp / (1 - resistance / 100)`,
    /// rounded toward zero.
    pub open spec fn ehp_vs(self, source: Seq<char>) -> int {
        ratio(self.unit_stats.hp * 100, 100 - self.damage_modifier(source))
    }

    /// Mean ranged damage over a band of ranges; 0 without a ranged profile.
    pub open spec fn dmg_over_band(self, from: int, to: int) -> int {
        match self.unit_stats.ranged_stats {
            Some(bands) => average_damage(bands, from, to),
            None => 0,
        }
    }

    /// Ranged damage at `range`; 0 without a ranged profile.
    pub open spec fn damage_at(self, range: int) -> int {
        match self.unit_stats.ranged_stats {
            Some(bands) => damage_at(bands, range),
            None => 0,
        }
    }

    /// Organization-damage potential at `range`; 0 without a ranged profile.
    pub open spec fn ranged_odp(self, range: int) -> int {
        match self.unit_stats.ranged_stats {
            Some(bands) => odp_at(bands, range),
            None => 0,
        }
    }

    /// Mean organization-damage potential over a band of ranges; 0
    /// without a ranged profile.
    pub open spec fn avg_odp_over_band(self, from: int, to: int) -> int {
        match self.unit_stats.ranged_stats {
            Some(bands) => average_odp(bands, from, to),
            None => 0,
        }
    }

    /// Organization damage of one melee hit on a target of `dest_hp` hit
    /// points: ten times the ratio of the part of the target that the
    /// hit removes.
    pub open spec fn melee_org_damage(self, dest_hp: int) -> int {
        ratio(Unit::ORGANIZATION_DMG_RATIO_MELEE * self.unit_stats.melee_attack * 10, dest_hp)
    }

    /// Organization damage of one ranged hit at `range` on a target of
    /// `dest_hp` hit points.
    pub open spec fn ranged_org_damage(self, dest_hp: int, range: int) -> int {
        match self.unit_stats.ranged_stats {
            Some(bands) => ratio(org_ratio_at(bands, range) * damage_at(bands, range) * 10, dest_hp),
            None => 0,
        }
    }

    /// No listed resistance is 100 percent.
    pub open spec fn resistances_wf(self) -> bool {
        forall|i: int|
            0 <= i < self.damage_resistances.len() ==> (#[trigger] self.damage_resistances[i]).1
                != 100
    }

    /// The data invariants of a template: no resistance of 100 percent,
    /// no ranged band of zero width.
    pub open spec fn wf(self) -> bool {
        self.resistances_wf() && self.unit_stats.wf()
    }

    /// The value of `statistic` for one unit of this template.
    pub open spec fn stat(self, statistic: Statistic) -> int
        decreases statistic,
    {
        match statistic {
            Statistic::GoldCost => self.unit_stats.gold_cost as int,
            Statistic::ManpowerCost => self.unit_stats.manpower_cost as int,
            Statistic::Hp => self.unit_stats.hp as int,
            Statistic::Organization => self.unit_stats.organization as int,
            Statistic::MeleeAttack => self.unit_stats.melee_attack as int,
            Statistic::MeleeDefense => self.unit_stats.melee_defense as int,
            Statistic::Headcount(unit_type) => if self.unit_type == unit_type {
                1
            } else {
                0
            },
            Statistic::Named(name) => if self.name == name {
                1
            } else {
                0
            },
            Statistic::EscortEligible => if self.unit_stats.has_skirmishers {
                1
            } else {
                0
            },
            Statistic::MeleeAttackOf(types) => if types.contains(self.unit_type) {
                self.unit_stats.melee_attack as int
            } else {
                0
            },
            Statistic::MeleeDefenseOf(types) => if types.contains(self.unit_type) {
                self.unit_stats.melee_defense as int
            } else {
                0
            },
            Statistic::DamageAt(range) => self.damage_at(range),
            Statistic::DamageOver(from, to) => self.dmg_over_band(from, to),
            Statistic::OdpAt(range) => self.ranged_odp(range),
            Statistic::OdpOver(from, to) => self.avg_odp_over_band(from, to),
            Statistic::EhpVs(source) => self.ehp_vs(source),
            Statistic::Outside(name, inner) => if self.name == name {
                0
            } else {
                self.stat(*inner)
            },
        }
    }

    /// The template's data allow `statistic` to be computed: a ranged
    /// statistic needs bands of nonzero width, effective hit points need
    /// a resistance other than 100 percent.
    pub open spec fn supports(self, statistic: Statistic) -> bool
        decreases statistic,
    {
        match statistic {
            Statistic::DamageAt(_) | Statistic::DamageOver(_, _) | Statistic::OdpAt(_)
            | Statistic::OdpOver(_, _) => self.unit_stats.wf(),
            Statistic::EhpVs(source) => self.damage_modifier(source) != 100,
            Statistic::Outside(_, inner) => self.supports(*inner),
            _ => true,
        }
    }
}

/// A template that meets its data invariants supports every statistic.
pub proof fn lemma_wf_supports(unit: UnitView, statistic: Statistic)
    requires
        unit.wf(),
    ensures
        unit.supports(statistic),
    decreases statistic,
{
    match statistic {
        Statistic::EhpVs(source) => {
            lemma_modifier_not_full(unit.damage_resistances, source, 0);
        },
        Statistic::Outside(_, inner) => {
            lemma_wf_supports(unit, *inner);
        },
        _ => {},
    }
}

/// A table without a resistance of 100 lists none for any source.
proof fn lemma_modifier_not_full(table: Seq<(Seq<char>, i32)>, source: Seq<char>, from: int)
    requires
        forall|i: int| 0 <= i < table.len() ==> (#[trigger] table[i]).1 != 100,
    ensures
        modifier_from(table, source, from) != 100,
    decreases table.len() - from,
{
    if 0 <= from < table.len() && table[from].0 != source {
        lemma_modifier_not_full(table, source, from + 1);
    }
}

/// Every value of a statistic is an `i32`.
pub proof fn lemma_stat_bounded(unit: UnitView, statistic: Statistic)
    ensures
        i32::MIN <= unit.stat(statistic) <= i32::MAX,
    decreases statistic,
{
    if let Statistic::Outside(_, inner) = statistic {
        lemma_stat_bounded(unit, *inner);
    }
}

impl Clone for Unit {
    fn clone(&self) -> (copy: Self)
        ensures
            copy@ == self@,
    {
        Unit {
            name: self.name.clone(),
            unit_type: self.unit_type,
            unit_stats: self.unit_stats.clone(),
            damage_resistances: copy_resistances(&self.damage_resistances),
        }
    }
}

/// A copy of a resistance table.
pub fn copy_resistances(table: &Vec<(String, i32)>) -> (copy: Vec<(String, i32)>)
    ensures
        resistances_view(copy@) == resistances_view(table@),
{
    let mut copy: Vec<(String, i32)> = Vec::new();
    let mut i: usize = 0;
    while i < table.len()
        invariant
            i <= table.len(),
            copy@.len() == i,
            forall|j: int|
                0 <= j < i ==> copy@[j].0@ == table@[j].0@ && copy@[j].1 == table@[j].1,
        decreases table.len() - i,
    {
        let entry = &table[i];
        copy.push((entry.0.clone(), entry.1));
        i += 1;
    }
    assert(resistances_view(copy@) =~= resistances_view(table@));
    copy
}

/// `types` lists `unit_type`.
pub fn lists_type(types: &[UnitTypes], unit_type: UnitTypes) -> (found: bool)
    ensures
        found == types@.contains(unit_type),
{
    let mut i: usize = 0;
    while i < types.len()
        invariant
            i <= types.len(),
            forall|j: int| 0 <= j < i ==> types@[j] != unit_type,
        decreases types.len() - i,
    {
        if types[i] == unit_type {
            return true;
        }
        i += 1;
    }
    false
}

impl Unit {
    /// Organization damage of a melee hit, per part of the target's hit
    /// points that the hit removes.
    pub const ORGANIZATION_DMG_RATIO_MELEE: i32 = 240;

    /// The resistance listed for `source`, with the name already owned.
    pub fn damage_modifier_for(&self, source: &String) -> (modifier: i32)
        ensures
            modifier as int == self@.damage_modifier(source@),
    {
        let mut i: usize = 0;
        while i < self.damage_resistances.len()
            invariant
                i <= self.damage_resistances.len(),
                self@.damage_modifier(source@) == modifier_from(
                    self@.damage_resistances,
                    source@,
                    i as int,
                ),
            decreases self.damage_resistances.len() - i,
        {
            if self.damage_resistances[i].0 == *source {
                return self.damage_resistances[i].1;
            }
            i += 1;
        }
        0
    }

    /// Resistance, in percent, against `source`; 0 where the table does
    /// not list it.
    pub fn get_damage_modifier(&self, source: &str) -> (modifier: i32)
        ensures
            modifier as int == self@.damage_modifier(source@),
    {
        let key: String = source.to_owned();
        self.damage_modifier_for(&key)
    }

    /// Effective hit points against `source`, with the name already owned.
    pub fn ehp_for(&self, source: &String) -> (ehp: i32)
        requires
            self@.damage_modifier(source@) != 100,
        ensures
            ehp as int == self@.ehp_vs(source@),
    {
        let modifier: i32 = self.damage_modifier_for(source);
        saturating_ratio(self.unit_stats.hp as i128 * 100, 100 - modifier as i128)
    }

    /// Effective hit points against `source`.  The resistance against it
    /// must not be 100 percent.
    pub fn get_ehp_vs_src(&self, source: &str) -> (ehp: i32)
        requires
            self@.damage_modifier(source@) != 100,
        ensures
            ehp as int == self@.ehp_vs(source@),
    {
        let key: String = source.to_owned();
        self.ehp_for(&key)
    }

    /// Ranged damage at `range`.
    pub fn get_damage_at_range(&self, range: i32) -> (damage: i32)
        requires
            self@.unit_stats.wf(),
        ensures
            damage as int == self@.damage_at(range as int),
    {
        match &self.unit_stats.ranged_stats {
            Some(ranged) => ranged.get_damage_at_range(range),
            None => 0,
        }
    }

    /// Mean ranged damage over the ranges from `band.0` up to, but
    /// without, `band.1`.
    pub fn get_dmg_over_band(&self, band: (i32, i32)) -> (damage: i32)
        requires
            self@.unit_stats.wf(),
        ensures
            damage as int == self@.dmg_over_band(band.0 as int, band.1 as int),
    {
        match &self.unit_stats.ranged_stats {
            Some(ranged) => ranged.get_average_damage_over_band(band),
            None => 0,
        }
    }

    /// Organization damage of one melee hit on a target of `dest_hp` hit points.
    pub fn get_melee_org_damage(&self, dest_hp: i32) -> (damage: i32)
        ensures
            damage as int == self@.melee_org_damage(dest_hp as int),
    {
        saturating_ratio(
            Self::ORGANIZATION_DMG_RATIO_MELEE as i128 * self.unit_stats.melee_attack as i128 * 10,
            dest_hp as i128,
        )
    }

    /// Organization damage of one ranged hit at `range` on a target of
    /// `dest_hp` hit points.
    pub fn get_ranged_org_damage(&self, dest_hp: i32, range: i32) -> (damage: i32)
        requires
            self@.unit_stats.wf(),
        ensures
            damage as int == self@.ranged_org_damage(dest_hp as int, range as int),
    {
        match &self.unit_stats.ranged_stats {
            Some(ranged) => {
                let hp_damage: i32 = ranged.get_damage_at_range(range);
                let org_ratio: i32 = ranged.get_org_ratio_at_range(range);
                proof {
                    lemma_mul_bounded(
                        org_ratio as int,
                        hp_damage as int,
                        0x8000_0000,
                        0x8000_0000,
                    );
                }
                saturating_ratio(org_ratio as i128 * hp_damage as i128 * 10, dest_hp as i128)
            },
            None => 0,
        }
    }

    /// Organization-damage potential at `range`.
    pub fn get_ranged_odp(&self, range: i32) -> (odp: i32)
        requires
            self@.unit_stats.wf(),
        ensures
            odp as int == self@.ranged_odp(range as int),
    {
        match &self.unit_stats.ranged_stats {
            Some(ranged) => ranged.get_odp_at_range(range),
            None => 0,
        }
    }

    /// Mean organization-damage potential over a band of ranges.
    pub fn get_avg_odp_over_band(&self, band: (i32, i32)) -> (odp: i32)
        requires
            self@.unit_stats.wf(),
        ensures
            odp as int == self@.avg_odp_over_band(band.0 as int, band.1 as int),
    {
        match &self.unit_stats.ranged_stats {
            Some(ranged) => ranged.get_average_odp_over_band(band),
            None => 0,
        }
    }

    /// Whether the template meets its data invariants: no resistance
    /// of 100 percent, no ranged band of zero width.
    pub fn is_sound(&self) -> (sound: bool)
        ensures
            sound == self@.wf(),
    {
        let mut i: usize = 0;
        while i < self.damage_resistances.len()
            invariant
                i <= self.damage_resistances.len(),
                forall|j: int| 0 <= j < i ==> (#[trigger] self@.damage_resistances[j]).1 != 100,
            decreases self.damage_resistances.len() - i,
        {
            assert(self@.damage_resistances[i as int].1 == self.damage_resistances@[i as int].1);
            if self.damage_resistances[i].1 == 100 {
                return false;
            }
            i += 1;
        }
        match &self.unit_stats.ranged_stats {
            Some(ranged) => ranged.is_sound(),
            None => true,
        }
    }

    /// The value of the selected statistic for one unit of this template.
    pub fn stat(&self, selector: &Selector) -> (value: i32)
        requires
            self@.supports(selector@),
        ensures
            value as int == self@.stat(selector@),
    {
        match *selector {
            Selector::GoldCost => self.unit_stats.gold_cost,
            Selector::ManpowerCost => self.unit_stats.manpower_cost,
            Selector::Hp => self.unit_stats.hp,
            Selector::Organization => self.unit_stats.organization,
            Selector::MeleeAttack => self.unit_stats.melee_attack,
            Selector::MeleeDefense => self.unit_stats.melee_defense,
            Selector::Headcount(unit_type) => if self.unit_type == unit_type {
                1
            } else {
                0
            },
            Selector::Named(name) => if self.name == *name {
                1
            } else {
                0
            },
            Selector::EscortEligible => if self.unit_stats.has_skirmishers {
                1
            } else {
                0
            },
            Selector::MeleeAttackOf(types) => if lists_type(types, self.unit_type) {
                self.unit_stats.melee_attack
            } else {
                0
            },
            Selector::MeleeDefenseOf(types) => if lists_type(types, self.unit_type) {
                self.unit_stats.melee_defense
            } else {
                0
            },
            Selector::DamageAt(range) => self.get_damage_at_range(range),
            Selector::DamageOver(from, to) => self.get_dmg_over_band((from, to)),
            Selector::OdpAt(range) => self.get_ranged_odp(range),
            Selector::OdpOver(from, to) => self.get_avg_odp_over_band((from, to)),
            Selector::EhpVs(source) => self.ehp_for(source),
        }
    }
}

} // verus!
