//! The requirements that a composition is held to: bounds, each of
//! which may be left unset, and at most one statistic to maximize.

use vstd::prelude::*;
use crate::arith::clamp_i32;
use crate::army_composition::{ArmyComposition, ArmyView, GameModes};
use crate::unit_templates::units_view;
use crate::units::{Selector, Statistic, Unit, UnitTypes, UnitView};

verus! {

/// What makes an input unusable.
#[derive(Clone, Copy, Debug, PartialEq, Eq, Structural)]
pub enum Errors {
    /// A requirement names something that the catalog does not list.
    InvalidInput,
}

/// Gold and manpower that may be spent.
#[derive(Clone, Copy, Debug, PartialEq, Eq, Structural)]
pub struct Budget {
    pub gold: i32,
    pub manpower: i32,
}

/// The statistic that the optimizer maximizes.
#[derive(Debug, PartialEq, Eq)]
pub enum MaximizationTargets {
    DamageAtRange(i32),
    ODPAtRange(i32),
    MeleeAttack,
    MeleeDefense,
    HP,
    Organization,
    DamageOverBand(i32, i32),
    ODPOverBand(i32, i32),
    EHPVsSource(String),
}

impl View for MaximizationTargets {
    type V = Statistic;

    /// The statistic that the target scores a unit and a composition by.
    open spec fn view(&self) -> Statistic {
        match *self {
            MaximizationTargets::DamageAtRange(range) => Statistic::DamageAt(range as int),
            MaximizationTargets::ODPAtRange(range) => Statistic::OdpAt(range as int),
            MaximizationTargets::MeleeAttack => Statistic::MeleeAttack,
            MaximizationTargets::MeleeDefense => Statistic::MeleeDefense,
            MaximizationTargets::HP => Statistic::Hp,
            MaximizationTargets::Organization => Statistic::Organization,
            MaximizationTargets::DamageOverBand(from, to) => Statistic::DamageOver(
                from as int,
                to as int,
            ),
            MaximizationTargets::ODPOverBand(from, to) => Statistic::OdpOver(from as int, to as int),
            MaximizationTargets::EHPVsSource(source) => Statistic::EhpVs(source@),
        }
    }
}

impl Clone for MaximizationTargets {
    fn clone(&self) -> (copy: Self)
        ensures
            copy@ == self@,
    {
        match self {
            MaximizationTargets::DamageAtRange(range) => MaximizationTargets::DamageAtRange(*range),
            MaximizationTargets::ODPAtRange(range) => MaximizationTargets::ODPAtRange(*range),
            MaximizationTargets::MeleeAttack => MaximizationTargets::MeleeAttack,
            MaximizationTargets::MeleeDefense => MaximizationTargets::MeleeDefense,
            MaximizationTargets::HP => MaximizationTargets::HP,
            MaximizationTargets::Organization => MaximizationTargets::Organization,
            MaximizationTargets::DamageOverBand(from, to) => MaximizationTargets::DamageOverBand(
                *from,
                *to,
            ),
            MaximizationTargets::ODPOverBand(from, to) => MaximizationTargets::ODPOverBand(
                *from,
                *to,
            ),
            MaximizationTargets::EHPVsSource(source) => MaximizationTargets::EHPVsSource(
                source.clone(),
            ),
        }
    }
}

impl Default for MaximizationTargets {
    fn default() -> (target: Self)
        ensures
            target@ == Statistic::Hp,
    {
        MaximizationTargets::HP
    }
}

impl MaximizationTargets {
    /// The target as a selector of the statistic it scores by.
    pub fn selector(&self) -> (selector: Selector<'_>)
        ensures
            selector@ == self@,
    {
        match self {
            MaximizationTargets::DamageAtRange(range) => Selector::DamageAt(*range),
            MaximizationTargets::ODPAtRange(range) => Selector::OdpAt(*range),
            MaximizationTargets::MeleeAttack => Selector::MeleeAttack,
            MaximizationTargets::MeleeDefense => Selector::MeleeDefense,
            MaximizationTargets::HP => Selector::Hp,
            MaximizationTargets::Organization => Selector::Organization,
            MaximizationTargets::DamageOverBand(from, to) => Selector::DamageOver(*from, *to),
            MaximizationTargets::ODPOverBand(from, to) => Selector::OdpOver(*from, *to),
            MaximizationTargets::EHPVsSource(source) => Selector::EhpVs(source),
        }
    }

    /// The score of a composition: the sum of the scores of its units.
    pub fn score_comp(&self, army_composition: &ArmyComposition) -> (score: i32)
        requires
            army_composition@.supports(self@),
        ensures
            score as int == clamp_i32(army_composition@.total(self@)),
    {
        army_composition.total(&self.selector())
    }

    /// The score of one unit.
    pub fn score_unit(&self, unit: &Unit) -> (score: i32)
        requires
            unit@.supports(self@),
        ensures
            score as int == unit@.stat(self@),
    {
        unit.stat(&self.selector())
    }
}

/// Requirements on a composition.  Every bound may be left unset.
#[derive(Debug)]
pub struct Constraint {
    pub minimum_infantry: Option<i32>,
    pub minimum_cavalry: Option<i32>,
    pub minimum_artillery: Option<i32>,
    pub maximum_infantry: Option<i32>,
    pub maximum_cavalry: Option<i32>,
    pub maximum_artillery: Option<i32>,
    pub maximum_rifles: Option<i32>,
    pub maximum_rockets: Option<i32>,
    pub minimum_hp: Option<i32>,
    /// Damage sources, each with the least effective hit points against it.
    pub minimum_ehp_vs_sources: Option<Vec<(String, i32)>>,
    /// Pairs of a least damage and the range at which it is due.
    pub minimum_damage_at_ranges: Option<Vec<(i32, i32)>>,
    pub minimum_melee_damage: Option<i32>,
    pub minimum_melee_damage_over_types: Option<Vec<(UnitTypes, i32)>>,
    pub minimum_melee_defense_over_types: Option<Vec<(UnitTypes, i32)>>,
    pub minimum_melee_defense: Option<i32>,
    pub maximization_targets: Option<MaximizationTargets>,
    /// The units that may be bought; every unit where unset.
    pub allowed_units: Option<Vec<Unit>>,
    pub minimum_gold_target: Option<i32>,
    pub minimum_manpower_target: Option<i32>,
}

/// What a [`Constraint`] holds, as plain values.
pub struct ConstraintView {
    pub minimum_infantry: Option<i32>,
    pub minimum_cavalry: Option<i32>,
    pub minimum_artillery: Option<i32>,
    pub maximum_infantry: Option<i32>,
    pub maximum_cavalry: Option<i32>,
    pub maximum_artillery: Option<i32>,
    pub maximum_rifles: Option<i32>,
    pub maximum_rockets: Option<i32>,
    pub minimum_hp: Option<i32>,
    pub minimum_ehp_vs_sources: Option<Seq<(Seq<char>, i32)>>,
    pub minimum_damage_at_ranges: Option<Seq<(i32, i32)>>,
    pub minimum_melee_damage: Option<i32>,
    pub minimum_melee_damage_over_types: Option<Seq<(UnitTypes, i32)>>,
    pub minimum_melee_defense_over_types: Option<Seq<(UnitTypes, i32)>>,
    pub minimum_melee_defense: Option<i32>,
    pub maximization_targets: Option<Statistic>,
    pub allowed_units: Option<Seq<UnitView>>,
    pub minimum_gold_target: Option<i32>,
    pub minimum_manpower_target: Option<i32>,
}

/// A list of named floors as plain values.
pub open spec fn named_floors_view(floors: Seq<(String, i32)>) -> Seq<(Seq<char>, i32)> {
    floors.map_values(|floor: (String, i32)| (floor.0@, floor.1))
}

/// A list of named floors that may be unset, as plain values.
pub open spec fn optional_named_floors_view(floors: Option<Vec<(String, i32)>>) -> Option<
    Seq<(Seq<char>, i32)>,
> {
    match floors {
        Some(list) => Some(named_floors_view(list@)),
        None => None,
    }
}

/// A list that may be unset, as plain values.
pub open spec fn optional_list_view<T>(list: Option<Vec<T>>) -> Option<Seq<T>> {
    match list {
        Some(list) => Some(list@),
        None => None,
    }
}

/// A list of units that may be unset, as plain values.
pub open spec fn optional_units_view(units: Option<Vec<Unit>>) -> Option<Seq<UnitView>> {
    match units {
        Some(list) => Some(units_view(list@)),
        None => None,
    }
}

/// A target that may be unset, as the statistic it scores by.
pub open spec fn optional_target_view(target: Option<MaximizationTargets>) -> Option<Statistic> {
    match target {
        Some(target) => Some(target@),
        None => None,
    }
}

impl View for Constraint {
    type V = ConstraintView;

    open spec fn view(&self) -> ConstraintView {
        ConstraintView {
            minimum_infantry: self.minimum_infantry,
            minimum_cavalry: self.minimum_cavalry,
            minimum_artillery: self.minimum_artillery,
            maximum_infantry: self.maximum_infantry,
            maximum_cavalry: self.maximum_cavalry,
            maximum_artillery: self.maximum_artillery,
            maximum_rifles: self.maximum_rifles,
            maximum_rockets: self.maximum_rockets,
            minimum_hp: self.minimum_hp,
            minimum_ehp_vs_sources: optional_named_floors_view(self.minimum_ehp_vs_sources),
            minimum_damage_at_ranges: optional_list_view(self.minimum_damage_at_ranges),
            minimum_melee_damage: self.minimum_melee_damage,
            minimum_melee_damage_over_types: optional_list_view(
                self.minimum_melee_damage_over_types,
            ),
            minimum_melee_defense_over_types: optional_list_view(
                self.minimum_melee_defense_over_types,
            ),
            minimum_melee_defense: self.minimum_melee_defense,
            maximization_targets: optional_target_view(self.maximization_targets),
            allowed_units: optional_units_view(self.allowed_units),
            minimum_gold_target: self.minimum_gold_target,
            minimum_manpower_target: self.minimum_manpower_target,
        }
    }
}

/// A ceiling is breached: it is set and `value` is above it.
pub open spec fn above(ceiling: Option<i32>, value: int) -> bool {
    ceiling matches Some(most) && value > most
}

/// A floor is breached: it is set and `value` is below it.
pub open spec fn below(floor: Option<i32>, value: int) -> bool {
    floor matches Some(least) && value < least
}

/// Every range of `floors`, pairs of a least damage and a range, can
/// be evaluated on `army`.
pub open spec fn damage_floors_supported(floors: Seq<(i32, i32)>, army: ArmyView) -> bool {
    forall|k: int|
        0 <= k < floors.len() ==> army.supports(Statistic::DamageAt((#[trigger] floors[k]).1 as int))
}

/// One of `floors`, pairs of a least damage and a range, is above what
/// `army` deals at its range.
pub open spec fn damage_floors_breached(floors: Seq<(i32, i32)>, army: ArmyView) -> bool {
    exists|k: int|
        0 <= k < floors.len() && (#[trigger] floors[k]).0 > clamp_i32(
            army.total(Statistic::DamageAt(floors[k].1 as int)),
        )
}

impl ConstraintView {
    /// The unset constraint: no bound, no target.
    pub open spec fn unset() -> ConstraintView {
        ConstraintView {
            minimum_infantry: None,
            minimum_cavalry: None,
            minimum_artillery: None,
            maximum_infantry: None,
            maximum_cavalry: None,
            maximum_artillery: None,
            maximum_rifles: None,
            maximum_rockets: None,
            minimum_hp: None,
            minimum_ehp_vs_sources: None,
            minimum_damage_at_ranges: None,
            minimum_melee_damage: None,
            minimum_melee_damage_over_types: None,
            minimum_melee_defense_over_types: None,
            minimum_melee_defense: None,
            maximization_targets: None,
            allowed_units: None,
            minimum_gold_target: None,
            minimum_manpower_target: None,
        }
    }

    /// Every range that a damage floor is set at can be evaluated on `army`.
    pub open spec fn ranges_supported(self, army: ArmyView) -> bool {
        match self.minimum_damage_at_ranges {
            Some(floors) => damage_floors_supported(floors, army),
            None => true,
        }
    }

    /// One of the damage floors is above what `army` deals at its range.
    pub open spec fn damage_floor_breached(self, army: ArmyView) -> bool {
        match self.minimum_damage_at_ranges {
            Some(floors) => damage_floors_breached(floors, army),
            None => false,
        }
    }

    /// `army` breaches one of the bounds on the counts by category, on
    /// total hit points, on melee attack and defense, on the gold and
    /// manpower spent, or on the damage at a range.
    pub open spec fn violates(self, army: ArmyView) -> bool {
        let infantry = clamp_i32(army.total(Statistic::Headcount(UnitTypes::Infantry)));
        let cavalry = clamp_i32(army.total(Statistic::Headcount(UnitTypes::Cavalry)));
        let artillery = clamp_i32(army.total(Statistic::Headcount(UnitTypes::Artillery)));
        ||| above(self.maximum_infantry, infantry)
        ||| above(self.maximum_cavalry, cavalry)
        ||| above(self.maximum_artillery, artillery)
        ||| below(self.minimum_infantry, infantry)
        ||| below(self.minimum_cavalry, cavalry)
        ||| below(self.minimum_artillery, artillery)
        ||| below(self.minimum_hp, clamp_i32(army.total(Statistic::Hp)))
        ||| self.damage_floor_breached(army)
        ||| below(self.minimum_melee_damage, clamp_i32(army.total(Statistic::MeleeAttack)))
        ||| below(self.minimum_melee_defense, clamp_i32(army.total(Statistic::MeleeDefense)))
        ||| below(self.minimum_gold_target, clamp_i32(army.total(Statistic::GoldCost)))
        ||| below(self.minimum_manpower_target, clamp_i32(army.total(Statistic::ManpowerCost)))
    }
}

/// A copy of a list of named floors.
pub fn copy_named_floors(floors: &Vec<(String, i32)>) -> (copy: Vec<(String, i32)>)
    ensures
        named_floors_view(copy@) == named_floors_view(floors@),
{
    let mut copy: Vec<(String, i32)> = Vec::new();
    let mut i: usize = 0;
    while i < floors.len()
        invariant
            i <= floors.len(),
            copy@.len() == i,
            forall|j: int|
                0 <= j < i ==> copy@[j].0@ == floors@[j].0@ && copy@[j].1 == floors@[j].1,
        decreases floors.len() - i,
    {
        let floor = &floors[i];
        copy.push((floor.0.clone(), floor.1));
        i += 1;
    }
    assert(named_floors_view(copy@) =~= named_floors_view(floors@));
    copy
}

/// A copy of a list of plain values.
pub fn copy_list<T: Copy>(list: &Vec<T>) -> (copy: Vec<T>)
    ensures
        copy@ == list@,
{
    let mut copy: Vec<T> = Vec::new();
    let mut i: usize = 0;
    while i < list.len()
        invariant
            i <= list.len(),
            copy@ == list@.take(i as int),
        decreases list.len() - i,
    {
        copy.push(list[i]);
        assert(list@.take(i as int + 1) == list@.take(i as int).push(list@[i as int]));
        i += 1;
    }
    assert(list@.take(i as int) == list@);
    copy
}

/// A copy of a list of units.
pub fn copy_units(units: &[Unit]) -> (copy: Vec<Unit>)
    ensures
        units_view(copy@) == units_view(units@),
{
    let mut copy: Vec<Unit> = Vec::new();
    let mut i: usize = 0;
    while i < units.len()
        invariant
            i <= units.len(),
            copy@.len() == i,
            forall|j: int| 0 <= j < i ==> (#[trigger] copy@[j])@ == units@[j]@,
        decreases units.len() - i,
    {
        copy.push(units[i].clone());
        i += 1;
    }
    assert(units_view(copy@) =~= units_view(units@));
    copy
}

impl Clone for Constraint {
    fn clone(&self) -> (copy: Self)
        ensures
            copy@ == self@,
    {
        Constraint {
            minimum_infantry: self.minimum_infantry,
            minimum_cavalry: self.minimum_cavalry,
            minimum_artillery: self.minimum_artillery,
            maximum_infantry: self.maximum_infantry,
            maximum_cavalry: self.maximum_cavalry,
            maximum_artillery: self.maximum_artillery,
            maximum_rifles: self.maximum_rifles,
            maximum_rockets: self.maximum_rockets,
            minimum_hp: self.minimum_hp,
            minimum_ehp_vs_sources: match &self.minimum_ehp_vs_sources {
                Some(floors) => Some(copy_named_floors(floors)),
                None => None,
            },
            minimum_damage_at_ranges: match &self.minimum_damage_at_ranges {
                Some(floors) => Some(copy_list(floors)),
                None => None,
            },
            minimum_melee_damage: self.minimum_melee_damage,
            minimum_melee_damage_over_types: match &self.minimum_melee_damage_over_types {
                Some(floors) => Some(copy_list(floors)),
                None => None,
            },
            minimum_melee_defense_over_types: match &self.minimum_melee_defense_over_types {
                Some(floors) => Some(copy_list(floors)),
                None => None,
            },
            minimum_melee_defense: self.minimum_melee_defense,
            maximization_targets: match &self.maximization_targets {
                Some(target) => Some(target.clone()),
                None => None,
            },
            allowed_units: match &self.allowed_units {
                Some(units) => Some(copy_units(units.as_slice())),
                None => None,
            },
            minimum_gold_target: self.minimum_gold_target,
            minimum_manpower_target: self.minimum_manpower_target,
        }
    }
}

impl Default for Constraint {
    fn default() -> (constraint: Self)
        ensures
            constraint@ == ConstraintView::unset(),
    {
        Constraint {
            minimum_infantry: None,
            minimum_cavalry: None,
            minimum_artillery: None,
            maximum_infantry: None,
            maximum_cavalry: None,
            maximum_artillery: None,
            maximum_rifles: None,
            maximum_rockets: None,
            minimum_hp: None,
            minimum_ehp_vs_sources: None,
            minimum_damage_at_ranges: None,
            minimum_melee_damage: None,
            minimum_melee_damage_over_types: None,
            minimum_melee_defense_over_types: None,
            minimum_melee_defense: None,
            maximization_targets: None,
            allowed_units: None,
            minimum_gold_target: None,
            minimum_manpower_target: None,
        }
    }
}

/// A unit of `units` goes by `name`.
pub open spec fn lists_name(units: Seq<UnitView>, name: Seq<char>) -> bool {
    exists|i: int| 0 <= i < units.len() && (#[trigger] units[i]).name == name
}

/// A unit of `units` goes by `name`.
pub fn has_unit_named(units: &[Unit], name: &String) -> (found: bool)
    ensures
        found == lists_name(units_view(units@), name@),
{
    let mut i: usize = 0;
    while i < units.len()
        invariant
            i <= units.len(),
            forall|j: int| 0 <= j < i ==> (#[trigger] units_view(units@)[j]).name != name@,
        decreases units.len() - i,
    {
        assert(units_view(units@)[i as int].name == units@[i as int].name@);
        if units[i].name == *name {
            return true;
        }
        i += 1;
    }
    false
}

/// The constraint with the caps of `mode` on rifles and on rocket
/// batteries wherever it sets none of its own.
pub open spec fn with_mode_caps(c: ConstraintView, mode: GameModes) -> ConstraintView {
    ConstraintView {
        maximum_rockets: Some(
            match c.maximum_rockets {
                Some(cap) => cap,
                None => mode.maximum_rockets() as i32,
            },
        ),
        maximum_rifles: Some(
            match c.maximum_rifles {
                Some(cap) => cap,
                None => mode.maximum_rifles() as i32,
            },
        ),
        ..c
    }
}

/// Lets the caps of `mode` on rifles and on rocket batteries stand in
/// wherever the constraint sets none of its own.
pub fn fill_mode_caps(constraints: &mut Constraint, mode: GameModes)
    ensures
        final(constraints)@ == with_mode_caps(old(constraints)@, mode),
{
    if constraints.maximum_rockets.is_none() {
        constraints.maximum_rockets = Some(mode.get_maximum_rockets());
    }
    if constraints.maximum_rifles.is_none() {
        constraints.maximum_rifles = Some(mode.get_maximum_rifles());
    }
}

/// The catalog knows `source` as a damage source: the resistance
/// table of one of its units lists it.
pub open spec fn lists_source(units: Seq<UnitView>, source: Seq<char>) -> bool {
    exists|i: int, j: int|
        0 <= i < units.len() && 0 <= j < units[i].damage_resistances.len() && (
        #[trigger] units[i].damage_resistances[j]).0 == source
}

/// The resistance table of one of the units lists `source`.
pub fn has_source(units: &[Unit], source: &String) -> (found: bool)
    ensures
        found == lists_source(units_view(units@), source@),
{
    let ghost catalog = units_view(units@);
    let mut i: usize = 0;
    while i < units.len()
        invariant
            i <= units.len(),
            catalog == units_view(units@),
            forall|a: int, b: int|
                0 <= a < i && 0 <= b < catalog[a].damage_resistances.len() ==> (
                #[trigger] catalog[a].damage_resistances[b]).0 != source@,
        decreases units.len() - i,
    {
        let table = &units[i].damage_resistances;
        assert(catalog[i as int] == units@[i as int]@);
        let mut j: usize = 0;
        while j < table.len()
            invariant
                j <= table.len(),
                i < units.len(),
                catalog == units_view(units@),
                catalog[i as int].damage_resistances == crate::units::resistances_view(table@),
                forall|b: int|
                    0 <= b < j ==> (#[trigger] catalog[i as int].damage_resistances[b]).0 != source@,
            decreases table.len() - j,
        {
            assert(catalog[i as int].damage_resistances[j as int].0 == table@[j as int].0@);
            if table[j].0 == *source {
                return true;
            }
            j += 1;
        }
        i += 1;
    }
    false
}

impl Constraint {
    /// Whether `army_comp` breaches one of the bounds that this
    /// predicate looks at.
    pub fn army_violates(&self, army_comp: &ArmyComposition) -> (violated: bool)
        requires
            self@.ranges_supported(army_comp@),
        ensures
            violated == self@.violates(army_comp@),
    {
        let infantry_count: i32 = army_comp.get_unit_type_count(UnitTypes::Infantry);
        let cavalry_count: i32 = army_comp.get_unit_type_count(UnitTypes::Cavalry);
        let artillery_count: i32 = army_comp.get_unit_type_count(UnitTypes::Artillery);
        let hp: i32 = army_comp.get_total_hp();
        if let Some(maximum_infantry) = self.maximum_infantry {
            if infantry_count > maximum_infantry {
                return true;
            }
        }
        if let Some(maximum_cavalry) = self.maximum_cavalry {
            if cavalry_count > maximum_cavalry {
                return true;
            }
        }
        if let Some(maximum_artillery) = self.maximum_artillery {
            if artillery_count > maximum_artillery {
                return true;
            }
        }
        if let Some(minimum_infantry) = self.minimum_infantry {
            if infantry_count < minimum_infantry {
                return true;
            }
        }
        if let Some(minimum_cavalry) = self.minimum_cavalry {
            if cavalry_count < minimum_cavalry {
                return true;
            }
        }
        if let Some(minimum_artillery) = self.minimum_artillery {
            if artillery_count < minimum_artillery {
                return true;
            }
        }
        if let Some(minimum_hp) = self.minimum_hp {
            if hp < minimum_hp {
                return true;
            }
        }
        if let Some(floors) = &self.minimum_damage_at_ranges {
            let mut k: usize = 0;
            while k < floors.len()
                invariant
                    k <= floors.len(),
                    damage_floors_supported(floors@, army_comp@),
                    self@.minimum_damage_at_ranges == Some(floors@),
                    forall|j: int|
                        0 <= j < k ==> (#[trigger] floors@[j]).0 <= clamp_i32(
                            army_comp@.total(Statistic::DamageAt(floors@[j].1 as int)),
                        ),
                decreases floors.len() - k,
            {
                let floor: (i32, i32) = floors[k];
                assert(floor == floors@[k as int]);
                if floor.0 > army_comp.get_ranged_damage_at_range(floor.1) {
                    return true;
                }
                k += 1;
            }
        }
        assert(!self@.damage_floor_breached(army_comp@));
        if let Some(minimum_melee_damage) = self.minimum_melee_damage {
            if army_comp.get_melee_attack() < minimum_melee_damage {
                return true;
            }
        }
        if let Some(minimum_melee_defense) = self.minimum_melee_defense {
            if army_comp.get_melee_defense() < minimum_melee_defense {
                return true;
            }
        }
        if let Some(minimum_gold_target) = self.minimum_gold_target {
            if army_comp.get_gold_cost() < minimum_gold_target {
                return true;
            }
        }
        if let Some(minimum_manpower_target) = self.minimum_manpower_target {
            if army_comp.get_manpower_cost() < minimum_manpower_target {
                return true;
            }
        }
        false
    }

    /// A constraint with the given bounds, target and allow-list.
    pub fn new(
        minimum_infantry: Option<i32>,
        minimum_cavalry: Option<i32>,
        minimum_artillery: Option<i32>,
        maximum_infantry: Option<i32>,
        maximum_cavalry: Option<i32>,
        maximum_artillery: Option<i32>,
        maximum_rifles: Option<i32>,
        maximum_rockets: Option<i32>,
        minimum_hp: Option<i32>,
        minimum_ehp_vs_sources: Option<Vec<(String, i32)>>,
        minimum_damage_at_ranges: Option<Vec<(i32, i32)>>,
        minimum_melee_damage: Option<i32>,
        minimum_melee_damage_over_types: Option<Vec<(UnitTypes, i32)>>,
        minimum_melee_defense: Option<i32>,
        minimum_melee_defense_over_types: Option<Vec<(UnitTypes, i32)>>,
        maximization_targets: Option<MaximizationTargets>,
        allowed_units: Option<Vec<Unit>>,
        minimum_gold_target: Option<i32>,
        minimum_manpower_target: Option<i32>,
    ) -> (constraint: Self)
        ensures
            constraint@ == (ConstraintView {
                minimum_infantry,
                minimum_cavalry,
                minimum_artillery,
                maximum_infantry,
                maximum_cavalry,
                maximum_artillery,
                maximum_rifles,
                maximum_rockets,
                minimum_hp,
                minimum_ehp_vs_sources: optional_named_floors_view(minimum_ehp_vs_sources),
                minimum_damage_at_ranges: optional_list_view(minimum_damage_at_ranges),
                minimum_melee_damage,
                minimum_melee_damage_over_types: optional_list_view(minimum_melee_damage_over_types),
                minimum_melee_defense_over_types: optional_list_view(
                    minimum_melee_defense_over_types,
                ),
                minimum_melee_defense,
                maximization_targets: optional_target_view(maximization_targets),
                allowed_units: optional_units_view(allowed_units),
                minimum_gold_target,
                minimum_manpower_target,
            }),
    {
        Constraint {
            minimum_infantry,
            minimum_cavalry,
            minimum_artillery,
            maximum_infantry,
            maximum_cavalry,
            maximum_artillery,
            maximum_rifles,
            maximum_rockets,
            minimum_hp,
            minimum_ehp_vs_sources,
            minimum_damage_at_ranges,
            minimum_melee_damage,
            minimum_melee_damage_over_types,
            minimum_melee_defense,
            minimum_melee_defense_over_types,
            maximization_targets,
            allowed_units,
            minimum_gold_target,
            minimum_manpower_target,
        }
    }

    /// Adds a floor on the effective hit points against `source`.  The
    /// source must be one that the catalog knows: the resistance table
    /// of one of `units` lists it.  Else the constraint is left as it
    /// is and the input is reported as invalid.
    pub fn try_push_ehp_vs_source(
        &mut self,
        units: &[Unit],
        source: &str,
        ehp: i32,
    ) -> (outcome: Result<(), Errors>)
        ensures
            outcome.is_ok() == lists_source(units_view(units@), source@),
            outcome matches Err(error) ==> error == Errors::InvalidInput && final(self)@ == old(
                self,
            )@,
            outcome.is_ok() ==> final(self)@ == (ConstraintView {
                minimum_ehp_vs_sources: Some(
                    match old(self)@.minimum_ehp_vs_sources {
                        Some(floors) => floors.push((source@, ehp)),
                        None => seq![(source@, ehp)],
                    },
                ),
                ..old(self)@
            }),
    {
        let name: String = source.to_owned();
        if !has_source(units, &name) {
            return Err(Errors::InvalidInput);
        }
        let mut floors: Vec<(String, i32)> = match self.minimum_ehp_vs_sources.take() {
            Some(floors) => floors,
            None => Vec::new(),
        };
        let ghost before = named_floors_view(floors@);
        assert(old(self)@.minimum_ehp_vs_sources is None ==> before =~= Seq::empty());
        floors.push((name, ehp));
        assert(named_floors_view(floors@) =~= before.push((source@, ehp)));
        assert(seq![(source@, ehp)] =~= Seq::<(Seq<char>, i32)>::empty().push((source@, ehp)));
        self.minimum_ehp_vs_sources = Some(floors);
        Ok(())
    }
}

/// A constraint in the making.  Every setter changes the builder and
/// hands back a copy of it, so that calls can be chained.
#[derive(Debug)]
pub struct ConstraintBuilder {
    inner: Constraint,
}

impl View for ConstraintBuilder {
    type V = ConstraintView;

    closed spec fn view(&self) -> ConstraintView {
        self.inner@
    }
}

impl Clone for ConstraintBuilder {
    fn clone(&self) -> (copy: Self)
        ensures
            copy@ == self@,
    {
        ConstraintBuilder { inner: self.inner.clone() }
    }
}

impl ConstraintBuilder {
    /// A builder with nothing set.
    pub fn new() -> (builder: Self)
        ensures
            builder@ == ConstraintView::unset(),
    {
        ConstraintBuilder { inner: Constraint::default() }
    }

    /// Sets the least count of infantry.
    pub fn min_inf(&mut self, minimum_infantry: Option<i32>) -> (builder: Self)
        ensures
            final(self)@ == (ConstraintView { minimum_infantry: minimum_infantry, ..old(self)@ }),
            builder@ == final(self)@,
    {
        self.inner.minimum_infantry = minimum_infantry;
        self.clone()
    }

    /// Sets the least count of cavalry.
    pub fn min_cav(&mut self, minimum_cavalry: Option<i32>) -> (builder: Self)
        ensures
            final(self)@ == (ConstraintView { minimum_cavalry: minimum_cavalry, ..old(self)@ }),
            builder@ == final(self)@,
    {
        self.inner.minimum_cavalry = minimum_cavalry;
        self.clone()
    }

    /// Sets the least count of artillery.
    pub fn min_art(&mut self, minimum_artillery: Option<i32>) -> (builder: Self)
        ensures
            final(self)@ == (ConstraintView { minimum_artillery: minimum_artillery, ..old(self)@ }),
            builder@ == final(self)@,
    {
        self.inner.minimum_artillery = minimum_artillery;
        self.clone()
    }

    /// Sets the greatest count of infantry.
    pub fn max_inf(&mut self, maximum_infantry: Option<i32>) -> (builder: Self)
        ensures
            final(self)@ == (ConstraintView { maximum_infantry: maximum_infantry, ..old(self)@ }),
            builder@ == final(self)@,
    {
        self.inner.maximum_infantry = maximum_infantry;
        self.clone()
    }

    /// Sets the greatest count of cavalry.
    pub fn max_cav(&mut self, maximum_cavalry: Option<i32>) -> (builder: Self)
        ensures
            final(self)@ == (ConstraintView { maximum_cavalry: maximum_cavalry, ..old(self)@ }),
            builder@ == final(self)@,
    {
        self.inner.maximum_cavalry = maximum_cavalry;
        self.clone()
    }

    /// Sets the greatest count of artillery.
    pub fn max_art(&mut self, maximum_artillery: Option<i32>) -> (builder: Self)
        ensures
            final(self)@ == (ConstraintView { maximum_artillery: maximum_artillery, ..old(self)@ }),
            builder@ == final(self)@,
    {
        self.inner.maximum_artillery = maximum_artillery;
        self.clone()
    }

    /// Sets the cap on rifles.
    pub fn max_rifles(&mut self, maximum_rifles: Option<i32>) -> (builder: Self)
        ensures
            final(self)@ == (ConstraintView { maximum_rifles: maximum_rifles, ..old(self)@ }),
            builder@ == final(self)@,
    {
        self.inner.maximum_rifles = maximum_rifles;
        self.clone()
    }

    /// Sets the cap on rocket batteries.
    pub fn max_rockets(&mut self, maximum_rockets: Option<i32>) -> (builder: Self)
        ensures
            final(self)@ == (ConstraintView { maximum_rockets: maximum_rockets, ..old(self)@ }),
            builder@ == final(self)@,
    {
        self.inner.maximum_rockets = maximum_rockets;
        self.clone()
    }

    /// Sets the least total of hit points.
    pub fn min_hp(&mut self, minimum_hp: Option<i32>) -> (builder: Self)
        ensures
            final(self)@ == (ConstraintView { minimum_hp: minimum_hp, ..old(self)@ }),
            builder@ == final(self)@,
    {
        self.inner.minimum_hp = minimum_hp;
        self.clone()
    }

    /// Sets the floors on effective hit points against damage sources.
    pub fn min_ehp_vs_sources(
        &mut self,
        minimum_ehp_vs_sources: Option<Vec<(String, i32)>>,
    ) -> (builder: Self)
        ensures
            final(self)@ == (ConstraintView {
                minimum_ehp_vs_sources: optional_named_floors_view(minimum_ehp_vs_sources),
                ..old(self)@
            }),
            builder@ == final(self)@,
    {
        self.inner.minimum_ehp_vs_sources = minimum_ehp_vs_sources;
        self.clone()
    }

    /// Sets the floors on damage, as pairs of a least damage and a range.
    pub fn min_damage_at_ranges(
        &mut self,
        minimum_damage_at_ranges: Option<Vec<(i32, i32)>>,
    ) -> (builder: Self)
        ensures
            final(self)@ == (ConstraintView {
                minimum_damage_at_ranges: optional_list_view(minimum_damage_at_ranges),
                ..old(self)@
            }),
            builder@ == final(self)@,
    {
        self.inner.minimum_damage_at_ranges = minimum_damage_at_ranges;
        self.clone()
    }

    /// Sets the least total melee attack.
    pub fn min_melee_damage(&mut self, minimum_melee_damage: Option<i32>) -> (builder: Self)
        ensures
            final(self)@ == (ConstraintView {
                minimum_melee_damage: minimum_melee_damage,
                ..old(self)@
            }),
            builder@ == final(self)@,
    {
        self.inner.minimum_melee_damage = minimum_melee_damage;
        self.clone()
    }

    /// Sets the floors on the melee attack of categories.
    pub fn min_melee_dmg_for_types(
        &mut self,
        minimum_melee_damage_over_types: Option<Vec<(UnitTypes, i32)>>,
    ) -> (builder: Self)
        ensures
            final(self)@ == (ConstraintView {
                minimum_melee_damage_over_types: optional_list_view(minimum_melee_damage_over_types),
                ..old(self)@
            }),
            builder@ == final(self)@,
    {
        self.inner.minimum_melee_damage_over_types = minimum_melee_damage_over_types;
        self.clone()
    }

    /// Sets the least total melee defense.
    pub fn min_melee_defense(&mut self, minimum_melee_defense: Option<i32>) -> (builder: Self)
        ensures
            final(self)@ == (ConstraintView {
                minimum_melee_defense: minimum_melee_defense,
                ..old(self)@
            }),
            builder@ == final(self)@,
    {
        self.inner.minimum_melee_defense = minimum_melee_defense;
        self.clone()
    }

    /// Sets the floors on the melee defense of categories.
    pub fn min_melee_def_for_types(
        &mut self,
        minimum_melee_defense_over_types: Option<Vec<(UnitTypes, i32)>>,
    ) -> (builder: Self)
        ensures
            final(self)@ == (ConstraintView {
                minimum_melee_defense_over_types: optional_list_view(minimum_melee_defense_over_types),
                ..old(self)@
            }),
            builder@ == final(self)@,
    {
        self.inner.minimum_melee_defense_over_types = minimum_melee_defense_over_types;
        self.clone()
    }

    /// Sets the statistic to maximize.
    pub fn maximization_targets(
        &mut self,
        maximization_targets: Option<MaximizationTargets>,
    ) -> (builder: Self)
        ensures
            final(self)@ == (ConstraintView {
                maximization_targets: optional_target_view(maximization_targets),
                ..old(self)@
            }),
            builder@ == final(self)@,
    {
        self.inner.maximization_targets = maximization_targets;
        self.clone()
    }

    /// Sets the units that may be bought.
    pub fn allowed_units(&mut self, allowed_units: Option<Vec<Unit>>) -> (builder: Self)
        ensures
            final(self)@ == (ConstraintView {
                allowed_units: optional_units_view(allowed_units),
                ..old(self)@
            }),
            builder@ == final(self)@,
    {
        self.inner.allowed_units = allowed_units;
        self.clone()
    }

    /// Sets the least gold to spend.
    pub fn min_gold_target(&mut self, minimum_gold_target: Option<i32>) -> (builder: Self)
        ensures
            final(self)@ == (ConstraintView {
                minimum_gold_target: minimum_gold_target,
                ..old(self)@
            }),
            builder@ == final(self)@,
    {
        self.inner.minimum_gold_target = minimum_gold_target;
        self.clone()
    }

    /// Sets the least manpower to spend.
    pub fn min_manpower_target(&mut self, minimum_manpower_target: Option<i32>) -> (builder: Self)
        ensures
            final(self)@ == (ConstraintView {
                minimum_manpower_target: minimum_manpower_target,
                ..old(self)@
            }),
            builder@ == final(self)@,
    {
        self.inner.minimum_manpower_target = minimum_manpower_target;
        self.clone()
    }

    /// The constraint as set so far.
    pub fn build(&mut self) -> (constraint: Constraint)
        ensures
            constraint@ == old(self)@,
            final(self)@ == old(self)@,
    {
        self.inner.clone()
    }
}

/// Every source of `floors` is a damage source that the catalog knows.
pub open spec fn floors_listed(floors: Seq<(Seq<char>, i32)>, units: Seq<UnitView>) -> bool {
    forall|k: int| 0 <= k < floors.len() ==> lists_source(units, (#[trigger] floors[k]).0)
}

/// Every unit of `allowed` goes by the name of a unit of the catalog.
pub open spec fn allowed_listed(allowed: Seq<UnitView>, units: Seq<UnitView>) -> bool {
    forall|k: int| 0 <= k < allowed.len() ==> lists_name(units, (#[trigger] allowed[k]).name)
}

impl ConstraintView {
    /// Every name that the constraint refers to is one of the catalog:
    /// the sources of its floors on effective hit points and that of
    /// its target are damage sources that the catalog knows, and the
    /// units that it allows go by names of units of the catalog.
    pub open spec fn references_ok(self, units: Seq<UnitView>) -> bool {
        &&& match self.minimum_ehp_vs_sources {
            Some(floors) => floors_listed(floors, units),
            None => true,
        }
        &&& match self.maximization_targets {
            Some(Statistic::EhpVs(source)) => lists_source(units, source),
            _ => true,
        }
        &&& match self.allowed_units {
            Some(allowed) => allowed_listed(allowed, units),
            None => true,
        }
    }
}

impl Constraint {
    /// Checks the names that the constraint refers to against the
    /// catalog: the damage sources of its floors on effective hit
    /// points and of its target, and the names of the units it allows.
    /// A name that the catalog does not know makes the input invalid.
    pub fn check_references(&self, units: &[Unit]) -> (outcome: Result<(), Errors>)
        ensures
            outcome.is_ok() == self@.references_ok(units_view(units@)),
            outcome matches Err(error) ==> error == Errors::InvalidInput,
    {
        if let Some(floors) = &self.minimum_ehp_vs_sources {
            let mut k: usize = 0;
            while k < floors.len()
                invariant
                    k <= floors.len(),
                    self@.minimum_ehp_vs_sources == Some(named_floors_view(floors@)),
                    forall|j: int|
                        0 <= j < k ==> lists_source(
                            units_view(units@),
                            (#[trigger] named_floors_view(floors@)[j]).0,
                        ),
                decreases floors.len() - k,
            {
                assert(named_floors_view(floors@)[k as int].0 == floors@[k as int].0@);
                if !has_source(units, &floors[k].0) {
                    assert(!lists_source(units_view(units@), named_floors_view(floors@)[k as int].0));
                    assert(!floors_listed(named_floors_view(floors@), units_view(units@)));
                    return Err(Errors::InvalidInput);
                }
                k += 1;
            }
        }
        if let Some(MaximizationTargets::EHPVsSource(source)) = &self.maximization_targets {
            if !has_source(units, source) {
                return Err(Errors::InvalidInput);
            }
        }
        if let Some(allowed) = &self.allowed_units {
            let mut k: usize = 0;
            while k < allowed.len()
                invariant
                    k <= allowed.len(),
                    self@.allowed_units == Some(units_view(allowed@)),
                    self@.minimum_ehp_vs_sources matches Some(floors) ==> floors_listed(
                        floors,
                        units_view(units@),
                    ),
                    self@.maximization_targets matches Some(Statistic::EhpVs(source))
                        ==> lists_source(units_view(units@), source),
                    forall|j: int|
                        0 <= j < k ==> lists_name(
                            units_view(units@),
                            (#[trigger] units_view(allowed@)[j]).name,
                        ),
                decreases allowed.len() - k,
            {
                assert(units_view(allowed@)[k as int].name == allowed@[k as int].name@);
                if !has_unit_named(units, &allowed[k].name) {
                    assert(!lists_name(units_view(units@), units_view(allowed@)[k as int].name));
                    assert(!allowed_listed(units_view(allowed@), units_view(units@)));
                    return Err(Errors::InvalidInput);
                }
                k += 1;
            }
        }
        Ok(())
    }
}

} // verus!
