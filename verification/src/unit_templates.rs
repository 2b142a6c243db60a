//! The catalog: unit templates and the resistance tables that go with
//! them by name.

use vstd::prelude::*;
use crate::units::{copy_resistances, resistances_view, Unit, UnitTypes, UnitView};
use crate::unitstats::{UnitStats, UnitStatsView};

verus! {

/// A unit as the catalog lists it, without its resistances.
#[derive(Debug)]
pub struct UnitTemplate {
    pub name: String,
    pub unit_type: UnitTypes,
    pub unit_stats: UnitStats,
}

/// What a [`UnitTemplate`] holds, as plain values.
pub struct UnitTemplateView {
    pub name: Seq<char>,
    pub unit_type: UnitTypes,
    pub unit_stats: UnitStatsView,
}

impl View for UnitTemplate {
    type V = UnitTemplateView;

    open spec fn view(&self) -> UnitTemplateView {
        UnitTemplateView {
            name: self.name@,
            unit_type: self.unit_type,
            unit_stats: self.unit_stats@,
        }
    }
}

impl Clone for UnitTemplate {
    fn clone(&self) -> (copy: Self)
        ensures
            copy@ == self@,
    {
        UnitTemplate {
            name: self.name.clone(),
            unit_type: self.unit_type,
            unit_stats: self.unit_stats.clone(),
        }
    }
}

/// The unit templates of a catalog, in order.
#[derive(Debug)]
pub struct Templates {
    pub units: Vec<UnitTemplate>,
}

impl View for Templates {
    type V = Seq<UnitTemplateView>;

    open spec fn view(&self) -> Seq<UnitTemplateView> {
        self.units@.map_values(|template: UnitTemplate| template@)
    }
}

/// Resistance tables by unit name.
pub type ResistanceTables = Seq<(Seq<char>, Seq<(Seq<char>, i32)>)>;

/// The resistance tables of a catalog: for a unit name, the damage
/// sources with the unit's resistance against each, in percent.
#[derive(Debug)]
pub struct DamageResistanceTemplates {
    pub damage_resistances: Vec<(String, Vec<(String, i32)>)>,
}

impl View for DamageResistanceTemplates {
    type V = ResistanceTables;

    open spec fn view(&self) -> ResistanceTables {
        self.damage_resistances@.map_values(
            |entry: (String, Vec<(String, i32)>)| (entry.0@, resistances_view(entry.1@)),
        )
    }
}

/// The table listed for `name` at or after index `from`: that of the
/// first entry under the name, an empty one where there is none.
pub open spec fn table_from(tables: ResistanceTables, name: Seq<char>, from: int) -> Seq<
    (Seq<char>, i32),
>
    decreases tables.len() - from,
{
    if from < 0 || from >= tables.len() {
        Seq::empty()
    } else if tables[from].0 == name {
        tables[from].1
    } else {
        table_from(tables, name, from + 1)
    }
}

/// The unit that a template stands for: the template with the
/// resistances that the tables list under its name.
pub open spec fn unit_of(template: UnitTemplateView, tables: ResistanceTables) -> UnitView {
    UnitView {
        name: template.name,
        unit_type: template.unit_type,
        unit_stats: template.unit_stats,
        damage_resistances: table_from(tables, template.name, 0),
    }
}

/// The units of a catalog, in the order of its templates.
pub open spec fn units_of(templates: Seq<UnitTemplateView>, tables: ResistanceTables) -> Seq<
    UnitView,
> {
    Seq::new(templates.len(), |i: int| unit_of(templates[i], tables))
}

/// The first index at or after `from` of a template under `name`, or
/// the number of templates where there is none.
pub open spec fn template_from(templates: Seq<UnitTemplateView>, name: Seq<char>, from: int) -> int
    decreases templates.len() - from,
{
    if from < 0 || from >= templates.len() {
        templates.len() as int
    } else if templates[from].name == name {
        from
    } else {
        template_from(templates, name, from + 1)
    }
}

/// The catalog lists a template under `name`.
pub open spec fn has_template(templates: Seq<UnitTemplateView>, name: Seq<char>) -> bool {
    exists|i: int| 0 <= i < templates.len() && (#[trigger] templates[i]).name == name
}

/// The templates as plain values, one for one.
pub open spec fn units_view(units: Seq<Unit>) -> Seq<UnitView> {
    units.map_values(|unit: Unit| unit@)
}

/// What [`template_from`] returns: the first index at or after `from`
/// under the name.
proof fn lemma_template_from(templates: Seq<UnitTemplateView>, name: Seq<char>, from: int)
    requires
        0 <= from <= templates.len(),
    ensures
        from <= template_from(templates, name, from) <= templates.len(),
        template_from(templates, name, from) < templates.len() ==> templates[template_from(
            templates,
            name,
            from,
        )].name == name,
        forall|j: int|
            from <= j < template_from(templates, name, from) ==> (#[trigger] templates[j]).name
                != name,
    decreases templates.len() - from,
{
    if from < templates.len() && templates[from].name != name {
        lemma_template_from(templates, name, from + 1);
    }
}

impl DamageResistanceTemplates {
    /// The table listed under `name`, empty where there is none.
    pub fn table_for(&self, name: &String) -> (table: Vec<(String, i32)>)
        ensures
            resistances_view(table@) == table_from(self@, name@, 0),
    {
        let mut i: usize = 0;
        while i < self.damage_resistances.len()
            invariant
                i <= self.damage_resistances.len(),
                table_from(self@, name@, 0) == table_from(self@, name@, i as int),
            decreases self.damage_resistances.len() - i,
        {
            assert(self@[i as int] == (
                self.damage_resistances@[i as int].0@,
                resistances_view(self.damage_resistances@[i as int].1@),
            ));
            if self.damage_resistances[i].0 == *name {
                return copy_resistances(&self.damage_resistances[i].1);
            }
            i += 1;
        }
        let empty: Vec<(String, i32)> = Vec::new();
        assert(resistances_view(empty@) =~= Seq::<(Seq<char>, i32)>::empty());
        empty
    }
}

impl Templates {
    /// The unit that the template at index `i` stands for.
    fn unit_at(&self, resistances: &DamageResistanceTemplates, i: usize) -> (unit: Unit)
        requires
            i < self.units.len(),
        ensures
            unit@ == unit_of(self@[i as int], resistances@),
    {
        let template = &self.units[i];
        Unit {
            name: template.name.clone(),
            unit_type: template.unit_type,
            unit_stats: template.unit_stats.clone(),
            damage_resistances: resistances.table_for(&template.name),
        }
    }

    /// Every template as a unit, with its resistances.
    pub fn to_units(&self, resistances: &DamageResistanceTemplates) -> (units: Vec<Unit>)
        ensures
            units_view(units@) == units_of(self@, resistances@),
    {
        let mut units: Vec<Unit> = Vec::new();
        let mut i: usize = 0;
        while i < self.units.len()
            invariant
                i <= self.units.len(),
                units@.len() == i,
                forall|j: int| 0 <= j < i ==> (#[trigger] units@[j])@ == unit_of(self@[j], resistances@),
            decreases self.units.len() - i,
        {
            units.push(self.unit_at(resistances, i));
            i += 1;
        }
        assert(units_view(units@) =~= units_of(self@, resistances@));
        units
    }

    /// Index of the first template under `name`, or the number of templates.
    fn position(&self, name: &String) -> (i: usize)
        ensures
            i as int == template_from(self@, name@, 0),
            i <= self.units.len(),
            i < self.units.len() <==> has_template(self@, name@),
    {
        let mut i: usize = 0;
        while i < self.units.len()
            invariant
                i <= self.units.len(),
                template_from(self@, name@, 0) == template_from(self@, name@, i as int),
                forall|j: int| 0 <= j < i ==> (#[trigger] self@[j]).name != name@,
            decreases self.units.len() - i,
        {
            assert(self@[i as int].name == self.units@[i as int].name@);
            if self.units[i].name == *name {
                return i;
            }
            i += 1;
        }
        i
    }

    /// The unit under `name`, if the catalog lists one.
    pub fn find_unit_by_name(
        &self,
        resistances: &DamageResistanceTemplates,
        name: &str,
    ) -> (unit: Option<Unit>)
        ensures
            unit.is_some() == has_template(self@, name@),
            unit matches Some(found) ==> found@ == unit_of(
                self@[template_from(self@, name@, 0)],
                resistances@,
            ),
    {
        let key: String = name.to_owned();
        let i: usize = self.position(&key);
        if i < self.units.len() {
            Some(self.unit_at(resistances, i))
        } else {
            None
        }
    }

    /// The unit under `name`, which the catalog must list.
    pub fn get_unit_by_name(
        &self,
        resistances: &DamageResistanceTemplates,
        name: &str,
    ) -> (unit: Unit)
        requires
            has_template(self@, name@),
        ensures
            unit@ == unit_of(self@[template_from(self@, name@, 0)], resistances@),
            unit@.name == name@,
    {
        let key: String = name.to_owned();
        let i: usize = self.position(&key);
        proof {
            lemma_template_from(self@, name@, 0);
        }
        self.unit_at(resistances, i)
    }
}

/// The units of a catalog.
pub fn generate_units(
    templates: &Templates,
    resistances: &DamageResistanceTemplates,
) -> (units: Vec<Unit>)
    ensures
        units_view(units@) == units_of(templates@, resistances@),
{
    templates.to_units(resistances)
}

} // verus!
