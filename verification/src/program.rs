//! The integer program that stands for one search: a count to buy for
//! each unit of the catalog, the two variables of the escort rule, the
//! bounds as linear rows, and the statistic to maximize.

use vstd::prelude::*;
use crate::arith::{
    clamp_i32, lemma_mul_bounded, quotient, sat_sub, saturate, saturating_difference, trunc_div,
};
use crate::army_composition::GameModes;
use crate::constraint::{
    has_unit_named, lists_name, named_floors_view, optional_list_view, optional_named_floors_view,
    Budget, Constraint, ConstraintView, MaximizationTargets,
};
use crate::unit_templates::units_view;
use crate::units::{lemma_wf_supports, Selector, Statistic, Unit, UnitTypes, UnitView};

verus! {

/// How the weighted sum of a row stands to its bound.
#[derive(Clone, Copy, Debug, PartialEq, Eq, Structural)]
pub enum Relation {
    AtMost,
    AtLeast,
    Exactly,
}

/// One linear row: the sum of the variables, each times its
/// coefficient, stands in `relation` to `bound`.
#[derive(Debug)]
pub struct LinearConstraint {
    pub coefficients: Vec<i32>,
    pub relation: Relation,
    pub bound: i32,
}

/// What a [`LinearConstraint`] holds, as plain values.
pub struct Row {
    pub coefficients: Seq<i32>,
    pub relation: Relation,
    pub bound: i32,
}

impl View for LinearConstraint {
    type V = Row;

    open spec fn view(&self) -> Row {
        Row { coefficients: self.coefficients@, relation: self.relation, bound: self.bound }
    }
}

/// An integer program.  Every variable is a whole number between 0 and
/// its upper bound; the objective is maximized.
#[derive(Debug)]
pub struct IntegerProgram {
    pub upper_bounds: Vec<i32>,
    pub objective: Vec<i32>,
    pub constraints: Vec<LinearConstraint>,
}

/// What an [`IntegerProgram`] holds, as plain values.
pub struct ProgramView {
    pub upper_bounds: Seq<i32>,
    pub objective: Seq<i32>,
    pub constraints: Seq<Row>,
}

/// Rows of executable code as plain values.
pub open spec fn rows_view(rows: Seq<LinearConstraint>) -> Seq<Row> {
    rows.map_values(|row: LinearConstraint| row@)
}

impl View for IntegerProgram {
    type V = ProgramView;

    open spec fn view(&self) -> ProgramView {
        ProgramView {
            upper_bounds: self.upper_bounds@,
            objective: self.objective@,
            constraints: rows_view(self.constraints@),
        }
    }
}

/// Values as whole numbers without a width.
pub open spec fn ints(values: Seq<i32>) -> Seq<int> {
    values.map_values(|value: i32| value as int)
}

/// The sum of `values`, each times its coefficient.
pub open spec fn dot(coefficients: Seq<i32>, values: Seq<int>) -> int
    decreases coefficients.len(),
{
    if coefficients.len() == 0 {
        0
    } else {
        dot(coefficients.drop_last(), values) + coefficients.last() * values[coefficients.len() - 1]
    }
}

impl Row {
    /// `values` meet the row.
    pub open spec fn holds(self, values: Seq<int>) -> bool {
        match self.relation {
            Relation::AtMost => dot(self.coefficients, values) <= self.bound,
            Relation::AtLeast => dot(self.coefficients, values) >= self.bound,
            Relation::Exactly => dot(self.coefficients, values) == self.bound,
        }
    }
}

impl ProgramView {
    /// The objective and every row speak of every variable.
    pub open spec fn wf(self) -> bool {
        &&& self.objective.len() == self.upper_bounds.len()
        &&& forall|r: int|
            0 <= r < self.constraints.len() ==> (#[trigger] self.constraints[r]).coefficients.len()
                == self.upper_bounds.len()
    }

    /// `values` give every variable a value within its bounds and meet
    /// every row.
    pub open spec fn feasible(self, values: Seq<int>) -> bool {
        &&& values.len() == self.upper_bounds.len()
        &&& forall|i: int| 0 <= i < values.len() ==> 0 <= #[trigger] values[i] <= self.upper_bounds[i]
        &&& forall|r: int| 0 <= r < self.constraints.len() ==> (#[trigger] self.constraints[r]).holds(values)
    }

    /// The objective at `values`.
    pub open spec fn value(self, values: Seq<int>) -> int {
        dot(self.objective, values)
    }
}

/// The coefficients of a row over a catalog of `units`: for each unit
/// its value of `statistic` (0 where none is given), then the
/// coefficient of the escort multiplier and that of the escort count.
pub open spec fn coefficients_of(
    units: Seq<UnitView>,
    statistic: Option<Statistic>,
    multiplier: i32,
    escort: i32,
) -> Seq<i32> {
    Seq::new(
        units.len() + 2,
        |i: int|
            if i < units.len() {
                match statistic {
                    Some(statistic) => units[i].stat(statistic) as i32,
                    None => 0i32,
                }
            } else if i == units.len() {
                multiplier
            } else {
                escort
            },
    )
}

/// A row on the sum of `statistic` over the units bought, the escort
/// units left out.
pub open spec fn bought_row(
    units: Seq<UnitView>,
    statistic: Statistic,
    relation: Relation,
    bound: i32,
) -> Row {
    Row { coefficients: coefficients_of(units, Some(statistic), 0, 0), relation, bound }
}

/// A row on the sum of `statistic` over the units bought and the
/// escort units that come with them.
pub open spec fn army_row(
    units: Seq<UnitView>,
    skirmisher: UnitView,
    statistic: Statistic,
    relation: Relation,
    bound: i32,
) -> Row {
    Row {
        coefficients: coefficients_of(units, Some(statistic), 0, skirmisher.stat(statistic) as i32),
        relation,
        bound,
    }
}

/// The row of a bound that may be unset, on the units bought.
pub open spec fn bought_rows(
    bound: Option<i32>,
    units: Seq<UnitView>,
    statistic: Statistic,
    relation: Relation,
) -> Seq<Row> {
    match bound {
        Some(bound) => seq![bought_row(units, statistic, relation, bound)],
        None => Seq::empty(),
    }
}

/// The row of a floor that may be unset, on the whole army.
pub open spec fn army_floor_rows(
    floor: Option<i32>,
    units: Seq<UnitView>,
    skirmisher: UnitView,
    statistic: Statistic,
) -> Seq<Row> {
    match floor {
        Some(floor) => seq![army_row(units, skirmisher, statistic, Relation::AtLeast, floor)],
        None => Seq::empty(),
    }
}

/// The rows that bound the count of each category from below and above.
pub open spec fn type_bound_rows(units: Seq<UnitView>, c: ConstraintView) -> Seq<Row> {
    bought_rows(
        c.minimum_infantry,
        units,
        Statistic::Headcount(UnitTypes::Infantry),
        Relation::AtLeast,
    ) + bought_rows(
        c.maximum_infantry,
        units,
        Statistic::Headcount(UnitTypes::Infantry),
        Relation::AtMost,
    ) + bought_rows(
        c.minimum_cavalry,
        units,
        Statistic::Headcount(UnitTypes::Cavalry),
        Relation::AtLeast,
    ) + bought_rows(
        c.maximum_cavalry,
        units,
        Statistic::Headcount(UnitTypes::Cavalry),
        Relation::AtMost,
    ) + bought_rows(
        c.minimum_artillery,
        units,
        Statistic::Headcount(UnitTypes::Artillery),
        Relation::AtLeast,
    ) + bought_rows(
        c.maximum_artillery,
        units,
        Statistic::Headcount(UnitTypes::Artillery),
        Relation::AtMost,
    )
}

/// The row that caps the units bought under `name`; none where the
/// cap is unset.
pub open spec fn cap_rows(units: Seq<UnitView>, name: Seq<char>, cap: Option<i32>) -> Seq<Row> {
    bought_rows(cap, units, Statistic::Named(name), Relation::AtMost)
}

/// One row for each floor of a list, on the whole army: `floors` are
/// pairs of a least damage and the range it is due at.
pub open spec fn damage_rows(
    units: Seq<UnitView>,
    skirmisher: UnitView,
    floors: Seq<(i32, i32)>,
) -> Seq<Row> {
    Seq::new(
        floors.len(),
        |k: int|
            army_row(
                units,
                skirmisher,
                Statistic::DamageAt(floors[k].1 as int),
                Relation::AtLeast,
                floors[k].0,
            ),
    )
}

/// One row for each floor on the effective hit points against a
/// source, on the whole army.
pub open spec fn ehp_rows(
    units: Seq<UnitView>,
    skirmisher: UnitView,
    floors: Seq<(Seq<char>, i32)>,
) -> Seq<Row> {
    Seq::new(
        floors.len(),
        |k: int|
            army_row(units, skirmisher, Statistic::EhpVs(floors[k].0), Relation::AtLeast, floors[k].1),
    )
}

/// One row for each floor on the melee attack of a category, on the
/// units bought.
pub open spec fn attack_rows(units: Seq<UnitView>, floors: Seq<(UnitTypes, i32)>) -> Seq<Row> {
    Seq::new(
        floors.len(),
        |k: int|
            bought_row(
                units,
                Statistic::MeleeAttackOf(seq![floors[k].0]),
                Relation::AtLeast,
                floors[k].1,
            ),
    )
}

/// One row for each floor on the melee defense of a category, on the
/// units bought.
pub open spec fn defense_rows(units: Seq<UnitView>, floors: Seq<(UnitTypes, i32)>) -> Seq<Row> {
    Seq::new(
        floors.len(),
        |k: int|
            bought_row(
                units,
                Statistic::MeleeDefenseOf(seq![floors[k].0]),
                Relation::AtLeast,
                floors[k].1,
            ),
    )
}

/// The rows of the damage floors, where the list is set.
pub open spec fn optional_damage_rows(
    units: Seq<UnitView>,
    skirmisher: UnitView,
    floors: Option<Seq<(i32, i32)>>,
) -> Seq<Row> {
    match floors {
        Some(floors) => damage_rows(units, skirmisher, floors),
        None => Seq::empty(),
    }
}

/// The rows of the floors on effective hit points, where the list is set.
pub open spec fn optional_ehp_rows(
    units: Seq<UnitView>,
    skirmisher: UnitView,
    floors: Option<Seq<(Seq<char>, i32)>>,
) -> Seq<Row> {
    match floors {
        Some(floors) => ehp_rows(units, skirmisher, floors),
        None => Seq::empty(),
    }
}

/// The rows of the floors on melee attack by category, where the list is set.
pub open spec fn optional_attack_rows(
    units: Seq<UnitView>,
    floors: Option<Seq<(UnitTypes, i32)>>,
) -> Seq<Row> {
    match floors {
        Some(floors) => attack_rows(units, floors),
        None => Seq::empty(),
    }
}

/// The rows of the floors on melee defense by category, where the list is set.
pub open spec fn optional_defense_rows(
    units: Seq<UnitView>,
    floors: Option<Seq<(UnitTypes, i32)>>,
) -> Seq<Row> {
    match floors {
        Some(floors) => defense_rows(units, floors),
        None => Seq::empty(),
    }
}

/// The rows of the floors on statistics: hit points, damage at ranges,
/// effective hit points, melee attack and defense and the gold and
/// manpower spent count the escort units in; the floors by category
/// do not.
pub open spec fn stat_floor_rows(
    units: Seq<UnitView>,
    skirmisher: UnitView,
    c: ConstraintView,
) -> Seq<Row> {
    army_floor_rows(c.minimum_hp, units, skirmisher, Statistic::Hp) + optional_damage_rows(
        units,
        skirmisher,
        c.minimum_damage_at_ranges,
    ) + optional_ehp_rows(units, skirmisher, c.minimum_ehp_vs_sources) + army_floor_rows(
        c.minimum_melee_damage,
        units,
        skirmisher,
        Statistic::MeleeAttack,
    ) + optional_attack_rows(units, c.minimum_melee_damage_over_types) + army_floor_rows(
        c.minimum_melee_defense,
        units,
        skirmisher,
        Statistic::MeleeDefense,
    ) + optional_defense_rows(units, c.minimum_melee_defense_over_types) + army_floor_rows(
        c.minimum_gold_target,
        units,
        skirmisher,
        Statistic::GoldCost,
    ) + army_floor_rows(c.minimum_manpower_target, units, skirmisher, Statistic::ManpowerCost)
}

/// The three rows of the escort rule.  With `z` the units bought that
/// require an escort, `t` the escort multiplier and `y` the escort
/// count: `z - den * t >= 0`, `z - den * t <= den - 1`, `y - num * t = 0`.
pub open spec fn escort_rows(units: Seq<UnitView>, mode: GameModes) -> Seq<Row> {
    let den = mode.ratio_denominator() as i32;
    let num = mode.ratio_numerator() as i32;
    seq![
        Row {
            coefficients: coefficients_of(units, Some(Statistic::EscortEligible), (-den) as i32, 0),
            relation: Relation::AtLeast,
            bound: 0,
        },
        Row {
            coefficients: coefficients_of(units, Some(Statistic::EscortEligible), (-den) as i32, 0),
            relation: Relation::AtMost,
            bound: (den - 1) as i32,
        },
        Row {
            coefficients: coefficients_of(units, None, (-num) as i32, 1),
            relation: Relation::Exactly,
            bound: 0,
        },
    ]
}

/// The two rows of the budget: gold and manpower spent on the units bought.
pub open spec fn budget_rows(units: Seq<UnitView>, budget: Budget) -> Seq<Row> {
    seq![
        bought_row(units, Statistic::GoldCost, Relation::AtMost, budget.gold),
        bought_row(units, Statistic::ManpowerCost, Relation::AtMost, budget.manpower),
    ]
}

/// The coefficients that pick the variable at `index` out of `len`.
pub open spec fn unit_vector(len: nat, index: int) -> Seq<i32> {
    Seq::new(
        len,
        |i: int|
            if i == index {
                1i32
            } else {
                0i32
            },
    )
}

/// One row for each of the first `upto` units that `allowed` does not
/// list by name: none of it may be bought.
pub open spec fn exclusion_rows(units: Seq<UnitView>, allowed: Seq<UnitView>, upto: int) -> Seq<Row>
    decreases upto,
{
    if upto <= 0 {
        Seq::empty()
    } else if lists_name(allowed, units[upto - 1].name) {
        exclusion_rows(units, allowed, upto - 1)
    } else {
        exclusion_rows(units, allowed, upto - 1).push(
            Row {
                coefficients: unit_vector(units.len() + 2, upto - 1),
                relation: Relation::AtMost,
                bound: 0,
            },
        )
    }
}

/// The rows that keep the units outside an allow-list at 0.
pub open spec fn allow_rows(units: Seq<UnitView>, allowed: Option<Seq<UnitView>>) -> Seq<Row> {
    match allowed {
        Some(allowed) => exclusion_rows(units, allowed, units.len() as int),
        None => Seq::empty(),
    }
}

/// The objective: the score of each unit bought and of each escort unit.
pub open spec fn objective_of(
    units: Seq<UnitView>,
    skirmisher: UnitView,
    target: Statistic,
) -> Seq<i32> {
    coefficients_of(units, Some(target), 0, skirmisher.stat(target) as i32)
}

/// The row that keeps the objective below the value found before.
pub open spec fn cut_rows(
    units: Seq<UnitView>,
    skirmisher: UnitView,
    target: Statistic,
    previous_best: Option<i32>,
) -> Seq<Row> {
    match previous_best {
        Some(best) => seq![
            Row {
                coefficients: objective_of(units, skirmisher, target),
                relation: Relation::AtMost,
                bound: sat_sub(best as int, 1) as i32,
            },
        ],
        None => Seq::empty(),
    }
}

/// The units of the catalog that require an escort.
pub open spec fn eligible_units(units: Seq<UnitView>) -> int
    decreases units.len(),
{
    if units.len() == 0 {
        0
    } else {
        eligible_units(units.drop_last()) + if units.last().unit_stats.has_skirmishers {
            1int
        } else {
            0int
        }
    }
}

/// The most that the escort multiplier can be when no unit is bought
/// more than `hard_cap` times.
pub open spec fn multiplier_bound(units: Seq<UnitView>, hard_cap: i32, mode: GameModes) -> int {
    let groups = trunc_div(clamp_i32(eligible_units(units)) * hard_cap, mode.ratio_denominator());
    clamp_i32(if groups < 0 { 0 } else { groups })
}

/// The most that the escort count can be.
pub open spec fn escort_bound(units: Seq<UnitView>, hard_cap: i32, mode: GameModes) -> int {
    let escorts = multiplier_bound(units, hard_cap, mode) * mode.ratio_numerator();
    clamp_i32(if escorts < 0 { 0 } else { escorts })
}

/// The upper bounds of the variables: `hard_cap` for each unit, then
/// the bounds of the escort multiplier and of the escort count.
pub open spec fn bounds_of(units: Seq<UnitView>, hard_cap: i32, mode: GameModes) -> Seq<i32> {
    Seq::new(
        units.len() + 2,
        |i: int|
            if i < units.len() {
                hard_cap
            } else if i == units.len() {
                multiplier_bound(units, hard_cap, mode) as i32
            } else {
                escort_bound(units, hard_cap, mode) as i32
            },
    )
}

/// The program of one search: maximize `target` over the counts to
/// buy of `units`, within `budget` and no more than `hard_cap` of any
/// unit, under the escort rule of `mode`, the bounds of `c` and, after
/// a first solution, below its value.
pub open spec fn program_for(
    c: ConstraintView,
    budget: Budget,
    units: Seq<UnitView>,
    target: Statistic,
    hard_cap: i32,
    mode: GameModes,
    skirmisher: UnitView,
    previous_best: Option<i32>,
) -> ProgramView {
    ProgramView {
        upper_bounds: bounds_of(units, hard_cap, mode),
        objective: objective_of(units, skirmisher, target),
        constraints: budget_rows(units, budget) + escort_rows(units, mode) + type_bound_rows(units, c)
            + cap_rows(units, rifles_name(), c.maximum_rifles) + cap_rows(
            units,
            rockets_name(),
            c.maximum_rockets,
        ) + allow_rows(units, c.allowed_units) + stat_floor_rows(units, skirmisher, c) + cut_rows(
            units,
            skirmisher,
            target,
            previous_best,
        ),
    }
}

/// The name of the unit whose count the mode caps as rifles.
pub open spec fn rifles_name() -> Seq<char> {
    "Rifles"@
}

/// The name of the unit whose count the mode caps as rocket batteries.
pub open spec fn rockets_name() -> Seq<char> {
    "Rocket battery"@
}

/// Every unit of the catalog meets the data invariants of a template.
pub open spec fn catalog_wf(units: Seq<UnitView>) -> bool {
    forall|i: int| 0 <= i < units.len() ==> (#[trigger] units[i]).wf()
}

/// Whether every unit of the catalog meets the data invariants of a
/// template.
pub fn catalog_is_sound(units: &[Unit]) -> (sound: bool)
    ensures
        sound == catalog_wf(units_view(units@)),
{
    let mut i: usize = 0;
    while i < units.len()
        invariant
            i <= units.len(),
            forall|j: int| 0 <= j < i ==> (#[trigger] units_view(units@)[j]).wf(),
        decreases units.len() - i,
    {
        assert(units_view(units@)[i as int] == units@[i as int]@);
        if !units[i].is_sound() {
            return false;
        }
        i += 1;
    }
    true
}

/// The coefficients of a row over the catalog.
pub fn coefficients(
    units: &[Unit],
    selector: Option<&Selector>,
    multiplier: i32,
    escort: i32,
) -> (row: Vec<i32>)
    requires
        units.len() + 2 <= usize::MAX,
        catalog_wf(units_view(units@)),
    ensures
        row@ == coefficients_of(
            units_view(units@),
            match selector {
                Some(selector) => Some(selector@),
                None => None,
            },
            multiplier,
            escort,
        ),
{
    let ghost statistic = match selector {
        Some(selector) => Some(selector@),
        None => None,
    };
    let mut row: Vec<i32> = Vec::new();
    let mut i: usize = 0;
    while i < units.len()
        invariant
            i <= units.len(),
            catalog_wf(units_view(units@)),
            statistic == match selector {
                Some(selector) => Some(selector@),
                None => None,
            },
            row@.len() == i,
            forall|j: int|
                0 <= j < i ==> row@[j] == coefficients_of(
                    units_view(units@),
                    statistic,
                    multiplier,
                    escort,
                )[j],
        decreases units.len() - i,
    {
        let value: i32 = match selector {
            Some(selector) => {
                proof {
                    assert(units_view(units@)[i as int] == units@[i as int]@);
                    lemma_wf_supports(units@[i as int]@, selector@);
                }
                units[i].stat(selector)
            },
            None => 0,
        };
        row.push(value);
        i += 1;
    }
    row.push(multiplier);
    row.push(escort);
    assert(row@ =~= coefficients_of(units_view(units@), statistic, multiplier, escort));
    row
}

/// The sum of `values`, each times its coefficient, exactly.
pub fn weighted_sum(coefficients: &Vec<i32>, values: &Vec<i32>) -> (sum: i128)
    requires
        coefficients@.len() <= values@.len(),
    ensures
        sum as int == dot(coefficients@, ints(values@)),
{
    let ghost weights = coefficients@;
    let mut total: i128 = 0;
    let mut i: usize = 0;
    while i < coefficients.len()
        invariant
            i <= coefficients.len(),
            weights == coefficients@,
            weights.len() <= values@.len(),
            total as int == dot(weights.take(i as int), ints(values@)),
            -i * 0x4000_0000_0000_0000 <= total <= i * 0x4000_0000_0000_0000,
        decreases coefficients.len() - i,
    {
        proof {
            lemma_mul_bounded(
                coefficients@[i as int] as int,
                values@[i as int] as int,
                0x8000_0000,
                0x8000_0000,
            );
            assert(weights.take(i as int + 1).drop_last() == weights.take(i as int));
            assert(ints(values@)[i as int] == values@[i as int]);
        }
        total = total + coefficients[i] as i128 * values[i] as i128;
        i += 1;
    }
    assert(weights.take(i as int) == weights);
    total
}

impl LinearConstraint {
    /// Whether `values` meet the row.
    pub fn is_met_by(&self, values: &Vec<i32>) -> (met: bool)
        requires
            self@.coefficients.len() <= values@.len(),
        ensures
            met == self@.holds(ints(values@)),
    {
        let sum: i128 = weighted_sum(&self.coefficients, values);
        match self.relation {
            Relation::AtMost => sum <= self.bound as i128,
            Relation::AtLeast => sum >= self.bound as i128,
            Relation::Exactly => sum == self.bound as i128,
        }
    }
}

impl IntegerProgram {
    /// The value of the objective at `values`, held at the limits of
    /// `i32`.
    pub fn value_at(&self, values: &Vec<i32>) -> (value: i32)
        requires
            self@.objective.len() <= values@.len(),
        ensures
            value as int == clamp_i32(self@.value(ints(values@))),
    {
        saturate(weighted_sum(&self.objective, values))
    }

    /// Whether `values` are feasible for the program: one value for
    /// each variable, every value within its bounds, every row met.
    pub fn is_met_by(&self, values: &Vec<i32>) -> (met: bool)
        requires
            self@.wf(),
        ensures
            met == self@.feasible(ints(values@)),
    {
        if values.len() != self.upper_bounds.len() {
            return false;
        }
        let ghost x = ints(values@);
        let mut i: usize = 0;
        while i < values.len()
            invariant
                i <= values.len(),
                values@.len() == self.upper_bounds@.len(),
                x == ints(values@),
                forall|j: int| 0 <= j < i ==> 0 <= #[trigger] x[j] <= self@.upper_bounds[j],
            decreases values.len() - i,
        {
            assert(x[i as int] == values@[i as int]);
            if values[i] < 0 || values[i] > self.upper_bounds[i] {
                return false;
            }
            i += 1;
        }
        let mut r: usize = 0;
        while r < self.constraints.len()
            invariant
                r <= self.constraints.len(),
                self@.wf(),
                values@.len() == self.upper_bounds@.len(),
                x == ints(values@),
                forall|j: int| 0 <= j < r ==> (#[trigger] self@.constraints[j]).holds(x),
            decreases self.constraints.len() - r,
        {
            assert(self@.constraints[r as int] == self.constraints@[r as int]@);
            if !self.constraints[r].is_met_by(values) {
                return false;
            }
            r += 1;
        }
        true
    }

    /// Adds a row after those that the program holds.
    pub fn add_constraint(&mut self, row: LinearConstraint)
        ensures
            final(self)@ == (ProgramView {
                constraints: old(self)@.constraints.push(row@),
                ..old(self)@
            }),
    {
        self.constraints.push(row);
        assert(rows_view(self.constraints@) =~= rows_view(old(self).constraints@).push(row@));
    }
}

/// Adds the row of a bound on the units bought.
fn add_bought_row(
    program: &mut IntegerProgram,
    units: &[Unit],
    selector: &Selector,
    relation: Relation,
    bound: i32,
)
    requires
        units.len() + 2 <= usize::MAX,
        catalog_wf(units_view(units@)),
    ensures
        final(program)@ == (ProgramView {
            constraints: old(program)@.constraints.push(
                bought_row(units_view(units@), selector@, relation, bound),
            ),
            ..old(program)@
        }),
{
    let row = LinearConstraint {
        coefficients: coefficients(units, Some(selector), 0, 0),
        relation,
        bound,
    };
    program.add_constraint(row);
}

/// Adds the row of a bound on the whole army.
fn add_army_row(
    program: &mut IntegerProgram,
    units: &[Unit],
    skirmisher: &Unit,
    selector: &Selector,
    relation: Relation,
    bound: i32,
)
    requires
        units.len() + 2 <= usize::MAX,
        catalog_wf(units_view(units@)),
        skirmisher@.wf(),
    ensures
        final(program)@ == (ProgramView {
            constraints: old(program)@.constraints.push(
                army_row(units_view(units@), skirmisher@, selector@, relation, bound),
            ),
            ..old(program)@
        }),
{
    proof {
        lemma_wf_supports(skirmisher@, selector@);
    }
    let escort: i32 = skirmisher.stat(selector);
    let row = LinearConstraint {
        coefficients: coefficients(units, Some(selector), 0, escort),
        relation,
        bound,
    };
    program.add_constraint(row);
}

/// Caps the units bought under `name` at `cap`.
pub fn cap_named(program: &mut IntegerProgram, units: &[Unit], name: &str, cap: i32)
    requires
        units.len() + 2 <= usize::MAX,
        catalog_wf(units_view(units@)),
    ensures
        final(program)@ == (ProgramView {
            constraints: old(program)@.constraints + cap_rows(units_view(units@), name@, Some(cap)),
            ..old(program)@
        }),
{
    let owned: String = name.to_owned();
    add_bought_row(program, units, &Selector::Named(&owned), Relation::AtMost, cap);
    assert(program@.constraints =~= old(program)@.constraints + cap_rows(
        units_view(units@),
        name@,
        Some(cap),
    ));
}

/// Caps the units bought under `name`, where the cap is set.
fn cap_named_if_set(program: &mut IntegerProgram, units: &[Unit], name: &str, cap: Option<i32>)
    requires
        units.len() + 2 <= usize::MAX,
        catalog_wf(units_view(units@)),
    ensures
        final(program)@ == (ProgramView {
            constraints: old(program)@.constraints + cap_rows(units_view(units@), name@, cap),
            ..old(program)@
        }),
{
    if let Some(cap) = cap {
        cap_named(program, units, name, cap);
    }
    assert(program@.constraints =~= old(program)@.constraints + cap_rows(
        units_view(units@),
        name@,
        cap,
    ));
}

/// Adds the row of a bound on the units bought, where the bound is set.
fn add_bought_rows(
    program: &mut IntegerProgram,
    units: &[Unit],
    bound: Option<i32>,
    selector: &Selector,
    relation: Relation,
)
    requires
        units.len() + 2 <= usize::MAX,
        catalog_wf(units_view(units@)),
    ensures
        final(program)@ == (ProgramView {
            constraints: old(program)@.constraints + bought_rows(
                bound,
                units_view(units@),
                selector@,
                relation,
            ),
            ..old(program)@
        }),
{
    if let Some(bound) = bound {
        add_bought_row(program, units, selector, relation, bound);
    }
    assert(program@.constraints =~= old(program)@.constraints + bought_rows(
        bound,
        units_view(units@),
        selector@,
        relation,
    ));
}

/// Adds the row of a floor on the whole army, where the floor is set.
fn add_army_floor(
    program: &mut IntegerProgram,
    units: &[Unit],
    skirmisher: &Unit,
    floor: Option<i32>,
    selector: &Selector,
)
    requires
        units.len() + 2 <= usize::MAX,
        catalog_wf(units_view(units@)),
        skirmisher@.wf(),
    ensures
        final(program)@ == (ProgramView {
            constraints: old(program)@.constraints + army_floor_rows(
                floor,
                units_view(units@),
                skirmisher@,
                selector@,
            ),
            ..old(program)@
        }),
{
    if let Some(floor) = floor {
        add_army_row(program, units, skirmisher, selector, Relation::AtLeast, floor);
    }
    assert(program@.constraints =~= old(program)@.constraints + army_floor_rows(
        floor,
        units_view(units@),
        skirmisher@,
        selector@,
    ));
}

/// Bounds the count of each category from below and above, where the
/// bound is set.
pub fn add_type_bounds(program: &mut IntegerProgram, units: &[Unit], c: &Constraint)
    requires
        units.len() + 2 <= usize::MAX,
        catalog_wf(units_view(units@)),
    ensures
        final(program)@ == (ProgramView {
            constraints: old(program)@.constraints + type_bound_rows(units_view(units@), c@),
            ..old(program)@
        }),
{
    let infantry = Selector::Headcount(UnitTypes::Infantry);
    let cavalry = Selector::Headcount(UnitTypes::Cavalry);
    let artillery = Selector::Headcount(UnitTypes::Artillery);
    let ghost catalog = units_view(units@);
    let ghost rows = old(program)@.constraints;
    let ghost a = bought_rows(c@.minimum_infantry, catalog, infantry@, Relation::AtLeast);
    let ghost b = bought_rows(c@.maximum_infantry, catalog, infantry@, Relation::AtMost);
    let ghost d = bought_rows(c@.minimum_cavalry, catalog, cavalry@, Relation::AtLeast);
    let ghost e = bought_rows(c@.maximum_cavalry, catalog, cavalry@, Relation::AtMost);
    let ghost f = bought_rows(c@.minimum_artillery, catalog, artillery@, Relation::AtLeast);
    let ghost g = bought_rows(c@.maximum_artillery, catalog, artillery@, Relation::AtMost);
    add_bought_rows(program, units, c.minimum_infantry, &infantry, Relation::AtLeast);
    add_bought_rows(program, units, c.maximum_infantry, &infantry, Relation::AtMost);
    add_bought_rows(program, units, c.minimum_cavalry, &cavalry, Relation::AtLeast);
    add_bought_rows(program, units, c.maximum_cavalry, &cavalry, Relation::AtMost);
    add_bought_rows(program, units, c.minimum_artillery, &artillery, Relation::AtLeast);
    add_bought_rows(program, units, c.maximum_artillery, &artillery, Relation::AtMost);
    proof {
        lemma_concat_assoc(rows, a, b);
        lemma_concat_assoc(rows, a + b, d);
        lemma_concat_assoc(rows, a + b + d, e);
        lemma_concat_assoc(rows, a + b + d + e, f);
        lemma_concat_assoc(rows, a + b + d + e + f, g);
    }
}

/// Adds one row for each damage floor, where the list is set.
fn add_damage_floors(
    program: &mut IntegerProgram,
    units: &[Unit],
    sk: &Unit,
    floors: &Option<Vec<(i32, i32)>>,
)
    requires
        units.len() + 2 <= usize::MAX,
        catalog_wf(units_view(units@)),
        sk@.wf(),
    ensures
        final(program)@ == (ProgramView {
            constraints: old(program)@.constraints + optional_damage_rows(
                units_view(units@),
                sk@,
                optional_list_view(*floors),
            ),
            ..old(program)@
        }),
{
    let ghost catalog = units_view(units@);
    if let Some(floors) = floors {
        let mut k: usize = 0;
        while k < floors.len()
            invariant
                k <= floors.len(),
                units.len() + 2 <= usize::MAX,
                catalog == units_view(units@),
                catalog_wf(catalog),
                sk@.wf(),
                program@ == (ProgramView {
                    constraints: old(program)@.constraints + damage_rows(catalog, sk@, floors@).take(
                        k as int,
                    ),
                    ..old(program)@
                }),
            decreases floors.len() - k,
        {
            let floor: (i32, i32) = floors[k];
            add_army_row(program, units, sk, &Selector::DamageAt(floor.1), Relation::AtLeast, floor.0);
            assert(program@.constraints =~= old(program)@.constraints + damage_rows(
                catalog,
                sk@,
                floors@,
            ).take(k as int + 1));
            k += 1;
        }
        assert(damage_rows(catalog, sk@, floors@).take(k as int) =~= damage_rows(catalog, sk@, floors@));
    } else {
        assert(program@.constraints =~= old(program)@.constraints + Seq::<Row>::empty());
    }
}

/// Adds one row for each floor on effective hit points, where the list is set.
fn add_ehp_floors(
    program: &mut IntegerProgram,
    units: &[Unit],
    sk: &Unit,
    floors: &Option<Vec<(String, i32)>>,
)
    requires
        units.len() + 2 <= usize::MAX,
        catalog_wf(units_view(units@)),
        sk@.wf(),
    ensures
        final(program)@ == (ProgramView {
            constraints: old(program)@.constraints + optional_ehp_rows(
                units_view(units@),
                sk@,
                optional_named_floors_view(*floors),
            ),
            ..old(program)@
        }),
{
    let ghost catalog = units_view(units@);
    if let Some(floors) = floors {
        let ghost listed = named_floors_view(floors@);
        let mut k: usize = 0;
        while k < floors.len()
            invariant
                k <= floors.len(),
                units.len() + 2 <= usize::MAX,
                catalog == units_view(units@),
                catalog_wf(catalog),
                sk@.wf(),
                listed == named_floors_view(floors@),
                program@ == (ProgramView {
                    constraints: old(program)@.constraints + ehp_rows(catalog, sk@, listed).take(
                        k as int,
                    ),
                    ..old(program)@
                }),
            decreases floors.len() - k,
        {
            let floor = &floors[k];
            assert(listed[k as int] == (floor.0@, floor.1));
            add_army_row(program, units, sk, &Selector::EhpVs(&floor.0), Relation::AtLeast, floor.1);
            assert(program@.constraints =~= old(program)@.constraints + ehp_rows(
                catalog,
                sk@,
                listed,
            ).take(k as int + 1));
            k += 1;
        }
        assert(ehp_rows(catalog, sk@, listed).take(k as int) =~= ehp_rows(catalog, sk@, listed));
    } else {
        assert(program@.constraints =~= old(program)@.constraints + Seq::<Row>::empty());
    }
}

/// Adds one row for each floor on the melee attack (or, with
/// `defense`, the melee defense) of a category, where the list is set.
fn add_category_floors(
    program: &mut IntegerProgram,
    units: &[Unit],
    floors: &Option<Vec<(UnitTypes, i32)>>,
    defense: bool,
)
    requires
        units.len() + 2 <= usize::MAX,
        catalog_wf(units_view(units@)),
    ensures
        final(program)@ == (ProgramView {
            constraints: old(program)@.constraints + if defense {
                optional_defense_rows(units_view(units@), optional_list_view(*floors))
            } else {
                optional_attack_rows(units_view(units@), optional_list_view(*floors))
            },
            ..old(program)@
        }),
{
    let ghost catalog = units_view(units@);
    if let Some(floors) = floors {
        let ghost rows = if defense {
            defense_rows(catalog, floors@)
        } else {
            attack_rows(catalog, floors@)
        };
        let mut k: usize = 0;
        while k < floors.len()
            invariant
                k <= floors.len(),
                units.len() + 2 <= usize::MAX,
                catalog == units_view(units@),
                catalog_wf(catalog),
                rows == if defense {
                    defense_rows(catalog, floors@)
                } else {
                    attack_rows(catalog, floors@)
                },
                program@ == (ProgramView {
                    constraints: old(program)@.constraints + rows.take(k as int),
                    ..old(program)@
                }),
            decreases floors.len() - k,
        {
            let floor: (UnitTypes, i32) = floors[k];
            let mut types: Vec<UnitTypes> = Vec::new();
            types.push(floor.0);
            assert(types@ =~= seq![floor.0]);
            if defense {
                add_bought_row(
                    program,
                    units,
                    &Selector::MeleeDefenseOf(types.as_slice()),
                    Relation::AtLeast,
                    floor.1,
                );
            } else {
                add_bought_row(
                    program,
                    units,
                    &Selector::MeleeAttackOf(types.as_slice()),
                    Relation::AtLeast,
                    floor.1,
                );
            }
            assert(program@.constraints =~= old(program)@.constraints + rows.take(k as int + 1));
            k += 1;
        }
        assert(rows.take(k as int) =~= rows);
    } else {
        assert(program@.constraints =~= old(program)@.constraints + Seq::<Row>::empty());
    }
}

/// Adds the floors on statistics that are set: those on hit points,
/// damage at ranges, effective hit points, melee attack and defense
/// and the gold and manpower spent with the escort units counted in,
/// those by category without.
pub fn add_stat_floor_with_skirm(
    program: &mut IntegerProgram,
    units: &[Unit],
    sk: &Unit,
    c: &Constraint,
)
    requires
        units.len() + 2 <= usize::MAX,
        catalog_wf(units_view(units@)),
        sk@.wf(),
    ensures
        final(program)@ == (ProgramView {
            constraints: old(program)@.constraints + stat_floor_rows(units_view(units@), sk@, c@),
            ..old(program)@
        }),
{
    let ghost catalog = units_view(units@);
    let ghost rows = old(program)@.constraints;
    let ghost hp = army_floor_rows(c@.minimum_hp, catalog, sk@, Statistic::Hp);
    let ghost damage = optional_damage_rows(catalog, sk@, c@.minimum_damage_at_ranges);
    let ghost ehp = optional_ehp_rows(catalog, sk@, c@.minimum_ehp_vs_sources);
    let ghost attack = army_floor_rows(c@.minimum_melee_damage, catalog, sk@, Statistic::MeleeAttack);
    let ghost attack_by = optional_attack_rows(catalog, c@.minimum_melee_damage_over_types);
    let ghost defense = army_floor_rows(
        c@.minimum_melee_defense,
        catalog,
        sk@,
        Statistic::MeleeDefense,
    );
    let ghost defense_by = optional_defense_rows(catalog, c@.minimum_melee_defense_over_types);
    let ghost gold = army_floor_rows(c@.minimum_gold_target, catalog, sk@, Statistic::GoldCost);
    let ghost manpower = army_floor_rows(
        c@.minimum_manpower_target,
        catalog,
        sk@,
        Statistic::ManpowerCost,
    );
    add_army_floor(program, units, sk, c.minimum_hp, &Selector::Hp);
    add_damage_floors(program, units, sk, &c.minimum_damage_at_ranges);
    add_ehp_floors(program, units, sk, &c.minimum_ehp_vs_sources);
    add_army_floor(program, units, sk, c.minimum_melee_damage, &Selector::MeleeAttack);
    add_category_floors(program, units, &c.minimum_melee_damage_over_types, false);
    add_army_floor(program, units, sk, c.minimum_melee_defense, &Selector::MeleeDefense);
    add_category_floors(program, units, &c.minimum_melee_defense_over_types, true);
    add_army_floor(program, units, sk, c.minimum_gold_target, &Selector::GoldCost);
    add_army_floor(program, units, sk, c.minimum_manpower_target, &Selector::ManpowerCost);
    proof {
        lemma_concat_assoc(rows, hp, damage);
        lemma_concat_assoc(rows, hp + damage, ehp);
        lemma_concat_assoc(rows, hp + damage + ehp, attack);
        lemma_concat_assoc(rows, hp + damage + ehp + attack, attack_by);
        lemma_concat_assoc(rows, hp + damage + ehp + attack + attack_by, defense);
        lemma_concat_assoc(rows, hp + damage + ehp + attack + attack_by + defense, defense_by);
        lemma_concat_assoc(rows, hp + damage + ehp + attack + attack_by + defense + defense_by, gold);
        lemma_concat_assoc(
            rows,
            hp + damage + ehp + attack + attack_by + defense + defense_by + gold,
            manpower,
        );
    }
}

/// Rows added one group after the other are the groups joined, added at once.
proof fn lemma_concat_assoc(a: Seq<Row>, b: Seq<Row>, c: Seq<Row>)
    ensures
        (a + b) + c == a + (b + c),
{
    assert((a + b) + c =~= a + (b + c));
}

/// Adds the three rows of the escort rule of `mode`.
pub fn add_escort_rule(program: &mut IntegerProgram, units: &[Unit], mode: GameModes)
    requires
        units.len() + 2 <= usize::MAX,
        catalog_wf(units_view(units@)),
    ensures
        final(program)@ == (ProgramView {
            constraints: old(program)@.constraints + escort_rows(units_view(units@), mode),
            ..old(program)@
        }),
{
    let ratio: (i32, i32) = mode.get_skirmisher_ratio();
    let eligible = Selector::EscortEligible;
    program.add_constraint(
        LinearConstraint {
            coefficients: coefficients(units, Some(&eligible), -ratio.1, 0),
            relation: Relation::AtLeast,
            bound: 0,
        },
    );
    program.add_constraint(
        LinearConstraint {
            coefficients: coefficients(units, Some(&eligible), -ratio.1, 0),
            relation: Relation::AtMost,
            bound: ratio.1 - 1,
        },
    );
    program.add_constraint(
        LinearConstraint {
            coefficients: coefficients(units, None, -ratio.0, 1),
            relation: Relation::Exactly,
            bound: 0,
        },
    );
    assert(program@.constraints =~= old(program)@.constraints + escort_rows(
        units_view(units@),
        mode,
    ));
}

/// Adds the two rows of the budget.
pub fn add_budget(program: &mut IntegerProgram, units: &[Unit], budget: &Budget)
    requires
        units.len() + 2 <= usize::MAX,
        catalog_wf(units_view(units@)),
    ensures
        final(program)@ == (ProgramView {
            constraints: old(program)@.constraints + budget_rows(units_view(units@), *budget),
            ..old(program)@
        }),
{
    add_bought_row(program, units, &Selector::GoldCost, Relation::AtMost, budget.gold);
    add_bought_row(program, units, &Selector::ManpowerCost, Relation::AtMost, budget.manpower);
    assert(program@.constraints =~= old(program)@.constraints + budget_rows(
        units_view(units@),
        *budget,
    ));
}

/// The coefficients that pick the variable at `index` out of `len`.
fn pick(len: usize, index: usize) -> (row: Vec<i32>)
    ensures
        row@ == unit_vector(len as nat, index as int),
{
    let mut row: Vec<i32> = Vec::new();
    let mut i: usize = 0;
    while i < len
        invariant
            i <= len,
            row@.len() == i,
            forall|j: int| 0 <= j < i ==> row@[j] == unit_vector(len as nat, index as int)[j],
        decreases len - i,
    {
        row.push(if i == index { 1 } else { 0 });
        i += 1;
    }
    assert(row@ =~= unit_vector(len as nat, index as int));
    row
}

/// Keeps every unit that `allowed` does not list by name at 0.
pub fn add_exclusions(program: &mut IntegerProgram, units: &[Unit], allowed: &[Unit])
    requires
        units.len() + 2 <= usize::MAX,
    ensures
        final(program)@ == (ProgramView {
            constraints: old(program)@.constraints + exclusion_rows(
                units_view(units@),
                units_view(allowed@),
                units.len() as int,
            ),
            ..old(program)@
        }),
{
    let ghost catalog = units_view(units@);
    let mut i: usize = 0;
    while i < units.len()
        invariant
            i <= units.len(),
            units.len() + 2 <= usize::MAX,
            catalog == units_view(units@),
            program@ == (ProgramView {
                constraints: old(program)@.constraints + exclusion_rows(
                    catalog,
                    units_view(allowed@),
                    i as int,
                ),
                ..old(program)@
            }),
        decreases units.len() - i,
    {
        assert(catalog[i as int].name == units@[i as int].name@);
        if !has_unit_named(allowed, &units[i].name) {
            program.add_constraint(
                LinearConstraint {
                    coefficients: pick(units.len() + 2, i),
                    relation: Relation::AtMost,
                    bound: 0,
                },
            );
        }
        assert(program@.constraints =~= old(program)@.constraints + exclusion_rows(
            catalog,
            units_view(allowed@),
            i as int + 1,
        ));
        i += 1;
    }
}

/// The units of the catalog that require an escort.
fn count_eligible(units: &[Unit]) -> (count: i32)
    ensures
        count as int == clamp_i32(eligible_units(units_view(units@))),
{
    let ghost catalog = units_view(units@);
    let mut count: i128 = 0;
    let mut i: usize = 0;
    while i < units.len()
        invariant
            i <= units.len(),
            catalog == units_view(units@),
            count as int == eligible_units(catalog.take(i as int)),
            0 <= count <= i,
        decreases units.len() - i,
    {
        proof {
            assert(catalog.take(i as int + 1).drop_last() == catalog.take(i as int));
            assert(catalog.take(i as int + 1).last() == units@[i as int]@);
        }
        if units[i].unit_stats.has_skirmishers {
            count = count + 1;
        }
        i += 1;
    }
    assert(catalog.take(i as int) == catalog);
    saturate(count)
}

/// The upper bounds of the variables of the program.
pub fn variable_bounds(units: &[Unit], hard_cap: i32, mode: GameModes) -> (bounds: Vec<i32>)
    requires
        units.len() + 2 <= usize::MAX,
    ensures
        bounds@ == bounds_of(units_view(units@), hard_cap, mode),
{
    let ratio: (i32, i32) = mode.get_skirmisher_ratio();
    let eligible: i32 = count_eligible(units);
    proof {
        lemma_mul_bounded(eligible as int, hard_cap as int, 0x8000_0000, 0x8000_0000);
    }
    let groups: i128 = quotient(eligible as i128 * hard_cap as i128, ratio.1 as i128);
    let multiplier: i32 = saturate(if groups < 0 { 0 } else { groups });
    proof {
        lemma_mul_bounded(multiplier as int, ratio.0 as int, 0x8000_0000, 4);
    }
    let escorts: i128 = multiplier as i128 * ratio.0 as i128;
    let escort: i32 = saturate(if escorts < 0 { 0 } else { escorts });
    let mut bounds: Vec<i32> = Vec::new();
    let mut i: usize = 0;
    while i < units.len()
        invariant
            i <= units.len(),
            bounds@.len() == i,
            forall|j: int| 0 <= j < i ==> bounds@[j] == hard_cap,
        decreases units.len() - i,
    {
        bounds.push(hard_cap);
        i += 1;
    }
    bounds.push(multiplier);
    bounds.push(escort);
    assert(bounds@ =~= bounds_of(units_view(units@), hard_cap, mode));
    bounds
}

/// The name of the unit whose count the mode caps as rifles.
pub fn rifles() -> (name: &'static str)
    ensures
        name@ == rifles_name(),
{
    "Rifles"
}

/// The name of the unit whose count the mode caps as rocket batteries.
pub fn rocket_battery() -> (name: &'static str)
    ensures
        name@ == rockets_name(),
{
    "Rocket battery"
}

/// The program of one search.
pub fn build_program(
    constraints: &Constraint,
    budget: &Budget,
    units: &[Unit],
    target: &MaximizationTargets,
    hard_cap: i32,
    mode: GameModes,
    sk_unit: &Unit,
    previous_best: Option<i32>,
) -> (program: IntegerProgram)
    requires
        units.len() + 2 <= usize::MAX,
        catalog_wf(units_view(units@)),
        sk_unit@.wf(),
    ensures
        program@ == program_for(
            constraints@,
            *budget,
            units_view(units@),
            target@,
            hard_cap,
            mode,
            sk_unit@,
            previous_best,
        ),
{
    let ghost catalog = units_view(units@);
    let selector = target.selector();
    proof {
        lemma_wf_supports(sk_unit@, target@);
    }
    let escort_score: i32 = sk_unit.stat(&selector);
    let mut program = IntegerProgram {
        upper_bounds: variable_bounds(units, hard_cap, mode),
        objective: coefficients(units, Some(&selector), 0, escort_score),
        constraints: Vec::new(),
    };
    assert(program@.constraints =~= Seq::<Row>::empty());
    add_budget(&mut program, units, budget);
    add_escort_rule(&mut program, units, mode);
    add_type_bounds(&mut program, units, constraints);
    cap_named_if_set(&mut program, units, rifles(), constraints.maximum_rifles);
    cap_named_if_set(&mut program, units, rocket_battery(), constraints.maximum_rockets);
    if let Some(allowed) = &constraints.allowed_units {
        add_exclusions(&mut program, units, allowed.as_slice());
    }
    let ghost with_exclusions = program@;
    assert(with_exclusions.constraints =~= budget_rows(catalog, *budget) + escort_rows(
        catalog,
        mode,
    ) + type_bound_rows(catalog, constraints@) + cap_rows(
        catalog,
        rifles_name(),
        constraints@.maximum_rifles,
    ) + cap_rows(catalog, rockets_name(), constraints@.maximum_rockets) + allow_rows(
        catalog,
        constraints@.allowed_units,
    ));
    add_stat_floor_with_skirm(&mut program, units, sk_unit, constraints);
    if let Some(best) = previous_best {
        program.add_constraint(
            LinearConstraint {
                coefficients: coefficients(units, Some(&selector), 0, escort_score),
                relation: Relation::AtMost,
                bound: saturating_difference(best, 1),
            },
        );
    }
    assert(program@.constraints =~= with_exclusions.constraints + stat_floor_rows(
        catalog,
        sk_unit@,
        constraints@,
    ) + cut_rows(catalog, sk_unit@, target@, previous_best));
    program
}

} // verus!
