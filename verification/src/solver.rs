//! The way to the solver.  An [`IntegerProgram`] is handed to `good_lp`
//! variable by variable and row by row, solved with its `microlp`
//! back end, and the values found are read back as whole numbers.
//!
//! What `good_lp` does is not proved here: each call goes through a
//! small function whose contract is taken on trust from the source of
//! the crate.  The contracts speak of what the objects of `good_lp`
//! hold through the spec functions below, which have no body.

use vstd::prelude::*;
use good_lp::solvers::microlp::{MicroLpProblem, MicroLpSolution};
use good_lp::{
    Expression, ProblemVariables, ResolutionError, Solution, SolverModel, Variable,
};
use crate::arith::clamp_i32;
use crate::program::{ints, IntegerProgram, ProgramView, Relation, Row};

verus! {

/// `good_lp::ProblemVariables`: the variables of a problem in the making.
#[verifier::external_type_specification]
#[verifier::external_body]
pub struct ExProblemVariables(ProblemVariables);

/// `good_lp::Variable`: the handle of a declared variable.
#[verifier::external_type_specification]
#[verifier::external_body]
pub struct ExVariable(Variable);

/// `good_lp::Expression`: a sum of variables, each times a coefficient.
#[verifier::external_type_specification]
#[verifier::external_body]
pub struct ExExpression(Expression);

/// `good_lp::solvers::microlp::MicroLpProblem`: a model that can be solved.
#[verifier::external_type_specification]
#[verifier::external_body]
pub struct ExMicroLpProblem(MicroLpProblem);

/// `good_lp::solvers::microlp::MicroLpSolution`: what solving a model gave.
#[verifier::external_type_specification]
#[verifier::external_body]
pub struct ExMicroLpSolution(MicroLpSolution);

/// `good_lp::ResolutionError`: why a model has no solution.
#[verifier::external_type_specification]
#[verifier::external_body]
pub struct ExResolutionError(ResolutionError);

/// A row as the solver holds it: a coefficient for each variable that
/// the row mentions, by the variable's index.
pub struct SparseRow {
    pub terms: Map<int, int>,
    pub relation: Relation,
    pub bound: int,
}

/// A model as the solver holds it.  Every variable is a whole number
/// between 0 and its upper bound; the objective is maximized.
pub struct ModelView {
    pub upper_bounds: Seq<i32>,
    pub objective: Map<int, int>,
    pub rows: Seq<SparseRow>,
}

/// The index under which a set of variables knows `variable`.
pub uninterp spec fn variable_index(variable: Variable) -> int;

/// The upper bounds of the variables declared in `variables`, in the
/// order of their indices.  Each is a whole number from 0 up.
pub uninterp spec fn declared_bounds(variables: ProblemVariables) -> Seq<i32>;

/// The coefficients of `expression`, by variable index.
pub uninterp spec fn expression_terms(expression: Expression) -> Map<int, int>;

/// What `model` holds.
pub uninterp spec fn model_view(model: MicroLpProblem) -> ModelView;

/// The values of `solution`, by variable index, each cut to a whole number.
pub uninterp spec fn solution_values(solution: MicroLpSolution) -> Seq<i32>;

/// What the solver finds for a model that holds `model`: a value for
/// each variable, by index, each cut to a whole number; nothing where
/// it finds no solution.  The solver works on the model alone, with
/// neither chance nor clock, so the same model has the same answer.
pub uninterp spec fn solver_answer(model: ModelView) -> Option<Seq<i32>>;

/// The coefficients of an expression that mentions no variable.
pub open spec fn no_terms() -> Map<int, int> {
    Map::empty()
}

/// A model over `upper_bounds` with an objective and no row.
pub open spec fn bare_model(upper_bounds: Seq<i32>, objective: Map<int, int>) -> ModelView {
    ModelView { upper_bounds, objective, rows: Seq::empty() }
}

/// Every variable that `terms` mentions is one of the first `count`.
pub open spec fn within(terms: Map<int, int>, count: int) -> bool {
    forall|k: int| terms.contains_key(k) ==> 0 <= k < count
}

/// `ProblemVariables::new`: a set without variables.
#[verifier::external_body]
fn new_variables() -> (variables: ProblemVariables)
    ensures
        declared_bounds(variables).len() == 0,
{
    ProblemVariables::new()
}

/// `ProblemVariables::add`, with the definition of a whole-number
/// variable between 0 and `upper`: the variable is added after those
/// declared before and is known under the next index.
#[verifier::external_body]
fn add_integer_variable(variables: &mut ProblemVariables, upper: i32) -> (variable: Variable)
    ensures
        declared_bounds(*final(variables)) == declared_bounds(*old(variables)).push(upper),
        variable_index(variable) == declared_bounds(*old(variables)).len(),
{
    variables.add(good_lp::variable().integer().min(0).max(upper))
}

/// `Expression::default`: the expression that mentions no variable.
#[verifier::external_body]
fn empty_expression() -> (expression: Expression)
    ensures
        expression_terms(expression) == no_terms(),
{
    Expression::default()
}

/// `Expression::add_mul`, with a variable that the expression does not
/// mention yet: the variable enters with the coefficient.
#[verifier::external_body]
fn add_term(expression: &mut Expression, coefficient: i32, variable: Variable)
    requires
        !expression_terms(*old(expression)).contains_key(variable_index(variable)),
    ensures
        expression_terms(*final(expression)) == expression_terms(*old(expression)).insert(
            variable_index(variable),
            coefficient as int,
        ),
{
    expression.add_mul(coefficient, variable);
}

/// `ProblemVariables::maximise` and `good_lp::microlp`: a model over
/// the variables declared, with the objective to maximize and no row.
/// The objective may mention declared variables only.
#[verifier::external_body]
fn model_for(variables: ProblemVariables, objective: Expression) -> (model: MicroLpProblem)
    requires
        within(expression_terms(objective), declared_bounds(variables).len() as int),
    ensures
        model_view(model) == bare_model(declared_bounds(variables), expression_terms(objective)),
{
    good_lp::microlp(variables.maximise(objective))
}

/// The model with one more row after those that it holds.
pub open spec fn with_row(
    model: ModelView,
    terms: Map<int, int>,
    relation: Relation,
    bound: int,
) -> ModelView {
    ModelView { rows: model.rows.push(SparseRow { terms, relation, bound }), ..model }
}

/// `SolverModel::add_constraint` with the row of `Expression::leq`:
/// `expression <= bound` is added after the rows that the model
/// holds.  The expression may mention variables of the model only.
#[verifier::external_body]
fn add_at_most(model: &mut MicroLpProblem, expression: Expression, bound: i32)
    requires
        within(expression_terms(expression), model_view(*old(model)).upper_bounds.len() as int),
    ensures
        model_view(*final(model)) == with_row(
            model_view(*old(model)),
            expression_terms(expression),
            Relation::AtMost,
            bound as int,
        ),
{
    model.add_constraint(expression.leq(bound));
}

/// `SolverModel::add_constraint` with the row of `Expression::geq`:
/// `expression >= bound` is added after the rows that the model holds.
#[verifier::external_body]
fn add_at_least(model: &mut MicroLpProblem, expression: Expression, bound: i32)
    requires
        within(expression_terms(expression), model_view(*old(model)).upper_bounds.len() as int),
    ensures
        model_view(*final(model)) == with_row(
            model_view(*old(model)),
            expression_terms(expression),
            Relation::AtLeast,
            bound as int,
        ),
{
    model.add_constraint(expression.geq(bound));
}

/// `SolverModel::add_constraint` with the row of `Expression::eq`:
/// `expression == bound` is added after the rows that the model holds.
#[verifier::external_body]
fn add_exactly(model: &mut MicroLpProblem, expression: Expression, bound: i32)
    requires
        within(expression_terms(expression), model_view(*old(model)).upper_bounds.len() as int),
    ensures
        model_view(*final(model)) == with_row(
            model_view(*old(model)),
            expression_terms(expression),
            Relation::Exactly,
            bound as int,
        ),
{
    model.add_constraint(expression.eq(bound));
}

/// `SolverModel::solve`.  What comes back is the answer of the solver
/// for what the model holds: a solution with a value for each variable
/// of the model, or an error where the solver finds none.  Nothing is
/// claimed of the values themselves.
#[verifier::external_body]
fn solve(model: MicroLpProblem) -> (outcome: Result<MicroLpSolution, ResolutionError>)
    ensures
        outcome matches Ok(solution) ==> solution_values(solution).len() == model_view(
            model,
        ).upper_bounds.len(),
        outcome matches Ok(solution) ==> solver_answer(model_view(model)) == Some(
            solution_values(solution),
        ),
        outcome is Err ==> solver_answer(model_view(model)).is_none(),
{
    model.solve()
}

/// `Solution::value`, cut to a whole number.
#[verifier::external_body]
fn value_of(solution: &MicroLpSolution, variable: Variable) -> (value: i32)
    requires
        0 <= variable_index(variable) < solution_values(*solution).len(),
    ensures
        value == solution_values(*solution)[variable_index(variable)],
{
    solution.value(variable) as i32
}

/// The coefficients of a dense row, by index.
pub open spec fn dense_terms(coefficients: Seq<i32>) -> Map<int, int> {
    Map::new(|k: int| 0 <= k < coefficients.len(), |k: int| coefficients[k] as int)
}

/// A row as the solver holds it.
pub open spec fn sparse_row(row: Row) -> SparseRow {
    SparseRow {
        terms: dense_terms(row.coefficients),
        relation: row.relation,
        bound: row.bound as int,
    }
}

/// The program as the solver holds it, with the first `upto` of its rows.
pub open spec fn model_of(program: ProgramView, upto: int) -> ModelView {
    ModelView {
        upper_bounds: program.upper_bounds,
        objective: dense_terms(program.objective),
        rows: Seq::new(upto as nat, |r: int| sparse_row(program.constraints[r])),
    }
}

/// The variables `handles` are those of indices 0, 1, 2, ... in order.
pub open spec fn in_order(handles: Seq<Variable>) -> bool {
    forall|i: int| 0 <= i < handles.len() ==> variable_index(#[trigger] handles[i]) == i
}

/// Declares one variable for each upper bound.
fn declare(bounds: &Vec<i32>) -> (declared: (ProblemVariables, Vec<Variable>))
    ensures
        declared_bounds(declared.0) == bounds@,
        declared.1@.len() == bounds@.len(),
        in_order(declared.1@),
{
    let mut variables = new_variables();
    let mut handles: Vec<Variable> = Vec::new();
    let mut i: usize = 0;
    while i < bounds.len()
        invariant
            i <= bounds.len(),
            declared_bounds(variables) =~= bounds@.take(i as int),
            handles@.len() == i,
            in_order(handles@),
        decreases bounds.len() - i,
    {
        let variable = add_integer_variable(&mut variables, bounds[i]);
        handles.push(variable);
        assert(bounds@.take(i as int + 1) == bounds@.take(i as int).push(bounds@[i as int]));
        i += 1;
    }
    assert(bounds@.take(i as int) == bounds@);
    (variables, handles)
}

/// The expression of a dense row over the variables `handles`.
fn expression_of(coefficients: &Vec<i32>, handles: &Vec<Variable>) -> (expression: Expression)
    requires
        coefficients@.len() == handles@.len(),
        in_order(handles@),
    ensures
        expression_terms(expression) == dense_terms(coefficients@),
{
    let mut expression = empty_expression();
    let mut i: usize = 0;
    while i < coefficients.len()
        invariant
            i <= coefficients.len(),
            coefficients@.len() == handles@.len(),
            in_order(handles@),
            expression_terms(expression) == dense_terms(coefficients@.take(i as int)),
        decreases coefficients.len() - i,
    {
        add_term(&mut expression, coefficients[i], handles[i]);
        assert(expression_terms(expression) =~= dense_terms(coefficients@.take(i as int + 1)));
        i += 1;
    }
    assert(coefficients@.take(i as int) == coefficients@);
    expression
}

/// What the solver found: a value for each variable of the program
/// and the value of the objective at those values, held at the limits
/// of `i32`.
#[derive(Debug)]
pub struct Solved {
    pub values: Vec<i32>,
    pub objective: i32,
}

/// The model of `program`, with the variables in the order of the program.
fn load(program: &IntegerProgram) -> (loaded: (MicroLpProblem, Vec<Variable>))
    requires
        program@.wf(),
    ensures
        model_view(loaded.0) == model_of(program@, program@.constraints.len() as int),
        loaded.1@.len() == program@.upper_bounds.len(),
        in_order(loaded.1@),
{
    let (variables, handles) = declare(&program.upper_bounds);
    let objective = expression_of(&program.objective, &handles);
    let mut model = model_for(variables, objective);
    assert(model_view(model).rows =~= model_of(program@, 0).rows);
    let mut r: usize = 0;
    while r < program.constraints.len()
        invariant
            r <= program.constraints.len(),
            program@.wf(),
            handles@.len() == program@.upper_bounds.len(),
            in_order(handles@),
            model_view(model) == model_of(program@, r as int),
        decreases program.constraints.len() - r,
    {
        let row = &program.constraints[r];
        assert(program@.constraints[r as int] == row@);
        let expression = expression_of(&row.coefficients, &handles);
        match row.relation {
            Relation::AtMost => add_at_most(&mut model, expression, row.bound),
            Relation::AtLeast => add_at_least(&mut model, expression, row.bound),
            Relation::Exactly => add_exactly(&mut model, expression, row.bound),
        }
        assert(model_view(model).rows =~= model_of(program@, r as int + 1).rows);
        r += 1;
    }
    (model, handles)
}

/// What the solver finds, as plain values: the values and the value
/// of the objective.
pub open spec fn solved_view(solved: Option<Solved>) -> Option<(Seq<i32>, i32)> {
    match solved {
        Some(found) => Some((found.values@, found.objective)),
        None => None,
    }
}

/// The answer of the solver for `program`: the values that it finds,
/// with the value of the objective at them.  There is none where the
/// solver finds no solution, and none where what it finds is not
/// feasible for the program: the answer is held against every bound
/// and every row before it is taken.
pub open spec fn answer_for(program: ProgramView) -> Option<(Seq<i32>, i32)> {
    match solver_answer(model_of(program, program.constraints.len() as int)) {
        Some(values) => if program.feasible(ints(values)) {
            Some((values, clamp_i32(program.value(ints(values))) as i32))
        } else {
            None
        },
        None => None,
    }
}

/// Hands `program` to the solver and holds what comes back against
/// the program.  `None` where the solver finds no solution or one
/// that is not feasible; else the values that it found, one for each
/// variable of the program, and the value of the objective at them.
pub fn solve_program(program: &IntegerProgram) -> (solved: Option<Solved>)
    requires
        program@.wf(),
    ensures
        solved_view(solved) == answer_for(program@),
        solved matches Some(found) ==> found.values@.len() == program@.upper_bounds.len()
            && program@.feasible(ints(found.values@)),
{
    let (model, handles) = load(program);
    match solve(model) {
        Ok(solution) => {
            let mut values: Vec<i32> = Vec::new();
            let mut i: usize = 0;
            while i < handles.len()
                invariant
                    i <= handles.len(),
                    in_order(handles@),
                    handles@.len() == solution_values(solution).len(),
                    values@ == solution_values(solution).take(i as int),
                decreases handles.len() - i,
            {
                let value: i32 = value_of(&solution, handles[i]);
                values.push(value);
                assert(solution_values(solution).take(i as int + 1) == solution_values(
                    solution,
                ).take(i as int).push(value));
                i += 1;
            }
            assert(values@ == solution_values(solution));
            if program.is_met_by(&values) {
                let objective: i32 = program.value_at(&values);
                Some(Solved { values, objective })
            } else {
                None
            }
        },
        Err(_) => None,
    }
}

} // verus!
