//! Selection of army compositions under a budget and a set of tactical
//! requirements.
//!
//! A catalog lists unit templates.  A composition holds the units
//! bought under one ruleset, and with them the escort units that the
//! ruleset gives to the units that require an escort.  A constraint
//! bounds the compositions that are wanted and may name one statistic
//! to maximize.  With such a target the search is handed to an
//! integer-program solver, once for each composition asked for;
//! without one, an exhaustive walk over the purchasable units answers.
//!
//! Every statistic is an `i32`.  Sums are computed exactly and held at
//! the limits of `i32` where they leave its range.

pub mod arith;
pub mod unitstats;
pub mod units;
pub mod unit_templates;
pub mod army_composition;
pub mod composition_laws;
pub mod constraint;
pub mod program;
pub mod program_laws;
pub mod solver;
pub mod optimizer;
pub mod enumerator;

pub use army_composition::{ArmyComposition, CompositionSummary, GameModes};
pub use constraint::{Budget, Constraint, ConstraintBuilder, Errors, MaximizationTargets};
pub use enumerator::{find_combination_recursive, search_for_army};
pub use optimizer::{
    apply_preset, optimize_k, plan_search, search_optimal, search_paths, search_validated,
    SearchPlan,
};
pub use program::{
    add_stat_floor_with_skirm, add_type_bounds, cap_named, catalog_is_sound, IntegerProgram,
    LinearConstraint, Relation,
};
pub use unit_templates::{generate_units, DamageResistanceTemplates, Templates, UnitTemplate};
pub use units::{DamageSource, Unit, UnitTypes};
pub use unitstats::{RangedBand, RangedStats, UnitStats};
