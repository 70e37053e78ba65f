//! The optimizer's interface, as data.
//!
//! The optimizer is reached through a fixed set of entry points that work on
//! an opaque problem handle. Those that configure or steer a problem answer
//! with a status code and nothing else; they are the ones listed here. A
//! [`Registration`] is a call of one of the four that take a callback and the
//! address of a closure context; a [`Call`] is a call of any other. Each
//! carries the arguments that the entry point is to be given, the handle, the
//! callback and the context's address aside: those belong to whoever makes
//! the call.

use crate::registry::{ConstraintType, Role};
use libc::c_int;
use vstd::prelude::*;

verus! {

/// What a call does to a problem's registrations once the optimizer has
/// accepted it.
#[derive(Debug, PartialEq, Eq, Copy, Clone, Structural)]
pub enum Effect {
    /// Every constraint of the given type is dropped.
    Clear(ConstraintType),
    /// A setting changes; no registration does.
    Adjust,
    /// A running search is asked to end; nothing of the problem changes.
    Signal,
}

impl Effect {
    /// Whether this effect ends a registration in `role`: clearing a type of
    /// constraint ends every constraint of that type.
    pub open spec fn ends(self, role: Role) -> bool {
        self matches Effect::Clear(ty) && role == Role::Constraint(ty)
    }
}

/// A call that registers a callback and a closure context. `R` is the
/// optimizer's type of real numbers; nothing here looks inside one.
#[derive(Debug, PartialEq, Copy, Clone)]
pub enum Registration<R> {
    SetMinObjective,
    SetMaxObjective,
    /// An inequality constraint with its tolerance.
    AddInequalityConstraint(R),
    /// An equality constraint with its tolerance.
    AddEqualityConstraint(R),
}

impl<R> Registration<R> {
    /// The role in which this call registers its context.
    pub open spec fn role_of(self) -> Role {
        match self {
            Registration::SetMinObjective => Role::Objective,
            Registration::SetMaxObjective => Role::Objective,
            Registration::AddInequalityConstraint(_) => Role::Constraint(
                ConstraintType::Inequality,
            ),
            Registration::AddEqualityConstraint(_) => Role::Constraint(ConstraintType::Equality),
        }
    }

    /// The role in which this call registers its context.
    pub fn role(&self) -> (r: Role)
        ensures
            r == self.role_of(),
    {
        match self {
            Registration::SetMinObjective => Role::Objective,
            Registration::SetMaxObjective => Role::Objective,
            Registration::AddInequalityConstraint(_) => Role::Constraint(
                ConstraintType::Inequality,
            ),
            Registration::AddEqualityConstraint(_) => Role::Constraint(ConstraintType::Equality),
        }
    }
}

/// A call that takes plain arguments.
#[derive(Debug, PartialEq, Copy, Clone)]
pub enum Call<'a, R> {
    /// One lower bound for each variable, in variable order.
    SetLowerBounds(&'a [R]),
    /// One upper bound for each variable, in variable order.
    SetUpperBounds(&'a [R]),
    /// One lower bound for all variables.
    SetLowerBounds1(R),
    /// One upper bound for all variables.
    SetUpperBounds1(R),
    RemoveInequalityConstraints,
    RemoveEqualityConstraints,
    SetStopval(R),
    SetMaxeval(c_int),
    SetMaxtime(R),
    SetFtolRel(R),
    SetFtolAbs(R),
    /// One relative tolerance for each variable.
    SetXtolRel(&'a [R]),
    /// One absolute tolerance for each variable.
    SetXtolAbs(&'a [R]),
    /// One absolute tolerance for all variables.
    SetXtolAbs1(R),
    ForceStop,
}

impl<'a, R> Call<'a, R> {
    /// The effect of this call on a problem's registrations.
    pub open spec fn effect_of(self) -> Effect {
        match self {
            Call::RemoveInequalityConstraints => Effect::Clear(ConstraintType::Inequality),
            Call::RemoveEqualityConstraints => Effect::Clear(ConstraintType::Equality),
            Call::ForceStop => Effect::Signal,
            _ => Effect::Adjust,
        }
    }

    /// The effect of this call on a problem's registrations.
    pub fn effect(&self) -> (e: Effect)
        ensures
            e == self.effect_of(),
    {
        match self {
            Call::RemoveInequalityConstraints => Effect::Clear(ConstraintType::Inequality),
            Call::RemoveEqualityConstraints => Effect::Clear(ConstraintType::Equality),
            Call::ForceStop => Effect::Signal,
            Call::SetLowerBounds(_) => Effect::Adjust,
            Call::SetUpperBounds(_) => Effect::Adjust,
            Call::SetLowerBounds1(_) => Effect::Adjust,
            Call::SetUpperBounds1(_) => Effect::Adjust,
            Call::SetStopval(_) => Effect::Adjust,
            Call::SetMaxeval(_) => Effect::Adjust,
            Call::SetMaxtime(_) => Effect::Adjust,
            Call::SetFtolRel(_) => Effect::Adjust,
            Call::SetFtolAbs(_) => Effect::Adjust,
            Call::SetXtolRel(_) => Effect::Adjust,
            Call::SetXtolAbs(_) => Effect::Adjust,
            Call::SetXtolAbs1(_) => Effect::Adjust,
        }
    }
}

} // verus!
