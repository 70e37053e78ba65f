//! An optimization problem, seen from the binding layer.
//!
//! A [`Problem`] is the record that the layer keeps beside the optimizer's
//! own handle: the number of variables, how far the problem has come in its
//! life, and the closure contexts that the optimizer currently refers to,
//! which the record owns. It makes no call itself. Each operation says which
//! call is to be made, with which arguments, or rejects the operation without
//! a call. Once the optimizer has answered, [`Problem::settle`] or, for a
//! call that brought a closure context along, [`Problem::register`] types the
//! answer and brings the record up to date. Both hand back the contexts that
//! the optimizer no longer refers to, so that their storage is released then
//! and only then.

use crate::foreign::{Call, Effect, Registration};
use crate::registry::{cleared, displaced, held, holders, installed, well_formed};
use crate::registry::{ConstraintType, Registry, Role, Slot};
use crate::status::{status_of, to_res, NLError, NLResult, Res};
use libc::{c_int, c_uint};
use vstd::prelude::*;

verus! {

/// The direction of the search, which decides the entry point that registers
/// the objective. It is not kept once the call has been chosen.
#[derive(Debug, PartialEq, Eq, Copy, Clone, Structural)]
pub enum ObjectiveType {
    Minimize,
    Maximize,
}

/// The criteria on which a search may end early. Each becomes one call.
#[derive(Debug, PartialEq, Copy, Clone)]
pub enum StopCond<'a, R> {
    /// Relative tolerance on the objective's value.
    FTolRel(R),
    /// Absolute tolerance on the objective's value.
    FTolAbs(R),
    /// Relative tolerance on each variable, one value for each.
    XTolRel(&'a [R]),
    /// Absolute tolerance on each variable, one value for each.
    XTolAbs(&'a [R]),
    /// One absolute tolerance for all variables.
    XTolAbs1(R),
    /// A value of the objective at which the search may stop.
    StopVal(R),
    /// The largest number of evaluations.
    MaxEvals(u32),
    /// The longest running time.
    MaxTime(R),
}

/// How far a problem has come in its life.
#[derive(Debug, PartialEq, Eq, Copy, Clone, Structural)]
pub enum Phase {
    /// No handle has been obtained from the optimizer.
    Uninitialized,
    /// A handle exists and nothing has been configured.
    Created,
    /// A handle exists and at least one configuring call was accepted.
    Configured,
    /// A search has been started and its answer is still due.
    Optimizing,
    /// The handle has been given up.
    Terminated,
}

/// The mathematical content of a [`Problem`].
pub struct ProblemView<H> {
    /// The token that selects the algorithm; it means something to the
    /// optimizer alone.
    pub algorithm: int,
    /// The number of variables, fixed when the problem is made.
    pub vars: nat,
    pub phase: Phase,
    /// The arena of closure contexts, indexed by their identities.
    pub contexts: Seq<Slot<H>>,
}

/// The count of evaluations as the optimizer's signed integer: counts above
/// the largest signed value wrap around to negative ones.
pub open spec fn wrapped(v: u32) -> c_int {
    if v <= c_int::MAX {
        v as c_int
    } else {
        (v - 0x1_0000_0000) as c_int
    }
}

impl ObjectiveType {
    /// The call that registers an objective for this direction.
    pub open spec fn call_of<R>(self) -> Registration<R> {
        match self {
            ObjectiveType::Minimize => Registration::SetMinObjective,
            ObjectiveType::Maximize => Registration::SetMaxObjective,
        }
    }
}

impl ConstraintType {
    /// The call that registers a constraint of this type with a tolerance.
    pub open spec fn adding<R>(self, tolerance: R) -> Registration<R> {
        match self {
            ConstraintType::Inequality => Registration::AddInequalityConstraint(tolerance),
            ConstraintType::Equality => Registration::AddEqualityConstraint(tolerance),
        }
    }

    /// The call that drops all constraints of this type.
    pub open spec fn removing<'a, R>(self) -> Call<'a, R> {
        match self {
            ConstraintType::Inequality => Call::RemoveInequalityConstraints,
            ConstraintType::Equality => Call::RemoveEqualityConstraints,
        }
    }
}

impl<'a, R> StopCond<'a, R> {
    /// The call that sets this criterion.
    pub open spec fn call_of(self) -> Call<'a, R> {
        match self {
            StopCond::FTolRel(v) => Call::SetFtolRel(v),
            StopCond::FTolAbs(v) => Call::SetFtolAbs(v),
            StopCond::XTolRel(v) => Call::SetXtolRel(v),
            StopCond::XTolAbs(v) => Call::SetXtolAbs(v),
            StopCond::XTolAbs1(v) => Call::SetXtolAbs1(v),
            StopCond::StopVal(v) => Call::SetStopval(v),
            StopCond::MaxEvals(v) => Call::SetMaxeval(wrapped(v)),
            StopCond::MaxTime(v) => Call::SetMaxtime(v),
        }
    }

    /// Whether the criterion suits a problem of `n` variables: one that
    /// holds a value for each variable must hold exactly `n`.
    pub open spec fn fits(self, n: nat) -> bool {
        match self {
            StopCond::XTolRel(v) => v@.len() == n,
            StopCond::XTolAbs(v) => v@.len() == n,
            _ => true,
        }
    }
}

impl<H> ProblemView<H> {
    /// Whether the problem owns a handle of the optimizer.
    pub open spec fn has_handle(self) -> bool {
        self.phase is Created || self.phase is Configured || self.phase is Optimizing
    }

    /// Whether the problem can be configured: it owns a handle and no search
    /// is under way.
    pub open spec fn configurable(self) -> bool {
        self.phase is Created || self.phase is Configured
    }

    /// Whether the record holds a context under the identity `id`.
    pub open spec fn live(self, id: int) -> bool {
        0 <= id < self.contexts.len() && self.contexts[id].held is Some
    }

    /// Every context that the record holds, oldest first.
    pub open spec fn all_held(self) -> Seq<H> {
        held(self.contexts, None)
    }

    /// The context of the standing objective, if there is one.
    pub open spec fn objective(self) -> Option<usize> {
        let found = holders(self.contexts, Some(Role::Objective));
        if found.len() > 0 {
            Some(found.last())
        } else {
            None
        }
    }

    /// The contexts of the standing constraints of type `ty`, oldest first.
    pub open spec fn constraints(self, ty: ConstraintType) -> Seq<usize> {
        holders(self.contexts, Some(Role::Constraint(ty)))
    }

    /// The validity of a problem's record. Identities fit the machine's
    /// word; at most one objective stands; without a handle nothing was ever
    /// registered; after the handle is given up nothing is held.
    pub open spec fn wf(self) -> bool {
        &&& self.contexts.len() <= usize::MAX
        &&& well_formed(self.contexts)
        &&& self.phase is Uninitialized ==> self.contexts.len() == 0
        &&& self.phase is Terminated ==> forall|i: int|
            0 <= i < self.contexts.len() ==> (#[trigger] self.contexts[i]).held is None
    }

    /// The same problem in another phase.
    pub open spec fn at(self, phase: Phase) -> ProblemView<H> {
        ProblemView {
            algorithm: self.algorithm,
            vars: self.vars,
            phase,
            contexts: self.contexts,
        }
    }

    /// The same problem with another arena.
    pub open spec fn holding(self, contexts: Seq<Slot<H>>) -> ProblemView<H> {
        ProblemView { algorithm: self.algorithm, vars: self.vars, phase: self.phase, contexts }
    }

    /// Whether the answer `code` to a call changes the record: the problem
    /// must be configurable and the code one of success.
    pub open spec fn takes_effect(self, code: int) -> bool {
        self.configurable() && status_of(code) is Ok
    }

    /// The record after the answer `code` to a call with the given effect.
    pub open spec fn settled(self, effect: Effect, code: int) -> ProblemView<H> {
        if self.takes_effect(code) {
            match effect {
                Effect::Clear(ty) => self.holding(
                    cleared(self.contexts, Some(Role::Constraint(ty))),
                ).at(Phase::Configured),
                Effect::Adjust => self.at(Phase::Configured),
                Effect::Signal => self,
            }
        } else {
            self
        }
    }

    /// The contexts that the answer `code` to a call with the given effect
    /// retires, oldest first.
    pub open spec fn retiring(self, effect: Effect, code: int) -> Seq<H> {
        if self.takes_effect(code) {
            match effect {
                Effect::Clear(ty) => held(self.contexts, Some(Role::Constraint(ty))),
                _ => Seq::empty(),
            }
        } else {
            Seq::empty()
        }
    }

    /// The record after the answer `code` to a call that was to register
    /// `context` in `role`.
    pub open spec fn registered(self, role: Role, code: int, context: H) -> ProblemView<H> {
        if self.takes_effect(code) {
            self.holding(installed(self.contexts, role, context)).at(Phase::Configured)
        } else {
            self
        }
    }

    /// The identity under which a context is held once the answer `code` has
    /// made its registration stand.
    pub open spec fn registering(self, code: int) -> Option<usize> {
        if self.takes_effect(code) {
            Some(self.contexts.len() as usize)
        } else {
            None
        }
    }

    /// The contexts handed back after the answer `code` to a call that was
    /// to register `context` in `role`: what the registration displaces if
    /// it stands, and `context` itself if it does not.
    pub open spec fn returning(self, role: Role, code: int, context: H) -> Seq<H> {
        if self.takes_effect(code) {
            displaced(self.contexts, role)
        } else {
            seq![context]
        }
    }

    /// The record once the answer to a search has come in.
    pub open spec fn finished(self) -> ProblemView<H> {
        if self.phase is Optimizing {
            self.at(Phase::Configured)
        } else {
            self
        }
    }

    /// The contexts that giving up the handle retires, oldest first.
    pub open spec fn releasing(self) -> Seq<H> {
        if self.phase is Terminated {
            Seq::empty()
        } else {
            held(self.contexts, None)
        }
    }

    /// The record after the handle has been given up.
    pub open spec fn destroyed(self) -> ProblemView<H> {
        if self.phase is Terminated {
            self
        } else {
            self.holding(cleared(self.contexts, None)).at(Phase::Terminated)
        }
    }
}

/// What the answer to a call amounted to.
#[derive(Debug)]
pub struct Settlement<H> {
    /// The typed answer.
    pub result: Res,
    /// The identity under which the record holds the context that the call
    /// brought along, if its registration stands.
    pub registered: Option<usize>,
    /// The contexts that the optimizer does not, or no longer, refer to and
    /// whose storage is to be released now, oldest first.
    pub released: Vec<H>,
}

/// What giving up the handle amounted to.
#[derive(Debug)]
pub struct Teardown<H> {
    /// Whether there is a handle for the optimizer to destroy.
    pub handle: bool,
    /// The contexts whose storage is to be released once the handle is
    /// gone, oldest first.
    pub released: Vec<H>,
}

/// The record of one optimization problem. `H` is what stands for a closure
/// context.
#[derive(Debug)]
pub struct Problem<H> {
    algorithm: c_int,
    vars: usize,
    phase: Phase,
    registry: Registry<H>,
}

impl<H> View for Problem<H> {
    type V = ProblemView<H>;

    closed spec fn view(&self) -> ProblemView<H> {
        ProblemView {
            algorithm: self.algorithm as int,
            vars: self.vars as nat,
            phase: self.phase,
            contexts: self.registry@,
        }
    }
}

impl<H> Problem<H> {
    /// The record of a problem of `n` variables for the algorithm that
    /// `algorithm` selects. No handle exists yet and nothing is registered.
    pub fn new(algorithm: c_int, n: usize) -> (p: Problem<H>)
        ensures
            p@ == (ProblemView {
                algorithm: algorithm as int,
                vars: n as nat,
                phase: Phase::Uninitialized,
                contexts: Seq::<Slot<H>>::empty(),
            }),
            p@.wf(),
    {
        Problem { algorithm, vars: n, phase: Phase::Uninitialized, registry: Registry::new() }
    }

    /// The token that selects the algorithm.
    pub fn algorithm(&self) -> (a: c_int)
        ensures
            a == self@.algorithm,
    {
        self.algorithm
    }

    /// The number of variables.
    pub fn vars(&self) -> (n: usize)
        ensures
            n == self@.vars,
    {
        self.vars
    }

    /// The phase the problem is in.
    pub fn phase(&self) -> (p: Phase)
        ensures
            p == self@.phase,
    {
        self.phase
    }

    /// Whether the problem owns a handle. A problem that does not rejects
    /// every operation.
    pub fn has_handle(&self) -> (b: bool)
        ensures
            b == self@.has_handle(),
    {
        match self.phase {
            Phase::Created => true,
            Phase::Configured => true,
            Phase::Optimizing => true,
            Phase::Uninitialized => false,
            Phase::Terminated => false,
        }
    }

    /// Whether the problem can be configured.
    pub fn configurable(&self) -> (b: bool)
        ensures
            b == self@.configurable(),
    {
        match self.phase {
            Phase::Created => true,
            Phase::Configured => true,
            Phase::Optimizing => false,
            Phase::Uninitialized => false,
            Phase::Terminated => false,
        }
    }

    /// The number of contexts that were ever registered, which is the
    /// identity that the next one receives.
    pub fn issued(&self) -> (n: usize)
        ensures
            n == self@.contexts.len(),
    {
        self.registry.issued()
    }

    /// Whether the record holds a context under the identity `id`.
    pub fn is_live(&self, id: usize) -> (b: bool)
        ensures
            b == self@.live(id as int),
    {
        match self.registry.slot(id) {
            Some(slot) => slot.held.is_some(),
            None => false,
        }
    }

    /// The context held under the identity `id`, if there is one.
    pub fn context(&self, id: usize) -> (c: Option<&H>)
        ensures
            c == if self@.live(id as int) {
                Some(&self@.contexts[id as int].held->0)
            } else {
                None
            },
    {
        match self.registry.slot(id) {
            Some(slot) => slot.held.as_ref(),
            None => None,
        }
    }

    /// The context of the standing objective, if there is one.
    pub fn objective(&self) -> (o: Option<usize>)
        ensures
            o == self@.objective(),
    {
        let found = self.registry.holders(Some(Role::Objective));
        if found.len() > 0 {
            Some(found[found.len() - 1])
        } else {
            None
        }
    }

    /// The contexts of the standing constraints of type `ty`, oldest first.
    pub fn constraints(&self, ty: ConstraintType) -> (ids: Vec<usize>)
        ensures
            ids@ == self@.constraints(ty),
    {
        self.registry.holders(Some(Role::Constraint(ty)))
    }

    /// The arguments with which a handle is to be asked for: the algorithm
    /// and the number of variables. There are none when the problem has been
    /// given a handle before, or when the number of variables is more than
    /// the optimizer can be told.
    pub fn create(&self) -> (c: Option<(c_int, c_uint)>)
        ensures
            c == if self@.phase is Uninitialized && self@.vars <= c_uint::MAX {
                Some((self@.algorithm as c_int, self@.vars as c_uint))
            } else {
                None
            },
    {
        match self.phase {
            Phase::Uninitialized => {
                if self.vars <= 0xffff_ffff {
                    Some((self.algorithm, self.vars as c_uint))
                } else {
                    None
                }
            },
            _ => None,
        }
    }

    /// Records whether the optimizer handed out a handle. A problem that was
    /// waiting for one owns it from now on; a problem that was refused stays
    /// without. In every other phase nothing changes.
    pub fn created(&mut self, obtained: bool)
        ensures
            final(self)@ == if old(self)@.phase is Uninitialized && obtained {
                old(self)@.at(Phase::Created)
            } else {
                old(self)@
            },
            old(self)@.wf() ==> final(self)@.wf(),
    {
        if obtained {
            match self.phase {
                Phase::Uninitialized => {
                    self.phase = Phase::Created;
                },
                _ => {},
            }
        }
    }

    /// The call that registers an objective for the direction `obj_type`. A
    /// problem that cannot be configured rejects the operation.
    pub fn set_objective<R>(&self, obj_type: ObjectiveType) -> (r: Result<Registration<R>, NLError>)
        ensures
            self@.configurable() ==> r == Ok::<Registration<R>, NLError>(obj_type.call_of()),
            !self@.configurable() ==> r == Err::<Registration<R>, NLError>(NLError::InvalidArgs),
    {
        if !self.configurable() {
            return Err(NLError::InvalidArgs);
        }
        Ok(
            match obj_type {
                ObjectiveType::Minimize => Registration::SetMinObjective,
                ObjectiveType::Maximize => Registration::SetMaxObjective,
            },
        )
    }

    /// The call that sets one lower bound for each variable. The operation
    /// is rejected unless `lb` holds exactly one value for each variable and
    /// the problem can be configured.
    pub fn set_lower_bounds<'a, R>(&self, lb: &'a [R]) -> (r: Result<Call<'a, R>, NLError>)
        ensures
            self@.configurable() && lb@.len() == self@.vars ==> r == Ok::<Call<'a, R>, NLError>(
                Call::SetLowerBounds(lb),
            ),
            !(self@.configurable() && lb@.len() == self@.vars) ==> r == Err::<
                Call<'a, R>,
                NLError,
            >(NLError::InvalidArgs),
    {
        if self.configurable() && lb.len() == self.vars {
            Ok(Call::SetLowerBounds(lb))
        } else {
            Err(NLError::InvalidArgs)
        }
    }

    /// The call that sets one upper bound for each variable. The operation
    /// is rejected unless `ub` holds exactly one value for each variable and
    /// the problem can be configured.
    pub fn set_upper_bounds<'a, R>(&self, ub: &'a [R]) -> (r: Result<Call<'a, R>, NLError>)
        ensures
            self@.configurable() && ub@.len() == self@.vars ==> r == Ok::<Call<'a, R>, NLError>(
                Call::SetUpperBounds(ub),
            ),
            !(self@.configurable() && ub@.len() == self@.vars) ==> r == Err::<
                Call<'a, R>,
                NLError,
            >(NLError::InvalidArgs),
    {
        if self.configurable() && ub.len() == self.vars {
            Ok(Call::SetUpperBounds(ub))
        } else {
            Err(NLError::InvalidArgs)
        }
    }

    /// The call that sets the lower bound `lb` for all variables. A problem
    /// that cannot be configured rejects the operation.
    pub fn set_lower_bound<'a, R>(&self, lb: R) -> (r: Result<Call<'a, R>, NLError>)
        ensures
            self@.configurable() ==> r == Ok::<Call<'a, R>, NLError>(Call::SetLowerBounds1(lb)),
            !self@.configurable() ==> r == Err::<Call<'a, R>, NLError>(NLError::InvalidArgs),
    {
        if self.configurable() {
            Ok(Call::SetLowerBounds1(lb))
        } else {
            Err(NLError::InvalidArgs)
        }
    }

    /// The call that sets the upper bound `ub` for all variables. A problem
    /// that cannot be configured rejects the operation.
    pub fn set_upper_bound<'a, R>(&self, ub: R) -> (r: Result<Call<'a, R>, NLError>)
        ensures
            self@.configurable() ==> r == Ok::<Call<'a, R>, NLError>(Call::SetUpperBounds1(ub)),
            !self@.configurable() ==> r == Err::<Call<'a, R>, NLError>(NLError::InvalidArgs),
    {
        if self.configurable() {
            Ok(Call::SetUpperBounds1(ub))
        } else {
            Err(NLError::InvalidArgs)
        }
    }

    /// The call that registers a constraint of type `ty` with the given
    /// tolerance. A problem that cannot be configured rejects the operation.
    pub fn add_constraint<R>(&self, ty: ConstraintType, tolerance: R) -> (r: Result<
        Registration<R>,
        NLError,
    >)
        ensures
            self@.configurable() ==> r == Ok::<Registration<R>, NLError>(ty.adding(tolerance)),
            !self@.configurable() ==> r == Err::<Registration<R>, NLError>(NLError::InvalidArgs),
    {
        if !self.configurable() {
            return Err(NLError::InvalidArgs);
        }
        Ok(
            match ty {
                ConstraintType::Inequality => Registration::AddInequalityConstraint(tolerance),
                ConstraintType::Equality => Registration::AddEqualityConstraint(tolerance),
            },
        )
    }

    /// The call that drops all constraints of type `ty`, whether or not
    /// there are any. A problem that cannot be configured rejects the
    /// operation.
    pub fn remove_constraints<'a, R>(&self, ty: ConstraintType) -> (r: Result<Call<'a, R>, NLError>)
        ensures
            self@.configurable() ==> r == Ok::<Call<'a, R>, NLError>(ty.removing()),
            !self@.configurable() ==> r == Err::<Call<'a, R>, NLError>(NLError::InvalidArgs),
    {
        if !self.configurable() {
            return Err(NLError::InvalidArgs);
        }
        Ok(
            match ty {
                ConstraintType::Inequality => Call::RemoveInequalityConstraints,
                ConstraintType::Equality => Call::RemoveEqualityConstraints,
            },
        )
    }

    /// The call that sets the stopping criterion `cnd`. The operation is
    /// rejected when the problem cannot be configured, and when a criterion
    /// that holds one value for each variable holds another number of them.
    pub fn set_stop<'a, R>(&self, cnd: StopCond<'a, R>) -> (r: Result<Call<'a, R>, NLError>)
        ensures
            self@.configurable() && cnd.fits(self@.vars) ==> r == Ok::<Call<'a, R>, NLError>(
                cnd.call_of(),
            ),
            !(self@.configurable() && cnd.fits(self@.vars)) ==> r == Err::<Call<'a, R>, NLError>(
                NLError::InvalidArgs,
            ),
    {
        if !self.configurable() {
            return Err(NLError::InvalidArgs);
        }
        match cnd {
            StopCond::StopVal(v) => Ok(Call::SetStopval(v)),
            StopCond::MaxEvals(v) => Ok(Call::SetMaxeval(wrap(v))),
            StopCond::MaxTime(v) => Ok(Call::SetMaxtime(v)),
            StopCond::FTolRel(v) => Ok(Call::SetFtolRel(v)),
            StopCond::FTolAbs(v) => Ok(Call::SetFtolAbs(v)),
            StopCond::XTolRel(v) => {
                if v.len() == self.vars {
                    Ok(Call::SetXtolRel(v))
                } else {
                    Err(NLError::InvalidArgs)
                }
            },
            StopCond::XTolAbs(v) => {
                if v.len() == self.vars {
                    Ok(Call::SetXtolAbs(v))
                } else {
                    Err(NLError::InvalidArgs)
                }
            },
            StopCond::XTolAbs1(v) => Ok(Call::SetXtolAbs1(v)),
        }
    }

    /// The call that asks a search to end early. It is in order whenever the
    /// problem owns a handle, a running search included; a problem without a
    /// handle rejects it.
    pub fn force_stop<'a, R>(&self) -> (r: Result<Call<'a, R>, NLError>)
        ensures
            self@.has_handle() ==> r == Ok::<Call<'a, R>, NLError>(Call::ForceStop),
            !self@.has_handle() ==> r == Err::<Call<'a, R>, NLError>(NLError::InvalidArgs),
    {
        if self.has_handle() {
            Ok(Call::ForceStop)
        } else {
            Err(NLError::InvalidArgs)
        }
    }

    /// Starts a search from `x`: returns the working buffer that the
    /// optimizer is to be given, a copy of `x` which it will overwrite, and
    /// moves the problem to `Optimizing`. The operation is rejected, and
    /// nothing changes, unless `x` holds exactly one value for each variable
    /// and the problem can be configured.
    pub fn optimize<R: Copy>(&mut self, x: &[R]) -> (r: Result<Vec<R>, NLError>)
        ensures
            old(self)@.configurable() && x@.len() == old(self)@.vars ==> (r matches Ok(buffer)
                && buffer@ == x@) && final(self)@ == old(self)@.at(Phase::Optimizing),
            !(old(self)@.configurable() && x@.len() == old(self)@.vars) ==> r == Err::<
                Vec<R>,
                NLError,
            >(NLError::InvalidArgs) && final(self)@ == old(self)@,
            old(self)@.wf() ==> final(self)@.wf(),
    {
        if self.configurable() && x.len() == self.vars {
            let buffer = copy_of(x);
            self.phase = Phase::Optimizing;
            Ok(buffer)
        } else {
            Err(NLError::InvalidArgs)
        }
    }

    /// Takes in the answer to a search: the status code, the working buffer
    /// as the optimizer left it, and the objective's final value. On a code
    /// of success all three are handed on, the code typed; on any other code
    /// only the failure is. A problem that was `Optimizing` can be
    /// configured again.
    pub fn finish<R>(&mut self, code: c_int, x: Vec<R>, value: R) -> (r: Result<
        (NLResult, Vec<R>, R),
        NLError,
    >)
        ensures
            r == match status_of(code as int) {
                Ok(reason) => Ok::<(NLResult, Vec<R>, R), NLError>((reason, x, value)),
                Err(e) => Err::<(NLResult, Vec<R>, R), NLError>(e),
            },
            final(self)@ == old(self)@.finished(),
            old(self)@.wf() ==> final(self)@.wf(),
    {
        match self.phase {
            Phase::Optimizing => {
                self.phase = Phase::Configured;
            },
            _ => {},
        }
        match to_res(code) {
            Ok(reason) => Ok((reason, x, value)),
            Err(e) => Err(e),
        }
    }

    /// Takes in the answer `code` to `call`. The code is typed. If it is one
    /// of success and the problem can be configured, the record follows the
    /// call: a removing call retires every constraint of its type and hands
    /// their contexts back. In every other case the record stays as it is.
    pub fn settle<R>(&mut self, call: &Call<'_, R>, code: c_int) -> (s: Settlement<H>)
        ensures
            s.result == status_of(code as int),
            s.registered is None,
            s.released@ == old(self)@.retiring(call.effect_of(), code as int),
            final(self)@ == old(self)@.settled(call.effect_of(), code as int),
            old(self)@.wf() ==> final(self)@.wf(),
    {
        let result = to_res(code);
        if !self.configurable() || result.is_err() {
            return Settlement { result, registered: None, released: Vec::new() };
        }
        match call.effect() {
            Effect::Clear(ty) => {
                let released = self.registry.clear(Some(Role::Constraint(ty)));
                self.phase = Phase::Configured;
                Settlement { result, registered: None, released }
            },
            Effect::Adjust => {
                self.phase = Phase::Configured;
                Settlement { result, registered: None, released: Vec::new() }
            },
            Effect::Signal => Settlement { result, registered: None, released: Vec::new() },
        }
    }

    /// Takes in the answer `code` to `registration`, the call that brought
    /// `context` along. The code is typed. If it is one of success and the
    /// problem can be configured, the registration stands: the record takes
    /// the context over under the next identity, and a new objective retires
    /// the one before it, whose context is handed back. In every other case
    /// the registration does not stand: the record stays as it is and hands
    /// `context` back.
    pub fn register<R>(&mut self, registration: &Registration<R>, code: c_int, context: H) -> (s:
        Settlement<H>)
        ensures
            s.result == status_of(code as int),
            s.registered == old(self)@.registering(code as int),
            s.released@ == old(self)@.returning(registration.role_of(), code as int, context),
            final(self)@ == old(self)@.registered(registration.role_of(), code as int, context),
            old(self)@.wf() ==> final(self)@.wf(),
    {
        let result = to_res(code);
        if !self.configurable() || result.is_err() {
            let mut released: Vec<H> = Vec::new();
            released.push(context);
            return Settlement { result, registered: None, released };
        }
        let (id, released) = self.registry.install(registration.role(), context);
        self.phase = Phase::Configured;
        proof {
            self.registry.lemma_bounded();
        }
        Settlement { result, registered: Some(id), released }
    }

    /// Gives up the handle. The first time, every context that the record
    /// holds is handed back, and the optimizer is to destroy the handle if
    /// the problem owns one. From then on the problem is `Terminated`: it
    /// rejects every operation, and giving up the handle again asks for
    /// nothing.
    pub fn destroy(&mut self) -> (t: Teardown<H>)
        ensures
            t.handle == old(self)@.has_handle(),
            t.released@ == old(self)@.releasing(),
            final(self)@ == old(self)@.destroyed(),
            final(self)@.phase is Terminated,
            old(self)@.wf() ==> final(self)@.wf(),
    {
        let handle = self.has_handle();
        match self.phase {
            Phase::Terminated => Teardown { handle, released: Vec::new() },
            _ => {
                let released = self.registry.clear(None);
                self.phase = Phase::Terminated;
                Teardown { handle, released }
            },
        }
    }
}

/// A vector with the values of `x`, in order.
fn copy_of<R: Copy>(x: &[R]) -> (v: Vec<R>)
    ensures
        v@ == x@,
{
    let mut v: Vec<R> = Vec::new();
    let mut i: usize = 0;
    while i < x.len()
        invariant
            i <= x@.len(),
            v@ == x@.take(i as int),
        decreases x.len() - i,
    {
        v.push(x[i]);
        i += 1;
    }
    assert(x@.take(x@.len() as int) == x@);
    v
}

/// The count of evaluations as the optimizer's signed integer.
fn wrap(v: u32) -> (w: c_int)
    ensures
        w == wrapped(v),
{
    if v <= 0x7fff_ffff {
        v as c_int
    } else {
        let high: u32 = v - 0x8000_0000;
        (high as c_int) + c_int::MIN
    }
}

} // verus!
