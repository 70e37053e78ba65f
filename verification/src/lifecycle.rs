//! What holds of a problem's record over its whole life.
//!
//! The statements here are about [`ProblemView`], the mathematical content of
//! a problem, and about the transitions that [`Problem`](crate::Problem)
//! makes on it. They say when closure contexts come to be held and when they
//! are handed back, that none is ever lost or handed back twice, that a
//! replaced objective is gone for good, that removing what is not there
//! changes nothing, and that a search or a missing handle freezes the
//! registrations.

use crate::foreign::Effect;
use crate::problem::ProblemView;
use crate::registry::{cleared, held, holders, installed, selects};
use crate::registry::{
    lemma_cleared_conserves, lemma_cleared_well_formed, lemma_holders, lemma_holders_cleared,
    lemma_holders_empty, lemma_holders_push, lemma_installed_conserves,
    lemma_installed_well_formed, lemma_nothing_held, lemma_single_objective,
};
use crate::registry::{ConstraintType, Role, Slot};
use crate::status::status_of;
use vstd::multiset::Multiset;
use vstd::prelude::*;
use vstd::seq_lib::to_multiset_build;

verus! {

/// Removing the constraints of a type of which none is registered is without
/// effect: whatever the optimizer answers, every slot of the arena stays as
/// it was and no context is handed back.
pub proof fn lemma_remove_without_constraints<H>(s: ProblemView<H>, ty: ConstraintType, code: int)
    requires
        s.constraints(ty).len() == 0,
    ensures
        s.settled(Effect::Clear(ty), code).contexts == s.contexts,
        s.retiring(Effect::Clear(ty), code) == Seq::<H>::empty(),
{
    lemma_holders_empty(s.contexts, Some(Role::Constraint(ty)));
    assert(held(s.contexts, Some(Role::Constraint(ty))) =~= Seq::<H>::empty());
}

/// Once the constraints of a type have been removed none of that type is
/// left, the constraints of the other type and the objective stand as before,
/// and removing the same type again is without effect.
pub proof fn lemma_remove_is_idempotent<H>(
    s: ProblemView<H>,
    ty: ConstraintType,
    code: int,
    again: int,
)
    requires
        s.takes_effect(code),
    ensures
        ({
            let once = s.settled(Effect::Clear(ty), code);
            &&& once.constraints(ty) == Seq::<usize>::empty()
            &&& forall|other: ConstraintType|
                other != ty ==> #[trigger] once.constraints(other) == s.constraints(other)
            &&& once.objective() == s.objective()
            &&& once.settled(Effect::Clear(ty), again).contexts == once.contexts
            &&& once.retiring(Effect::Clear(ty), again) == Seq::<H>::empty()
        }),
{
    let which = Some(Role::Constraint(ty));
    let once = s.settled(Effect::Clear(ty), code);
    lemma_holders_cleared(s.contexts, which, which);
    lemma_holders_cleared(s.contexts, which, Some(Role::Objective));
    assert forall|other: ConstraintType| other != ty implies #[trigger] once.constraints(other)
        == s.constraints(other) by {
        lemma_holders_cleared(s.contexts, which, Some(Role::Constraint(other)));
    }
    lemma_remove_without_constraints(once, ty, again);
}

/// Every accepted registration has exactly one closure context. An answer
/// that makes a registration stand adds one slot to the arena, which holds
/// the context that was brought, in the role of the call, under the identity
/// that is reported. Every other answer adds no slot and hands the context
/// back.
pub proof fn lemma_one_context_per_registration<H>(
    s: ProblemView<H>,
    role: Role,
    code: int,
    context: H,
)
    ensures
        s.registering(code) is Some <==> s.takes_effect(code),
        s.takes_effect(code) ==> s.registering(code) == Some(s.contexts.len() as usize)
            && s.registered(role, code, context).contexts.len() == s.contexts.len() + 1
            && s.registered(role, code, context).contexts.last() == (Slot {
            role,
            held: Some(context),
        }),
        !s.takes_effect(code) ==> s.registered(role, code, context) == s && s.returning(
            role,
            code,
            context,
        ) == seq![context],
{
}

/// An accepted objective is the only objective. The context that came with
/// it is held under the next identity and is the standing objective; the
/// context of whatever objective stood before is handed back by that very
/// answer and is held no longer; the constraints stand as before.
pub proof fn lemma_objective_installed<H>(s: ProblemView<H>, code: int, context: H)
    requires
        s.wf(),
        s.contexts.len() < usize::MAX,
        s.takes_effect(code),
    ensures
        ({
            let after = s.registered(Role::Objective, code, context);
            let id = s.contexts.len() as usize;
            &&& after.objective() == Some(id)
            &&& holders(after.contexts, Some(Role::Objective)) == seq![id]
            &&& held(after.contexts, Some(Role::Objective)) == seq![context]
            &&& after.contexts[id as int].held == Some(context)
            &&& s.objective() matches Some(before) ==> s.returning(Role::Objective, code, context)
                == seq![s.contexts[before as int].held->0] && !after.live(before as int)
            &&& s.objective() is None ==> s.returning(Role::Objective, code, context) == Seq::<
                H,
            >::empty()
            &&& forall|ty: ConstraintType| #[trigger] after.constraints(ty) == s.constraints(ty)
        }),
{
    let objective = Some(Role::Objective);
    let after = s.registered(Role::Objective, code, context);
    let kept = cleared(s.contexts, objective);
    let fresh = Slot { role: Role::Objective, held: Some(context) };
    lemma_holders_cleared(s.contexts, objective, objective);
    lemma_holders_push(kept, fresh, objective);
    assert(holders(kept.push(fresh), objective) == seq![s.contexts.len() as usize]);
    assert(held(kept.push(fresh), objective) == seq![context]);
    lemma_single_objective(s.contexts);
    lemma_holders(s.contexts, objective);
    let found = holders(s.contexts, objective);
    if found.len() > 0 {
        assert(found == seq![found.last()]);
        assert(held(s.contexts, objective) == seq![s.contexts[found[0] as int].held->0]);
        assert(selects(objective, s.contexts[found[0] as int]));
        assert(kept.push(fresh)[found[0] as int] == kept[found[0] as int]);
    } else {
        assert(held(s.contexts, objective) =~= Seq::<H>::empty());
    }
    assert forall|ty: ConstraintType| #[trigger] after.constraints(ty) == s.constraints(ty) by {
        lemma_holders_cleared(s.contexts, objective, Some(Role::Constraint(ty)));
        lemma_holders_push(kept, fresh, Some(Role::Constraint(ty)));
    }
}

/// Replacing an objective supersedes the one before it. When two objectives
/// are accepted one after the other, the second is the standing objective
/// and the only one, the context of the first is handed back by the answer
/// that accepts the second, and nothing is held under its identity
/// afterwards.
pub proof fn lemma_objective_superseded<H>(
    s: ProblemView<H>,
    accepted: int,
    first: H,
    replaced: int,
    second: H,
)
    requires
        s.wf(),
        s.contexts.len() + 1 < usize::MAX,
        s.takes_effect(accepted),
        status_of(replaced) is Ok,
    ensures
        ({
            let between = s.registered(Role::Objective, accepted, first);
            let after = between.registered(Role::Objective, replaced, second);
            let old_id = s.contexts.len() as usize;
            let new_id = (s.contexts.len() + 1) as usize;
            &&& s.registering(accepted) == Some(old_id)
            &&& between.objective() == Some(old_id)
            &&& between.registering(replaced) == Some(new_id)
            &&& between.returning(Role::Objective, replaced, second) == seq![first]
            &&& after.objective() == Some(new_id)
            &&& holders(after.contexts, Some(Role::Objective)) == seq![new_id]
            &&& held(after.contexts, Some(Role::Objective)) == seq![second]
            &&& !after.live(old_id as int)
        }),
{
    let between = s.registered(Role::Objective, accepted, first);
    lemma_objective_installed(s, accepted, first);
    lemma_registered_wf(s, Role::Objective, accepted, first);
    lemma_objective_installed(between, replaced, second);
}

/// Taking in the answer to a registering call keeps a valid record valid, as
/// long as the arena has room for one more identity.
pub proof fn lemma_registered_wf<H>(s: ProblemView<H>, role: Role, code: int, context: H)
    requires
        s.wf(),
        s.contexts.len() < usize::MAX,
    ensures
        s.registered(role, code, context).wf(),
{
    lemma_installed_well_formed(s.contexts, role, context);
}

/// Taking in the answer to any other call keeps a valid record valid.
pub proof fn lemma_settled_wf<H>(s: ProblemView<H>, effect: Effect, code: int)
    requires
        s.wf(),
    ensures
        s.settled(effect, code).wf(),
{
    match effect {
        Effect::Clear(ty) => {
            lemma_cleared_well_formed(s.contexts, Some(Role::Constraint(ty)));
        },
        _ => {},
    }
}

/// A constraint's context is held exactly as long as the constraint stands.
/// The answer to a call that registers nothing never changes the length of
/// the arena or the role of a slot, and never fills a slot. A slot that
/// holds a context goes on holding the same one, unless the answer takes
/// effect and the call clears the constraints of the slot's type; then the
/// slot is empty.
pub proof fn lemma_settled_lifetime<H>(s: ProblemView<H>, effect: Effect, code: int, id: int)
    requires
        0 <= id < s.contexts.len(),
    ensures
        ({
            let after = s.settled(effect, code);
            let ended = s.takes_effect(code) && effect.ends(s.contexts[id].role);
            &&& after.contexts.len() == s.contexts.len()
            &&& after.contexts[id].role == s.contexts[id].role
            &&& after.live(id) ==> s.live(id)
            &&& s.live(id) && !ended ==> after.contexts[id] == s.contexts[id]
            &&& s.live(id) && ended ==> !after.live(id)
        }),
{
}

/// An objective's context is held exactly as long as the objective stands.
/// The answer to a registering call never shortens the arena, never changes
/// the role of a slot handed out before, and never fills one. Such a slot
/// that holds a context goes on holding the same one, unless the answer
/// takes effect and both the slot and the call are for an objective; then
/// the slot is empty.
pub proof fn lemma_registered_lifetime<H>(
    s: ProblemView<H>,
    role: Role,
    code: int,
    context: H,
    id: int,
)
    requires
        0 <= id < s.contexts.len(),
    ensures
        ({
            let after = s.registered(role, code, context);
            let ended = s.takes_effect(code) && role is Objective && s.contexts[id].role
                is Objective;
            &&& after.contexts.len() >= s.contexts.len()
            &&& after.contexts[id].role == s.contexts[id].role
            &&& after.live(id) ==> s.live(id)
            &&& s.live(id) && !ended ==> after.contexts[id] == s.contexts[id]
            &&& s.live(id) && ended ==> !after.live(id)
        }),
{
    if s.takes_effect(code) {
        let kept = if role is Objective {
            cleared(s.contexts, Some(Role::Objective))
        } else {
            s.contexts
        };
        assert(installed(s.contexts, role, context)[id] == kept[id]);
    }
}

/// No context is lost and none is handed back twice. After the answer to a
/// call that registers nothing, the contexts that the record holds together
/// with those it hands back are the contexts it held before, each as often
/// as before.
pub proof fn lemma_settled_conserves<H>(s: ProblemView<H>, effect: Effect, code: int)
    ensures
        s.settled(effect, code).all_held().to_multiset().add(
            s.retiring(effect, code).to_multiset(),
        ) == s.all_held().to_multiset(),
{
    lemma_nothing_held::<H>();
    if s.takes_effect(code) {
        match effect {
            Effect::Clear(ty) => {
                lemma_cleared_conserves(s.contexts, Some(Role::Constraint(ty)));
            },
            _ => {},
        }
    }
}

/// No context is lost and none is handed back twice. After the answer to a
/// registering call, the contexts that the record holds together with those
/// it hands back are the contexts it held before and the one that the call
/// brought along, each as often as before.
pub proof fn lemma_registered_conserves<H>(s: ProblemView<H>, role: Role, code: int, context: H)
    ensures
        s.registered(role, code, context).all_held().to_multiset().add(
            s.returning(role, code, context).to_multiset(),
        ) == s.all_held().to_multiset().insert(context),
{
    if s.takes_effect(code) {
        lemma_installed_conserves(s.contexts, role, context);
    } else {
        let before = s.all_held().to_multiset();
        assert(seq![context] =~= Seq::<H>::empty().push(context));
        to_multiset_build(Seq::<H>::empty(), context);
        lemma_nothing_held::<H>();
        assert(before.add(Multiset::<H>::empty().insert(context)) =~= before.insert(context));
    }
}

/// While a search is under way, and whenever the problem owns no handle, no
/// answer changes the record: nothing is registered, and nothing is handed
/// back but a context that was brought along.
pub proof fn lemma_frozen_unless_configurable<H>(
    s: ProblemView<H>,
    effect: Effect,
    role: Role,
    code: int,
    context: H,
)
    requires
        !s.configurable(),
    ensures
        s.settled(effect, code) == s,
        s.retiring(effect, code) == Seq::<H>::empty(),
        s.registered(role, code, context) == s,
        s.registering(code) is None,
        s.returning(role, code, context) == seq![context],
{
}

/// Giving up the handle ends every registration. Afterwards the record is
/// valid and `Terminated` and holds no context; the contexts handed back are
/// exactly those it held, in order; and giving up the handle a second time
/// changes nothing and hands nothing back.
pub proof fn lemma_destroyed<H>(s: ProblemView<H>, id: int)
    requires
        s.wf(),
    ensures
        s.destroyed().wf(),
        s.destroyed().phase is Terminated,
        !s.destroyed().has_handle(),
        !s.destroyed().live(id),
        s.destroyed().all_held() == Seq::<H>::empty(),
        s.releasing() == s.all_held(),
        s.destroyed().destroyed() == s.destroyed(),
        s.destroyed().releasing() == Seq::<H>::empty(),
{
    lemma_cleared_well_formed(s.contexts, None);
    lemma_holders_cleared(s.contexts, None, None);
    if s.phase is Terminated {
        lemma_holders_empty(s.contexts, None);
        assert(held(s.contexts, None) =~= Seq::<H>::empty());
    }
}

} // verus!
