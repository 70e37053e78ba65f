//! The registry of closure contexts.
//!
//! Each objective or constraint that the optimizer accepts comes with a
//! closure context: the heap-resident bundle that the optimizer refers to by
//! address for as long as the registration lasts. The registry owns every
//! such context on behalf of the problem. It keeps each in a slot of an
//! arena; the slot's index is the context's identity, handed out once and
//! never again. A slot holds its context from the moment the registration is
//! accepted until the registration is replaced or removed, or the problem is
//! destroyed. At that moment, and at no other, the registry hands the context
//! back, so that its storage can be released.
//!
//! The registry never looks inside a context. `H` is whatever stands for one:
//! in practice the address that the optimizer was given.

use vstd::multiset::Multiset;
use vstd::prelude::*;
use vstd::seq_lib::to_multiset_build;

verus! {

/// The two kinds of constraint the optimizer keeps apart.
#[derive(Debug, PartialEq, Eq, Copy, Clone, Structural)]
pub enum ConstraintType {
    Inequality,
    Equality,
}

/// What a closure context was registered as.
#[derive(Debug, PartialEq, Eq, Copy, Clone, Structural)]
pub enum Role {
    Objective,
    Constraint(ConstraintType),
}

/// One entry of the arena: the role a context was registered in, and the
/// context itself for as long as the registration stands.
#[derive(Debug, PartialEq, Eq)]
pub struct Slot<H> {
    pub role: Role,
    pub held: Option<H>,
}

/// Whether `slot` holds a context and, where `which` names a role, has that
/// role.
pub open spec fn selects<H>(which: Option<Role>, slot: Slot<H>) -> bool {
    slot.held is Some && (which matches Some(role) ==> slot.role == role)
}

/// The identities of the slots that `which` selects, oldest first.
pub open spec fn holders<H>(slots: Seq<Slot<H>>, which: Option<Role>) -> Seq<usize>
    decreases slots.len(),
{
    if slots.len() == 0 {
        Seq::empty()
    } else {
        let earlier = holders(slots.drop_last(), which);
        if selects(which, slots.last()) {
            earlier.push((slots.len() - 1) as usize)
        } else {
            earlier
        }
    }
}

/// The contexts held by the slots that `which` selects, oldest first.
pub open spec fn held<H>(slots: Seq<Slot<H>>, which: Option<Role>) -> Seq<H>
    decreases slots.len(),
{
    if slots.len() == 0 {
        Seq::empty()
    } else {
        let earlier = held(slots.drop_last(), which);
        if selects(which, slots.last()) {
            earlier.push(slots.last().held->0)
        } else {
            earlier
        }
    }
}

/// The arena after every slot that `which` selects has given up its context.
pub open spec fn cleared<H>(slots: Seq<Slot<H>>, which: Option<Role>) -> Seq<Slot<H>> {
    Seq::new(
        slots.len(),
        |i: int|
            if selects(which, slots[i]) {
                Slot { role: slots[i].role, held: None }
            } else {
                slots[i]
            },
    )
}

/// The contexts that a new registration in `role` displaces: that of the
/// standing objective when a new objective is installed, none otherwise.
pub open spec fn displaced<H>(slots: Seq<Slot<H>>, role: Role) -> Seq<H> {
    if role is Objective {
        held(slots, Some(Role::Objective))
    } else {
        Seq::empty()
    }
}

/// The arena after a registration in `role` has been accepted: what it
/// displaces has given up its context, and a new slot holds `context`.
pub open spec fn installed<H>(slots: Seq<Slot<H>>, role: Role, context: H) -> Seq<Slot<H>> {
    let kept = if role is Objective {
        cleared(slots, Some(Role::Objective))
    } else {
        slots
    };
    kept.push(Slot { role, held: Some(context) })
}

/// An arena is well formed when at most one slot holds an objective.
pub open spec fn well_formed<H>(slots: Seq<Slot<H>>) -> bool {
    forall|i: int, j: int|
        0 <= i < slots.len() && 0 <= j < slots.len() && selects(
            Some(Role::Objective),
            #[trigger] slots[i],
        ) && selects(Some(Role::Objective), #[trigger] slots[j]) ==> i == j
}

/// In an arena whose identities fit the machine's word, `holders` lists
/// exactly the selected slots, each once, in rising order, and `held` lists
/// their contexts in the same order.
pub proof fn lemma_holders<H>(slots: Seq<Slot<H>>, which: Option<Role>)
    requires
        slots.len() <= usize::MAX,
    ensures
        holders(slots, which).len() <= slots.len(),
        held(slots, which).len() == holders(slots, which).len(),
        forall|k: int|
            0 <= k < holders(slots, which).len() ==> (#[trigger] holders(slots, which)[k])
                < slots.len() && selects(which, slots[holders(slots, which)[k] as int]),
        forall|k: int|
            0 <= k < holders(slots, which).len() ==> (#[trigger] held(slots, which)[k])
                == slots[holders(slots, which)[k] as int].held->0,
        forall|i: int|
            0 <= i < slots.len() && selects(which, #[trigger] slots[i]) ==> holders(
                slots,
                which,
            ).contains(i as usize),
        forall|a: int, b: int|
            0 <= a < b < holders(slots, which).len() ==> (#[trigger] holders(slots, which)[a])
                < (#[trigger] holders(slots, which)[b]),
    decreases slots.len(),
{
    if slots.len() > 0 {
        let front = slots.drop_last();
        let earlier = holders(front, which);
        let all = holders(slots, which);
        lemma_holders(front, which);
        assert forall|i: int|
            0 <= i < slots.len() && selects(which, #[trigger] slots[i]) implies all.contains(
            i as usize,
        ) by {
            if i < front.len() {
                assert(front[i] == slots[i]);
                assert(earlier.contains(i as usize));
                let k = choose|k: int| 0 <= k < earlier.len() && earlier[k] == i as usize;
                assert(all[k] == i as usize);
            } else {
                assert(all[all.len() - 1] == i as usize);
            }
        }
        assert forall|k: int| 0 <= k < all.len() implies (#[trigger] all[k]) < slots.len()
            && selects(which, slots[all[k] as int]) by {
            if k < earlier.len() {
                assert(all[k] == earlier[k]);
                assert(front[earlier[k] as int] == slots[earlier[k] as int]);
            }
        }
        assert forall|k: int| 0 <= k < all.len() implies (#[trigger] held(slots, which)[k])
            == slots[all[k] as int].held->0 by {
            if k < earlier.len() {
                assert(all[k] == earlier[k]);
                assert(held(slots, which)[k] == held(front, which)[k]);
                assert(front[earlier[k] as int] == slots[earlier[k] as int]);
            }
        }
        assert forall|a: int, b: int| 0 <= a < b < all.len() implies (#[trigger] all[a]) < (
        #[trigger] all[b]) by {
            assert(all[a] == earlier[a]);
            if b < earlier.len() {
                assert(all[b] == earlier[b]);
            }
        }
    }
}

/// Appending a slot appends its identity and its context to the holders that
/// select it and leaves all other holders as they were.
pub proof fn lemma_holders_push<H>(slots: Seq<Slot<H>>, slot: Slot<H>, which: Option<Role>)
    ensures
        holders(slots.push(slot), which) == if selects(which, slot) {
            holders(slots, which).push(slots.len() as usize)
        } else {
            holders(slots, which)
        },
        held(slots.push(slot), which) == if selects(which, slot) {
            held(slots, which).push(slot.held->0)
        } else {
            held(slots, which)
        },
{
    assert(slots.push(slot).drop_last() == slots);
}

/// No slot is selected exactly when `holders` is empty, and then `held` is
/// empty too and clearing the selected slots changes nothing.
pub proof fn lemma_holders_empty<H>(slots: Seq<Slot<H>>, which: Option<Role>)
    ensures
        holders(slots, which).len() == 0 <==> forall|i: int|
            0 <= i < slots.len() ==> !selects(which, #[trigger] slots[i]),
        holders(slots, which).len() == 0 <==> held(slots, which).len() == 0,
        holders(slots, which).len() == 0 ==> cleared(slots, which) == slots,
    decreases slots.len(),
{
    if slots.len() > 0 {
        let front = slots.drop_last();
        lemma_holders_empty(front, which);
        if holders(slots, which).len() == 0 {
            assert forall|i: int| 0 <= i < slots.len() implies !selects(
                which,
                #[trigger] slots[i],
            ) by {
                if i < front.len() {
                    assert(front[i] == slots[i]);
                }
            }
        } else if !selects(which, slots.last()) {
            let i = choose|i: int| 0 <= i < front.len() && selects(which, #[trigger] front[i]);
            assert(slots[i] == front[i]);
        }
    }
    if holders(slots, which).len() == 0 {
        assert(cleared(slots, which) =~= slots);
    }
}

/// After the slots that `which` selects have been cleared, none of them is
/// left among the holders, and the holders of every other role and their
/// contexts are as before.
pub proof fn lemma_holders_cleared<H>(
    slots: Seq<Slot<H>>,
    which: Option<Role>,
    asked: Option<Role>,
)
    ensures
        which is None || which == asked ==> holders(cleared(slots, which), asked)
            == Seq::<usize>::empty() && held(cleared(slots, which), asked) == Seq::<H>::empty(),
        which is Some && asked is Some && which != asked ==> holders(cleared(slots, which), asked)
            == holders(slots, asked) && held(cleared(slots, which), asked) == held(slots, asked),
    decreases slots.len(),
{
    if slots.len() > 0 {
        lemma_holders_cleared(slots.drop_last(), which, asked);
        assert(cleared(slots, which).drop_last() == cleared(slots.drop_last(), which));
    }
}

/// Clearing slots keeps an arena well formed.
pub proof fn lemma_cleared_well_formed<H>(slots: Seq<Slot<H>>, which: Option<Role>)
    requires
        well_formed(slots),
    ensures
        well_formed(cleared(slots, which)),
{
    let removed = cleared(slots, which);
    assert forall|i: int, j: int|
        0 <= i < removed.len() && 0 <= j < removed.len() && selects(
            Some(Role::Objective),
            #[trigger] removed[i],
        ) && selects(Some(Role::Objective), #[trigger] removed[j]) implies i == j by {
        assert(selects(Some(Role::Objective), slots[i]));
        assert(selects(Some(Role::Objective), slots[j]));
    }
}

/// Accepting a registration keeps an arena well formed.
pub proof fn lemma_installed_well_formed<H>(slots: Seq<Slot<H>>, role: Role, context: H)
    requires
        well_formed(slots),
    ensures
        well_formed(installed(slots, role, context)),
{
    let grown = installed(slots, role, context);
    let kept = if role is Objective {
        cleared(slots, Some(Role::Objective))
    } else {
        slots
    };
    assert forall|i: int, j: int|
        0 <= i < grown.len() && 0 <= j < grown.len() && selects(
            Some(Role::Objective),
            #[trigger] grown[i],
        ) && selects(Some(Role::Objective), #[trigger] grown[j]) implies i == j by {
        if i < kept.len() {
            assert(grown[i] == kept[i]);
            assert(selects(Some(Role::Objective), slots[i]));
        }
        if j < kept.len() {
            assert(grown[j] == kept[j]);
            assert(selects(Some(Role::Objective), slots[j]));
        }
    }
}

/// A well-formed arena holds at most one objective.
pub proof fn lemma_single_objective<H>(slots: Seq<Slot<H>>)
    requires
        well_formed(slots),
        slots.len() <= usize::MAX,
    ensures
        holders(slots, Some(Role::Objective)).len() <= 1,
        held(slots, Some(Role::Objective)).len() <= 1,
{
    let found = holders(slots, Some(Role::Objective));
    lemma_holders(slots, Some(Role::Objective));
    if found.len() >= 2 {
        assert(found[0] < found[1]);
        assert(selects(Some(Role::Objective), slots[found[0] as int]));
        assert(selects(Some(Role::Objective), slots[found[1] as int]));
    }
}

/// No contexts make the empty multiset, which adds nothing to another.
pub proof fn lemma_nothing_held<H>()
    ensures
        Seq::<H>::empty().to_multiset() == Multiset::<H>::empty(),
        forall|m: Multiset<H>| #[trigger] m.add(Multiset::<H>::empty()) == m,
{
    let none = Seq::<H>::empty();
    none.to_multiset_ensures();
    assert forall|h: H| none.to_multiset().count(h) == 0 by {
        assert(!none.contains(h));
    }
    assert(none.to_multiset() =~= Multiset::<H>::empty());
    assert forall|m: Multiset<H>| #[trigger] m.add(Multiset::<H>::empty()) == m by {
        assert(m.add(Multiset::<H>::empty()) =~= m);
    }
}

/// Clearing loses no context and makes none up: the contexts that the arena
/// still holds, together with those that the cleared slots held, are the
/// contexts it held before, each as often as before.
pub proof fn lemma_cleared_conserves<H>(slots: Seq<Slot<H>>, which: Option<Role>)
    ensures
        held(cleared(slots, which), None).to_multiset().add(held(slots, which).to_multiset())
            == held(slots, None).to_multiset(),
    decreases slots.len(),
{
    broadcast use to_multiset_build;

    if slots.len() == 0 {
        assert(cleared(slots, which) == slots);
        lemma_nothing_held::<H>();
    } else {
        let front = slots.drop_last();
        lemma_cleared_conserves(front, which);
        assert(cleared(slots, which).drop_last() == cleared(front, which));
        let kept = held(cleared(front, which), None).to_multiset();
        let gone = held(front, which).to_multiset();
        let all = held(front, None).to_multiset();
        if slots.last().held is Some {
            let h = slots.last().held->0;
            if selects(which, slots.last()) {
                assert(kept.add(gone.insert(h)) =~= kept.add(gone).insert(h));
            } else {
                assert(kept.insert(h).add(gone) =~= kept.add(gone).insert(h));
            }
        }
    }
}

/// Accepting a registration loses no context and makes none up: the contexts
/// that the arena holds afterwards, together with those displaced, are the
/// contexts it held before and the one that was brought.
pub proof fn lemma_installed_conserves<H>(slots: Seq<Slot<H>>, role: Role, context: H)
    ensures
        held(installed(slots, role, context), None).to_multiset().add(
            displaced(slots, role).to_multiset(),
        ) == held(slots, None).to_multiset().insert(context),
{
    broadcast use to_multiset_build;

    let fresh = Slot { role, held: Some(context) };
    if role is Objective {
        let kept = cleared(slots, Some(Role::Objective));
        lemma_cleared_conserves(slots, Some(Role::Objective));
        lemma_holders_push(kept, fresh, None);
        let stay = held(kept, None).to_multiset();
        let gone = held(slots, Some(Role::Objective)).to_multiset();
        assert(stay.insert(context).add(gone) =~= stay.add(gone).insert(context));
    } else {
        lemma_holders_push(slots, fresh, None);
        let stay = held(slots, None).to_multiset();
        lemma_nothing_held::<H>();
        assert(stay.insert(context).add(Multiset::<H>::empty()) =~= stay.insert(context));
    }
}

/// The arena of closure contexts of one problem.
#[derive(Debug)]
pub struct Registry<H> {
    slots: Vec<Slot<H>>,
}

impl<H> View for Registry<H> {
    type V = Seq<Slot<H>>;

    closed spec fn view(&self) -> Seq<Slot<H>> {
        self.slots@
    }
}

impl<H> Registry<H> {
    /// An arena without slots.
    pub fn new() -> (r: Registry<H>)
        ensures
            r@ == Seq::<Slot<H>>::empty(),
            well_formed(r@),
    {
        Registry { slots: Vec::new() }
    }

    /// The identities of an arena fit the machine's word.
    pub proof fn lemma_bounded(&self)
        ensures
            self@.len() <= usize::MAX,
    {
        assert(self.slots@.len() == self.slots.len());
    }

    /// The number of slots handed out so far, which is also the identity that
    /// the next registration receives.
    pub fn issued(&self) -> (n: usize)
        ensures
            n == self@.len(),
    {
        self.slots.len()
    }

    /// The slot of context `id`, if that identity has been handed out.
    pub fn slot(&self, id: usize) -> (s: Option<&Slot<H>>)
        ensures
            s == if id < self@.len() {
                Some(&self@[id as int])
            } else {
                None
            },
    {
        if id < self.slots.len() {
            Some(&self.slots[id])
        } else {
            None
        }
    }

    /// The identities of the slots that `which` selects, oldest first.
    pub fn holders(&self, which: Option<Role>) -> (ids: Vec<usize>)
        ensures
            ids@ == holders(self@, which),
    {
        let mut ids: Vec<usize> = Vec::new();
        let mut i: usize = 0;
        while i < self.slots.len()
            invariant
                i <= self.slots.len(),
                ids@ == holders(self.slots@.take(i as int), which),
            decreases self.slots.len() - i,
        {
            proof {
                assert(self.slots@.take(i + 1).drop_last() == self.slots@.take(i as int));
            }
            if self.slots[i].held.is_some() && match which {
                Some(role) => self.slots[i].role == role,
                None => true,
            } {
                ids.push(i);
            }
            i += 1;
        }
        proof {
            assert(self.slots@.take(i as int) == self.slots@);
        }
        ids
    }

    /// Takes the context out of every slot that `which` selects and hands
    /// these contexts back, oldest first. All other slots stay as they are.
    pub fn clear(&mut self, which: Option<Role>) -> (released: Vec<H>)
        ensures
            final(self)@ == cleared(old(self)@, which),
            released@ == held(old(self)@, which),
            well_formed(old(self)@) ==> well_formed(final(self)@),
    {
        let mut released: Vec<H> = Vec::new();
        let mut i: usize = 0;
        while i < self.slots.len()
            invariant
                i <= self.slots.len(),
                self.slots@.len() == old(self).slots@.len(),
                released@ == held(old(self).slots@.take(i as int), which),
                forall|k: int| 0 <= k < i ==> self.slots@[k] == cleared(old(self).slots@, which)[k],
                forall|k: int| i <= k < self.slots@.len() ==> self.slots@[k] == old(self).slots@[k],
            decreases self.slots.len() - i,
        {
            proof {
                assert(old(self).slots@.take(i + 1).drop_last() == old(self).slots@.take(i as int));
            }
            if self.slots[i].held.is_some() && match which {
                Some(role) => self.slots[i].role == role,
                None => true,
            } {
                let taken = self.slots[i].held.take();
                match taken {
                    Some(context) => {
                        released.push(context);
                    },
                    None => {},
                }
            }
            i += 1;
        }
        proof {
            assert(old(self).slots@.take(i as int) == old(self).slots@);
            assert(self.slots@ =~= cleared(old(self).slots@, which));
            if well_formed(old(self).slots@) {
                lemma_cleared_well_formed(old(self).slots@, which);
            }
        }
        released
    }

    /// Records an accepted registration in `role` and takes over `context`.
    /// The new slot receives the next identity. A new objective displaces the
    /// standing one, whose context is handed back; a constraint displaces
    /// nothing.
    pub fn install(&mut self, role: Role, context: H) -> (r: (usize, Vec<H>))
        ensures
            r.0 == old(self)@.len(),
            r.1@ == displaced(old(self)@, role),
            final(self)@ == installed(old(self)@, role, context),
            well_formed(old(self)@) ==> well_formed(final(self)@),
    {
        let released = match role {
            Role::Objective => self.clear(Some(Role::Objective)),
            Role::Constraint(_) => Vec::new(),
        };
        let id = self.slots.len();
        self.slots.push(Slot { role, held: Some(context) });
        proof {
            if well_formed(old(self)@) {
                lemma_installed_well_formed(old(self)@, role, context);
            }
        }
        (id, released)
    }
}

} // verus!
