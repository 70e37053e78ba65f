//! Closure contexts and the callback that serves them.
//!
//! The optimizer evaluates an objective or a constraint through a callback of
//! one fixed shape: it passes the number of variables, the candidate point,
//! a buffer for the gradient or none, and the opaque address it was given at
//! registration. Behind that address lies a [`ClosureContext`]: the caller's
//! closure and, if the caller supplied one, a reference to state of the
//! caller's own. [`ClosureContext::forward`] is what the callback does once
//! the raw pointers have been turned into slices: it asks the closure for the
//! value, tells it whether a gradient is wanted, and writes the gradient
//! that comes back into the optimizer's buffer.

use vstd::prelude::*;

verus! {

/// What can stand as an objective or a constraint: a function of the
/// candidate point, of the caller's state, and of whether the gradient is
/// wanted, that returns the value and possibly the gradient. `R` is the
/// optimizer's type of real numbers.
pub trait Objective<T, R>: Fn(&[R], &Option<&mut T>, bool) -> (R, Option<Vec<R>>) {

}

impl<T, R, O: Fn(&[R], &Option<&mut T>, bool) -> (R, Option<Vec<R>>)> Objective<T, R> for O {

}

/// A closure together with the state that the caller lent with it.
pub struct ClosureContext<'a, T, O> {
    pub closure: O,
    pub state: Option<&'a mut T>,
}

/// The buffer `before` after the values of `grad` have been written at its
/// start, in order.
pub open spec fn written<R>(before: Seq<R>, grad: Seq<R>) -> Seq<R> {
    grad + before.skip(grad.len() as int)
}

/// Whether the gradient that a closure returned, if it returned one, has no
/// more values than a buffer of `room` values can take.
pub open spec fn gradient_fits<R>(room: nat, grad: Option<Vec<R>>) -> bool {
    grad matches Some(g) ==> g@.len() <= room
}

/// What the optimizer's buffer holds after a closure's answer has been
/// delivered. A gradient that fits is written at the start of the buffer.
/// Where the closure returned none, or one that does not fit, the buffer is
/// left as it was.
pub open spec fn delivered<R>(before: Seq<R>, grad: Option<Vec<R>>) -> Seq<R> {
    match grad {
        Some(g) => if g@.len() <= before.len() {
            written(before, g@)
        } else {
            before
        },
        None => before,
    }
}

/// Writes the values of `grad` to the start of `out`, one for each variable,
/// in variable order. With a gradient as long as the buffer, every value of
/// the buffer is written; the values beyond a shorter one are left alone.
pub fn write_gradient<R: Copy>(out: &mut [R], grad: &Vec<R>)
    requires
        grad@.len() <= old(out)@.len(),
    ensures
        final(out)@ == written(old(out)@, grad@),
        final(out)@.len() == old(out)@.len(),
        forall|i: int| 0 <= i < grad@.len() ==> final(out)@[i] == grad@[i],
        forall|i: int| grad@.len() <= i < old(out)@.len() ==> final(out)@[i] == old(out)@[i],
        grad@.len() == old(out)@.len() ==> final(out)@ == grad@,
{
    let mut i: usize = 0;
    while i < grad.len()
        invariant
            i <= grad@.len() <= out@.len(),
            out@.len() == old(out)@.len(),
            out@ == grad@.take(i as int) + old(out)@.skip(i as int),
        decreases grad.len() - i,
    {
        out[i] = grad[i];
        i += 1;
    }
    assert(grad@.take(grad@.len() as int) == grad@);
}

/// Delivers a closure's gradient to the optimizer. Where the optimizer
/// supplied a buffer and the closure returned a gradient that fits, the
/// gradient is written; in every other case nothing is. The result says
/// whether all went well: it is `false` only when a gradient was returned
/// that is longer than the buffer supplied for it.
pub fn deliver<R: Copy>(grad_out: Option<&mut [R]>, grad: &Option<Vec<R>>) -> (fitted: bool)
    ensures
        fitted == (grad_out matches Some(out) ==> gradient_fits(out@.len(), *grad)),
        grad_out matches Some(out) ==> final(out)@ == delivered(out@, *grad),
        grad_out matches Some(out) ==> (*grad matches Some(g) ==> g@.len() == out@.len()
            ==> final(out)@ == g@),
{
    match grad_out {
        Some(out) => match grad {
            Some(g) => {
                if g.len() <= out.len() {
                    write_gradient(out, g);
                    true
                } else {
                    false
                }
            },
            None => true,
        },
        None => true,
    }
}

impl<'a, T, O> ClosureContext<'a, T, O> {
    /// Bundles a closure with the state lent to it.
    pub fn create(closure: O, state: Option<&'a mut T>) -> (ctx: Self)
        ensures
            ctx.closure == closure,
            ctx.state == state,
    {
        ClosureContext { closure, state }
    }

    /// Serves one callback of the optimizer: evaluates the closure at the
    /// candidate point `xs` and delivers its gradient to `grad_out`.
    ///
    /// The closure is called once, with `xs`, the lent state, and a flag that
    /// is true exactly when the optimizer supplied a buffer: without a buffer
    /// the closure is never asked for a gradient. The result is the value the
    /// closure returned, and the buffer receives the gradient as
    /// [`deliver`] describes. The result is `None`, and the buffer
    /// untouched, only when the closure returned a gradient longer than the
    /// buffer; there is no answer that the optimizer could be given then.
    pub fn forward<R: Copy>(&self, xs: &[R], grad_out: Option<&mut [R]>) -> (value: Option<R>) where
        O: Objective<T, R>,

        requires
            call_requires(self.closure, (xs, &self.state, grad_out is Some)),
        ensures
            exists|answer: (R, Option<Vec<R>>)|
                {
                    &&& #[trigger] call_ensures(
                        self.closure,
                        (xs, &self.state, grad_out is Some),
                        answer,
                    )
                    &&& value == if grad_out matches Some(out) ==> gradient_fits(
                        out@.len(),
                        answer.1,
                    ) {
                        Some(answer.0)
                    } else {
                        None
                    }
                    &&& grad_out matches Some(out) ==> final(out)@ == delivered(out@, answer.1)
                },
    {
        let wanted = grad_out.is_some();
        let (value, grad) = (self.closure)(xs, &self.state, wanted);
        if deliver(grad_out, &grad) {
            Some(value)
        } else {
            None
        }
    }
}

} // verus!
