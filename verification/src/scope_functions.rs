//! The three scope functions and what can be concluded from their contracts.
//!
//! A closure is known to the verifier only through its own contract:
//! `f.requires(args)` says that `f` may be called on `args`, and
//! `f.ensures(args, out)` says that a call of `f` on `args` may return `out`.
//! The second can only be learned from a call that has returned, so a
//! postcondition below that holds `f.ensures(..)` says that `f` has run to its
//! end before the scope function returned.
//!
//! An exclusive reference is, in a contract, a value with two readings: `*slot`
//! is what it holds when it is handed over, `*final(slot)` what it holds when the
//! borrow ends.

use vstd::prelude::*;

verus! {

/// Scope functions, available on every sized type.
///
/// Each method takes the value and a closure, calls the closure once on the
/// value, and hands back either what the closure returned (`using`) or the
/// value itself (`also`, `apply`). The closure is consumed by the call, so it
/// cannot run a second time.
pub trait ScopeFunctions {
    /// Calls `f` with this value as its argument and returns what `f` returns.
    ///
    /// The value is moved into `f`; nothing of it is kept here.
    ///
    /// ```
    /// use kust::ScopeFunctions;
    ///
    /// let span = vec![3, 9, 4].using(|v| v[v.len() - 1] - v[0]);
    /// assert_eq!(span, 1);
    /// ```
    fn using<F, R>(self, f: F) -> (result: R) where Self: Sized, F: FnOnce(Self) -> R
        requires
            f.requires((self,)),
        ensures
            f.ensures((self,), result),
    {
        f(self)
    }

    /// Calls `f` with a shared reference to this value, drops what `f` returns,
    /// and returns the value as it was.
    ///
    /// ```
    /// use kust::ScopeFunctions;
    ///
    /// let mut seen = Vec::new();
    /// let total: u32 = [1, 2, 3].iter().map(|n| (n * n).also(|sq| seen.push(*sq))).sum();
    /// assert_eq!(total, 14);
    /// assert_eq!(seen, [1, 4, 9]);
    /// ```
    fn also<F, R>(self, f: F) -> (result: Self) where Self: Sized, F: FnOnce(&Self) -> R
        requires
            f.requires((&self,)),
        ensures
            result == self,
            exists|out: R| f.ensures((&self,), out),
    {
        f(&self);
        self
    }

    /// Calls `f` with an exclusive reference to this value, drops what `f`
    /// returns, and returns the value as `f` left it.
    ///
    /// ```
    /// use kust::ScopeFunctions;
    ///
    /// let sorted = vec![3, 1, 2].apply(|v| v.sort());
    /// assert_eq!(sorted, [1, 2, 3]);
    /// ```
    fn apply<F, R>(self, f: F) -> (result: Self) where Self: Sized, F: FnOnce(&mut Self) -> R
        requires
            forall|slot: &mut Self| *slot == self ==> f.requires((slot,)),
        ensures
            exists|slot: &mut Self, out: R|
                *slot == self && *final(slot) == result && f.ensures((slot,), out),
    {
        let mut value = self;
        f(&mut value);
        value
    }
}

impl<T> ScopeFunctions for T {
}

/// `using` is function application: where every result that `f` can return for
/// an argument is the one that `model` gives, whatever `value.using(f)` returns
/// is `model(value)`.
pub proof fn lemma_using_is_application<T, R, F: FnOnce(T) -> R>(
    value: T,
    f: F,
    model: spec_fn(T) -> R,
    result: R,
)
    requires
        forall|v: T, r: R| f.ensures((v,), r) ==> r == model(v),
        f.ensures((value,), result),
    ensures
        result == model(value),
{
}

/// `apply` is the closure's update: where every call of `f` leaves behind the
/// reference what `model` gives for what it found there, whatever
/// `value.apply(f)` returns is `model(value)`.
pub proof fn lemma_apply_is_update<T, R, F: FnOnce(&mut T) -> R>(
    value: T,
    f: F,
    model: spec_fn(T) -> T,
    result: T,
)
    requires
        forall|slot: &mut T, out: R| f.ensures((slot,), out) ==> *final(slot) == model(*slot),
        exists|slot: &mut T, out: R|
            *slot == value && *final(slot) == result && f.ensures((slot,), out),
    ensures
        result == model(value),
{
}

/// Closures in a chain run in the order of the chain, each to its end before
/// the next begins. For `value.apply(h).also(g).using(f)`, with `changed` the
/// value that `apply` returned and `kept` the one that `also` returned: one
/// call of `h` has taken `value` to `changed`, `g` has seen `changed` and not
/// `value`, and `f` has produced `result` from that same `changed`.
pub proof fn lemma_chain_runs_in_order<T, A, B, R, H, G, F>(
    value: T,
    h: H,
    g: G,
    f: F,
    changed: T,
    kept: T,
    result: R,
) where H: FnOnce(&mut T) -> A, G: FnOnce(&T) -> B, F: FnOnce(T) -> R
    requires
        exists|slot: &mut T, a: A|
            *slot == value && *final(slot) == changed && h.ensures((slot,), a),
        kept == changed,
        exists|b: B| g.ensures((&changed,), b),
        f.ensures((kept,), result),
    ensures
        exists|slot: &mut T, a: A, b: B|
            {
                &&& *slot == value
                &&& #[trigger] h.ensures((slot,), a)
                &&& #[trigger] g.ensures((&*final(slot),), b)
                &&& f.ensures((*final(slot),), result)
            },
{
}

} // verus!
