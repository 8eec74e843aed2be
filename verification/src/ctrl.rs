//! Iteration control helper.
//!
//! A [`LoopCtrl`] value drives "repeat a fallible step until it yields a
//! final value" loops — the shape of every scope-chain walk in this crate —
//! without recursion: `Continue` means run the step again, `Stop` carries the
//! loop's result.

use vstd::prelude::*;

verus! {

/// Tri-state control value for step-driven loops.
pub enum LoopCtrl<T> {
    /// Terminate the loop, yielding the carried value.
    Stop(T),
    /// Run the step function once more.
    Continue,
}

/// What [`LoopCtrl::from_option`] returns: `Some` becomes `Stop`, `None`
/// becomes `Continue`.
pub open spec fn from_option_spec<T>(other: Option<T>) -> LoopCtrl<T> {
    match other {
        Option::Some(v) => LoopCtrl::Stop(v),
        Option::None => LoopCtrl::Continue,
    }
}

/// What [`LoopCtrl::from_result`] returns: `Ok` means keep looping, `Err`
/// carries the loop's final value.
pub open spec fn from_result_spec<T>(other: Result<(), T>) -> LoopCtrl<T> {
    match other {
        Result::Ok(u) => LoopCtrl::Continue,
        Result::Err(e) => LoopCtrl::Stop(e),
    }
}

/// What [`LoopCtrl::into_result`] returns: `Continue` becomes `Ok`, `Stop`
/// becomes `Err` with the carried value.
pub open spec fn into_result_spec<T>(c: LoopCtrl<T>) -> Result<(), T> {
    match c {
        LoopCtrl::Stop(x) => Result::Err(x),
        LoopCtrl::Continue => Result::Ok(()),
    }
}

/// The conversions between loop-control values and results are mutually
/// inverse: a result round-trips through `from_result` and `into_result`
/// unchanged, and so does a control value the other way around.
pub proof fn lemma_ctrl_result_round_trip<T>(r: Result<(), T>, c: LoopCtrl<T>)
    ensures
        into_result_spec(from_result_spec(r)) == r,
        from_result_spec(into_result_spec(c)) == c,
{
    match r {
        Result::Ok(u) => {
            assert(u == ());
        },
        Result::Err(e) => {},
    }
}

impl<T> LoopCtrl<T> {
    /// Take the carried result out of a finished control value.
    pub fn unwrap(self) -> (r: T)
        requires
            self is Stop,
        ensures
            self == LoopCtrl::Stop(r),
    {
        match self {
            LoopCtrl::Stop(x) => x,
            LoopCtrl::Continue => unreached(),
        }
    }

    /// Whether the driving loop should run the step again.
    pub fn is_continue(&self) -> (r: bool)
        ensures
            r == (self is Continue),
    {
        match self {
            LoopCtrl::Continue => true,
            LoopCtrl::Stop(_) => false,
        }
    }

    /// `Some` becomes `Stop`, `None` becomes `Continue`: a step that searches
    /// for a value keeps going until it finds one.
    pub fn from_option(other: Option<T>) -> (r: LoopCtrl<T>)
        ensures
            r == from_option_spec(other),
    {
        match other {
            Option::Some(v) => LoopCtrl::Stop(v),
            Option::None => LoopCtrl::Continue,
        }
    }

    /// `Ok` becomes `Continue`, `Err` becomes `Stop`: a step whose carried
    /// value is an error keeps looping while everything is fine.
    pub fn from_result(other: Result<(), T>) -> (r: LoopCtrl<T>)
        ensures
            r == from_result_spec(other),
    {
        match other {
            Result::Ok(()) => LoopCtrl::Continue,
            Result::Err(e) => LoopCtrl::Stop(e),
        }
    }

    /// `Stop` becomes `Err`, `Continue` becomes `Ok`: the inverse of
    /// [`LoopCtrl::from_result`].
    pub fn into_result(self) -> (r: Result<(), T>)
        ensures
            r == into_result_spec(self),
    {
        match self {
            LoopCtrl::Continue => Result::Ok(()),
            LoopCtrl::Stop(x) => Result::Err(x),
        }
    }
}

/// Run `f` until it yields `Stop`, and return the carried value, `None` if
/// `f` still asked to continue after `fuel` steps. Every loop here must
/// provably terminate, so the driver takes an explicit step bound; callers
/// pass a bound on the structure being walked, such as the length of a scope
/// chain.
pub fn loop_while<F, T>(f: F, fuel: usize) -> (r: Option<T>) where F: Fn() -> LoopCtrl<T>
    requires
        call_requires(f, ()),
    ensures
        match r {
            Option::Some(v) => call_ensures(f, (), LoopCtrl::Stop(v)),
            Option::None => fuel == 0 || call_ensures(f, (), LoopCtrl::<T>::Continue),
        },
{
    let mut remaining: usize = fuel;
    while remaining > 0
        invariant
            call_requires(f, ()),
            remaining == fuel || call_ensures(f, (), LoopCtrl::<T>::Continue),
        decreases remaining,
    {
        match f() {
            LoopCtrl::Stop(v) => {
                return Option::Some(v);
            },
            LoopCtrl::Continue => {
                remaining = remaining - 1;
            },
        }
    }
    Option::None
}

/// Like [`loop_while`], but each step may fail: the first `Err` ends the
/// loop and is passed through, a `Stop` value comes back as `Ok(Some(..))`,
/// and `Ok(None)` means the step bound ran out first.
pub fn loop_while_check<F, T, E>(body: F, fuel: usize) -> (r: Result<Option<T>, E>) where
    F: Fn() -> Result<LoopCtrl<T>, E>,

    requires
        call_requires(body, ()),
    ensures
        match r {
            Result::Ok(Option::Some(v)) => call_ensures(
                body,
                (),
                Result::Ok(LoopCtrl::Stop(v)),
            ),
            Result::Ok(Option::None) => fuel == 0 || call_ensures(
                body,
                (),
                Result::Ok(LoopCtrl::<T>::Continue),
            ),
            Result::Err(e) => call_ensures(body, (), Result::Err(e)),
        },
{
    let mut remaining: usize = fuel;
    while remaining > 0
        invariant
            call_requires(body, ()),
            remaining == fuel || call_ensures(body, (), Result::Ok(LoopCtrl::<T>::Continue)),
        decreases remaining,
    {
        match body() {
            Result::Ok(LoopCtrl::Stop(v)) => {
                return Result::Ok(Option::Some(v));
            },
            Result::Ok(LoopCtrl::Continue) => {
                remaining = remaining - 1;
            },
            Result::Err(e) => {
                return Result::Err(e);
            },
        }
    }
    Result::Ok(Option::None)
}

} // verus!
