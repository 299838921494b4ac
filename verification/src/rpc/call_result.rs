//! The result of a remote procedure call and the operations on it.
use vstd::prelude::*;

verus! {

/// The result from a call operation
#[derive(Debug, PartialEq, Eq)]
pub enum CallResult<TResult> {
    /// Success, with the result
    Success(TResult),
    /// Timeout
    Timeout,
    /// The transmission channel was dropped without any message(s) being sent
    SenderError,
}

impl<T> CallResult<T> {
    /// Determine if the result is a `Success`
    pub fn is_success(&self) -> (r: bool)
        ensures
            r == (*self is Success),
    {
        match self {
            CallResult::Success(_) => true,
            _ => false,
        }
    }

    /// Determine if the result is a `Timeout`
    pub fn is_timeout(&self) -> (r: bool)
        ensures
            r == (*self is Timeout),
    {
        match self {
            CallResult::Timeout => true,
            _ => false,
        }
    }

    /// Determine if the result is a `SenderError`
    pub fn is_send_error(&self) -> (r: bool)
        ensures
            r == (*self is SenderError),
    {
        match self {
            CallResult::SenderError => true,
            _ => false,
        }
    }

    /// Unwrap a successful result. A non-success has no value to give, so it is
    /// not accepted.
    pub fn unwrap(self) -> (r: T)
        requires
            self is Success,
        ensures
            self == CallResult::Success(r),
    {
        match self {
            CallResult::Success(t) => t,
            _ => { proof { assert(false); } unreached() },
        }
    }

    /// Unwrap a successful result; `msg` is the message a non-success would be
    /// reported with, so a non-success is not accepted.
    pub fn expect(self, msg: &'static str) -> (r: T)
        requires
            self is Success,
        ensures
            self == CallResult::Success(r),
    {
        match self {
            CallResult::Success(t) => t,
            _ => { proof { assert(false); } unreached() },
        }
    }

    /// The success value, or `default`
    pub fn unwrap_or(self, default: T) -> (r: T)
        ensures
            match self {
                CallResult::Success(t) => r == t,
                _ => r == default,
            },
    {
        match self {
            CallResult::Success(t) => t,
            _ => default,
        }
    }

    /// The success value, or the value computed by `f`
    pub fn unwrap_or_else<F: FnOnce() -> T>(self, f: F) -> (r: T)
        requires
            !(self is Success) ==> f.requires(()),
        ensures
            match self {
                CallResult::Success(t) => r == t,
                _ => f.ensures((), r),
            },
    {
        match self {
            CallResult::Success(t) => t,
            _ => f(),
        }
    }

    /// `Ok(t)` for `Success(t)`, `Err(err)` otherwise
    pub fn success_or<E>(self, err: E) -> (r: Result<T, E>)
        ensures
            match self {
                CallResult::Success(t) => r == Ok::<T, E>(t),
                _ => r == Err::<T, E>(err),
            },
    {
        match self {
            CallResult::Success(t) => Ok(t),
            _ => Err(err),
        }
    }

    /// `Ok(t)` for `Success(t)`, `Err(err())` otherwise
    pub fn success_or_else<E, F: FnOnce() -> E>(self, err: F) -> (r: Result<T, E>)
        requires
            !(self is Success) ==> err.requires(()),
        ensures
            match self {
                CallResult::Success(t) => r == Ok::<T, E>(t),
                _ => r matches Err(e) && err.ensures((), e),
            },
    {
        match self {
            CallResult::Success(t) => Ok(t),
            _ => Err(err()),
        }
    }

    /// Maps the success value to another type, keeping a failure as it is
    pub fn map<O, F: FnOnce(T) -> O>(self, mapping: F) -> (r: CallResult<O>)
        requires
            self matches CallResult::Success(t) ==> mapping.requires((t,)),
        ensures
            spec_mapped(self, mapping, r),
    {
        match self {
            CallResult::Success(t) => CallResult::Success(mapping(t)),
            CallResult::Timeout => CallResult::Timeout,
            CallResult::SenderError => CallResult::SenderError,
        }
    }

    /// Maps the success value, or gives `default` for a failure
    pub fn map_or<O, F: FnOnce(T) -> O>(self, default: O, mapping: F) -> (r: O)
        requires
            self matches CallResult::Success(t) ==> mapping.requires((t,)),
        ensures
            match self {
                CallResult::Success(t) => mapping.ensures((t,), r),
                _ => r == default,
            },
    {
        match self {
            CallResult::Success(t) => mapping(t),
            CallResult::Timeout => default,
            CallResult::SenderError => default,
        }
    }

    /// Maps the success value, or computes the value of `default` for a failure
    pub fn map_or_else<D: FnOnce() -> O, O, F: FnOnce(T) -> O>(self, default: D, mapping: F) -> (r: O)
        requires
            self matches CallResult::Success(t) ==> mapping.requires((t,)),
            !(self is Success) ==> default.requires(()),
        ensures
            match self {
                CallResult::Success(t) => mapping.ensures((t,), r),
                _ => default.ensures((), r),
            },
    {
        match self {
            CallResult::Success(t) => mapping(t),
            CallResult::Timeout => default(),
            CallResult::SenderError => default(),
        }
    }
}

/// Whether `m` is `r` mapped by `f`: a success maps to a success of a value
/// `f` may give for it, a failure stays as it is
pub open spec fn spec_mapped<T, O, F: FnOnce(T) -> O>(r: CallResult<T>, f: F, m: CallResult<O>) -> bool {
    match r {
        CallResult::Success(t) => m matches CallResult::Success(o) && f.ensures((t,), o),
        CallResult::Timeout => m is Timeout,
        CallResult::SenderError => m is SenderError,
    }
}

/// Mapping by the identity changes nothing.
pub proof fn lemma_map_identity<T, F: FnOnce(T) -> T>(r: CallResult<T>, f: F, m: CallResult<T>)
    requires
        spec_mapped(r, f, m),
        forall|x: T, y: T| #[trigger] f.ensures((x,), y) ==> y == x,
    ensures
        m == r,
{
}

/// Mapping by `f` and then by `g` is mapping by their composition `h` (a
/// mapping that gives exactly what `g` gives of what `f` gives).
pub proof fn lemma_map_compose<T, O, P, F: FnOnce(T) -> O, G: FnOnce(O) -> P, H: FnOnce(T) -> P>(
    r: CallResult<T>,
    f: F,
    g: G,
    h: H,
    by_f: CallResult<O>,
    by_f_then_g: CallResult<P>,
    by_h: CallResult<P>,
)
    requires
        spec_mapped(r, f, by_f),
        spec_mapped(by_f, g, by_f_then_g),
        spec_mapped(r, h, by_h),
        forall|x: T, y: O, z: P| #[trigger] f.ensures((x,), y) && #[trigger] g.ensures((y,), z) ==> h.ensures((x,), z),
        forall|x: T, z1: P, z2: P| #[trigger] h.ensures((x,), z1) && #[trigger] h.ensures((x,), z2) ==> z1 == z2,
    ensures
        by_f_then_g == by_h,
{
    if let CallResult::Success(t) = r {
        let o = by_f->Success_0;
        let p1 = by_f_then_g->Success_0;
        let p2 = by_h->Success_0;
        assert(f.ensures((t,), o));
        assert(g.ensures((o,), p1));
        assert(h.ensures((t,), p1));
        assert(h.ensures((t,), p2));
    }
}

} // verus!
