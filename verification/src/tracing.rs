//! A profiling facade that does nothing.

use vstd::prelude::*;

verus! {

/// A span that records nothing.
#[derive(Clone, Copy, Debug, PartialEq, Eq, Structural)]
pub struct Span;

impl Span {
    /// The span that is open now, of which there is only one.
    pub fn current() -> (result: Self)
        ensures
            result == Span,
    {
        Span
    }

    /// Enters the span, which changes nothing.
    pub fn enter(&self) -> (result: ())
        ensures
            result == (),
    {
    }

    /// Drops a value under a key.
    pub fn record<K, V>(&self, _key: K, _value: V) -> (result: ())
        ensures
            result == (),
    {
    }
}

/// Sets nothing up.
pub fn init() -> (result: ())
    ensures
        result == (),
{
}

} // verus!
