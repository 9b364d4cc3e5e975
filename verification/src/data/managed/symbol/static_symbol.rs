//! Symbols that are encoded by types.
use vstd::prelude::*;

verus! {

/// Helper struct that wraps an instance of a type that encodes a symbol.
pub struct Sym<'target, S>(S, core::marker::PhantomData<&'target ()>);

impl<'target, S> Sym<'target, S> {
    /// The wrapped instance.
    pub closed spec fn inner(&self) -> S {
        self.0
    }

    /// Convert an instance of a type that encodes a symbol to `Sym`. The first argument is
    /// the target the symbol is used with.
    pub fn new<Tgt>(_target: &Tgt, s: S) -> (r: Self)
        ensures
            r.inner() == s,
    {
        Sym(s, core::marker::PhantomData)
    }

    /// Extract the wrapped instance from `self`.
    pub fn take(self) -> (r: S)
        ensures
            r == self.inner(),
    {
        self.0
    }
}

/// Convert the type `S` to `Sym<PhantomData<S>>`.
pub fn sym<'target, S, Tgt>(_target: &Tgt) -> (r: Sym<'target, core::marker::PhantomData<S>>)
    ensures
        r.inner() == core::marker::PhantomData::<S>,
{
    Sym(core::marker::PhantomData, core::marker::PhantomData)
}

} // verus!
