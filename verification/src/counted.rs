//! Functions whose calls are counted.

use vstd::prelude::*;

verus! {

/// One call of a function, with the arguments for it. `run` takes both the arguments and the
/// function; of the function it is known only that it can be called once.
pub trait Call<F, Out>: Sized {
    /// The call can be made.
    spec fn callable(self, f: F) -> bool;

    /// The call was made and returned `out`.
    spec fn returned(self, f: F, out: Out) -> bool;

    /// Makes the call.
    fn run(self, f: F) -> (out: Out)
        requires
            self.callable(f),
        ensures
            self.returned(f, out),
    ;
}

/// A function that can be reached only through `make` and `hand`, which count its uses.
pub struct Counted<F> {
    function: F,
    uses: Ghost<nat>,
}

impl<F> Counted<F> {
    /// The function.
    pub closed spec fn function(&self) -> F {
        self.function
    }

    /// How often the function was used.
    pub closed spec fn uses(&self) -> nat {
        self.uses@
    }

    /// A function that was not used yet.
    pub fn new(function: F) -> (counted: Self)
        ensures
            counted.function() == function,
            counted.uses() == 0,
    {
        Counted { function, uses: Ghost(0) }
    }

    /// Makes one call of the function. What kind of function it is, and what the call hands it,
    /// is not known here: all that can be done is to run the call, which uses it up.
    pub fn make<Out, K: for<'a> Call<&'a F, Out>>(&mut self, call: K) -> (out: Out)
        requires
            call.callable(&old(self).function()),
        ensures
            final(self).function() == old(self).function(),
            final(self).uses() == old(self).uses() + 1,
            call.returned(&old(self).function(), out),
    {
        self.uses = Ghost(self.uses@ + 1);
        call.run(&self.function)
    }

    /// Makes one call of the function, which may change what it keeps to itself, and hands it
    /// `argument`. Of the argument nothing is known here: it cannot be copied, so it can be
    /// handed over only once.
    pub fn hand<E>(&mut self, argument: E) where F: FnMut(E)
        requires
            call_requires(old(self).function(), (argument,)),
        ensures
            final(self).function() == old(self).function(),
            final(self).uses() == old(self).uses() + 1,
            call_ensures(old(self).function(), (argument,), ()),
    {
        self.uses = Ghost(self.uses@ + 1);
        (self.function)(argument)
    }
}

impl<F: Clone> Clone for Counted<F> {
    /// The same function; the count goes on from where it is.
    fn clone(&self) -> (other: Self)
        ensures
            cloned(self.function(), other.function()),
            other.uses() == self.uses(),
    {
        Counted { function: self.function.clone(), uses: Ghost(self.uses@) }
    }
}

} // verus!
