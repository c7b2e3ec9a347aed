//! Composition of plugins: layered processors applied one after the other.

use vstd::prelude::*;

verus! {

/// Maps an input of type `T` to an output, for the protocol `Ser` and the
/// operation `Op`.
pub trait Plugin<Ser, Op, T> {
    /// What the plugin turns its input into.
    type Output;

    /// Whether `output` is a result the plugin may give for `input`.
    spec fn maps(&self, input: T, output: Self::Output) -> bool;

    /// Applies the plugin.
    fn apply(&self, input: T) -> (output: Self::Output)
        ensures
            self.maps(input, output),
    ;
}

/// A plugin that hands its input back.
#[derive(Clone, Copy, Debug)]
pub struct IdentityPlugin;

impl<Ser, Op, T> Plugin<Ser, Op, T> for IdentityPlugin {
    type Output = T;

    open spec fn maps(&self, input: T, output: T) -> bool {
        output == input
    }

    fn apply(&self, input: T) -> (output: T) {
        input
    }
}

/// A wrapper struct which composes an `Inner` and an `Outer` [`Plugin`].
///
/// The `Inner` plugin is applied first, the `Outer` plugin to its result.
#[derive(Debug)]
pub struct PluginStack<Inner, Outer> {
    inner: Inner,
    outer: Outer,
}

impl<Inner, Outer> PluginStack<Inner, Outer> {
    /// The plugin applied first.
    pub closed spec fn inner(&self) -> Inner {
        self.inner
    }

    /// The plugin applied to the result of the first.
    pub closed spec fn outer(&self) -> Outer {
        self.outer
    }

    /// Creates a new [`PluginStack`].
    pub fn new(inner: Inner, outer: Outer) -> (stack: Self)
        ensures
            stack.inner() == inner,
            stack.outer() == outer,
    {
        PluginStack { inner, outer }
    }
}

impl<Ser, Op, T, Inner, Outer> Plugin<Ser, Op, T> for PluginStack<Inner, Outer> where
    Inner: Plugin<Ser, Op, T>,
    Outer: Plugin<Ser, Op, Inner::Output>,
 {
    type Output = Outer::Output;

    open spec fn maps(&self, input: T, output: Outer::Output) -> bool {
        exists|between: Inner::Output|
            self.inner().maps(input, between) && self.outer().maps(between, output)
    }

    fn apply(&self, input: T) -> (output: Outer::Output) {
        let svc = self.inner.apply(input);
        let output = self.outer.apply(svc);
        assert(self.inner().maps(input, svc) && self.outer().maps(svc, output));
        output
    }
}

} // verus!
