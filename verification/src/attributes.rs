//! Scopes and contexts: the narrow surface through which execution-scoped
//! values are carried across API boundaries.

use vstd::prelude::*;

verus! {

/// Delineates a logical scope that has some beginning and end
/// (e.g. a function or block of code).
pub trait Scope {
    /// invoke when the scope has ended.
    fn end(&self);
}

/// A cross cutting concern for carrying execution-scoped values across API
/// boundaries (both in-process and distributed).
pub trait Context {
    /// The handle that stands for the time this context is the active one.
    type Handle: Scope;

    /// Make this context the currently active context.
    /// The returned handle is used to return the previous
    /// context (if one existed) as active.
    fn make_current(&self) -> &Self::Handle;
}

/// Keeps track of the current [Context].
pub trait ContextManager {
    /// The kind of context this manager keeps track of.
    type Current: Context;

    /// Get the currently active context.
    fn current(&self) -> &Self::Current;
}

} // verus!
