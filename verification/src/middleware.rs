//! Middleware: hooks that run before and after a navigation. They answer
//! nothing and never stop a navigation; what is decided here is the order
//! in which they run.

use crate::guards::{execution_order, is_execution_order};
use vstd::prelude::*;

verus! {

/// What the router needs to know of a middleware to place it in the order
/// of execution. The hooks themselves belong to the host.
pub trait RouteMiddleware {
    /// The name of the middleware; `RouteMiddleware` unless the
    /// middleware gives its own.
    fn name(&self) -> (r: &str)
        default_ensures
            r@ == "RouteMiddleware"@,
    {
        "RouteMiddleware"
    }

    /// The priority of the middleware; the higher runs first. It is 0
    /// unless the middleware gives its own.
    fn priority(&self) -> (r: i32)
        default_ensures
            r == 0,
    {
        0
    }
}

/// A middleware made of a hook that runs before a navigation and one that
/// runs after it.
pub struct FnMiddleware<F> {
    before: F,
    after: F,
}

impl<F> FnMiddleware<F> {
    /// The hook that runs before a navigation.
    pub fn before(&self) -> (r: &F)
        ensures
            *r == self.hooks().0,
    {
        &self.before
    }

    /// The hook that runs after a navigation.
    pub fn after(&self) -> (r: &F)
        ensures
            *r == self.hooks().1,
    {
        &self.after
    }

    /// The two hooks.
    pub closed spec fn hooks(&self) -> (F, F) {
        (self.before, self.after)
    }
}

impl<F> RouteMiddleware for FnMiddleware<F> {

}

/// A middleware that runs `before` before a navigation and `after` after it.
pub fn middleware_fn<F>(before: F, after: F) -> (r: FnMiddleware<F>)
    ensures
        r.hooks() == (before, after),
{
    FnMiddleware { before, after }
}

/// The middleware in the order in which they run: by descending priority,
/// those of equal priority in the order of their registration. All of
/// them run, one after the other.
pub fn middleware_order(priorities: &Vec<i32>) -> (order: Vec<usize>)
    ensures
        is_execution_order(priorities@, order@),
{
    execution_order(priorities)
}

} // verus!
