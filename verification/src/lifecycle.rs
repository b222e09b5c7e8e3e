//! Lifecycle hooks of a route: what a hook answers.

use vstd::prelude::*;

verus! {

/// The answer of a lifecycle hook.
#[derive(Debug, PartialEq)]
pub enum LifecycleResult {
    /// The navigation goes on.
    Continue,
    /// The navigation stops.
    Abort { reason: String },
    /// The navigation stops and another path is to be taken.
    Redirect { to: String },
}

/// A `LifecycleResult` with its texts as characters.
pub enum LifecycleOutcome {
    Continue,
    Abort { reason: Seq<char> },
    Redirect { to: Seq<char> },
}

impl View for LifecycleResult {
    type V = LifecycleOutcome;

    open spec fn view(&self) -> LifecycleOutcome {
        match self {
            LifecycleResult::Continue => LifecycleOutcome::Continue,
            LifecycleResult::Abort { reason } => LifecycleOutcome::Abort { reason: reason@ },
            LifecycleResult::Redirect { to } => LifecycleOutcome::Redirect { to: to@ },
        }
    }
}

impl Clone for LifecycleResult {
    fn clone(&self) -> (r: Self)
        ensures
            r@ == self@,
    {
        match self {
            LifecycleResult::Continue => LifecycleResult::Continue,
            LifecycleResult::Abort { reason } => LifecycleResult::Abort { reason: reason.clone() },
            LifecycleResult::Redirect { to } => LifecycleResult::Redirect { to: to.clone() },
        }
    }
}

impl LifecycleResult {
    /// The answer that lets the navigation go on.
    pub fn cont() -> (r: Self)
        ensures
            r@ == LifecycleOutcome::Continue,
    {
        LifecycleResult::Continue
    }

    /// The answer that stops the navigation for `reason`.
    pub fn abort(reason: &str) -> (r: Self)
        ensures
            r@ == (LifecycleOutcome::Abort { reason: reason@ }),
    {
        LifecycleResult::Abort { reason: reason.to_owned() }
    }

    /// The answer that sends the navigation to `to`.
    pub fn redirect(to: &str) -> (r: Self)
        ensures
            r@ == (LifecycleOutcome::Redirect { to: to@ }),
    {
        LifecycleResult::Redirect { to: to.to_owned() }
    }

    /// Whether the navigation goes on.
    pub fn allows_continue(&self) -> (r: bool)
        ensures
            r == (self@ is Continue),
    {
        match self {
            LifecycleResult::Continue => true,
            _ => false,
        }
    }

    /// Whether the navigation stops.
    pub fn is_abort(&self) -> (r: bool)
        ensures
            r == (self@ is Abort),
    {
        match self {
            LifecycleResult::Abort { .. } => true,
            _ => false,
        }
    }

    /// Whether the navigation is sent elsewhere.
    pub fn is_redirect(&self) -> (r: bool)
        ensures
            r == (self@ is Redirect),
    {
        match self {
            LifecycleResult::Redirect { .. } => true,
            _ => false,
        }
    }
}

} // verus!
