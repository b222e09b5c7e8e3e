//! Route transitions: the direction of a slide, the transition that
//! applies to a navigation, and what an outlet remembers to animate a
//! change of path.

use vstd::prelude::*;
use vstd::string::StrSliceExecFns;

verus! {

/// The direction in which a route slides in.
#[derive(Debug, Clone, Copy, PartialEq, Eq, Structural)]
pub enum SlideDirection {
    /// From the left.
    Left,
    /// From the right.
    Right,
    /// From the top.
    Up,
    /// From the bottom.
    Down,
}

/// The transition of a route: its own, and one that takes its place for
/// the next navigation only. `T` is the host's description of a transition.
pub struct TransitionConfig<T> {
    /// The transition of the route.
    pub default: T,
    /// The transition of the next navigation, if one was set.
    pub override_next: Option<T>,
}

impl<T> TransitionConfig<T> {
    /// A configuration with `default` as the transition of the route.
    pub fn new(default: T) -> (r: Self)
        ensures
            r.default == default,
            r.override_next is None,
    {
        TransitionConfig { default, override_next: None }
    }

    /// The transition that applies: the override if one is set, and the
    /// transition of the route otherwise.
    pub fn active(&self) -> (r: &T)
        ensures
            *r == match self.override_next {
                Some(next) => next,
                None => self.default,
            },
    {
        match &self.override_next {
            Some(next) => next,
            None => &self.default,
        }
    }

    /// Sets the transition of the next navigation.
    pub fn set_override(&mut self, transition: T)
        ensures
            final(self).override_next == Some(transition),
            final(self).default == old(self).default,
    {
        self.override_next = Some(transition);
    }

    /// Removes the transition of the next navigation.
    pub fn clear_override(&mut self)
        ensures
            final(self).override_next is None,
            final(self).default == old(self).default,
    {
        self.override_next = None;
    }

    /// Whether a transition is set for the next navigation.
    pub fn has_override(&self) -> (r: bool)
        ensures
            r == self.override_next.is_some(),
    {
        self.override_next.is_some()
    }
}

/// What an outlet remembers between two renderings: the path it showed
/// last, the path it showed before that, and how many changes of path it
/// has animated.
#[derive(Debug, Clone)]
pub struct OutletState {
    /// The path shown last; empty before the first rendering.
    pub current_path: String,
    /// The path shown before the last change, while it animates out.
    pub previous_path: Option<String>,
    /// Number of animated changes, counted modulo 2^32.
    pub animation_counter: u32,
}

impl OutletState {
    /// The state before the first rendering.
    pub fn new() -> (r: Self)
        ensures
            r.current_path@.len() == 0,
            r.previous_path is None,
            r.animation_counter == 0,
    {
        OutletState { current_path: String::new(), previous_path: None, animation_counter: 0 }
    }

    /// Takes note of the path that is rendered and says whether it differs
    /// from the path shown last. The first path is shown without
    /// animation: nothing is kept as previous and the counter stays. Any
    /// later change keeps the path shown last as previous and counts one
    /// more animation. An unchanged path changes nothing.
    pub fn observe(&mut self, path: &str) -> (changed: bool)
        ensures
            changed == (path@ != old(self).current_path@),
            final(self).current_path@ == path@,
            !changed ==> final(self).previous_path == old(self).previous_path && final(self).animation_counter == old(self).animation_counter,
            changed && old(self).current_path@.len() == 0 ==> final(self).previous_path is None
                && final(self).animation_counter == old(self).animation_counter,
            changed && old(self).current_path@.len() > 0 ==> (final(self).previous_path matches Some(
                p,
            ) && p@ == old(self).current_path@) && final(self).animation_counter == if old(self).animation_counter == u32::MAX {
                0
            } else {
                (old(self).animation_counter + 1) as u32
            },
    {
        let shown = path.to_owned();
        if shown == self.current_path {
            return false;
        }
        let initial = self.current_path.as_str().unicode_len() == 0;
        if initial {
            self.previous_path = None;
        } else {
            self.previous_path = Some(self.current_path.clone());
            self.animation_counter = if self.animation_counter == u32::MAX {
                0
            } else {
                self.animation_counter + 1
            };
        }
        self.current_path = shown;
        true
    }
}

} // verus!
