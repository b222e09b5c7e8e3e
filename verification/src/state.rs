//! The state of a router: the history, the registered routes, and the
//! matches already computed for paths.

use crate::history::{EntryView, History, HistoryView, NavigationEvent};
use crate::keyed::{has_key, key_index, KeyedList};
use crate::matcher::{compile, priority_of, RoutePattern};
use crate::route::{flat_match, Route};
use crate::{RouteChangeEvent, RouteMatch};
use std::sync::Arc;
use vstd::prelude::*;

verus! {

/// The priority of a route: that of its path, read as a pattern.
pub open spec fn route_priority<B>(route: Route<B>) -> int {
    priority_of(compile(route.config.path@))
}

/// The route at `k` matches `path`.
pub open spec fn route_matches<B>(routes: Seq<Arc<Route<B>>>, path: Seq<char>, k: int) -> bool {
    flat_match(routes[k].config.path@, path) is Some
}

/// The route at `i` is preferred to the one at `j`: its priority is higher,
/// or the same and it was registered no later.
pub open spec fn is_preferred<B>(routes: Seq<Arc<Route<B>>>, i: int, j: int) -> bool {
    route_priority(*routes[j]) < route_priority(*routes[i]) || (route_priority(*routes[j])
        == route_priority(*routes[i]) && i <= j)
}

/// The route at `i` is the best of `routes` for `path`: it matches the
/// path, and it is preferred to every route that matches. So the route of
/// the highest priority wins, and among routes of that priority the one
/// registered first.
pub open spec fn is_best_matching<B>(routes: Seq<Arc<Route<B>>>, path: Seq<char>, i: int) -> bool {
    &&& 0 <= i < routes.len()
    &&& route_matches(routes, path, i)
    &&& forall|j: int|
        0 <= j < routes.len() && #[trigger] route_matches(routes, path, j) ==> is_preferred(
            routes,
            i,
            j,
        )
}

/// The best of `routes` for `path`, if any matches.
pub open spec fn best_matching<B>(routes: Seq<Arc<Route<B>>>, path: Seq<char>) -> Option<int> {
    if exists|i: int| is_best_matching(routes, path, i) {
        Some(choose|i: int| is_best_matching(routes, path, i))
    } else {
        None
    }
}

/// `found` is the match of `path` against the best of `routes` for it.
pub open spec fn is_match_of<B>(routes: Seq<Arc<Route<B>>>, path: Seq<char>, found: RouteMatch) -> bool {
    &&& found.wf()
    &&& found.path@ == path
    &&& found.query@.len() == 0
    &&& best_matching(routes, path) matches Some(k) && flat_match(routes[k].config.path@, path)
        == Some(found.params@)
}

/// Every remembered match is the match of its path against `routes`.
pub open spec fn coherent<B>(routes: Seq<Arc<Route<B>>>, remembered: Seq<(Seq<char>, RouteMatch)>) -> bool {
    forall|i: int|
        0 <= i < remembered.len() ==> is_match_of(routes, (#[trigger] remembered[i]).0, remembered[i].1)
}

/// At most one route is the best for a path.
pub proof fn law_best_matching_unique<B>(routes: Seq<Arc<Route<B>>>, path: Seq<char>, i: int)
    requires
        is_best_matching(routes, path, i),
    ensures
        best_matching(routes, path) == Some(i),
{
    let j = choose|j: int| is_best_matching(routes, path, j);
    assert(is_preferred(routes, i, j));
    assert(is_preferred(routes, j, i));
}

/// Some route is the best for a path exactly if some route matches it.
pub proof fn law_best_matching_exists<B>(routes: Seq<Arc<Route<B>>>, path: Seq<char>)
    ensures
        best_matching(routes, path) is Some <==> exists|k: int|
            0 <= k < routes.len() && route_matches(routes, path, k),
{
    if exists|k: int| 0 <= k < routes.len() && route_matches(routes, path, k) {
        let k = choose|k: int| 0 <= k < routes.len() && route_matches(routes, path, k);
        let n = routes.len() as int;
        lemma_best_below(routes, path, n, k);
        let b = choose|b: int| is_best_below(routes, path, n, b);
        assert(is_best_matching(routes, path, b));
    }
    if best_matching(routes, path) is Some {
        let i = choose|i: int| is_best_matching(routes, path, i);
        assert(0 <= i < routes.len() && route_matches(routes, path, i));
    }
}

/// The route at `b` is the best for `path` among the first `n` routes.
pub open spec fn is_best_below<B>(routes: Seq<Arc<Route<B>>>, path: Seq<char>, n: int, b: int) -> bool {
    &&& 0 <= b < n <= routes.len()
    &&& route_matches(routes, path, b)
    &&& forall|j: int|
        0 <= j < n && #[trigger] route_matches(routes, path, j) ==> is_preferred(routes, b, j)
}

proof fn lemma_best_below<B>(routes: Seq<Arc<Route<B>>>, path: Seq<char>, n: int, k: int)
    requires
        0 <= k < n <= routes.len(),
        route_matches(routes, path, k),
    ensures
        exists|b: int| is_best_below(routes, path, n, b),
    decreases n,
{
    let m = n - 1;
    if k == m {
        if exists|j: int| 0 <= j < m && route_matches(routes, path, j) {
            let j = choose|j: int| 0 <= j < m && route_matches(routes, path, j);
            lemma_best_below(routes, path, m, j);
            let b = choose|b: int| is_best_below(routes, path, m, b);
            if is_preferred(routes, b, k) {
                assert(is_best_below(routes, path, n, b));
            } else {
                assert(is_best_below(routes, path, n, k));
            }
        } else {
            assert(is_best_below(routes, path, n, k));
        }
    } else {
        lemma_best_below(routes, path, m, k);
        let b = choose|b: int| is_best_below(routes, path, m, b);
        if route_matches(routes, path, m) && !is_preferred(routes, b, m) {
            assert(is_best_below(routes, path, n, m));
        } else {
            assert(is_best_below(routes, path, n, b));
        }
    }
}

proof fn lemma_none_matching<B>(routes: Seq<Arc<Route<B>>>, path: Seq<char>)
    requires
        forall|k: int| 0 <= k < routes.len() ==> !#[trigger] route_matches(routes, path, k),
    ensures
        best_matching(routes, path) is None,
{
    if exists|i: int| is_best_matching(routes, path, i) {
        let j = choose|j: int| is_best_matching(routes, path, j);
        assert(!route_matches(routes, path, j));
    }
}

/// The event that a router reports for an event of its history.
fn route_change(event: NavigationEvent) -> (r: RouteChangeEvent)
    ensures
        r.from == event.from,
        r.to == event.to,
        r.direction == event.direction,
{
    RouteChangeEvent { from: event.from, to: event.to, direction: event.direction }
}

/// The state of a router.
#[derive(Debug, Clone)]
pub struct RouterState<B> {
    history: History,
    routes: Vec<Arc<Route<B>>>,
    cache: KeyedList<RouteMatch>,
}

impl<B> RouterState<B> {
    /// The history.
    pub closed spec fn history(&self) -> HistoryView {
        self.history@
    }

    /// The vector of the registered routes.
    pub closed spec fn route_vec(&self) -> Vec<Arc<Route<B>>> {
        self.routes
    }

    /// The registered routes, in the order of their registration.
    pub open spec fn route_table(&self) -> Seq<Arc<Route<B>>> {
        self.route_vec()@
    }

    /// The remembered matches are those of the registered routes.
    pub closed spec fn inv(&self) -> bool {
        &&& self.cache.wf()
        &&& coherent(self.routes@, self.cache@)
    }

    /// The history has an entry under its cursor and no size limit, and the
    /// remembered matches are those of the registered routes.
    pub open spec fn wf(&self) -> bool {
        &&& self.history().wf()
        &&& self.history().max_size == 0
        &&& self.inv()
    }

    /// The state of a router at `/`, without routes.
    pub fn new() -> (r: Self)
        ensures
            r.wf(),
            r.history().entries == seq![EntryView { path: "/"@, state: None }],
            r.history().current == 0,
            r.route_table().len() == 0,
    {
        RouterState {
            history: History::with_max_size("/".to_owned(), 0),
            routes: Vec::new(),
            cache: KeyedList::new(),
        }
    }

    /// Registers `route` after the routes registered so far. The
    /// remembered matches are forgotten.
    pub fn add_route(&mut self, route: Route<B>)
        requires
            old(self).wf(),
        ensures
            final(self).wf(),
            final(self).history() == old(self).history(),
            final(self).route_table().len() == old(self).route_table().len() + 1,
            final(self).route_table().drop_last() == old(self).route_table(),
            *final(self).route_table().last() == route,
    {
        self.routes.push(Arc::new(route));
        self.cache.clear();
        assert(self.routes@.drop_last() =~= old(self).routes@);
    }

    /// The current path.
    pub fn current_path(&self) -> (r: &str)
        requires
            self.wf(),
        ensures
            r@ == self.history().current_path(),
    {
        self.history.current_path()
    }

    /// The registered routes.
    pub fn routes(&self) -> (r: &Vec<Arc<Route<B>>>)
        ensures
            *r == self.route_vec(),
    {
        &self.routes
    }

    /// The position of the best route for `path`.
    fn best_index(&self, path: &str) -> (r: Option<usize>)
        ensures
            match best_matching(self.route_table(), path@) {
                Some(k) => r matches Some(i) && i == k && 0 <= k < self.route_table().len(),
                None => r is None,
            },
    {
        let mut best: Option<usize> = None;
        let mut best_priority: i128 = 0;
        let mut i: usize = 0;
        while i < self.routes.len()
            invariant
                i <= self.routes.len(),
                match best {
                    Some(b) => is_best_below(self.routes@, path@, i as int, b as int)
                        && best_priority == route_priority(*self.routes@[b as int]),
                    None => forall|k: int|
                        0 <= k < i ==> !#[trigger] route_matches(self.routes@, path@, k),
                },
            decreases self.routes.len() - i,
        {
            if self.routes[i].matches(path).is_some() {
                let priority = RoutePattern::from_path(self.routes[i].config.path.as_str()).priority;
                let better = match best {
                    Some(_) => best_priority < priority,
                    None => true,
                };
                if better {
                    best = Some(i);
                    best_priority = priority;
                }
            }
            i += 1;
        }
        match best {
            Some(b) => {
                proof {
                    assert(is_best_matching(self.routes@, path@, b as int));
                    law_best_matching_unique(self.routes@, path@, b as int);
                }
                Some(b)
            },
            None => {
                proof {
                    lemma_none_matching(self.routes@, path@);
                }
                None
            },
        }
    }

    fn compute_match(&self) -> (r: Option<RouteMatch>)
        requires
            self.wf(),
        ensures
            match best_matching(self.route_table(), self.history().current_path()) {
                Some(k) => r matches Some(found) && is_match_of(
                    self.route_table(),
                    self.history().current_path(),
                    found,
                ),
                None => r is None,
            },
    {
        let path = self.history.current_path();
        match self.best_index(path) {
            Some(i) => self.routes[i].matches(path),
            None => None,
        }
    }

    /// The match of the current path against the best route for it. The
    /// match is remembered for the next call.
    pub fn current_match(&mut self) -> (r: Option<RouteMatch>)
        requires
            old(self).wf(),
        ensures
            final(self).wf(),
            final(self).history() == old(self).history(),
            final(self).route_table() == old(self).route_table(),
            match best_matching(old(self).route_table(), old(self).history().current_path()) {
                Some(k) => r matches Some(found) && is_match_of(
                    old(self).route_table(),
                    old(self).history().current_path(),
                    found,
                ),
                None => r is None,
            },
    {
        match self.current_match_immutable() {
            Some(found) => {
                let key = self.history.current_path().to_owned();
                let kept = found.clone();
                proof {
                    let m = self.cache@;
                    let after = crate::keyed::put(m, key@, kept);
                    crate::keyed::lemma_put(m, key@, kept);
                    if has_key(m, key@) {
                        crate::keyed::lemma_has_key(m, key@);
                    }
                    assert forall|i: int| 0 <= i < after.len() implies is_match_of(
                        self.routes@,
                        (#[trigger] after[i]).0,
                        after[i].1,
                    ) by {
                        if has_key(m, key@) && i == key_index(m, key@) {
                        } else if i < m.len() {
                            assert(after[i] == m[i]);
                        }
                    }
                }
                self.cache.insert(key, kept);
                Some(found)
            },
            None => None,
        }
    }

    /// The match of the current path, without remembering it.
    pub fn current_match_immutable(&self) -> (r: Option<RouteMatch>)
        requires
            self.wf(),
        ensures
            match best_matching(self.route_table(), self.history().current_path()) {
                Some(k) => r matches Some(found) && is_match_of(
                    self.route_table(),
                    self.history().current_path(),
                    found,
                ),
                None => r is None,
            },
    {
        let path = self.history.current_path();
        match self.cache.position(path) {
            Some(i) => {
                assert(is_match_of(self.routes@, self.cache@[i as int].0, self.cache@[i as int].1));
                let found = self.cache.value_at(i).clone();
                Some(found)
            },
            None => self.compute_match(),
        }
    }

    /// The best route for `path`: of the routes that match it, the one of
    /// the highest priority, and the one registered first among several of
    /// that priority.
    pub fn find_route(&self, path: &str) -> (r: Option<&Arc<Route<B>>>)
        ensures
            match best_matching(self.route_table(), path@) {
                Some(k) => r matches Some(route) && *route == self.route_table()[k],
                None => r is None,
            },
    {
        match self.best_index(path) {
            Some(i) => Some(&self.routes[i]),
            None => None,
        }
    }

    /// The best route for the current path.
    pub fn current_route(&self) -> (r: Option<&Arc<Route<B>>>)
        requires
            self.wf(),
        ensures
            match best_matching(self.route_table(), self.history().current_path()) {
                Some(k) => r matches Some(route) && *route == self.route_table()[k],
                None => r is None,
            },
    {
        self.find_route(self.history.current_path())
    }

    /// Navigates to `path`: what lies after the current entry of the
    /// history is dropped and `path` is appended and becomes current.
    pub fn push(&mut self, path: String) -> (event: RouteChangeEvent)
        requires
            old(self).wf(),
        ensures
            final(self).wf(),
            final(self).route_table() == old(self).route_table(),
            final(self).history() == old(self).history().push(
                EntryView { path: path@, state: None },
            ),
            event.from matches Some(from) && from@ == old(self).history().current_path(),
            event.to@ == path@,
            event.direction == crate::NavigationDirection::Forward,
    {
        route_change(self.history.push(path))
    }

    /// Replaces the current path by `path`.
    pub fn replace(&mut self, path: String) -> (event: RouteChangeEvent)
        requires
            old(self).wf(),
        ensures
            final(self).wf(),
            final(self).route_table() == old(self).route_table(),
            final(self).history() == old(self).history().replace(
                EntryView { path: path@, state: None },
            ),
            event.from matches Some(from) && from@ == old(self).history().current_path(),
            event.to@ == path@,
            event.direction == crate::NavigationDirection::Replace,
    {
        route_change(self.history.replace(path))
    }

    /// Goes one entry back, if there is one.
    pub fn back(&mut self) -> (r: Option<RouteChangeEvent>)
        requires
            old(self).wf(),
        ensures
            final(self).wf(),
            final(self).route_table() == old(self).route_table(),
            final(self).history() == old(self).history().back(),
            r.is_some() == old(self).history().can_go_back(),
            r matches Some(event) ==> (event.from matches Some(from) && from@ == old(self).history().current_path()) && event.to@ == final(self).history().current_path()
                && event.direction == crate::NavigationDirection::Back,
    {
        match self.history.back() {
            Some(event) => Some(route_change(event)),
            None => None,
        }
    }

    /// Goes one entry forward, if there is one.
    pub fn forward(&mut self) -> (r: Option<RouteChangeEvent>)
        requires
            old(self).wf(),
        ensures
            final(self).wf(),
            final(self).route_table() == old(self).route_table(),
            final(self).history() == old(self).history().forward(),
            r.is_some() == old(self).history().can_go_forward(),
            r matches Some(event) ==> (event.from matches Some(from) && from@ == old(self).history().current_path()) && event.to@ == final(self).history().current_path()
                && event.direction == crate::NavigationDirection::Forward,
    {
        match self.history.forward() {
            Some(event) => Some(route_change(event)),
            None => None,
        }
    }

    /// Number of entries of the history.
    pub fn history_len(&self) -> (n: usize)
        ensures
            n == self.history().entries.len(),
    {
        self.history.len()
    }

    /// Whether there is an entry to go back to.
    pub fn can_go_back(&self) -> (r: bool)
        ensures
            r == self.history().can_go_back(),
    {
        self.history.can_go_back()
    }

    /// Whether there is an entry to go forward to.
    pub fn can_go_forward(&self) -> (r: bool)
        requires
            self.wf(),
        ensures
            r == self.history().can_go_forward(),
    {
        self.history.can_go_forward()
    }

    /// Resets the history to `/` and forgets the remembered matches.
    pub fn clear(&mut self)
        requires
            old(self).wf(),
        ensures
            final(self).wf(),
            final(self).route_table() == old(self).route_table(),
            final(self).history().entries == seq![EntryView { path: "/"@, state: None }],
            final(self).history().current == 0,
    {
        self.history.clear("/".to_owned());
        self.cache.clear();
    }
}

impl<B> Default for RouterState<B> {
    /// The state of a router at `/`, without routes.
    fn default() -> (r: Self)
        ensures
            r.wf(),
            r.history().entries == seq![EntryView { path: "/"@, state: None }],
            r.history().current == 0,
            r.route_table().len() == 0,
    {
        RouterState::new()
    }
}

/// A router: the owner of a router state.
#[derive(Debug)]
pub struct Router<B> {
    state: RouterState<B>,
}

impl<B> Router<B> {
    /// The state of the router.
    pub closed spec fn view_state(&self) -> RouterState<B> {
        self.state
    }

    /// A router at `/`, without routes.
    pub fn new() -> (r: Self)
        ensures
            r.view_state().wf(),
            r.view_state().history().current_path() == "/"@,
            r.view_state().route_table().len() == 0,
    {
        Router { state: RouterState::new() }
    }

    /// The state of the router, to change it in place: what the caller
    /// leaves there is the router's state afterwards.
    pub fn state_mut(&mut self) -> (r: &mut RouterState<B>)
        ensures
            *r == old(self).view_state(),
            final(self).view_state() == *final(r),
    {
        &mut self.state
    }

    /// The state of the router.
    pub fn state(&self) -> (r: &RouterState<B>)
        ensures
            *r == self.view_state(),
    {
        &self.state
    }
}

impl<B> Default for Router<B> {
    /// A router at `/`, without routes.
    fn default() -> (r: Self)
        ensures
            r.view_state().wf(),
            r.view_state().history().current_path() == "/"@,
            r.view_state().route_table().len() == 0,
    {
        Router::new()
    }
}

} // verus!
