//! The router facade: the single point through which navigation goes. It
//! owns the router state, the resolution cache and the registry of named
//! routes, and clears the cache whenever the routes or the path change.

use crate::cache::{CacheStats, RouteCache};
use crate::error::NavigationResult;
use crate::guards::{GuardOutcome, GuardResult};
use crate::history::{EntryView, HistoryView};
use crate::keyed::{lookup, put};
use crate::lifecycle::{LifecycleOutcome, LifecycleResult};
use crate::nested::{
    find_parent_route_for_path, outlet_children, outlet_owner, outlet_view, resolve_child,
    resolve_child_route,
};
use crate::params::RouteParams;
use crate::route::{substitute, NamedRouteRegistry, Route};
use crate::state::{best_matching, is_match_of, RouterState};
use crate::{NavigationDirection, RouteChangeEvent, RouteMatch};
use std::sync::Arc;
use vstd::prelude::*;

verus! {

/// A request for a navigation: what guards and middleware are told.
#[derive(Debug)]
pub struct NavigationRequest {
    /// The path that is left.
    pub from: Option<String>,
    /// The path that is entered.
    pub to: String,
    /// The parameters of the route that is entered.
    pub params: RouteParams,
}

impl NavigationRequest {
    /// A request to enter `to`.
    pub fn new(to: String) -> (r: Self)
        ensures
            r.from is None,
            r.to == to,
            r.params@.len() == 0,
            r.params.wf(),
    {
        NavigationRequest { from: None, to, params: RouteParams::new() }
    }

    /// A request to leave `from` and enter `to`.
    pub fn with_from(to: String, from: String) -> (r: Self)
        ensures
            r.from == Some(from),
            r.to == to,
            r.params@.len() == 0,
            r.params.wf(),
    {
        NavigationRequest { from: Some(from), to, params: RouteParams::new() }
    }

    /// The request with its parameters set.
    pub fn with_params(self, params: RouteParams) -> (r: Self)
        ensures
            r.from == self.from,
            r.to == self.to,
            r.params == params,
    {
        NavigationRequest { from: self.from, to: self.to, params }
    }
}

/// What is asked of the host, or decided, at a point of a navigation.
#[derive(Debug, PartialEq)]
pub enum NavigationAction {
    /// Ask the route that is left whether it can be left.
    CanDeactivate,
    /// Run the guards of the route that is entered.
    RunGuards,
    /// Ask the route that is entered whether it can be entered.
    OnEnter,
    /// Every check passed: the navigation may be committed.
    Commit,
    /// A check refused: the navigation must not be committed.
    Block { reason: String, redirect: Option<String> },
}

/// A `NavigationAction` with its texts as characters.
pub enum ActionView {
    CanDeactivate,
    RunGuards,
    OnEnter,
    Commit,
    Block { reason: Seq<char>, redirect: Option<Seq<char>> },
}

impl View for NavigationAction {
    type V = ActionView;

    open spec fn view(&self) -> ActionView {
        match self {
            NavigationAction::CanDeactivate => ActionView::CanDeactivate,
            NavigationAction::RunGuards => ActionView::RunGuards,
            NavigationAction::OnEnter => ActionView::OnEnter,
            NavigationAction::Commit => ActionView::Commit,
            NavigationAction::Block { reason, redirect } => ActionView::Block {
                reason: reason@,
                redirect: match redirect {
                    Some(to) => Some(to@),
                    None => None,
                },
            },
        }
    }
}

/// What follows the answer of a lifecycle hook: `next` if it lets the
/// navigation go on, and a block otherwise.
pub open spec fn after_hook(outcome: LifecycleOutcome, next: ActionView) -> ActionView {
    match outcome {
        LifecycleOutcome::Continue => next,
        LifecycleOutcome::Abort { reason } => ActionView::Block { reason, redirect: None },
        LifecycleOutcome::Redirect { to } => ActionView::Block {
            reason: Seq::empty(),
            redirect: Some(to),
        },
    }
}

/// What follows the answer of the guards: the entry hook if they allow,
/// and a block otherwise.
pub open spec fn after_guard_run(outcome: GuardOutcome) -> ActionView {
    match outcome {
        GuardOutcome::Allow => ActionView::OnEnter,
        GuardOutcome::Deny { reason } => ActionView::Block { reason, redirect: None },
        GuardOutcome::Redirect { to, reason } => ActionView::Block {
            reason: match reason {
                Some(r) => r,
                None => Seq::empty(),
            },
            redirect: Some(to),
        },
    }
}

impl NavigationAction {
    /// The first step of a navigation: ask the route that is left.
    pub fn begin() -> (r: Self)
        ensures
            r@ == ActionView::CanDeactivate,
    {
        NavigationAction::CanDeactivate
    }

    fn after_lifecycle(result: LifecycleResult, next: NavigationAction) -> (r: Self)
        ensures
            r@ == after_hook(result@, next@),
    {
        match result {
            LifecycleResult::Continue => next,
            LifecycleResult::Abort { reason } => NavigationAction::Block { reason, redirect: None },
            LifecycleResult::Redirect { to } => NavigationAction::Block {
                reason: String::new(),
                redirect: Some(to),
            },
        }
    }

    /// The step after the route that is left has answered: the guards, or
    /// a block.
    pub fn after_can_deactivate(result: LifecycleResult) -> (r: Self)
        ensures
            r@ == after_hook(result@, ActionView::RunGuards),
    {
        NavigationAction::after_lifecycle(result, NavigationAction::RunGuards)
    }

    /// The step after the guards have answered: the entry hook, or a block.
    pub fn after_guards(result: GuardResult) -> (r: Self)
        ensures
            r@ == after_guard_run(result@),
    {
        match result {
            GuardResult::Allow => NavigationAction::OnEnter,
            GuardResult::Deny { reason } => NavigationAction::Block { reason, redirect: None },
            GuardResult::Redirect { to, reason } => {
                let reason = match reason {
                    Some(r) => r,
                    None => String::new(),
                };
                NavigationAction::Block { reason, redirect: Some(to) }
            },
        }
    }

    /// The step after the route that is entered has answered: the commit,
    /// or a block.
    pub fn after_on_enter(result: LifecycleResult) -> (r: Self)
        ensures
            r@ == after_hook(result@, ActionView::Commit),
    {
        NavigationAction::after_lifecycle(result, NavigationAction::Commit)
    }
}

/// Stands for a navigation that has begun. A navigation is superseded
/// as soon as another one begins.
#[derive(Debug, Clone, Copy, PartialEq, Eq, Structural)]
pub struct NavigationTicket {
    number: u64,
}

impl NavigationTicket {
    /// The number of the navigation, counted from the first.
    pub closed spec fn number(self) -> int {
        self.number as int
    }
}

/// What an outlet shows.
#[derive(Debug)]
pub enum OutletResolution<B> {
    /// No router is configured.
    NoRouter,
    /// No route with children is on the way to the current path.
    NoParent,
    /// No child of the owner of the outlet answers to the current path.
    NoChild,
    /// The child that fills the outlet has no builder.
    NoBuilder(Arc<Route<B>>),
    /// The child that fills the outlet, with the merged parameters.
    Resolved(Arc<Route<B>>, RouteParams),
}

impl<B> OutletResolution<B> {
    /// Whether no route was found for the outlet.
    pub fn is_not_found(&self) -> (r: bool)
        ensures
            r == (self is NoParent || self is NoChild),
    {
        match self {
            OutletResolution::NoParent => true,
            OutletResolution::NoChild => true,
            _ => false,
        }
    }
}

/// The router facade.
#[derive(Debug, Clone)]
pub struct GlobalRouter<B> {
    state: RouterState<B>,
    nested_cache: RouteCache,
    named_routes: NamedRouteRegistry,
    navigations: u64,
}

impl<B> GlobalRouter<B> {
    /// The state of the router.
    pub closed spec fn router_state(&self) -> RouterState<B> {
        self.state
    }

    /// The resolution cache.
    pub closed spec fn cache(&self) -> RouteCache {
        self.nested_cache
    }

    /// The named routes: names and path patterns.
    pub closed spec fn names(&self) -> Seq<(Seq<char>, Seq<char>)> {
        self.named_routes@
    }

    /// The number of navigations that have begun: the number of the one
    /// that is not superseded.
    pub closed spec fn latest(&self) -> int {
        self.navigations as int
    }

    /// What `outlet` shows for the current path is `r`: the child of the
    /// owner of the outlet that answers to the path, with the parameters
    /// it binds, or the reason why there is none.
    pub open spec fn shows(&self, outlet: Option<Seq<char>>, r: OutletResolution<B>) -> bool {
        match outlet_owner(self.router_state().route_vec(), self.history().current_path()) {
            None => r is NoParent,
            Some(owner) => match resolve_child(
                *owner,
                self.history().current_path(),
                Seq::empty(),
                outlet,
            ) {
                None => r is NoChild,
                Some((i, merged)) => {
                    let child = outlet_children(*owner, outlet).unwrap()[i];
                    if child.builder is None {
                        r == OutletResolution::NoBuilder(child)
                    } else {
                        r matches OutletResolution::Resolved(found, params) && found == child
                            && params@ == merged
                    }
                },
            },
        }
    }

    /// The two routers differ at most in their history and their cache.
    pub open spec fn same_setup(&self, before: &Self) -> bool {
        &&& self.route_table() == before.route_table()
        &&& self.names() == before.names()
        &&& self.latest() == before.latest()
    }

    /// The history.
    pub open spec fn history(&self) -> HistoryView {
        self.router_state().history()
    }

    /// The registered routes.
    pub open spec fn route_table(&self) -> Seq<Arc<Route<B>>> {
        self.router_state().route_table()
    }

    /// The parts are well formed.
    pub open spec fn wf(&self) -> bool {
        &&& self.router_state().wf()
        &&& self.cache().wf()
        &&& crate::keyed::distinct_keys(self.names())
    }

    /// The cache can count one more invalidation.
    pub open spec fn can_invalidate(&self) -> bool {
        self.cache()@.stats.invalidations < usize::MAX
    }

    /// The cache was cleared once more, and nothing else about it changed.
    pub open spec fn cache_cleared(&self, before: &Self) -> bool {
        self.cache()@ == before.cache()@.clear()
    }

    /// A router at `/`, without routes.
    pub fn new() -> (r: Self)
        ensures
            r.wf(),
            r.history().entries == seq![EntryView { path: "/"@, state: None }],
            r.history().current == 0,
            r.route_table().len() == 0,
            r.names().len() == 0,
            r.cache()@ == RouteCache::empty_view(1000),
            r.latest() == 0,
    {
        GlobalRouter {
            state: RouterState::new(),
            nested_cache: RouteCache::new(),
            named_routes: NamedRouteRegistry::new(),
            navigations: 0,
        }
    }

    /// Registers a top-level route. A route with a name is entered in the
    /// registry of named routes. The cache is cleared.
    pub fn add_route(&mut self, route: Route<B>)
        requires
            old(self).wf(),
            old(self).can_invalidate(),
        ensures
            final(self).wf(),
            final(self).cache_cleared(old(self)),
            final(self).history() == old(self).history(),
            final(self).route_table().len() == old(self).route_table().len() + 1,
            final(self).route_table().drop_last() == old(self).route_table(),
            *final(self).route_table().last() == route,
            final(self).names() == match route.config.name {
                Some(name) => put(old(self).names(), name@, route.config.path@),
                None => old(self).names(),
            },
            final(self).latest() == old(self).latest(),
    {
        match &route.config.name {
            Some(name) => {
                self.named_routes.register(name.as_str(), route.config.path.as_str());
            },
            None => {},
        }
        self.state.add_route(route);
        self.nested_cache.clear();
    }

    /// Navigates to the named route `name` with `params`. A name that is
    /// not registered changes nothing and reports nothing.
    pub fn push_named(&mut self, name: &str, params: &RouteParams) -> (r: Option<RouteChangeEvent>)
        requires
            old(self).wf(),
            old(self).can_invalidate(),
        ensures
            final(self).wf(),
            final(self).same_setup(old(self)),
            match lookup(old(self).names(), name@) {
                Some(pattern) => r matches Some(event) && event.to@ == substitute(pattern, params@)
                    && final(self).history() == old(self).history().push(
                    EntryView { path: substitute(pattern, params@), state: None },
                ) && final(self).cache_cleared(old(self)),
                None => r is None && final(self).history() == old(self).history() && final(self).cache() == old(self).cache(),
            },
    {
        match self.named_routes.url_for(name, params) {
            Some(url) => Some(self.push(url)),
            None => None,
        }
    }

    /// The URL of the named route `name` for `params`.
    pub fn url_for(&self, name: &str, params: &RouteParams) -> (r: Option<String>)
        ensures
            match lookup(self.names(), name@) {
                Some(pattern) => r matches Some(url) && url@ == substitute(pattern, params@),
                None => r is None,
            },
    {
        self.named_routes.url_for(name, params)
    }

    /// Navigates to `path` and clears the cache.
    pub fn push(&mut self, path: String) -> (event: RouteChangeEvent)
        requires
            old(self).wf(),
            old(self).can_invalidate(),
        ensures
            final(self).wf(),
            final(self).cache_cleared(old(self)),
            final(self).same_setup(old(self)),
            final(self).history() == old(self).history().push(
                EntryView { path: path@, state: None },
            ),
            event.from matches Some(from) && from@ == old(self).history().current_path(),
            event.to@ == path@,
            event.direction == NavigationDirection::Forward,
    {
        self.nested_cache.clear();
        self.state.push(path)
    }

    /// Replaces the current path by `path` and clears the cache.
    pub fn replace(&mut self, path: String) -> (event: RouteChangeEvent)
        requires
            old(self).wf(),
            old(self).can_invalidate(),
        ensures
            final(self).wf(),
            final(self).cache_cleared(old(self)),
            final(self).same_setup(old(self)),
            final(self).history() == old(self).history().replace(
                EntryView { path: path@, state: None },
            ),
            event.from matches Some(from) && from@ == old(self).history().current_path(),
            event.to@ == path@,
            event.direction == NavigationDirection::Replace,
    {
        self.nested_cache.clear();
        self.state.replace(path)
    }

    /// Goes one entry back, if there is one, and clears the cache.
    pub fn back(&mut self) -> (r: Option<RouteChangeEvent>)
        requires
            old(self).wf(),
            old(self).can_invalidate(),
        ensures
            final(self).wf(),
            final(self).cache_cleared(old(self)),
            final(self).same_setup(old(self)),
            final(self).history() == old(self).history().back(),
            r.is_some() == old(self).history().can_go_back(),
            r matches Some(event) ==> (event.from matches Some(from) && from@ == old(self).history().current_path()) && event.to@ == final(self).history().current_path()
                && event.direction == NavigationDirection::Back,
    {
        self.nested_cache.clear();
        self.state.back()
    }

    /// Goes one entry forward, if there is one, and clears the cache.
    pub fn forward(&mut self) -> (r: Option<RouteChangeEvent>)
        requires
            old(self).wf(),
            old(self).can_invalidate(),
        ensures
            final(self).wf(),
            final(self).cache_cleared(old(self)),
            final(self).same_setup(old(self)),
            final(self).history() == old(self).history().forward(),
            r.is_some() == old(self).history().can_go_forward(),
            r matches Some(event) ==> (event.from matches Some(from) && from@ == old(self).history().current_path()) && event.to@ == final(self).history().current_path()
                && event.direction == NavigationDirection::Forward,
    {
        self.nested_cache.clear();
        self.state.forward()
    }

    /// Begins a navigation. Every navigation that began before is
    /// superseded from now on.
    pub fn begin_navigation(&mut self) -> (ticket: NavigationTicket)
        requires
            old(self).latest() < u64::MAX,
        ensures
            final(self).latest() == old(self).latest() + 1,
            ticket.number() == final(self).latest(),
            final(self).router_state() == old(self).router_state(),
            final(self).cache() == old(self).cache(),
            final(self).names() == old(self).names(),
    {
        self.navigations += 1;
        NavigationTicket { number: self.navigations }
    }

    /// The number of navigations that have begun.
    pub fn latest_number(&self) -> (n: u64)
        ensures
            n == self.latest(),
    {
        self.navigations
    }

    /// Whether the navigation of `ticket` is not superseded.
    pub fn is_current(&self, ticket: NavigationTicket) -> (r: bool)
        ensures
            r == (ticket.number() == self.latest()),
    {
        ticket.number == self.navigations
    }

    /// Ends the navigation of `ticket` to `path` as `action` says.
    ///
    /// Only `Commit` changes the router: it pushes `path`. A block leaves
    /// the history and the cache as they are and reports the reason and
    /// where to go instead. A navigation whose checks are not over is not
    /// committed, and neither is one that was superseded while its checks
    /// ran: what they decided is discarded.
    pub fn navigate(&mut self, ticket: NavigationTicket, path: String, action: NavigationAction) -> (r:
        NavigationResult)
        requires
            old(self).wf(),
            old(self).can_invalidate(),
        ensures
            final(self).wf(),
            final(self).same_setup(old(self)),
            if ticket.number() != old(self).latest() {
                final(self).history() == old(self).history() && final(self).cache() == old(self).cache() && r is Error
            } else {
                match action@ {
                    ActionView::Commit => final(self).history() == old(self).history().push(
                        EntryView { path: path@, state: None },
                    ) && final(self).cache_cleared(old(self)) && (
                    r matches NavigationResult::Success { path: entered } && entered@ == path@),
                    ActionView::Block { reason, redirect } => final(self).history() == old(self).history() && final(self).cache() == old(self).cache() && (
                    r matches NavigationResult::Blocked { reason: why, redirect: to } && why@
                        == reason && redirect == match to {
                        Some(t) => Some(t@),
                        None => None,
                    }),
                    _ => final(self).history() == old(self).history() && final(self).cache()
                        == old(self).cache() && r is Error,
                }
            },
    {
        if !self.is_current(ticket) {
            return NavigationResult::Error(
                crate::error::NavigationError::NavigationFailed {
                    message: "navigation was superseded".to_owned(),
                },
            );
        }
        match action {
            NavigationAction::Commit => {
                let event = self.push(path);
                NavigationResult::Success { path: event.to }
            },
            NavigationAction::Block { reason, redirect } => NavigationResult::Blocked {
                reason,
                redirect,
            },
            _ => NavigationResult::Error(
                crate::error::NavigationError::NavigationFailed {
                    message: "navigation is not decided".to_owned(),
                },
            ),
        }
    }

    /// The current path.
    pub fn current_path(&self) -> (r: &str)
        requires
            self.wf(),
        ensures
            r@ == self.history().current_path(),
    {
        self.state.current_path()
    }

    /// The match of the current path against the best route for it: of the
    /// routes that match, the one of the highest priority, registered first.
    pub fn current_match(&mut self) -> (r: Option<RouteMatch>)
        requires
            old(self).wf(),
        ensures
            final(self).wf(),
            final(self).history() == old(self).history(),
            final(self).same_setup(old(self)),
            final(self).cache() == old(self).cache(),
            match best_matching(old(self).route_table(), old(self).history().current_path()) {
                Some(k) => r matches Some(found) && is_match_of(
                    old(self).route_table(),
                    old(self).history().current_path(),
                    found,
                ),
                None => r is None,
            },
    {
        self.state.current_match()
    }

    /// The match of the current path, computed without changing the router.
    pub fn current_match_immutable(&self) -> (r: Option<RouteMatch>)
        requires
            self.wf(),
        ensures
            match best_matching(self.route_table(), self.history().current_path()) {
                Some(k) => r matches Some(found) && is_match_of(
                    self.route_table(),
                    self.history().current_path(),
                    found,
                ),
                None => r is None,
            },
    {
        self.state.current_match_immutable()
    }

    /// The best route for the current path.
    pub fn current_route(&self) -> (r: Option<&Arc<Route<B>>>)
        requires
            self.wf(),
        ensures
            match best_matching(self.route_table(), self.history().current_path()) {
                Some(k) => r matches Some(route) && *route == self.route_table()[k],
                None => r is None,
            },
    {
        self.state.current_route()
    }

    /// The best route for `path`: the route whose guards and hooks a
    /// navigation to `path` has to pass.
    pub fn find_route(&self, path: &str) -> (r: Option<&Arc<Route<B>>>)
        ensures
            match best_matching(self.route_table(), path@) {
                Some(k) => r matches Some(route) && *route == self.route_table()[k],
                None => r is None,
            },
    {
        self.state.find_route(path)
    }

    /// Whether there is an entry to go back to.
    pub fn can_go_back(&self) -> (r: bool)
        ensures
            r == self.history().can_go_back(),
    {
        self.state.can_go_back()
    }

    /// Whether there is an entry to go forward to.
    pub fn can_go_forward(&self) -> (r: bool)
        requires
            self.wf(),
        ensures
            r == self.history().can_go_forward(),
    {
        self.state.can_go_forward()
    }

    /// The state of the router.
    pub fn state(&self) -> (r: &RouterState<B>)
        ensures
            *r == self.router_state(),
    {
        &self.state
    }

    /// The state of the router, to change it in place.
    pub fn state_mut(&mut self) -> (r: &mut RouterState<B>)
        ensures
            *r == old(self).router_state(),
            final(self).router_state() == *final(r),
            final(self).cache() == old(self).cache(),
            final(self).names() == old(self).names(),
            final(self).latest() == old(self).latest(),
    {
        &mut self.state
    }

    /// The resolution cache, to change it in place.
    pub fn nested_cache_mut(&mut self) -> (r: &mut RouteCache)
        ensures
            *r == old(self).cache(),
            final(self).cache() == *final(r),
            final(self).router_state() == old(self).router_state(),
            final(self).names() == old(self).names(),
            final(self).latest() == old(self).latest(),
    {
        &mut self.nested_cache
    }

    /// The counters of the cache.
    pub fn cache_stats(&self) -> (r: &CacheStats)
        ensures
            r@ == self.cache()@.stats,
    {
        self.nested_cache.stats()
    }

    /// What the outlet `outlet_name` shows for the current path: the child
    /// of the owner of the outlet that answers to the path, with the
    /// parameters it binds.
    pub fn resolve_outlet(&self, outlet_name: Option<&str>) -> (r: OutletResolution<B>)
        requires
            self.wf(),
        ensures
            self.shows(outlet_view(outlet_name), r),
    {
        let path = self.state.current_path();
        let owner = match find_parent_route_for_path(self.state.routes(), path) {
            Some(owner) => owner,
            None => {
                return OutletResolution::NoParent;
            },
        };
        let params = RouteParams::new();
        match resolve_child_route(owner, path, &params, outlet_name) {
            Some((child, merged)) => {
                if child.builder.is_none() {
                    OutletResolution::NoBuilder(child)
                } else {
                    OutletResolution::Resolved(child, merged)
                }
            },
            None => OutletResolution::NoChild,
        }
    }
}

impl<B> Default for GlobalRouter<B> {
    /// A router at `/`, without routes or names, with an empty cache.
    fn default() -> (r: Self)
        ensures
            r.wf(),
            r.history().entries == seq![EntryView { path: "/"@, state: None }],
            r.history().current == 0,
            r.route_table().len() == 0,
            r.names().len() == 0,
            r.cache()@ == RouteCache::empty_view(1000),
            r.latest() == 0,
    {
        GlobalRouter::new()
    }
}

/// What the outlet `outlet_name` shows, given the router if one is
/// configured.
pub fn render_router_outlet<B>(router: Option<&GlobalRouter<B>>, outlet_name: Option<&str>) -> (r:
    OutletResolution<B>)
    requires
        router matches Some(configured) ==> configured.wf(),
    ensures
        match router {
            Some(configured) => configured.shows(outlet_view(outlet_name), r),
            None => r is NoRouter,
        },
{
    match router {
        Some(configured) => configured.resolve_outlet(outlet_name),
        None => OutletResolution::NoRouter,
    }
}

} // verus!
