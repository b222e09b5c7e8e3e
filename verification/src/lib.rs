//! A verified navigation core: route patterns, nested route resolution,
//! history, resolution caching and the guard pipeline.

use vstd::prelude::*;

pub mod cache;
pub mod context;
pub mod error;
pub mod guards;
pub mod history;
pub mod keyed;
pub mod lifecycle;
pub mod matcher;
pub mod middleware;
pub mod nested;
pub mod params;
pub mod route;
pub mod state;
pub mod text;
pub mod transition;

use crate::keyed::{put, StringMap};

pub use crate::cache::{CacheStats, RouteCache, RouteId};
pub use crate::context::{
    render_router_outlet, GlobalRouter, NavigationAction, NavigationRequest, NavigationTicket,
    OutletResolution,
};
pub use crate::error::{NavigationError, NavigationResult};
pub use crate::guards::{
    guard_fn, AuthGuard, FnGuard, GuardBuilder, GuardContext, GuardResult, GuardRun, GuardStep,
    Guards, NotGuard, PermissionGuard, RoleGuard, RouteGuard,
};
pub use crate::history::{History, HistoryEntry, HistoryState, NavigationEvent};
pub use crate::lifecycle::LifecycleResult;
pub use crate::matcher::{best_match, Constraint, RoutePath, RoutePattern, Segment};
pub use crate::middleware::{middleware_fn, FnMiddleware, RouteMiddleware};
pub use crate::nested::{build_child_path, find_parent_route_for_path, resolve_child_route};
pub use crate::params::{QueryParams, RouteParams};
pub use crate::route::{
    validate_route_path, IntoRoute, NamedRoute, NamedRouteRegistry, PageRoute, Route, RouteConfig,
    RouteDescriptor,
};
pub use crate::state::{Router, RouterState};
pub use crate::transition::{OutletState, SlideDirection, TransitionConfig};

verus! {

/// The result of matching a path against a route.
#[derive(Debug)]
pub struct RouteMatch {
    /// The matched path.
    pub path: String,
    /// Parameters extracted from the path.
    pub params: StringMap,
    /// Parameters of the query string.
    pub query: StringMap,
}

impl Clone for RouteMatch {
    fn clone(&self) -> (r: Self)
        ensures
            r.path@ == self.path@,
            r.params@ == self.params@,
            r.query@ == self.query@,
    {
        RouteMatch {
            path: self.path.clone(),
            params: self.params.clone(),
            query: self.query.clone(),
        }
    }
}

impl RouteMatch {
    /// A match of `path` with no parameters.
    pub fn new(path: String) -> (r: Self)
        ensures
            r.path == path,
            r.params@.len() == 0,
            r.query@.len() == 0,
            r.wf(),
    {
        RouteMatch { path, params: StringMap::new(), query: StringMap::new() }
    }

    /// Both parameter maps hold each key once.
    pub open spec fn wf(&self) -> bool {
        self.params.wf() && self.query.wf()
    }

    /// The match with the route parameter `key` bound to `value`.
    pub fn with_param(self, key: String, value: String) -> (r: Self)
        ensures
            self.wf() ==> r.wf(),
            r.path == self.path,
            r.query == self.query,
            r.params@ == put(self.params@, key@, value@),
    {
        let mut m = self;
        m.params.insert(key, value);
        m
    }

    /// The match with the query parameter `key` bound to `value`.
    pub fn with_query(self, key: String, value: String) -> (r: Self)
        ensures
            self.wf() ==> r.wf(),
            r.path == self.path,
            r.params == self.params,
            r.query@ == put(self.query@, key@, value@),
    {
        let mut m = self;
        m.query.insert(key, value);
        m
    }
}

/// The direction of a navigation.
#[derive(Debug, Clone, Copy, PartialEq, Eq, Structural)]
pub enum NavigationDirection {
    /// To a new entry, or one step forward in the history.
    Forward,
    /// One step back in the history.
    Back,
    /// The current entry was overwritten.
    Replace,
}

/// What a router reports when the current path changes.
#[derive(Debug, Clone)]
pub struct RouteChangeEvent {
    /// The path that was current before.
    pub from: Option<String>,
    /// The path that is current now.
    pub to: String,
    /// The direction of the navigation.
    pub direction: NavigationDirection,
}

} // verus!
