use gpui_router::context::{
    render_router_outlet, GlobalRouter, NavigationAction, NavigationRequest, OutletResolution,
};
use gpui_router::guards::{GuardResult, Guards};
use gpui_router::lifecycle::LifecycleResult;
use gpui_router::params::RouteParams;
use gpui_router::route::Route;
use gpui_router::state::{Router, RouterState};
use gpui_router::{NavigationDirection, NavigationResult};
use std::sync::Arc;

fn route(path: &str) -> Route<u32> {
    Route::new(path, 0)
}

fn view(path: &str, builder: u32) -> Route<u32> {
    Route::new(path, builder)
}

fn dashboard_router() -> GlobalRouter<u32> {
    let mut router = GlobalRouter::new();
    router.add_route(view("/", 1));
    router.add_route(view("/dashboard", 2).children(vec![
        Arc::new(view("overview", 3)),
        Arc::new(view("analytics", 4)),
    ]));
    router.add_route(view("/dashboard/settings", 5));
    router
}

#[test]
fn test_navigation() {
    let mut state: RouterState<()> = RouterState::new();

    assert_eq!(state.current_path(), "/");

    state.push("/users".to_string());
    assert_eq!(state.current_path(), "/users");

    state.push("/users/123".to_string());
    assert_eq!(state.current_path(), "/users/123");

    state.back();
    assert_eq!(state.current_path(), "/users");

    state.forward();
    assert_eq!(state.current_path(), "/users/123");
}

#[test]
fn test_state_replace_and_clear() {
    let mut state: RouterState<()> = RouterState::new();

    state.push("/users".to_string());
    let event = state.replace("/posts".to_string());

    assert_eq!(state.current_path(), "/posts");
    assert_eq!(event.from, Some("/users".to_string()));
    assert_eq!(event.direction, NavigationDirection::Replace);
    assert!(state.can_go_back());
    assert!(!state.can_go_forward());
    state.back();
    assert_eq!(state.current_path(), "/");
    state.push("/a".to_string());
    state.clear();
    assert_eq!(state.current_path(), "/");
    assert!(!state.can_go_back());
    let router: Router<()> = Router::new();
    assert_eq!(router.state().current_path(), "/");
}

#[test]
fn test_outlet_shows_the_matching_child() {
    let mut router = dashboard_router();
    router.push("/dashboard/analytics".to_string());
    match router.resolve_outlet(None) {
        OutletResolution::Resolved(child, params) => {
            assert_eq!(child.config.path, "analytics");
            assert_eq!(child.builder, Some(4));
            assert!(params.is_empty());
        }
        _ => panic!("the analytics child fills the outlet"),
    }

    router.push("/dashboard/settings/:missing".to_string());
    let resolution = router.resolve_outlet(None);
    assert!(resolution.is_not_found());
    assert!(matches!(resolution, OutletResolution::NoParent));
}

#[test]
fn test_outlet_terminal_states() {
    let none: Option<&GlobalRouter<u32>> = None;
    assert!(matches!(
        render_router_outlet(none, None),
        OutletResolution::NoRouter
    ));
    assert!(!render_router_outlet(none, None).is_not_found());

    let mut router = dashboard_router();
    router.push("/dashboard/unknown".to_string());
    assert!(matches!(
        render_router_outlet(Some(&router), None),
        OutletResolution::NoParent
    ));

    router.push("/dashboard/overview".to_string());
    assert!(matches!(
        render_router_outlet(Some(&router), Some("sidebar")),
        OutletResolution::NoChild
    ));
    assert!(matches!(
        render_router_outlet(Some(&router), None),
        OutletResolution::Resolved(_, _)
    ));

    let mut layout = GlobalRouter::new();
    let mut bare = view("page", 9);
    bare.builder = None;
    layout.add_route(view("/docs", 1).children(vec![Arc::new(bare)]));
    layout.push("/docs/page".to_string());
    match layout.resolve_outlet(None) {
        OutletResolution::NoBuilder(child) => assert_eq!(child.config.path, "page"),
        _ => panic!("the child has no builder"),
    }
}

#[test]
fn test_named_route_url() {
    let mut router = GlobalRouter::new();
    router.add_route(route("/users/:id").name("user.detail"));
    let mut params = RouteParams::new();
    params.set("id".to_string(), "42".to_string());
    assert_eq!(
        router.url_for("user.detail", &params),
        Some("/users/42".to_string())
    );
    assert_eq!(router.url_for("unknown", &params), None);

    let event = router.push_named("user.detail", &params).unwrap();
    assert_eq!(event.to, "/users/42");
    assert_eq!(event.from, Some("/".to_string()));
    assert_eq!(router.current_path(), "/users/42");
    assert!(router.push_named("unknown", &params).is_none());
    assert_eq!(router.current_path(), "/users/42");
}

#[test]
fn test_router_navigation_and_matches() {
    let mut router = GlobalRouter::new();
    router.add_route(route("/"));
    router.add_route(route("/users"));
    router.add_route(view("/users/:id", 7));
    assert_eq!(router.current_path(), "/");
    assert!(!router.can_go_back());

    router.push("/users".to_string());
    router.push("/users/123".to_string());
    assert_eq!(router.current_path(), "/users/123");
    let found = router.current_match().unwrap();
    assert_eq!(found.path, "/users/123");
    assert_eq!(found.params.get("id"), Some(&"123".to_string()));
    let again = router.current_match().unwrap();
    assert_eq!(again.params.get("id"), Some(&"123".to_string()));
    assert_eq!(
        router.current_match_immutable().unwrap().params.len(),
        1
    );
    assert_eq!(router.current_route().unwrap().builder, Some(7));

    let event = router.back().unwrap();
    assert_eq!(event.direction, NavigationDirection::Back);
    assert_eq!(router.current_path(), "/users");
    assert!(router.can_go_forward());
    let event = router.forward().unwrap();
    assert_eq!(event.direction, NavigationDirection::Forward);
    assert!(router.forward().is_none());

    router.replace("/nowhere".to_string());
    assert_eq!(router.current_path(), "/nowhere");
    assert!(router.current_match().is_none());
    assert!(router.current_route().is_none());
    router.back();
    assert_eq!(router.current_path(), "/users");
    assert_eq!(router.state().routes().len(), 3);
}

#[test]
fn test_remembered_match_is_forgotten_when_routes_change() {
    let mut router = GlobalRouter::new();
    router.add_route(view("/:page", 1));
    router.push("/about".to_string());
    assert_eq!(
        router.current_match().unwrap().params.get("page"),
        Some(&"about".to_string())
    );
    let mut other = GlobalRouter::new();
    other.add_route(view("/about", 2));
    other.add_route(view("/:page", 1));
    other.push("/about".to_string());
    assert_eq!(other.current_match().unwrap().params.len(), 0);
    assert_eq!(other.current_route().unwrap().builder, Some(2));
}

#[test]
fn test_every_navigation_clears_the_cache() {
    let mut router: GlobalRouter<u32> = GlobalRouter::new();
    assert_eq!(router.cache_stats().invalidations, 0);
    router.add_route(route("/"));
    assert_eq!(router.cache_stats().invalidations, 1);
    router.push("/a".to_string());
    router.replace("/b".to_string());
    router.back();
    router.forward();
    assert_eq!(router.cache_stats().invalidations, 5);
    router.back();
    router.back();
    assert_eq!(router.cache_stats().invalidations, 7);
    assert_eq!(router.current_path(), "/");
}

#[test]
fn test_blocked_navigation_leaves_the_history_alone() {
    let mut router: GlobalRouter<u32> = GlobalRouter::new();
    router.push("/home".to_string());
    let invalidations = router.cache_stats().invalidations;

    let action = NavigationAction::after_guards(GuardResult::deny("no access"));
    let ticket = router.begin_navigation();
    let result = router.navigate(ticket, "/admin".to_string(), action);
    assert!(result.is_blocked());
    assert_eq!(result.redirect_path(), None);
    assert_eq!(router.current_path(), "/home");
    assert!(!router.can_go_forward());
    assert_eq!(router.cache_stats().invalidations, invalidations);

    let action =
        NavigationAction::after_guards(GuardResult::redirect_with_reason("/login", "sign in"));
    let ticket = router.begin_navigation();
    let result = router.navigate(ticket, "/admin".to_string(), action);
    assert_eq!(result.redirect_path(), Some("/login"));
    match result {
        NavigationResult::Blocked { reason, .. } => assert_eq!(reason, "sign in"),
        _ => panic!("a redirect blocks"),
    }
    assert_eq!(router.current_path(), "/home");

    let ticket = router.begin_navigation();
    let result = router.navigate(ticket, "/admin".to_string(), NavigationAction::RunGuards);
    assert!(result.is_error());
    assert_eq!(router.current_path(), "/home");

    let result = router.navigate(ticket, "/admin".to_string(), NavigationAction::Commit);
    assert!(result.is_success());
    assert_eq!(router.current_path(), "/admin");
    assert_eq!(router.cache_stats().invalidations, invalidations + 1);
}

#[test]
fn test_navigation_steps() {
    assert_eq!(NavigationAction::begin(), NavigationAction::CanDeactivate);
    assert_eq!(
        NavigationAction::after_can_deactivate(LifecycleResult::cont()),
        NavigationAction::RunGuards
    );
    assert_eq!(
        NavigationAction::after_can_deactivate(LifecycleResult::abort("unsaved")),
        NavigationAction::Block {
            reason: "unsaved".to_string(),
            redirect: None
        }
    );
    assert_eq!(
        NavigationAction::after_guards(GuardResult::allow()),
        NavigationAction::OnEnter
    );
    assert_eq!(
        NavigationAction::after_guards(GuardResult::redirect("/login")),
        NavigationAction::Block {
            reason: String::new(),
            redirect: Some("/login".to_string())
        }
    );
    assert_eq!(
        NavigationAction::after_on_enter(LifecycleResult::cont()),
        NavigationAction::Commit
    );
    assert_eq!(
        NavigationAction::after_on_enter(LifecycleResult::redirect("/other")),
        NavigationAction::Block {
            reason: String::new(),
            redirect: Some("/other".to_string())
        }
    );
}

#[test]
fn test_guards_decide_a_navigation() {
    let mut router: GlobalRouter<u32> = GlobalRouter::new();
    let guards = Guards::new(vec![100, 50, 10]);
    let answers = vec![
        GuardResult::allow(),
        GuardResult::deny("forbidden"),
        GuardResult::allow(),
    ];
    let (checked, answer) = guards.check(&answers);
    assert_eq!(checked, vec![0, 1]);
    let ticket = router.begin_navigation();
    let result = router.navigate(
        ticket,
        "/secret".to_string(),
        NavigationAction::after_guards(answer),
    );
    assert!(result.is_blocked());
    assert_eq!(router.current_path(), "/");
}

#[test]
fn test_navigation_request() {
    let request = NavigationRequest::new("/dashboard".to_string());
    assert_eq!(request.to, "/dashboard");
    assert_eq!(request.from, None);
    assert!(request.params.is_empty());
    let mut params = RouteParams::new();
    params.insert("id".to_string(), "1".to_string());
    let request =
        NavigationRequest::with_from("/b".to_string(), "/a".to_string()).with_params(params);
    assert_eq!(request.from, Some("/a".to_string()));
    assert_eq!(request.to, "/b");
    assert_eq!(request.params.get("id"), Some(&"1".to_string()));
}

#[test]
fn test_superseded_navigation_is_discarded() {
    let mut router: GlobalRouter<u32> = GlobalRouter::new();
    let first = router.begin_navigation();
    assert!(router.is_current(first));
    let second = router.begin_navigation();
    assert!(!router.is_current(first));
    assert!(router.is_current(second));
    assert_ne!(first, second);

    let result = router.navigate(first, "/stale".to_string(), NavigationAction::Commit);
    assert!(result.is_error());
    assert_eq!(router.current_path(), "/");
    assert_eq!(router.cache_stats().invalidations, 0);

    let result = router.navigate(second, "/fresh".to_string(), NavigationAction::Commit);
    assert!(result.is_success());
    assert_eq!(router.current_path(), "/fresh");
}

#[test]
fn test_guards_of_the_entered_route() {
    let mut router: GlobalRouter<u32> = GlobalRouter::new();
    router.add_route(
        Route::new("/admin", 1)
            .guard(10)
            .guards(vec![100, 50])
            .middleware(1)
            .middlewares(vec![3, 2])
            .lifecycle(),
    );
    assert!(router.find_route("/nowhere").is_none());
    let entered = router.find_route("/admin").unwrap().clone();
    assert!(entered.lifecycle);
    assert_eq!(entered.guards, vec![10, 100, 50]);
    assert_eq!(entered.middleware_order(), vec![1, 2, 0]);
    let guards = entered.guard_set();
    assert_eq!(guards.order(), vec![1, 2, 0]);
    let (checked, answer) = guards.check(&vec![
        GuardResult::deny("never asked"),
        GuardResult::allow(),
        GuardResult::redirect("/login"),
    ]);
    assert_eq!(checked, vec![1, 2]);
    let ticket = router.begin_navigation();
    let result = router.navigate(
        ticket,
        "/admin".to_string(),
        NavigationAction::after_guards(answer),
    );
    assert_eq!(result.redirect_path(), Some("/login"));
    assert_eq!(router.current_path(), "/");
}

#[test]
fn test_mutable_access_to_the_parts() {
    let mut router: GlobalRouter<u32> = GlobalRouter::new();
    router.state_mut().push("/direct".to_string());
    assert_eq!(router.current_path(), "/direct");
    router
        .nested_cache_mut()
        .set_parent("/direct".to_string(), gpui_router::RouteId::from_path("/"));
    assert_eq!(router.state().routes().len(), 0);
    assert_eq!(
        router.nested_cache_mut().get_parent("/direct").unwrap().path,
        "/"
    );
    assert_eq!(router.cache_stats().parent_hits, 1);
}

#[test]
fn test_router_state_mut_changes_the_router() {
    let mut router: Router<u32> = Router::new();
    router.state_mut().add_route(view("/users/:id", 7));
    router.state_mut().push("/users/9".to_string());
    assert_eq!(router.state().current_path(), "/users/9");
    assert_eq!(router.state().routes().len(), 1);
    assert!(router.state().can_go_back());
    let state = router.state_mut();
    state.back();
    assert_eq!(router.state().current_path(), "/");
    assert!(router.state().can_go_forward());
}

#[test]
fn test_defaults_are_fresh_routers() {
    let state: RouterState<u32> = RouterState::default();
    assert_eq!(state.current_path(), "/");
    assert_eq!(state.history_len(), 1);
    assert!(state.routes().is_empty());
    assert!(!state.can_go_back());
    assert!(!state.can_go_forward());

    let router: Router<u32> = Router::default();
    assert_eq!(router.state().current_path(), "/");
    assert!(router.state().routes().is_empty());

    let global: GlobalRouter<u32> = GlobalRouter::default();
    assert_eq!(global.current_path(), "/");
    assert!(global.state().routes().is_empty());
    assert!(!global.can_go_back());
    assert!(!global.can_go_forward());
    assert_eq!(global.latest_number(), 0);
    assert_eq!(global.cache_stats().parent_hits, 0);
    assert_eq!(global.cache_stats().child_misses, 0);
    assert_eq!(global.cache_stats().invalidations, 0);
    assert!(global.url_for("home", &RouteParams::new()).is_none());
}

#[test]
fn test_clones_are_independent() {
    let mut state: RouterState<u32> = RouterState::new();
    state.add_route(view("/a", 1));
    state.push("/a".to_string());
    let mut copy = state.clone();
    assert_eq!(copy.current_path(), "/a");
    assert_eq!(copy.history_len(), 2);
    assert_eq!(copy.routes().len(), 1);
    copy.push("/b".to_string());
    copy.add_route(view("/b", 2));
    assert_eq!(copy.current_path(), "/b");
    assert_eq!(state.current_path(), "/a");
    assert_eq!(state.history_len(), 2);
    assert_eq!(state.routes().len(), 1);

    let mut router = dashboard_router();
    router.push("/dashboard".to_string());
    let mut copy = router.clone();
    assert_eq!(copy.current_path(), "/dashboard");
    assert_eq!(copy.state().routes().len(), 3);
    assert!(copy.can_go_back());
    copy.back();
    assert_eq!(copy.current_path(), "/");
    assert_eq!(router.current_path(), "/dashboard");
}

#[test]
fn test_router_prefers_the_static_route() {
    let mut state: RouterState<u32> = RouterState::new();
    state.add_route(view("/users/:id", 1));
    state.add_route(view("/users/new", 2));
    state.push("/users/new".to_string());
    assert_eq!(state.current_route().unwrap().builder, Some(2));
    assert_eq!(state.find_route("/users/new").unwrap().config.path, "/users/new");
    let found = state.current_match().unwrap();
    assert_eq!(found.path, "/users/new");
    assert!(found.params.is_empty());
    assert!(state.current_match_immutable().unwrap().params.is_empty());

    state.push("/users/7".to_string());
    assert_eq!(state.current_route().unwrap().builder, Some(1));
    let found = state.current_match().unwrap();
    assert_eq!(found.params.get("id"), Some(&"7".to_string()));
}

#[test]
fn test_router_prefers_registration_order_among_equal_priorities() {
    let mut state: RouterState<u32> = RouterState::new();
    state.add_route(view("/*", 1));
    state.add_route(view("/a/:x", 2));
    state.add_route(view("/a/:y", 3));
    state.add_route(view("/:p/:q", 4));
    state.add_route(view("/a/b", 5));
    state.add_route(view("/a/b", 6));
    assert_eq!(state.find_route("/a/b").unwrap().builder, Some(5));
    assert_eq!(state.find_route("/a/c").unwrap().builder, Some(2));
    assert_eq!(state.find_route("/c/d").unwrap().builder, Some(4));
    assert_eq!(state.find_route("/c").unwrap().builder, Some(1));
    assert_eq!(state.find_route("/c/d/e").unwrap().builder, Some(1));
    state.push("/a/c".to_string());
    let found = state.current_match().unwrap();
    assert_eq!(found.params.get("x"), Some(&"c".to_string()));
    assert_eq!(found.params.get("y"), None);
}

#[test]
fn test_global_router_prefers_the_higher_priority() {
    let mut router: GlobalRouter<u32> = GlobalRouter::new();
    router.add_route(view("/*", 1));
    router.add_route(view("/docs/:page", 2));
    router.add_route(view("/docs/index", 3));
    router.push("/docs/index".to_string());
    assert_eq!(router.current_route().unwrap().builder, Some(3));
    assert!(router.current_match().unwrap().params.is_empty());
    router.push("/docs/intro".to_string());
    assert_eq!(router.current_route().unwrap().builder, Some(2));
    assert_eq!(
        router.current_match_immutable().unwrap().params.get("page"),
        Some(&"intro".to_string())
    );
    router.push("/else".to_string());
    assert_eq!(router.find_route("/else").unwrap().builder, Some(1));
    assert!(router.find_route("").is_some());
}
