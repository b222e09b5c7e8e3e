use gpui_router::nested::{
    build_child_path, find_index_route, find_parent_route_for_path, resolve_child_route,
};
use gpui_router::params::RouteParams;
use gpui_router::route::Route;
use std::sync::Arc;

fn route(path: &str) -> Route<()> {
    Route::new(path, ())
}

#[test]
fn test_build_child_path() {
    assert_eq!(
        build_child_path("/dashboard", "settings"),
        "/dashboard/settings"
    );
    assert_eq!(
        build_child_path("/dashboard/", "/settings"),
        "/dashboard/settings"
    );
    assert_eq!(build_child_path("/dashboard", ""), "/dashboard");
    assert_eq!(build_child_path("/", "home"), "/home");
    assert_eq!(build_child_path("", "home"), "/home");
}

#[test]
fn test_path_trimming() {
    let parent = "/dashboard/";
    let child = "/settings/";
    let result = build_child_path(parent, child);
    assert_eq!(result, "/dashboard/settings");
}

#[test]
fn test_resolve_dashboard_analytics() {
    let dashboard = Arc::new(route("dashboard").children(vec![Arc::new(route("analytics"))]));

    let params = RouteParams::new();
    let result = resolve_child_route(&dashboard, "/dashboard/analytics", &params, None);

    assert!(result.is_some(), "Should find analytics child");
    assert_eq!(result.unwrap().0.config.path, "analytics");
}

#[test]
fn test_resolve_simple_child() {
    let parent = Arc::new(
        route("/dashboard").children(vec![Arc::new(route("overview")), Arc::new(route("settings"))]),
    );

    let result = resolve_child_route(&parent, "/dashboard/settings", &RouteParams::new(), None);

    assert!(result.is_some());
    let (child_route, _params) = result.unwrap();
    assert_eq!(child_route.config.path, "settings");
}

#[test]
fn test_resolve_index_route() {
    let parent = Arc::new(route("/dashboard").children(vec![Arc::new(route(""))]));

    let result = resolve_child_route(&parent, "/dashboard", &RouteParams::new(), None);

    assert!(result.is_some());
    let (child_route, _params) = result.unwrap();
    assert_eq!(child_route.config.path, "");
}

#[test]
fn test_no_matching_child() {
    let parent = Arc::new(route("/dashboard").children(vec![Arc::new(route("overview"))]));

    let result = resolve_child_route(&parent, "/dashboard/nonexistent", &RouteParams::new(), None);

    assert!(result.is_none());
}

#[test]
fn test_named_outlet_resolution() {
    let parent = Arc::new(
        route("/dashboard")
            .children(vec![Arc::new(route("main"))])
            .named_outlet("sidebar", vec![Arc::new(route("main"))]),
    );

    let result = resolve_child_route(&parent, "/dashboard/main", &RouteParams::new(), None);
    assert!(result.is_some());

    let result = resolve_child_route(
        &parent,
        "/dashboard/main",
        &RouteParams::new(),
        Some("sidebar"),
    );
    assert!(result.is_some());
    let (child_route, _params) = result.unwrap();
    assert_eq!(child_route.config.path, "main");
}

#[test]
fn test_named_outlet_not_found() {
    let parent = Arc::new(route("/dashboard").children(vec![Arc::new(route("main"))]));

    let result = resolve_child_route(
        &parent,
        "/dashboard/main",
        &RouteParams::new(),
        Some("sidebar"),
    );
    assert!(result.is_none());
}

#[test]
fn test_multiple_named_outlets() {
    let parent = Arc::new(
        route("/app")
            .children(vec![Arc::new(route("page"))])
            .named_outlet("sidebar", vec![Arc::new(route("page"))])
            .named_outlet("footer", vec![Arc::new(route("page"))]),
    );

    let main_result = resolve_child_route(&parent, "/app/page", &RouteParams::new(), None);
    assert!(main_result.is_some());

    let sidebar_result =
        resolve_child_route(&parent, "/app/page", &RouteParams::new(), Some("sidebar"));
    assert!(sidebar_result.is_some());

    let footer_result =
        resolve_child_route(&parent, "/app/page", &RouteParams::new(), Some("footer"));
    assert!(footer_result.is_some());
}

#[test]
fn test_named_outlet_with_index_route() {
    let parent = Arc::new(
        route("/dashboard")
            .children(vec![Arc::new(route(""))])
            .named_outlet("sidebar", vec![Arc::new(route(""))]),
    );

    let main_result = resolve_child_route(&parent, "/dashboard", &RouteParams::new(), None);
    assert!(main_result.is_some());

    let sidebar_result =
        resolve_child_route(&parent, "/dashboard", &RouteParams::new(), Some("sidebar"));
    assert!(sidebar_result.is_some());
}

#[test]
fn test_find_parent_route_simple() {
    let routes = vec![Arc::new(route("/dashboard").children(vec![
        Arc::new(route("overview")),
        Arc::new(route("analytics")),
    ]))];

    let result = find_parent_route_for_path(&routes, "/dashboard/analytics");
    assert!(result.is_some());
    assert_eq!(result.unwrap().config.path, "/dashboard");
}

#[test]
fn test_find_parent_route_exact_match() {
    let routes = vec![Arc::new(
        route("/dashboard").children(vec![Arc::new(route("settings"))]),
    )];

    let result = find_parent_route_for_path(&routes, "/dashboard");
    assert!(result.is_some());
    assert_eq!(result.unwrap().config.path, "/dashboard");
}

#[test]
fn test_find_parent_route_no_children() {
    let routes = vec![Arc::new(route("/about"))];

    let result = find_parent_route_for_path(&routes, "/about");
    assert!(result.is_none());
}

#[test]
fn test_find_parent_route_nested_parents() {
    let routes = vec![Arc::new(route("/dashboard").children(vec![Arc::new(
        route("settings").children(vec![Arc::new(route("profile"))]),
    )]))];

    let result = find_parent_route_for_path(&routes, "/dashboard/settings/profile");
    assert!(result.is_some());
    assert_eq!(result.unwrap().config.path, "settings");
}

#[test]
fn test_find_parent_route_root() {
    let routes = vec![Arc::new(route("/").children(vec![
        Arc::new(route("home")),
        Arc::new(route("about")),
    ]))];

    let result = find_parent_route_for_path(&routes, "/home");
    assert!(result.is_some());
    assert_eq!(result.unwrap().config.path, "/");

    let result = find_parent_route_for_path(&routes, "/about");
    assert!(result.is_some());
    assert_eq!(result.unwrap().config.path, "/");
}

#[test]
fn test_find_parent_route_multiple_top_level() {
    let routes = vec![
        Arc::new(route("/dashboard").children(vec![Arc::new(route("overview"))])),
        Arc::new(route("/settings").children(vec![Arc::new(route("profile"))])),
    ];

    let result = find_parent_route_for_path(&routes, "/dashboard/overview");
    assert!(result.is_some());
    assert_eq!(result.unwrap().config.path, "/dashboard");

    let result = find_parent_route_for_path(&routes, "/settings/profile");
    assert!(result.is_some());
    assert_eq!(result.unwrap().config.path, "/settings");
}

#[test]
fn test_find_parent_route_no_match() {
    let routes = vec![Arc::new(
        route("/dashboard").children(vec![Arc::new(route("overview"))]),
    )];

    let result = find_parent_route_for_path(&routes, "/nonexistent/path");
    assert!(result.is_none());
}

#[test]
fn test_find_parent_route_trailing_slash() {
    let routes = vec![Arc::new(
        route("/dashboard/").children(vec![Arc::new(route("settings"))]),
    )];

    let result = find_parent_route_for_path(&routes, "/dashboard/settings");
    assert!(result.is_some());
}

#[test]
fn test_find_parent_route_empty_child_path() {
    let routes = vec![Arc::new(route("/dashboard").children(vec![
        Arc::new(route("")),
        Arc::new(route("settings")),
    ]))];

    let result = find_parent_route_for_path(&routes, "/dashboard");
    assert!(result.is_some());
    assert_eq!(result.unwrap().config.path, "/dashboard");
}

#[test]
fn test_find_parent_prefers_deepest() {
    let routes = vec![Arc::new(route("/").children(vec![Arc::new(
        route("dashboard").children(vec![Arc::new(
            route("settings").children(vec![Arc::new(route("profile"))]),
        )]),
    )]))];

    let result = find_parent_route_for_path(&routes, "/dashboard/settings/profile");
    assert!(result.is_some());
    assert_eq!(result.unwrap().config.path, "settings");

    let result = find_parent_route_for_path(&routes, "/dashboard/settings");
    assert!(result.is_some());
    assert_eq!(result.unwrap().config.path, "dashboard");
}

#[test]
fn test_parameter_child_binds_into_a_copy() {
    let parent = Arc::new(route("/users").children(vec![
        Arc::new(route("new")),
        Arc::new(route(":id")),
        Arc::new(route("other")),
    ]));
    let mut parent_params = RouteParams::new();
    parent_params.insert("tenant".to_string(), "acme".to_string());

    let (child, merged) =
        resolve_child_route(&parent, "/users/42/posts", &parent_params, None).unwrap();
    assert_eq!(child.config.path, ":id");
    assert_eq!(merged.get("tenant"), Some(&"acme".to_string()));
    assert_eq!(merged.get("id"), Some(&"42".to_string()));
    assert_eq!(merged.len(), 2);
    assert_eq!(parent_params.len(), 1);

    let (child, merged) = resolve_child_route(&parent, "users/new", &parent_params, None).unwrap();
    assert_eq!(child.config.path, "new");
    assert_eq!(merged.len(), 1);

    let (child, merged) =
        resolve_child_route(&parent, "/users/other", &parent_params, None).unwrap();
    assert_eq!(child.config.path, ":id");
    assert_eq!(merged.get("id"), Some(&"other".to_string()));
}

#[test]
fn test_resolution_misses() {
    let parent = Arc::new(route("/dashboard").children(vec![Arc::new(route("overview"))]));
    let empty = RouteParams::new();
    assert!(resolve_child_route(&parent, "/elsewhere/overview", &empty, None).is_none());
    assert!(resolve_child_route(&parent, "/dashboard", &empty, None).is_none());
    let childless = Arc::new(route("/dashboard"));
    assert!(resolve_child_route(&childless, "/dashboard/overview", &empty, None).is_none());
    let empty_outlet = Arc::new(route("/d").named_outlet("side", Vec::new()));
    assert!(resolve_child_route(&empty_outlet, "/d/x", &empty, Some("side")).is_none());
}

#[test]
fn test_index_routes() {
    let children = vec![
        Arc::new(route("a")),
        Arc::new(route("/index")),
        Arc::new(route("/")),
    ];
    let (found, params) = find_index_route(&children, RouteParams::new()).unwrap();
    assert_eq!(found.config.path, "/index");
    assert!(params.is_empty());
    let none = vec![Arc::new(route("a")), Arc::new(route("indexes"))];
    assert!(find_index_route(&none, RouteParams::new()).is_none());
    let root = Arc::new(route("/").children(vec![Arc::new(route("home")), Arc::new(route("/"))]));
    let (found, _) = resolve_child_route(&root, "/", &RouteParams::new(), None).unwrap();
    assert_eq!(found.config.path, "/");
    let (found, _) = resolve_child_route(&root, "/home/x", &RouteParams::new(), None).unwrap();
    assert_eq!(found.config.path, "home");
}

#[test]
fn test_owner_needs_a_segment_boundary() {
    let routes = vec![Arc::new(
        route("/dash").children(vec![Arc::new(route("board"))]),
    )];
    assert!(find_parent_route_for_path(&routes, "/dashboard").is_none());
    assert!(find_parent_route_for_path(&routes, "/dash/board/x").is_some());
    assert!(find_parent_route_for_path(&routes, "/dash/other").is_none());
    assert!(find_parent_route_for_path(&routes, "").is_none());
}

#[test]
fn test_child_path_exact_values() {
    assert_eq!(build_child_path("", ""), "");
    assert_eq!(build_child_path("/", "/"), "");
    assert_eq!(build_child_path("/a//", "//b//"), "/a/b");
    assert_eq!(build_child_path("a", "b/c"), "a/b/c");
}
