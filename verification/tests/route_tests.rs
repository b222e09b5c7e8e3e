use gpui_router::keyed::StringMap;
use gpui_router::params::RouteParams;
use gpui_router::route::{
    match_path, substitute_params, validate_route_path, IntoRoute, NamedRoute,
    NamedRouteRegistry, PageRoute, Route, RouteConfig, RouteDescriptor,
};
use std::sync::Arc;

#[test]
fn test_registry_register_and_get() {
    let mut registry = NamedRouteRegistry::new();
    registry.register("home", "/");
    registry.register("user.detail", "/users/:id");

    assert_eq!(registry.get("home"), Some("/"));
    assert_eq!(registry.get("user.detail"), Some("/users/:id"));
    assert_eq!(registry.get("unknown"), None);
}

#[test]
fn test_registry_contains() {
    let mut registry = NamedRouteRegistry::new();
    registry.register("home", "/");

    assert!(registry.contains("home"));
    assert!(!registry.contains("unknown"));
}

#[test]
fn test_url_for_simple() {
    let mut registry = NamedRouteRegistry::new();
    registry.register("home", "/");

    let params = RouteParams::new();
    assert_eq!(registry.url_for("home", &params), Some("/".to_string()));
}

#[test]
fn test_url_for_with_params() {
    let mut registry = NamedRouteRegistry::new();
    registry.register("user.detail", "/users/:id");

    let mut params = RouteParams::new();
    params.set("id".to_string(), "123".to_string());

    assert_eq!(
        registry.url_for("user.detail", &params),
        Some("/users/123".to_string())
    );
}

#[test]
fn test_url_for_multiple_params() {
    let mut registry = NamedRouteRegistry::new();
    registry.register("post.comment", "/posts/:postId/comments/:commentId");

    let mut params = RouteParams::new();
    params.set("postId".to_string(), "42".to_string());
    params.set("commentId".to_string(), "99".to_string());

    assert_eq!(
        registry.url_for("post.comment", &params),
        Some("/posts/42/comments/99".to_string())
    );
}

#[test]
fn test_url_for_unknown_route() {
    let registry = NamedRouteRegistry::new();
    let params = RouteParams::new();

    assert_eq!(registry.url_for("unknown", &params), None);
}

#[test]
fn test_registry_clear() {
    let mut registry = NamedRouteRegistry::new();
    registry.register("home", "/");
    registry.register("about", "/about");

    assert_eq!(registry.len(), 2);

    registry.clear();

    assert_eq!(registry.len(), 0);
    assert!(registry.is_empty());
}

#[test]
fn test_substitute_params() {
    let mut params = RouteParams::new();
    params.set("id".to_string(), "123".to_string());
    params.set("action".to_string(), "edit".to_string());

    let result = substitute_params("/users/:id/:action", &params);
    assert_eq!(result, "/users/123/edit");
}

#[test]
fn test_named_route_registry() {
    let mut registry = NamedRouteRegistry::new();
    registry.register("home", "/");
    registry.register("user", "/users/:id");

    assert!(registry.contains("home"));
    assert!(registry.contains("user"));
    assert!(!registry.contains("unknown"));

    assert_eq!(registry.get("home"), Some("/"));
    assert_eq!(registry.get("user"), Some("/users/:id"));
}

#[test]
fn test_named_route_url_generation() {
    let mut registry = NamedRouteRegistry::new();
    registry.register("user", "/users/:id");
    registry.register("post", "/users/:userId/posts/:postId");

    let mut params = RouteParams::new();
    params.set("id".to_string(), "42".to_string());

    let url = registry.url_for("user", &params);
    assert_eq!(url, Some("/users/42".to_string()));

    let mut params = RouteParams::new();
    params.set("userId".to_string(), "1".to_string());
    params.set("postId".to_string(), "99".to_string());

    let url = registry.url_for("post", &params);
    assert_eq!(url, Some("/users/1/posts/99".to_string()));
}

#[test]
fn test_static_route() {
    let result = match_path("/users", "/users");
    assert!(result.is_some());

    let result = match_path("/users", "/posts");
    assert!(result.is_none());
}

#[test]
fn test_dynamic_route() {
    let result = match_path("/users/:id", "/users/123");
    assert!(result.is_some());

    let route_match = result.unwrap();
    assert_eq!(route_match.params.get("id"), Some(&"123".to_string()));
}

#[test]
fn test_wildcard_route() {
    let result = match_path("/files/*", "/files/documents/report.pdf");
    assert!(result.is_some());

    let result = match_path("/files/*", "/other/path");
    assert!(result.is_none());
}

#[test]
fn route_test_string_into_route() {
    let route = "/users".into_route();
    assert_eq!(route.path, "/users");
    assert!(route.params.all().is_empty());
}

#[test]
fn route_test_material_route_with_params() {
    let route = PageRoute::<()>::new("/users/:id")
        .with_param("id", "123")
        .into_route();

    assert_eq!(route.path, "/users/:id");
    assert_eq!(route.params.get("id"), Some(&"123".to_string()));
}

#[test]
fn test_named_route() {
    let route = NamedRoute::new("user_profile")
        .with_param("userId", "456")
        .into_route();

    assert_eq!(route.path, "user_profile");
    assert_eq!(route.params.get("userId"), Some(&"456".to_string()));
}

#[test]
fn test_validate_valid_paths() {
    assert!(validate_route_path("/").is_ok());
    assert!(validate_route_path("/users").is_ok());
    assert!(validate_route_path("/users/:id").is_ok());
    assert!(validate_route_path("/posts/:postId/comments/:commentId").is_ok());
    assert!(validate_route_path("/users/:id{uuid}").is_ok());
    assert!(validate_route_path("/api/v1/users").is_ok());
    assert!(validate_route_path("settings").is_ok());
    assert!(validate_route_path("").is_ok());
    assert!(validate_route_path("/users/").is_ok());
}

#[test]
fn test_validate_consecutive_slashes() {
    let result = validate_route_path("/users//profile");
    assert!(result.is_err());
    assert!(result.unwrap_err().contains("consecutive slashes"));
}

#[test]
fn test_validate_empty_parameter() {
    let result = validate_route_path("/users/:");
    assert!(result.is_err());
    assert!(result
        .unwrap_err()
        .contains("parameter name cannot be empty"));
}

#[test]
fn test_validate_invalid_parameter_name() {
    let result = validate_route_path("/users/:user-id");
    assert!(result.is_err());
    assert!(result.unwrap_err().contains("alphanumeric"));
}

#[test]
fn test_validate_duplicate_parameters() {
    let result = validate_route_path("/users/:id/posts/:id");
    assert!(result.is_err());
    assert!(result.unwrap_err().contains("Duplicate"));
}

#[test]
fn test_route_config_try_new_valid() {
    let result = RouteConfig::try_new("/users/:id");
    assert!(result.is_ok());
    assert_eq!(result.unwrap().path, "/users/:id");
}

#[test]
fn test_route_config_try_new_invalid() {
    let result = RouteConfig::try_new("/users//profile");
    assert!(result.is_err());
}

#[test]
fn test_validation_messages() {
    assert_eq!(
        validate_route_path("//"),
        Err("Route path cannot contain consecutive slashes".to_string())
    );
    assert_eq!(
        validate_route_path(":"),
        Err("Route parameter name cannot be empty".to_string())
    );
    assert_eq!(
        validate_route_path("/a/:b-c"),
        Err("Route parameter 'b-c' must contain only alphanumeric characters and underscores"
            .to_string())
    );
    assert_eq!(
        validate_route_path("/:x/:y/:x{uuid}"),
        Err("Duplicate route parameter: 'x'".to_string())
    );
    assert_eq!(
        validate_route_path("/:/:bad name"),
        Err("Route parameter name cannot be empty".to_string())
    );
}

#[test]
fn test_validation_accepts_unicode_letters_and_underscores() {
    assert!(validate_route_path("/:user_id").is_ok());
    assert!(validate_route_path("/:na\u{ef}ve").is_ok());
    assert!(validate_route_path("/:\u{4e2d}\u{6587}9").is_ok());
    assert!(validate_route_path("/a:b/c").is_ok());
    assert!(validate_route_path("/:_<_>").is_ok());
}

#[test]
fn test_validation_accepts_constrained_parameters() {
    assert!(validate_route_path("/users/:id<uuid>").is_ok());
    assert!(validate_route_path("/users/:id<numeric>/posts/:post<uuid>").is_ok());
    assert!(validate_route_path("/:id<x>").is_ok());
    assert!(validate_route_path("/:id<a-b c>").is_ok());
    assert!(validate_route_path("/:id<x{y}>").is_ok());
    assert!(validate_route_path("/:id{x<y>}").is_ok());
    assert!(validate_route_path("/users/:id{uuid}").is_ok());
    assert!(RouteConfig::try_new("/users/:id<uuid>").is_ok());
    assert!(Route::try_new("/users/:id<uuid>", 1u8).is_ok());
    let route = Route::new("/users/:id<uuid>", 1u8);
    assert_eq!(route.config.path, "/users/:id<uuid>");
    let config = RouteConfig::new("/users/:id<numeric>");
    assert_eq!(config.path, "/users/:id<numeric>");
}

#[test]
fn test_validation_names_end_where_the_constraint_starts() {
    assert_eq!(
        validate_route_path("/:x/:y/:x<uuid>"),
        Err("Duplicate route parameter: 'x'".to_string())
    );
    assert_eq!(
        validate_route_path("/:id<uuid>/:id{uuid}"),
        Err("Duplicate route parameter: 'id'".to_string())
    );
    assert_eq!(
        validate_route_path("/:a-b<uuid>"),
        Err("Route parameter 'a-b' must contain only alphanumeric characters and underscores"
            .to_string())
    );
    assert_eq!(
        validate_route_path("/:a>b"),
        Err("Route parameter 'a>b' must contain only alphanumeric characters and underscores"
            .to_string())
    );
    assert!(validate_route_path("/:id<uuid>/:idx<uuid>").is_ok());
}

#[test]
fn test_validation_rejects_an_empty_name_before_a_constraint() {
    let empty = Err("Route parameter name cannot be empty".to_string());
    assert_eq!(validate_route_path(":<"), empty);
    assert_eq!(validate_route_path(":{"), empty);
    assert_eq!(validate_route_path("/:<uuid>"), empty);
    assert_eq!(validate_route_path("/:{uuid}"), empty);
    assert_eq!(validate_route_path("/users/:<numeric>/x"), empty);
    assert_eq!(validate_route_path("/users/:"), empty);
    assert!(RouteConfig::try_new("/:<uuid>").is_err());
    assert!(Route::try_new("/:{uuid}", 1u8).is_err());
}

#[test]
fn test_substitution_follows_the_order_of_the_parameters() {
    let mut params = RouteParams::new();
    params.set("id".to_string(), "7".to_string());
    params.set("idx".to_string(), "9".to_string());
    assert_eq!(substitute_params("/:idx/:id", &params), "/7x/7");

    let mut params = RouteParams::new();
    params.set("idx".to_string(), "9".to_string());
    params.set("id".to_string(), "7".to_string());
    assert_eq!(substitute_params("/:idx/:id", &params), "/9/7");

    let mut params = RouteParams::new();
    params.set("a".to_string(), ":a:a".to_string());
    assert_eq!(substitute_params(":a-:a", &params), ":a:a-:a:a");
    assert_eq!(substitute_params("/plain", &RouteParams::new()), "/plain");
}

#[test]
fn test_flat_matching_details() {
    let found = match_path("/a/:x/*", "/a/1").unwrap();
    assert_eq!(found.path, "/a/1");
    assert_eq!(found.params.get("x"), Some(&"1".to_string()));
    assert!(found.query.is_empty());
    assert!(match_path("/a/:x/*", "/a").is_none());
    assert!(match_path("/a/*/b", "/a/x/c").is_some());
    assert!(match_path("/a/*/b", "/a/x").is_none());
    let found = match_path("/u/:id{uuid}", "/u/5").unwrap();
    assert_eq!(found.params.get("id{uuid}"), Some(&"5".to_string()));
    assert!(match_path("", "/").is_some());
    assert!(match_path("/", "/x").is_none());
}

#[test]
fn test_route_config_builders() {
    let config = RouteConfig::new("/parent")
        .name("parent")
        .meta("title", "Parent")
        .child(RouteConfig::new("a"))
        .child(RouteConfig::new("b"));
    assert_eq!(config.path, "/parent");
    assert_eq!(config.name, Some("parent".to_string()));
    assert_eq!(config.meta.get("title"), Some(&"Parent".to_string()));
    assert_eq!(config.children.len(), 2);
    assert!(config.is_layout());
    let config = config.children(Vec::new());
    assert!(!config.is_layout());
}

#[test]
fn test_route_builders() {
    let child = Arc::new(Route::new("a", 1u32));
    let route = Route::new("/parent", 0u32)
        .name("parent")
        .meta("k", "v")
        .child(child.clone())
        .named_outlet("side", vec![Arc::new(Route::new("s", 2u32))])
        .named_outlet("foot", Vec::new());
    assert_eq!(route.config.name, Some("parent".to_string()));
    assert_eq!(route.config.meta.get("k"), Some(&"v".to_string()));
    assert_eq!(route.builder, Some(0));
    assert_eq!(route.get_children().len(), 1);
    assert!(route.has_named_outlet("side"));
    assert!(!route.has_named_outlet("main"));
    assert_eq!(route.get_named_children("side").unwrap().len(), 1);
    assert!(route.get_named_children("main").is_none());
    assert_eq!(route.named_outlet_names(), vec!["side".to_string(), "foot".to_string()]);
    assert_eq!(route.find_child("a").unwrap().builder, Some(1));
    assert!(route.find_child("/a").is_none());
    assert!(route.find_child("b").is_none());
    let route = route.children(vec![Arc::new(Route::new("/x", 5u32))]);
    assert_eq!(route.find_child("x").unwrap().builder, Some(5));
    assert_eq!(route.find_child("/x").unwrap().builder, Some(5));
    assert!(route.matches("/parent").is_some());
    assert!(route.matches("/other").is_none());
}

#[test]
fn test_page_route_parts() {
    let mut map = StringMap::new();
    map.insert("q".to_string(), "1".to_string());
    let page = PageRoute::builder("/p", 7u8).with_params(map);
    let (descriptor, builder) = page.into_parts();
    assert_eq!(builder, Some(7));
    assert_eq!(descriptor.path, "/p");
    assert_eq!(descriptor.params.get("q"), Some(&"1".to_string()));
    let page = PageRoute::new("/q").with_builder(3u8);
    assert_eq!(page.into_parts().1, Some(3));
    let descriptor: RouteDescriptor = String::from("/s").into_route();
    assert_eq!(descriptor.path, "/s");
    let mut map = StringMap::new();
    map.insert("a".to_string(), "b".to_string());
    let named = NamedRoute::new("n").with_params(map).into_route();
    assert_eq!(named.params.get("a"), Some(&"b".to_string()));
}

#[test]
fn test_route_try_new_and_config_clone() {
    let route = Route::try_new("/users/:id", 1u8).unwrap();
    assert_eq!(route.config.path, "/users/:id");
    assert_eq!(route.builder, Some(1));
    assert_eq!(
        Route::try_new("/users//x", 1u8).err(),
        Some("Route path cannot contain consecutive slashes".to_string())
    );
    let config = RouteConfig::new("/a")
        .name("a")
        .meta("k", "v")
        .child(RouteConfig::new("b").child(RouteConfig::new("c")));
    let copy = config.clone();
    assert_eq!(copy.path, "/a");
    assert_eq!(copy.name, Some("a".to_string()));
    assert_eq!(copy.meta.get("k"), Some(&"v".to_string()));
    assert_eq!(copy.children.len(), 1);
    assert_eq!(copy.children[0].children[0].path, "c");
}

#[test]
fn test_route_match_builders() {
    let found = gpui_router::RouteMatch::new("/users/123".to_string())
        .with_param("id".to_string(), "123".to_string())
        .with_query("page".to_string(), "2".to_string())
        .with_query("page".to_string(), "3".to_string());
    assert_eq!(found.path, "/users/123");
    assert_eq!(found.params.get("id"), Some(&"123".to_string()));
    assert_eq!(found.query.get("page"), Some(&"3".to_string()));
    assert_eq!(found.query.len(), 1);
    let copy = found.clone();
    assert_eq!(copy.params.get("id"), Some(&"123".to_string()));
}

#[test]
fn test_config_clone_keeps_the_children() {
    let config = RouteConfig::new("/parent")
        .name("parent")
        .meta("k", "v")
        .child(RouteConfig::new("a").child(RouteConfig::new(":id").name("leaf")))
        .child(RouteConfig::new("b").meta("x", "y"));
    let copy = config.clone();
    assert_eq!(copy.path, "/parent");
    assert_eq!(copy.name, Some("parent".to_string()));
    assert_eq!(copy.meta.get("k"), Some(&"v".to_string()));
    assert_eq!(copy.children.len(), 2);
    assert_eq!(copy.children[0].path, "a");
    assert_eq!(copy.children[0].children.len(), 1);
    assert_eq!(copy.children[0].children[0].path, ":id");
    assert_eq!(copy.children[0].children[0].name, Some("leaf".to_string()));
    assert_eq!(copy.children[1].path, "b");
    assert_eq!(copy.children[1].meta.get("x"), Some(&"y".to_string()));
    assert!(copy.children[1].children.is_empty());
}
