use gpui_router::error::{NavigationError, NavigationResult};
use gpui_router::lifecycle::LifecycleResult;
use gpui_router::middleware::{middleware_fn, middleware_order, RouteMiddleware};
use gpui_router::text;
use gpui_router::transition::{OutletState, SlideDirection, TransitionConfig};

#[test]
fn test_navigation_result_success() {
    let result = NavigationResult::Success {
        path: "/home".to_string(),
    };
    assert!(result.is_success());
    assert!(!result.is_not_found());
    assert!(!result.is_blocked());
    assert!(!result.is_error());
}

#[test]
fn test_navigation_result_not_found() {
    let result = NavigationResult::NotFound {
        path: "/invalid".to_string(),
    };
    assert!(!result.is_success());
    assert!(result.is_not_found());
}

#[test]
fn test_navigation_result_blocked_with_redirect() {
    let result = NavigationResult::Blocked {
        reason: "Not authenticated".to_string(),
        redirect: Some("/login".to_string()),
    };
    assert!(result.is_blocked());
    assert_eq!(result.redirect_path(), Some("/login"));
}

#[test]
fn test_navigation_error_display() {
    let error = NavigationError::RouteNotFound {
        path: "/test".to_string(),
    };
    assert_eq!(error.to_string(), "Route not found: /test");
}

#[test]
fn test_navigation_result_variants() {
    let success = NavigationResult::Success {
        path: "/home".to_string(),
    };
    assert!(success.is_success());
    assert!(!success.is_not_found());

    let not_found = NavigationResult::NotFound {
        path: "/unknown".to_string(),
    };
    assert!(not_found.is_not_found());

    let blocked = NavigationResult::Blocked {
        reason: "Not authorized".to_string(),
        redirect: Some("/login".to_string()),
    };
    assert!(blocked.is_blocked());
    assert_eq!(blocked.redirect_path(), Some("/login"));
}

#[test]
fn test_every_error_text() {
    let text = |e: NavigationError| e.to_string();
    assert_eq!(
        text(NavigationError::GuardBlocked {
            reason: "no".to_string()
        }),
        "Navigation blocked: no"
    );
    assert_eq!(
        text(NavigationError::InvalidParams {
            message: "id".to_string()
        }),
        "Invalid parameters: id"
    );
    assert_eq!(
        text(NavigationError::NavigationFailed {
            message: "x".to_string()
        }),
        "Navigation failed: x"
    );
    assert_eq!(
        text(NavigationError::Custom {
            message: "custom".to_string()
        }),
        "custom"
    );
    let failed = NavigationResult::Error(NavigationError::Custom {
        message: String::new(),
    });
    assert!(failed.is_error());
    assert_eq!(failed.redirect_path(), None);
    let blocked = NavigationResult::Blocked {
        reason: String::new(),
        redirect: None,
    };
    assert_eq!(blocked.redirect_path(), None);
}

#[test]
fn test_lifecycle_result_continue() {
    let result = LifecycleResult::Continue;
    assert!(result.allows_continue());
    assert!(!result.is_abort());
    assert!(!result.is_redirect());
}

#[test]
fn test_lifecycle_result_abort() {
    let result = LifecycleResult::abort("Test");
    assert!(!result.allows_continue());
    assert!(result.is_abort());
    assert!(!result.is_redirect());
}

#[test]
fn test_lifecycle_result_redirect() {
    let result = LifecycleResult::redirect("/test");
    assert!(!result.allows_continue());
    assert!(!result.is_abort());
    assert!(result.is_redirect());
}

#[test]
fn test_lifecycle_result_variants() {
    let cont = LifecycleResult::cont();
    assert!(cont.allows_continue());
    assert!(!cont.is_abort());
    assert!(!cont.is_redirect());

    let abort = LifecycleResult::abort("Unsaved changes");
    assert!(!abort.allows_continue());
    assert!(abort.is_abort());

    let redirect = LifecycleResult::redirect("/login");
    assert!(!redirect.allows_continue());
    assert!(redirect.is_redirect());
    assert_eq!(redirect.clone(), LifecycleResult::Redirect { to: "/login".to_string() });
}

struct TestMiddleware;

impl RouteMiddleware for TestMiddleware {}

#[test]
fn test_middleware_name() {
    let middleware = TestMiddleware;
    assert_eq!(middleware.name(), "RouteMiddleware");
}

#[test]
fn test_middleware_priority() {
    let middleware = TestMiddleware;
    assert_eq!(middleware.priority(), 0);
}

#[test]
fn test_middleware_from_functions_and_order() {
    let middleware = middleware_fn(1u8, 2u8);
    assert_eq!(*middleware.before(), 1);
    assert_eq!(*middleware.after(), 2);
    assert_eq!(middleware.name(), "RouteMiddleware");
    assert_eq!(middleware.priority(), 0);
    assert_eq!(middleware_order(&vec![0, 5, 0, 9]), vec![3, 1, 0, 2]);
}

#[test]
fn test_slide_direction() {
    assert_eq!(SlideDirection::Left, SlideDirection::Left);
    assert_ne!(SlideDirection::Left, SlideDirection::Right);
}

fn chars(s: &str) -> Vec<char> {
    s.chars().collect()
}

fn strings(parts: Vec<Vec<char>>) -> Vec<String> {
    parts.into_iter().map(|p| p.into_iter().collect()).collect()
}

#[test]
fn test_text_splitting() {
    assert_eq!(strings(text::split_on(&chars(""), '/')), vec![""]);
    assert_eq!(strings(text::split_on(&chars("/"), '/')), vec!["", ""]);
    assert_eq!(strings(text::split_on(&chars("a//b/"), '/')), vec!["a", "", "b", ""]);
    assert_eq!(strings(text::path_segments(&chars("//a//b/"))), vec!["a", "b"]);
    assert!(text::path_segments(&chars("///")).is_empty());
}

#[test]
fn test_text_trimming_and_search() {
    assert_eq!(text::to_string(&text::trimmed(&chars("//a/b//"), '/')), "a/b");
    assert_eq!(text::to_string(&text::trimmed_start(&chars("///"), '/')), "");
    assert_eq!(text::to_string(&text::trimmed_end(&chars("a/"), '/')), "a");
    assert_eq!(text::find_char(&chars("ab<c<"), '<'), Some(2));
    assert_eq!(text::find_char(&chars("abc"), '<'), None);
    assert!(text::starts_with(&chars("abc"), &chars("ab")));
    assert!(text::starts_with(&chars("abc"), &chars("")));
    assert!(!text::starts_with(&chars("ab"), &chars("abc")));
    assert!(text::starts_with_at(&chars("xabc"), 1, &chars("ab")));
    assert!(text::contains_double_slash(&chars("a//b")));
    assert!(!text::contains_double_slash(&chars("/a/b/")));
    assert!(text::same(&chars("ab"), &chars("ab")));
    assert!(!text::same(&chars("ab"), &chars("ac")));
    assert_eq!(text::to_chars("h\u{e9}"), vec!['h', '\u{e9}']);
    assert_eq!(text::to_string_range(&chars("hello"), 1, 3), "el");
}

#[test]
fn test_text_replacing() {
    let replace = |s: &str, pat: &str, with: &str| {
        text::to_string(&text::replaced(&chars(s), &chars(pat), &chars(with)))
    };
    assert_eq!(replace("aaa", "aa", "b"), "ba");
    assert_eq!(replace("abc", "", "x"), "abc");
    assert_eq!(replace("a:id:id", ":id", "7"), "a77");
    assert_eq!(replace("abc", "abcd", "x"), "abc");
    assert_eq!(replace("", "a", "x"), "");
    assert_eq!(replace("xay", "a", "aa"), "xaay");
}

#[test]
fn test_transition_config_active_override() {
    let mut config = TransitionConfig::new(200u64);
    assert_eq!(*config.active(), 200);
    assert!(!config.has_override());
    config.set_override(300);
    assert!(config.has_override());
    assert_eq!(*config.active(), 300);
    config.clear_override();
    assert!(!config.has_override());
    assert_eq!(*config.active(), 200);
}

#[test]
fn test_outlet_state_counts_changes_of_path() {
    let mut state = OutletState::new();
    assert!(state.observe("/a"));
    assert_eq!(state.animation_counter, 0);
    assert_eq!(state.previous_path, None);
    assert!(!state.observe("/a"));
    assert!(state.observe("/b"));
    assert_eq!(state.animation_counter, 1);
    assert_eq!(state.previous_path, Some("/a".to_string()));
    assert_eq!(state.current_path, "/b");
    state.animation_counter = u32::MAX;
    assert!(state.observe("/c"));
    assert_eq!(state.animation_counter, 0);
    assert_eq!(state.previous_path, Some("/b".to_string()));
}
