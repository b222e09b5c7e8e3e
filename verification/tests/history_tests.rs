use gpui_router::history::{History, HistoryEntry, HistoryState};
use gpui_router::NavigationDirection;

#[test]
fn test_history_creation() {
    let history = History::new("/".to_string());
    assert_eq!(history.current_path(), "/");
    assert_eq!(history.len(), 1);
    assert!(!history.can_go_back());
    assert!(!history.can_go_forward());
}

#[test]
fn test_history_push() {
    let mut history = History::new("/".to_string());

    history.push("/users".to_string());
    assert_eq!(history.current_path(), "/users");
    assert_eq!(history.len(), 2);
    assert!(history.can_go_back());
    assert!(!history.can_go_forward());

    history.push("/users/123".to_string());
    assert_eq!(history.current_path(), "/users/123");
    assert_eq!(history.len(), 3);
}

#[test]
fn test_history_back_forward() {
    let mut history = History::new("/".to_string());
    history.push("/page1".to_string());
    history.push("/page2".to_string());

    assert_eq!(history.current_path(), "/page2");

    history.back();
    assert_eq!(history.current_path(), "/page1");
    assert!(history.can_go_back());
    assert!(history.can_go_forward());

    history.forward();
    assert_eq!(history.current_path(), "/page2");
    assert!(!history.can_go_forward());
}

#[test]
fn test_history_truncation_on_push() {
    let mut history = History::new("/".to_string());
    history.push("/page1".to_string());
    history.push("/page2".to_string());
    history.back();

    assert_eq!(history.current_path(), "/page1");
    assert_eq!(history.len(), 3);

    history.push("/page3".to_string());
    assert_eq!(history.current_path(), "/page3");
    assert_eq!(history.len(), 3);
    assert!(!history.can_go_forward());
}

#[test]
fn test_history_replace() {
    let mut history = History::new("/".to_string());
    history.push("/page1".to_string());

    history.replace("/page2".to_string());
    assert_eq!(history.current_path(), "/page2");
    assert_eq!(history.len(), 2);

    history.back();
    assert_eq!(history.current_path(), "/");
}

#[test]
fn test_history_clear() {
    let mut history = History::new("/".to_string());
    history.push("/page1".to_string());
    history.push("/page2".to_string());

    history.clear("/home".to_string());
    assert_eq!(history.current_path(), "/home");
    assert_eq!(history.len(), 1);
    assert!(!history.can_go_back());
}

#[test]
fn test_history_with_state() {
    let mut history = History::new("/".to_string());

    let mut state = HistoryState::new();
    state.set("scrollY".to_string(), "100".to_string());

    history.push_with_state("/page1".to_string(), state);

    let entry = history.current_entry();
    assert_eq!(entry.path, "/page1");
    assert!(entry.state.is_some());

    let saved_state = entry.state.as_ref().unwrap();
    assert_eq!(saved_state.get("scrollY"), Some(&"100".to_string()));
}

#[test]
fn test_history_max_size() {
    let mut history = History::with_max_size("/".to_string(), 3);

    history.push("/page1".to_string());
    history.push("/page2".to_string());
    history.push("/page3".to_string());
    history.push("/page4".to_string());

    assert_eq!(history.len(), 3);
    assert_eq!(history.current_path(), "/page4");

    history.back();
    history.back();
    assert_eq!(history.current_path(), "/page2");
}

#[test]
fn test_history_restore() {
    let mut history = History::new("/".to_string());

    let entries = vec![
        HistoryEntry::new("/".to_string()),
        HistoryEntry::new("/page1".to_string()),
        HistoryEntry::new("/page2".to_string()),
    ];

    history.restore(entries.clone(), 1);

    assert_eq!(history.len(), 3);
    assert_eq!(history.current_path(), "/page1");
    assert!(history.can_go_back());
    assert!(history.can_go_forward());
}

#[test]
fn test_navigation_event() {
    let mut history = History::new("/".to_string());

    let event = history.push("/users".to_string());
    assert_eq!(event.from, Some("/".to_string()));
    assert_eq!(event.to, "/users");
    assert_eq!(event.direction, NavigationDirection::Forward);

    let event = history.back().unwrap();
    assert_eq!(event.from, Some("/users".to_string()));
    assert_eq!(event.to, "/");
    assert_eq!(event.direction, NavigationDirection::Back);
}

#[test]
fn test_empty_history_boundaries() {
    let mut history = History::new("/".to_string());

    assert!(history.back().is_none());
    assert!(history.forward().is_none());
    assert!(!history.can_go_back());
    assert!(!history.can_go_forward());
}

#[test]
fn test_history_operations() {
    let mut history = History::new("/".to_string());

    assert_eq!(history.current_path(), "/");
    assert!(!history.can_go_back());
    assert!(!history.can_go_forward());

    history.push("/page1".to_string());
    assert_eq!(history.current_path(), "/page1");
    assert!(history.can_go_back());

    history.push("/page2".to_string());
    history.back();
    assert_eq!(history.current_path(), "/page1");
    assert!(history.can_go_forward());

    history.forward();
    assert_eq!(history.current_path(), "/page2");
}

#[test]
fn test_history_truncation() {
    let mut history = History::new("/".to_string());
    history.push("/page1".to_string());
    history.push("/page2".to_string());
    history.back();

    history.push("/page3".to_string());

    assert!(!history.can_go_forward());
    history.back();
    assert_eq!(history.current_path(), "/page1");
}

#[test]
fn test_push_then_back_restores_the_path() {
    let mut history = History::with_max_size("/start".to_string(), 2);
    history.push("/a".to_string());
    history.push("/b".to_string());
    assert_eq!(history.len(), 2);
    let before = history.current_path().to_string();
    history.push("/c".to_string());
    history.back();
    assert_eq!(history.current_path(), before);
}

#[test]
fn test_push_after_back_leaves_nothing_of_the_dropped_entry() {
    let mut history = History::new("/".to_string());
    history.push("/a".to_string());
    history.push("/b".to_string());
    history.back();
    history.push("/c".to_string());
    assert!(!history.can_go_forward());
    let paths: Vec<&str> = history.entries().iter().map(|e| e.path.as_str()).collect();
    assert_eq!(paths, vec!["/", "/a", "/c"]);
    assert_eq!(history.current_index(), 2);
}

#[test]
fn test_replace_keeps_length_and_forward_entries() {
    let mut history = History::new("/".to_string());
    history.push("/a".to_string());
    history.push("/b".to_string());
    history.back();
    let event = history.replace("/x".to_string());
    assert_eq!(event.direction, NavigationDirection::Replace);
    assert_eq!(event.from, Some("/a".to_string()));
    assert_eq!(history.len(), 3);
    assert!(history.can_go_forward());
    history.forward();
    assert_eq!(history.current_path(), "/b");
}

#[test]
fn test_push_replace_back_returns_to_path_before_push() {
    let mut history = History::new("/home".to_string());
    history.push("/a".to_string());
    history.replace("/b".to_string());
    let event = history.back().unwrap();
    assert_eq!(event.to, "/home");
    assert_eq!(history.current_path(), "/home");
}

#[test]
fn test_single_entry_limit_keeps_only_the_newest() {
    let mut history = History::with_max_size("/".to_string(), 1);
    history.push("/a".to_string());
    assert_eq!(history.len(), 1);
    assert_eq!(history.current_index(), 0);
    assert_eq!(history.current_path(), "/a");
    assert!(history.back().is_none());
}

#[test]
fn test_unbounded_history() {
    let mut history = History::with_max_size("/".to_string(), 0);
    for i in 0..50 {
        history.push(format!("/p{}", i));
    }
    assert_eq!(history.len(), 51);
    assert_eq!(history.current_index(), 50);
}

#[test]
fn test_restore_rejects_bad_input() {
    let mut history = History::new("/".to_string());
    history.restore(Vec::new(), 0);
    assert_eq!(history.len(), 1);
    history.restore(vec![HistoryEntry::new("/a".to_string())], 1);
    assert_eq!(history.current_path(), "/");
    assert!(!history.is_empty());
}

#[test]
fn test_replace_with_state_and_default() {
    let mut history = History::default();
    assert_eq!(history.current_path(), "/");
    let mut state = HistoryState::default();
    state.set("k".to_string(), "v".to_string());
    history.replace_with_state("/s".to_string(), state);
    assert_eq!(history.len(), 1);
    let entry = history.current_entry();
    assert_eq!(entry.path, "/s");
    assert_eq!(entry.state.as_ref().unwrap().get("k"), Some(&"v".to_string()));
    assert_eq!(entry.state.as_ref().unwrap().get("missing"), None);
    let plain = HistoryEntry::with_state("/s".to_string(), HistoryState::new());
    assert!(plain.state.is_some());
}
