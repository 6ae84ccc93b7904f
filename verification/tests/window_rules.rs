use niri_sidebar::config::WindowRule;
use niri_sidebar::niri::Window;
use niri_sidebar::window_rules::{
    resolve_auto_add, resolve_rule_focus_peek, resolve_rule_peek, resolve_window_size, Pattern,
};

fn mock_window(id: u64, is_focused: bool, is_floating: bool, ws: u64, position: Option<(i64, i64)>) -> Window {
    Window {
        id,
        app_id: Some("test".to_string()),
        title: Some("Test Window".to_string()),
        is_focused,
        is_floating,
        workspace_id: Some(ws),
        width: 1000,
        height: 800,
        position,
    }
}

#[test]
fn test_resolve_window_size_defaults() {
    let rules = vec![];
    let window = mock_window(1, false, false, 1, Some((1, 2)));
    let (w, h) = resolve_window_size(&rules, &window, 100, 200);
    assert_eq!(w, 100);
    assert_eq!(h, 200);
}

#[test]
fn test_resolve_window_size_match_app_id() {
    let rules = vec![WindowRule {
        app_id: Some(Pattern::new("test").unwrap()),
        width: Some(500),
        height: Some(600),
        ..Default::default()
    }];
    let window = mock_window(1, false, false, 1, Some((1, 2))); // mock_window has app_id "test"
    let (w, h) = resolve_window_size(&rules, &window, 100, 200);
    assert_eq!(w, 500);
    assert_eq!(h, 600);
}

#[test]
fn test_resolve_window_size_match_title() {
    let rules = vec![WindowRule {
        title: Some(Pattern::new("Test Window").unwrap()),
        width: Some(800),
        height: Some(900),
        ..Default::default()
    }];
    let window = mock_window(1, false, false, 1, Some((1, 2))); // mock_window has title "Test Window"
    let (w, h) = resolve_window_size(&rules, &window, 100, 200);
    assert_eq!(w, 800);
    assert_eq!(h, 900);
}

#[test]
fn test_resolve_window_size_no_match() {
    let rules = vec![WindowRule {
        app_id: Some(Pattern::new("nomatch").unwrap()),
        width: Some(500),
        height: Some(600),
        ..Default::default()
    }];
    let window = mock_window(1, false, false, 1, Some((1, 2)));
    let (w, h) = resolve_window_size(&rules, &window, 100, 200);
    assert_eq!(w, 100);
    assert_eq!(h, 200);
}

#[test]
fn test_resolve_rule_peek_match() {
    let rules = vec![WindowRule {
        app_id: Some(Pattern::new("test").unwrap()),
        peek: Some(50),
        ..Default::default()
    }];
    let window = mock_window(1, false, false, 1, Some((1, 2)));
    let peek = resolve_rule_peek(&rules, &window, 10);
    assert_eq!(peek, 50);
}

#[test]
fn test_resolve_rule_peek_default() {
    let rules = vec![WindowRule {
        app_id: Some(Pattern::new("nomatch").unwrap()),
        peek: Some(50),
        ..Default::default()
    }];
    let window = mock_window(1, false, false, 1, Some((1, 2)));
    let peek = resolve_rule_peek(&rules, &window, 10);
    assert_eq!(peek, 10);
}

#[test]
fn test_resolve_rule_focus_peek_match() {
    let rules = vec![WindowRule {
        app_id: Some(Pattern::new("test").unwrap()),
        focus_peek: Some(70),
        ..Default::default()
    }];
    let window = mock_window(1, false, false, 1, Some((1, 2)));
    let peek = resolve_rule_focus_peek(&rules, &window, 20);
    assert_eq!(peek, 70);
}

#[test]
fn test_resolve_rule_focus_peek_default() {
    let rules = vec![WindowRule {
        app_id: Some(Pattern::new("nomatch").unwrap()),
        focus_peek: Some(70),
        ..Default::default()
    }];
    let window = mock_window(1, false, false, 1, Some((1, 2)));
    let peek = resolve_rule_focus_peek(&rules, &window, 20);
    assert_eq!(peek, 20);
}

#[test]
fn test_resolve_auto_add_match() {
    let rules = vec![WindowRule {
        app_id: Some(Pattern::new("test").unwrap()),
        auto_add: true,
        ..Default::default()
    }];
    let window = mock_window(1, false, false, 1, Some((1, 2)));
    let auto_add = resolve_auto_add(&rules, &window);
    assert!(auto_add);
}

#[test]
fn test_resolve_auto_add_default_false() {
    let rules = vec![WindowRule {
        app_id: Some(Pattern::new("nomatch").unwrap()),
        auto_add: true,
        ..Default::default()
    }];
    let window = mock_window(1, false, false, 1, Some((1, 2)));
    let auto_add = resolve_auto_add(&rules, &window);
    assert!(!auto_add);
}

#[test]
fn test_first_matching_rule_wins() {
    // Two rules match the window; the first one is taken, and its unset
    // height falls back to the default while its width overrides it.
    let rules = vec![
        WindowRule { app_id: Some(Pattern::new("te.t").unwrap()), width: Some(500), ..Default::default() },
        WindowRule { app_id: Some(Pattern::new("test").unwrap()), width: Some(700), height: Some(900), ..Default::default() },
    ];
    let window = mock_window(1, false, false, 1, None);
    let (w, h) = resolve_window_size(&rules, &window, 100, 200);
    assert_eq!(w, 500); // first rule wins
    assert_eq!(h, 200); // its unset height falls back to the default
}

#[test]
fn test_pattern_is_real_regex_matching() {
    // An anchored pattern that differs from the text letter-for-letter but
    // matches it as a regular expression, and a non-matching lookalike.
    let rules = vec![WindowRule {
        app_id: Some(Pattern::new("^sp.c.al$").unwrap()),
        width: Some(640),
        ..Default::default()
    }];
    let mut window = mock_window(1, false, false, 1, None);
    window.app_id = Some("special".to_string());
    let (w, _) = resolve_window_size(&rules, &window, 100, 200);
    assert_eq!(w, 640);

    window.app_id = Some("SPECIAL".to_string());
    let (w, _) = resolve_window_size(&rules, &window, 100, 200);
    assert_eq!(w, 100);

    // A substring match counts: is_match is not anchored by itself.
    let rules = vec![WindowRule {
        app_id: Some(Pattern::new("pec").unwrap()),
        width: Some(320),
        ..Default::default()
    }];
    window.app_id = Some("special".to_string());
    let (w, _) = resolve_window_size(&rules, &window, 100, 200);
    assert_eq!(w, 320);
}

#[test]
fn test_pattern_rejects_invalid_regex() {
    assert!(Pattern::new("[").is_none());
    assert!(Pattern::new("te.*t").is_some());
}

#[test]
fn test_rule_with_pattern_but_absent_attribute_does_not_match() {
    // A pattern that is set while the window attribute is absent is a
    // non-match.
    let rules = vec![WindowRule {
        title: Some(Pattern::new(".*").unwrap()),
        width: Some(500),
        ..Default::default()
    }];
    let mut window = mock_window(1, false, false, 1, None);
    window.title = None;
    let (w, h) = resolve_window_size(&rules, &window, 100, 200);
    assert_eq!(w, 100);
    assert_eq!(h, 200);
}
