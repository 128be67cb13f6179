use yaswitch::engine::cycle::{
    cycle_theme, next_theme_from_state, plan_cycle_shortcut, profile_state_file,
    sort_theme_dirs,
};
use yaswitch::engine::paths::RuntimePaths;
use yaswitch::engine::result::ReasonCode;

fn themes() -> Vec<String> {
    vec!["/t/alpha".to_string(), "/t/beta".to_string(), "/t/gamma".to_string()]
}

#[test]
fn profile_state_files_are_isolated() {
    let work = profile_state_file("/state", "work");
    let night = profile_state_file("/state", "night");
    assert_ne!(work, night);
    assert_eq!(work, "/state/cycle_state_work.json");
    assert_eq!(profile_state_file("/state", "  "), "/state/cycle_state_default.json");
}

#[test]
fn cycling_advances_and_wraps() {
    let t = themes();
    assert_eq!(next_theme_from_state(None, &t), "/t/alpha");
    assert_eq!(next_theme_from_state(Some("/t/alpha"), &t), "/t/beta");
    assert_eq!(next_theme_from_state(Some("/t/gamma"), &t), "/t/alpha");
    assert_eq!(next_theme_from_state(Some("/t/removed"), &t), "/t/alpha");
}

#[test]
fn cycling_visits_every_theme_before_repeating() {
    let t = themes();
    let mut current = next_theme_from_state(None, &t);
    let mut seen = vec![current.clone()];
    for _ in 0..2 {
        current = next_theme_from_state(Some(&current), &t);
        seen.push(current.clone());
    }
    assert_eq!(seen, t);
    assert_eq!(next_theme_from_state(Some(&current), &t), t[0]);
}

#[test]
fn cycle_without_themes_is_an_error() {
    let paths = RuntimePaths {
        config_dir: "/cfg/yaswitch".to_string(),
        state_dir: "/st/yaswitch".to_string(),
        cache_dir: "/c".to_string(),
        backup_dir: "/b".to_string(),
    };
    let error = cycle_theme(&paths, &Vec::new(), None).expect_err("expected no themes");
    assert_eq!(error.code(), ReasonCode::ThemeCycleNoThemes);
    assert_eq!(error.message(), "no valid themes under /cfg/yaswitch/themes");
    assert_eq!(cycle_theme(&paths, &themes(), Some("/t/beta")).unwrap(), "/t/gamma");
}

#[test]
fn theme_dirs_are_sorted() {
    let sorted = sort_theme_dirs(&vec![
        "/t/b".to_string(),
        "/t/a".to_string(),
        "/t/c".to_string(),
    ]);
    assert_eq!(sorted, vec!["/t/a", "/t/b", "/t/c"]);
}

#[test]
fn shortcut_is_sway_only() {
    let file = plan_cycle_shortcut("sway", "/cfg/yaswitch").expect("sway");
    assert_eq!(file.file, "/cfg/yaswitch/shortcuts/sway-cycle.conf");
    assert!(file.content.contains("bindsym Mod1+Tab exec yaswitch cycle --compositor sway --json"));
    let error = plan_cycle_shortcut("niri", "/cfg").expect_err("niri");
    assert_eq!(error.code(), ReasonCode::ShortcutUnsupportedCompositor);
    assert_eq!(error.message(), "install-shortcut currently supports sway only, got 'niri'");
}
