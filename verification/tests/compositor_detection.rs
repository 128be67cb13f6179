use yaswitch::engine::compositor::{
    detect_compositor_from_desktop_strings, detect_compositor_from_env, resolve_compositor,
    CompositorEnv,
};

#[test]
fn detects_sway_from_socket_env() {
    let env = CompositorEnv {
        sway_socket: Some("/run/user/1000/sway-ipc.sock".to_string()),
        ..Default::default()
    };

    assert_eq!(detect_compositor_from_env(&env).as_deref(), Some("sway"));
}

#[test]
fn detects_hyprland_from_instance_signature() {
    let env = CompositorEnv {
        hyprland_signature: Some("abc123".to_string()),
        ..Default::default()
    };

    assert_eq!(
        detect_compositor_from_env(&env).as_deref(),
        Some("hyprland")
    );
}

#[test]
fn detects_niri_from_socket_env() {
    let env = CompositorEnv {
        niri_socket: Some("/tmp/niri.sock".to_string()),
        ..Default::default()
    };

    assert_eq!(detect_compositor_from_env(&env).as_deref(), Some("niri"));
}

#[test]
fn detects_from_xdg_desktop_tokens() {
    let env = CompositorEnv {
        xdg_current_desktop: Some("Hyprland".to_string()),
        ..Default::default()
    };

    assert_eq!(
        detect_compositor_from_env(&env).as_deref(),
        Some("hyprland")
    );
}

#[test]
fn resolve_prefers_explicit_value_over_detection() {
    assert_eq!(resolve_compositor(Some("niri"), None), "niri");
    assert_eq!(resolve_compositor(Some("niri"), Some("sway".to_string())), "niri");
}

#[test]
fn resolve_falls_back_to_detection_then_sway() {
    assert_eq!(resolve_compositor(Some("  "), Some("hyprland".to_string())), "hyprland");
    assert_eq!(resolve_compositor(None, None), "sway");
    assert_eq!(resolve_compositor(Some(" DWL "), None), "dwl");
}

#[test]
fn empty_socket_values_are_ignored() {
    let env = CompositorEnv {
        sway_socket: Some(String::new()),
        niri_socket: Some("/tmp/niri.sock".to_string()),
        ..Default::default()
    };
    assert_eq!(detect_compositor_from_env(&env).as_deref(), Some("niri"));
}

#[test]
fn desktop_strings_are_probed_in_keyword_order() {
    assert_eq!(
        detect_compositor_from_desktop_strings(&Some("wlroots".to_string()), &Some("MangoWC".to_string()))
            .as_deref(),
        Some("mangowm")
    );
    assert_eq!(
        detect_compositor_from_desktop_strings(&Some("dwl".to_string()), &Some("sway".to_string()))
            .as_deref(),
        Some("sway")
    );
    assert_eq!(detect_compositor_from_desktop_strings(&None, &None), None);
    assert_eq!(
        detect_compositor_from_desktop_strings(&Some("GNOME".to_string()), &None),
        None
    );
}
