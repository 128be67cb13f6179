use yaswitch::engine::planner::{
    build_preflight_plan, ActionStatus, ActionType, PlanStatus, PlannerOptions, RiskLevel,
};
use yaswitch::engine::result::ReasonCode;
use yaswitch::engine::theme_spec::{
    Palette, TargetMode, TargetSpec, ThemeSpec, WallpaperMode, WallpaperSpec,
};

fn palette() -> Palette {
    let c = |s: &str| s.to_string();
    Palette {
        base00: c("#000000"),
        base01: c("#111111"),
        base02: c("#222222"),
        base03: c("#333333"),
        base04: c("#444444"),
        base05: c("#555555"),
        base06: c("#666666"),
        base07: c("#777777"),
        base08: c("#888888"),
        base09: c("#999999"),
        base0a: c("#aaaaaa"),
        base0b: c("#bbbbbb"),
        base0c: c("#cccccc"),
        base0d: c("#dddddd"),
        base0e: c("#eeeeee"),
        base0f: c("#ffffff"),
    }
}

fn minimal_theme() -> ThemeSpec {
    ThemeSpec {
        schema_version: 1,
        theme_name: "Minimal".to_string(),
        palette: palette(),
        targets: vec![(
            "kitty".to_string(),
            TargetSpec {
                template: "kitty.conf.template".to_string(),
                destination: "kitty.conf".to_string(),
                mode: TargetMode::Inject,
            },
        )],
        wallpaper: WallpaperSpec {
            path: "wallpaper.png".to_string(),
            mode: WallpaperMode::Fill,
        },
    }
}

#[test]
fn planner_generates_mutation_graph_for_valid_theme() {
    let options = PlannerOptions {
        theme_dir: "tests/fixtures/themes/valid-minimal".to_string(),
        compositor: Some("sway".to_string()),
        target_filter: None,
        dry_run: true,
    };

    let plan = build_preflight_plan(&options, &minimal_theme())
        .expect("expected preflight planning to succeed");

    assert_eq!(plan.status, PlanStatus::Planned);
    assert!(plan.dry_run);
    assert!(!plan.actions.is_empty());
    assert!(plan
        .actions
        .iter()
        .any(|action| action.action_type == ActionType::ApplyTarget));
    assert!(plan
        .actions
        .iter()
        .any(|action| action.action_type == ActionType::Reload));
}

#[test]
fn planner_marks_unsupported_reload_as_safe_skip() {
    let options = PlannerOptions {
        theme_dir: "tests/fixtures/themes/valid-minimal".to_string(),
        compositor: Some("dwl".to_string()),
        target_filter: None,
        dry_run: true,
    };

    let plan = build_preflight_plan(&options, &minimal_theme())
        .expect("expected preflight planning to succeed");

    let skip_action = plan
        .actions
        .iter()
        .find(|action| action.action_type == ActionType::SafeSkip)
        .expect("expected safe-skip action for unsupported reload");

    assert_eq!(
        skip_action.reason_code.as_deref(),
        Some(ReasonCode::SkipReloadUnsupported.as_str())
    );
}

#[test]
fn planner_returns_error_for_unknown_target_filter() {
    let options = PlannerOptions {
        theme_dir: "tests/fixtures/themes/valid-minimal".to_string(),
        compositor: Some("sway".to_string()),
        target_filter: Some("does-not-exist".to_string()),
        dry_run: true,
    };

    let error = build_preflight_plan(&options, &minimal_theme())
        .expect_err("expected unknown --target value to fail preflight planning");

    assert_eq!(error.code(), ReasonCode::PlannerInvalidTarget);
}

#[test]
fn plan_lists_render_apply_reload_in_order() {
    let options = PlannerOptions {
        theme_dir: "theme".to_string(),
        compositor: None,
        target_filter: None,
        dry_run: false,
    };
    let plan = build_preflight_plan(&options, &minimal_theme()).expect("expected plan");
    assert_eq!(plan.reason_code, "PLANNER_READY");
    let ids: Vec<&str> = plan.actions.iter().map(|a| a.id.as_str()).collect();
    assert_eq!(ids, vec!["render-kitty", "apply-kitty", "reload-sway"]);
    assert_eq!(plan.actions[0].expected_outcome, "render template kitty.conf.template");
    assert_eq!(plan.actions[1].expected_outcome, "update kitty.conf");
    assert_eq!(plan.actions[1].risk_level, RiskLevel::Medium);
    assert_eq!(plan.actions[2].action_status, ActionStatus::Planned);
    assert_eq!(plan.actions[0].remediation_note, None);
}

#[test]
fn unknown_compositor_is_refused_in_lower_case() {
    let options = PlannerOptions {
        theme_dir: "theme".to_string(),
        compositor: Some("Weston".to_string()),
        target_filter: None,
        dry_run: true,
    };
    let error = build_preflight_plan(&options, &minimal_theme()).expect_err("expected refusal");
    assert_eq!(error.code(), ReasonCode::PlannerInvalidTarget);
    assert_eq!(error.message(), "unsupported compositor 'weston'");
}

#[test]
fn overwrite_targets_are_high_risk_and_filter_selects_one() {
    let mut theme = minimal_theme();
    theme.targets.push((
        "waybar".to_string(),
        TargetSpec {
            template: "w.t".to_string(),
            destination: "w.css".to_string(),
            mode: TargetMode::Overwrite,
        },
    ));
    let options = PlannerOptions {
        theme_dir: "theme".to_string(),
        compositor: Some("MangoWM".to_string()),
        target_filter: Some("waybar".to_string()),
        dry_run: true,
    };
    let plan = build_preflight_plan(&options, &theme).expect("expected plan");
    assert_eq!(plan.actions.len(), 3);
    assert_eq!(plan.actions[1].risk_level, RiskLevel::High);
    assert_eq!(plan.actions[2].id, "reload-mangowm");
    assert_eq!(plan.actions[2].action_status, ActionStatus::Skipped);
}

#[test]
fn plan_has_two_actions_per_distinct_target_and_one_reload() {
    let mut theme = minimal_theme();
    for id in ["gtk", "waybar"] {
        theme.targets.push((
            id.to_string(),
            TargetSpec {
                template: format!("{id}.t"),
                destination: format!("{id}.conf"),
                mode: TargetMode::Overwrite,
            },
        ));
    }
    let options = PlannerOptions {
        theme_dir: "theme".to_string(),
        compositor: Some("niri".to_string()),
        target_filter: None,
        dry_run: true,
    };
    let plan = build_preflight_plan(&options, &theme).expect("expected plan");
    assert_eq!(plan.actions.len(), 2 * 3 + 1);
    let ids: Vec<&str> = plan.actions.iter().map(|a| a.id.as_str()).collect();
    assert_eq!(
        ids,
        vec![
            "render-kitty", "apply-kitty", "render-gtk", "apply-gtk", "render-waybar",
            "apply-waybar", "reload-niri"
        ]
    );
}
