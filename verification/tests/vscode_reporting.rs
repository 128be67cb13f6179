use yaswitch::engine::planner::{build_preflight_plan, PlannerOptions};
use yaswitch::engine::report::build_report_from_plan;
use yaswitch::engine::theme_spec::{
    Palette, TargetMode, TargetSpec, ThemeSpec, WallpaperMode, WallpaperSpec,
};

fn vscode_theme() -> ThemeSpec {
    let c = |s: &str| s.to_string();
    ThemeSpec {
        schema_version: 1,
        theme_name: "VSCode".to_string(),
        palette: Palette {
            base00: c("#000000"),
            base01: c("#111111"),
            base02: c("#222222"),
            base03: c("#333333"),
            base04: c("#444444"),
            base05: c("#555555"),
            base06: c("#666666"),
            base07: c("#777777"),
            base08: c("#888888"),
            base09: c("#999999"),
            base0a: c("#aaaaaa"),
            base0b: c("#bbbbbb"),
            base0c: c("#cccccc"),
            base0d: c("#dddddd"),
            base0e: c("#eeeeee"),
            base0f: c("#ffffff"),
        },
        targets: vec![
            (
                "kitty".to_string(),
                TargetSpec {
                    template: "kitty.conf.template".to_string(),
                    destination: "kitty.conf".to_string(),
                    mode: TargetMode::Inject,
                },
            ),
            (
                "vscode".to_string(),
                TargetSpec {
                    template: "vscode.json.template".to_string(),
                    destination: "settings.json".to_string(),
                    mode: TargetMode::Overwrite,
                },
            ),
        ],
        wallpaper: WallpaperSpec {
            path: "wallpaper.png".to_string(),
            mode: WallpaperMode::Fit,
        },
    }
}

#[test]
fn vscode_plan_actions_include_restart_risk_remediation() {
    let options = PlannerOptions {
        theme_dir: "tests/fixtures/themes/valid-vscode".to_string(),
        compositor: Some("sway".to_string()),
        target_filter: Some("vscode".to_string()),
        dry_run: true,
    };

    let plan = build_preflight_plan(&options, &vscode_theme())
        .expect("expected vscode plan generation");
    let report = build_report_from_plan(&plan, "planned");

    let vscode_actions: Vec<_> = report
        .actions
        .iter()
        .filter(|action| action.target == "vscode")
        .collect();

    assert!(!vscode_actions.is_empty());
    assert!(vscode_actions
        .iter()
        .all(|action| action.remediation_note.is_some()));
    assert!(vscode_actions
        .iter()
        .all(|action| action.remediation_command.is_some()));
}

#[test]
fn vscode_detection_ignores_letter_case() {
    let mut theme = vscode_theme();
    theme.targets[1].0 = "VSCode-Insiders".to_string();
    let options = PlannerOptions {
        theme_dir: "t".to_string(),
        compositor: None,
        target_filter: None,
        dry_run: true,
    };
    let plan = build_preflight_plan(&options, &theme).expect("expected plan");
    assert_eq!(plan.actions[0].remediation_note, None);
    assert_eq!(
        plan.actions[2].remediation_note.as_deref(),
        Some("VSCode targets may require an application restart to fully apply all theme changes.")
    );
}
