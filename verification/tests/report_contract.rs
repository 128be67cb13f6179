use yaswitch::engine::planner::{
    build_preflight_plan, ActionStatus, ActionType, PlanAction, PlanStatus, PlannerOptions,
    PreflightPlan, RiskLevel,
};
use yaswitch::engine::report::build_report_from_plan;
use yaswitch::engine::result::ReasonCode;
use yaswitch::engine::theme_spec::{
    Palette, TargetMode, TargetSpec, ThemeSpec, WallpaperMode, WallpaperSpec,
};
use yaswitch::ui::diagnostics::render_diagnostics_text;

fn minimal_theme() -> ThemeSpec {
    let c = |s: &str| s.to_string();
    ThemeSpec {
        schema_version: 1,
        theme_name: "Minimal".to_string(),
        palette: Palette {
            base00: c("#000000"),
            base01: c("#111111"),
            base02: c("#222222"),
            base03: c("#333333"),
            base04: c("#444444"),
            base05: c("#555555"),
            base06: c("#666666"),
            base07: c("#777777"),
            base08: c("#888888"),
            base09: c("#999999"),
            base0a: c("#aaaaaa"),
            base0b: c("#bbbbbb"),
            base0c: c("#cccccc"),
            base0d: c("#dddddd"),
            base0e: c("#eeeeee"),
            base0f: c("#ffffff"),
        },
        targets: vec![(
            "kitty".to_string(),
            TargetSpec {
                template: "kitty.conf.template".to_string(),
                destination: "kitty.conf".to_string(),
                mode: TargetMode::Inject,
            },
        )],
        wallpaper: WallpaperSpec {
            path: "wallpaper.png".to_string(),
            mode: WallpaperMode::Fill,
        },
    }
}

fn dwl_options() -> PlannerOptions {
    PlannerOptions {
        theme_dir: "tests/fixtures/themes/valid-minimal".to_string(),
        compositor: Some("dwl".to_string()),
        target_filter: None,
        dry_run: true,
    }
}

#[test]
fn report_includes_reason_code_for_safe_skip() {
    let options = dwl_options();

    let plan = build_preflight_plan(&options, &minimal_theme()).expect("expected planner to succeed");
    let report = build_report_from_plan(&plan, "planned");

    assert!(report
        .reason_codes
        .iter()
        .any(|code| code == ReasonCode::SkipReloadUnsupported.as_str()));

    let skip_action = report
        .actions
        .iter()
        .find(|action| {
            action.reason_code.as_deref() == Some(ReasonCode::SkipReloadUnsupported.as_str())
        })
        .expect("expected a safe-skip action in report");

    assert!(skip_action.remediation_note.is_some());
    assert!(skip_action.remediation_command.is_some());
}

#[test]
fn diagnostics_render_contains_reason_codes() {
    let options = dwl_options();

    let plan = build_preflight_plan(&options, &minimal_theme()).expect("expected planner success");
    let report = build_report_from_plan(&plan, "planned");
    let rendered = render_diagnostics_text(&report);

    assert!(rendered.contains("reason_codes:"));
    assert!(rendered.contains("SKIP_RELOAD_UNSUPPORTED"));
    assert!(rendered.contains("remediation_note="));
    assert!(rendered.contains("remediation_command="));
}

fn action(id: &str, risk: RiskLevel, status: ActionStatus, code: Option<&str>) -> PlanAction {
    PlanAction {
        id: id.to_string(),
        target: "t".to_string(),
        action_type: ActionType::ApplyTarget,
        risk_level: risk,
        expected_outcome: "o".to_string(),
        reason_code: code.map(|c| c.to_string()),
        action_status: status,
        remediation_note: None,
        remediation_command: None,
    }
}

#[test]
fn report_counts_and_deduplicates_reason_codes() {
    let plan = PreflightPlan {
        status: PlanStatus::Planned,
        dry_run: false,
        reason_code: "PLANNER_READY".to_string(),
        actions: vec![
            action("a", RiskLevel::High, ActionStatus::Skipped, Some("X")),
            action("b", RiskLevel::Low, ActionStatus::Planned, Some("PLANNER_READY")),
            action("c", RiskLevel::High, ActionStatus::Skipped, Some("X")),
            action("d", RiskLevel::Medium, ActionStatus::Applied, Some("Y")),
        ],
    };
    let report = build_report_from_plan(&plan, "applied");
    assert_eq!(report.status, "applied");
    assert_eq!(report.reason_codes, vec!["PLANNER_READY", "X", "Y"]);
    assert_eq!(report.summary.planned_actions, 4);
    assert_eq!(report.summary.high_risk_actions, 2);
    assert_eq!(report.summary.skipped_actions, 2);
    assert_eq!(report.actions, plan.actions);
}

#[test]
fn diagnostics_text_is_exact() {
    let plan = PreflightPlan {
        status: PlanStatus::Planned,
        dry_run: true,
        reason_code: "PLANNER_DRY_RUN".to_string(),
        actions: vec![action("a", RiskLevel::Low, ActionStatus::RolledBack, None)],
    };
    let report = build_report_from_plan(&plan, "planned");
    assert_eq!(
        render_diagnostics_text(&report),
        "status: planned\nplanned_actions: 1\nreason_codes: PLANNER_DRY_RUN\naction=a target=t status=RolledBack outcome=o reason=none remediation_note=none remediation_command=none"
    );
}
