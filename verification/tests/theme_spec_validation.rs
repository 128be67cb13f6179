use yaswitch::engine::result::ReasonCode;
use yaswitch::engine::theme_spec::{
    is_hex_color, locate_theme_manifest, validate_theme_spec, Palette, TargetMode, TargetSpec,
    ThemeSpec, WallpaperMode, WallpaperSpec,
};

fn theme() -> ThemeSpec {
    let c = |s: &str| s.to_string();
    ThemeSpec {
        schema_version: 1,
        theme_name: "Minimal".to_string(),
        palette: Palette {
            base00: c("#000000"),
            base01: c("111111"),
            base02: c("#222222"),
            base03: c("#333333"),
            base04: c("#444444"),
            base05: c("#555555"),
            base06: c("#666666"),
            base07: c("#777777"),
            base08: c("#888888"),
            base09: c("#999999"),
            base0a: c("#aAaAaA"),
            base0b: c("#bbbbbb"),
            base0c: c("#cccccc"),
            base0d: c("#dddddd"),
            base0e: c("#eeeeee"),
            base0f: c("#ffffff"),
        },
        targets: vec![(
            "kitty".to_string(),
            TargetSpec {
                template: "kitty.conf.template".to_string(),
                destination: "kitty.conf".to_string(),
                mode: TargetMode::Inject,
            },
        )],
        wallpaper: WallpaperSpec {
            path: "wallpaper.png".to_string(),
            mode: WallpaperMode::Fill,
        },
    }
}

#[test]
fn valid_theme_passes_validation() {
    assert_eq!(validate_theme_spec(&theme()), Ok(()));
    assert_eq!(theme().wallpaper.mode.as_str(), "fill");
    assert_eq!(WallpaperMode::Center.as_str(), "center");
}

#[test]
fn validation_reports_the_first_problem() {
    let mut t = theme();
    t.schema_version = 2;
    t.theme_name = " ".to_string();
    assert_eq!(validate_theme_spec(&t), Err("schema_version must be 1".to_string()));
    t.schema_version = 1;
    assert_eq!(validate_theme_spec(&t), Err("theme_name must not be empty".to_string()));
    t.theme_name = "x".to_string();
    t.targets.clear();
    assert_eq!(validate_theme_spec(&t), Err("targets must not be empty".to_string()));
    let mut t = theme();
    t.palette.base03 = "#12345".to_string();
    t.palette.base07 = "zzz".to_string();
    assert_eq!(validate_theme_spec(&t), Err("invalid palette color #12345".to_string()));
}

#[test]
fn hex_colors_take_one_optional_hash() {
    assert!(is_hex_color("#a1B2c3"));
    assert!(is_hex_color("a1B2c3"));
    assert!(!is_hex_color("##a1b2c3"));
    assert!(!is_hex_color("#a1b2g3"));
    assert!(!is_hex_color("#a1b2c"));
}

#[test]
fn manifest_location_needs_exactly_one_file() {
    let yaml = locate_theme_manifest("/themes/m", true, false).expect("yaml");
    assert_eq!(yaml.root, "/themes/m");
    assert_eq!(yaml.manifest, "/themes/m/theme.yaml");
    let json = locate_theme_manifest("/themes/m", false, true).expect("json");
    assert_eq!(json.manifest, "/themes/m/theme.json");
    let both = locate_theme_manifest("/themes/m", true, true).expect_err("both");
    assert_eq!(both.code(), ReasonCode::ThemeSchemaInvalid);
    assert_eq!(both.message(), "expected exactly one of theme.yaml or theme.json");
    let none = locate_theme_manifest("/themes/m", false, false).expect_err("none");
    assert_eq!(none.message(), "missing theme.yaml or theme.json");
}

#[test]
fn target_ids_must_be_distinct() {
    let mut t = theme();
    let first = t.targets[0].clone();
    t.targets.push(first);
    assert_eq!(validate_theme_spec(&t), Err("target ids must be distinct".to_string()));
}
