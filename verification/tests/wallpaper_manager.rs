use yaswitch::engine::result::ReasonCode;
use yaswitch::wallpaper::manager::{
    build_safe_wallpaper_command, default_state_file, validate_wallpaper_bytes,
    validate_wallpaper_path,
};

#[test]
fn wallpaper_manager_accepts_supported_image_paths() {
    let fixture = "tests/fixtures/wallpapers/sample-a.png";
    validate_wallpaper_path(fixture, true).expect("expected sample wallpaper to be valid");
}

#[test]
fn wallpaper_command_wrapper_rejects_unsafe_arguments() {
    let unsafe_wallpaper = "tests/fixtures/wallpapers/sample-a.png;rm -rf /";
    let error = build_safe_wallpaper_command("swww", unsafe_wallpaper, "fill")
        .expect_err("expected unsafe command args rejection");

    assert_eq!(error.code(), ReasonCode::WallpaperCommandUnsafe);
}

#[test]
fn wallpaper_path_errors_are_distinguished() {
    let missing = validate_wallpaper_path("/w/a.png", false).expect_err("missing");
    assert_eq!(missing.code(), ReasonCode::WallpaperPathMissing);
    assert_eq!(missing.message(), "wallpaper path /w/a.png does not exist");

    let no_ext = validate_wallpaper_path("/w/.hidden", true).expect_err("no extension");
    assert_eq!(no_ext.code(), ReasonCode::WallpaperUnsupportedFormat);
    assert_eq!(no_ext.message(), "wallpaper requires an image extension");

    let bad = validate_wallpaper_path("/w/a.Gif", true).expect_err("gif");
    assert_eq!(bad.message(), "unsupported wallpaper extension '.gif'");

    assert!(validate_wallpaper_path("/w/a.tar.JPEG", true).is_ok());
    assert!(validate_wallpaper_path("/w/a.webp/", true).is_ok());
}

#[test]
fn wallpaper_command_is_built_in_order() {
    let command = build_safe_wallpaper_command("swww", "/w/a.png", "fit").expect("command");
    assert_eq!(command, vec!["swww", "img", "/w/a.png", "--resize", "fit"]);
    let error = build_safe_wallpaper_command(" ", "/w/a.png", "fit").expect_err("blank tool");
    assert_eq!(error.message(), "wallpaper tool must not be empty");
    let error = build_safe_wallpaper_command("swww", "/w/a.png", "fit|x").expect_err("mode");
    assert_eq!(error.message(), "wallpaper mode contains unsafe shell metacharacters");
}

#[test]
fn empty_wallpaper_content_is_refused() {
    let error = validate_wallpaper_bytes("/w/a.png", &[]).expect_err("empty");
    assert_eq!(error.code(), ReasonCode::WallpaperDecodeFailed);
    assert!(validate_wallpaper_bytes("/w/a.png", &[1]).is_ok());
    assert_eq!(default_state_file("/state"), "/state/wallpaper-state.json");
}
