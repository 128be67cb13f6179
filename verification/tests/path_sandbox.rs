use yaswitch::engine::paths::{
    check_lexical_containment, check_resolved_containment, join_path, normalize_absolute,
    PathEnv, RuntimePaths,
};
use yaswitch::engine::result::ReasonCode;

#[test]
fn xdg_path_resolution_uses_expected_defaults() {
    let home = "/tmp/yaswitch-home-defaults".to_string();
    let env = PathEnv {
        home: Some(home.clone()),
        xdg_config_home: None,
        xdg_state_home: None,
        xdg_cache_home: None,
    };

    let paths = RuntimePaths::from_env(&env).expect("expected runtime path resolution to work");

    assert_eq!(paths.config_dir, "/tmp/yaswitch-home-defaults/.config/yaswitch");
    assert_eq!(paths.state_dir, "/tmp/yaswitch-home-defaults/.local/state/yaswitch");
    assert_eq!(paths.cache_dir, "/tmp/yaswitch-home-defaults/.cache/yaswitch");
    assert_eq!(
        paths.backup_dir,
        "/tmp/yaswitch-home-defaults/.local/state/yaswitch/backups"
    );
}

#[test]
fn path_sandbox_blocks_dotdot_escape() {
    let allowed_root = "/tmp/yaswitch-root".to_string();
    let candidate = "/tmp/yaswitch-root/subdir/../../etc/passwd";

    let error = check_lexical_containment(candidate, &vec![allowed_root])
        .expect_err("expected dotdot traversal to be rejected");

    assert_eq!(error.code(), ReasonCode::PathOutsideAllowedRoot);
    assert_eq!(error.code().as_str(), "PATH_OUTSIDE_ALLOWED_ROOT");
}

#[test]
fn explicit_xdg_directories_win_and_home_is_required() {
    let env = PathEnv {
        home: Some("/home/u".to_string()),
        xdg_config_home: Some("/cfg/".to_string()),
        xdg_state_home: None,
        xdg_cache_home: Some("/c".to_string()),
    };
    let paths = RuntimePaths::from_env(&env).expect("expected resolution");
    assert_eq!(paths.config_dir, "/cfg/yaswitch");
    assert_eq!(paths.cache_dir, "/c/yaswitch");
    assert_eq!(
        paths.allowed_roots(),
        vec![
            "/cfg/yaswitch".to_string(),
            "/home/u/.local/state/yaswitch".to_string(),
            "/c/yaswitch".to_string(),
            "/home/u/.local/state/yaswitch/backups".to_string(),
        ]
    );

    let error = RuntimePaths::from_env(&PathEnv::default()).expect_err("expected missing home");
    assert_eq!(error.code(), ReasonCode::HomeDirectoryMissing);
}

#[test]
fn normalization_resolves_dots_and_separators() {
    assert_eq!(normalize_absolute("/a//b/./c/../d/").unwrap(), "/a/b/d");
    assert_eq!(normalize_absolute("/../..").unwrap(), "/");
    let error = normalize_absolute("relative/x").expect_err("expected refusal");
    assert_eq!(error.code(), ReasonCode::PathNotAbsolute);
    assert_eq!(error.message(), "path relative/x must be absolute");
}

#[test]
fn lexical_containment_accepts_paths_inside_a_root() {
    let roots = vec!["/srv/a".to_string(), "/srv/b/".to_string()];
    let (candidate, normalized_roots) =
        check_lexical_containment("/srv/b/x/../y.conf", &roots).expect("expected acceptance");
    assert_eq!(candidate, "/srv/b/y.conf");
    assert_eq!(normalized_roots, vec!["/srv/a".to_string(), "/srv/b".to_string()]);

    let error = check_lexical_containment("/srv/ab/z", &roots).expect_err("prefix is not a parent");
    assert_eq!(error.message(), "path /srv/ab/z is outside configured sandbox roots");

    let error = check_lexical_containment("/srv/a/z", &Vec::new()).expect_err("no roots");
    assert_eq!(error.message(), "no allowed roots configured");

    let error = check_lexical_containment("/srv/a/z", &vec!["rel".to_string()])
        .expect_err("relative root");
    assert_eq!(error.code(), ReasonCode::PathNotAbsolute);
}

#[test]
fn resolved_containment_checks_real_locations() {
    let roots = vec!["/real/sandbox".to_string()];
    assert!(check_resolved_containment("/real/sandbox/dir", &roots).is_ok());
    let error = check_resolved_containment("/real/outside", &roots).expect_err("escape");
    assert_eq!(error.code(), ReasonCode::PathOutsideAllowedRoot);
    assert_eq!(
        error.message(),
        "resolved path /real/outside escapes configured sandbox roots"
    );
}

#[test]
fn path_join_follows_path_rules() {
    assert_eq!(join_path("/a", "b"), "/a/b");
    assert_eq!(join_path("/a/", "b"), "/a/b");
    assert_eq!(join_path("/a", "/b"), "/b");
    assert_eq!(join_path("", "b"), "b");
}
