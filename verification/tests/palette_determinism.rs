use yaswitch::engine::result::ReasonCode;
use yaswitch::palette::generator::{
    derive_palette, generate_palette_from_wallpaper, palette_cache_key, stable_hash_bytes,
    stable_hash_with_settings,
};

fn sample_bytes() -> Vec<u8> {
    vec![
        0x89, 0x50, 0x4e, 0x47, 0x0d, 0x0a, 0x1a, 0x0a, 0x00, 0x00, 0x00, 0x0d, 0x49, 0x48,
        0x44, 0x52, 0x00, 0x01,
    ]
}

#[test]
fn palette_is_deterministic_for_same_image_and_settings() {
    let wallpaper = "tests/fixtures/wallpapers/sample-a.png";
    let bytes = sample_bytes();

    let first = generate_palette_from_wallpaper(wallpaper, &bytes)
        .expect("expected first palette generation to succeed");
    let second = generate_palette_from_wallpaper(wallpaper, &bytes)
        .expect("expected second palette generation to succeed");

    assert_eq!(first, second);
}

#[test]
fn palette_cache_key_changes_when_inputs_change() {
    let bytes = sample_bytes();
    let key_a = palette_cache_key(&bytes, "mode=dark");
    let key_b = palette_cache_key(&bytes, "mode=light");

    assert_ne!(key_a, key_b);
}

#[test]
fn palette_cache_key_changes_when_wallpaper_changes() {
    let bytes_a = sample_bytes();
    let mut bytes_b = bytes_a.clone();
    if let Some(first) = bytes_b.first_mut() {
        *first ^= 0x01;
    }

    let key_a = palette_cache_key(&bytes_a, "mode=dark");
    let key_b = palette_cache_key(&bytes_b, "mode=dark");

    assert_ne!(key_a, key_b);
}

#[test]
fn corrupt_image_returns_decode_error() {
    let corrupt = "tests/fixtures/wallpapers/corrupt-image.png";
    let error = generate_palette_from_wallpaper(corrupt, &[])
        .expect_err("expected corrupt wallpaper to fail decode");

    assert_eq!(error.code(), ReasonCode::WallpaperDecodeFailed);
}

#[test]
fn palette_cli_contract_generates_stable_snapshot_data() {
    let palette = generate_palette_from_wallpaper("sample-a.png", &sample_bytes())
        .expect("expected palette generation for cli contract");

    assert_eq!(palette.colors.len(), 16);
    for color in &palette.colors {
        assert!(color.starts_with('#'));
        assert_eq!(color.len(), 7);
    }
    assert_eq!(palette.wallpaper_hash.len(), 16);
}

#[test]
fn hash_is_fnv1a_in_lower_hex() {
    assert_eq!(stable_hash_bytes(&[]), "cbf29ce484222325");
    assert_eq!(stable_hash_bytes(b"a"), "af63dc4c8601ec8c");
    assert_eq!(stable_hash_with_settings(b"fo", b"o"), stable_hash_bytes(b"foo"));
    assert_eq!(stable_hash_bytes(b"foo"), "dcb27518fed9d577");
}

#[test]
fn colors_rotate_each_byte() {
    let colors = derive_palette(&[0x01, 0x81]);
    assert_eq!(colors[0], "#010410");
    assert_eq!(colors[1], "#810618");
    assert_eq!(colors[2], "#000000");
    assert_eq!(colors.len(), 16);
}
