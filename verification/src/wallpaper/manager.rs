//! Wallpaper selection: path checks, the wallpaper tool's command line, and state files.
use vstd::prelude::*;

use crate::engine::paths::{join_path, path_join, path_parts, scan_path, split_path};
use crate::engine::recovery::lemma_scan_append;
use crate::engine::result::{ReasonCode, YaswitchError};
use crate::text::{
    chars_eq, chars_of, lower, push_all, slice_chars, string_from_chars, to_lower, trim,
    trim_chars,
};

verus! {

/// The wallpaper that is currently set.
#[derive(Debug, Clone, PartialEq, Eq)]
pub struct WallpaperState {
    pub current_wallpaper: String,
}

/// The last component of a path, unless it is `..` or there is none.
pub open spec fn file_name(p: Seq<char>) -> Option<Seq<char>> {
    let parts = path_parts(p, false);
    if parts.len() == 0 || parts.last() == seq!['.', '.'] {
        None
    } else {
        Some(parts.last())
    }
}

/// Whether `name` has a `.` at index `i` and none after it.
pub open spec fn last_dot_at(name: Seq<char>, i: int) -> bool {
    0 <= i < name.len() && name[i] == '.' && forall|j: int| i < j < name.len() ==> name[j] != '.'
}

/// The text after the last `.` of a file name; none when the name has no `.` or its only
/// `.` is its first character, and none for `..`.
pub open spec fn name_extension(name: Seq<char>) -> Option<Seq<char>> {
    if exists|i: int| 0 < i && last_dot_at(name, i) {
        let i = choose|i: int| 0 < i && last_dot_at(name, i);
        Some(name.skip(i + 1))
    } else {
        None
    }
}

/// The extension of a path's file name.
pub open spec fn path_extension(p: Seq<char>) -> Option<Seq<char>> {
    match file_name(p) {
        Some(n) => name_extension(n),
        None => None,
    }
}

/// The image extensions a wallpaper may have, in lower case.
pub open spec fn is_supported_extension(e: Seq<char>) -> bool {
    e == "png"@ || e == "jpg"@ || e == "jpeg"@ || e == "webp"@ || e == "bmp"@
}

fn extension_of(path: &str) -> (r: Option<Vec<char>>)
    ensures
        match path_extension(path@) {
            Some(e) => r matches Some(v) && v@ == e,
            None => r is None,
        },
{
    let parts = split_path(&chars_of(path), false);
    if parts.len() == 0 {
        return None;
    }
    let name = &parts[parts.len() - 1];
    let mut dotdot: Vec<char> = Vec::new();
    dotdot.push('.');
    dotdot.push('.');
    if chars_eq(name, &dotdot) {
        assert(dotdot@ =~= seq!['.', '.']);
        return None;
    }
    assert(dotdot@ =~= seq!['.', '.']);
    let ghost nv = name@;
    let mut i: usize = name.len();
    while i > 0 && name[i - 1] != '.'
        invariant
            i <= name.len(),
            nv == name@,
            forall|j: int| i <= j < name.len() ==> name@[j] != '.',
        decreases i,
    {
        i = i - 1;
    }
    if i <= 1 {
        assert(!exists|k: int| 0 < k && last_dot_at(nv, k)) by {
            if exists|k: int| 0 < k && last_dot_at(nv, k) {
                let k = choose|k: int| 0 < k && last_dot_at(nv, k);
                if i == 1 {
                    assert(nv[0] == '.');
                }
            }
        }
        return None;
    }
    assert(last_dot_at(nv, i - 1));
    assert(forall|k: int| 0 < k && last_dot_at(nv, k) ==> k == i - 1);
    Some(slice_chars(name, i, name.len()))
}

fn has_shell_meta(s: &Vec<char>) -> (b: bool)
    ensures
        b == has_meta(s@),
{
    let mut i: usize = 0;
    while i < s.len()
        invariant
            i <= s.len(),
            forall|k: int| 0 <= k < i ==> !is_meta(#[trigger] s@[k]),
        decreases s.len() - i,
    {
        if s[i] == ';' || s[i] == '|' || s[i] == '&' {
            assert(is_meta(s@[i as int]));
            return true;
        }
        i = i + 1;
    }
    false
}

/// A character a shell treats as a command separator.
pub open spec fn is_meta(c: char) -> bool {
    c == ';' || c == '|' || c == '&'
}

/// Whether `s` holds a shell command separator.
pub open spec fn has_meta(s: Seq<char>) -> bool {
    exists|i: int| 0 <= i < s.len() && is_meta(#[trigger] s[i])
}

/// Checks that a wallpaper exists (as `exists` reports) and has a supported image
/// extension, in any letter case.
pub fn validate_wallpaper_path(path: &str, exists: bool) -> (r: Result<(), YaswitchError>)
    ensures
        !exists ==> (r matches Err(e) && e.code_of() == ReasonCode::WallpaperPathMissing
            && e.message_of() == "wallpaper path "@ + path@ + " does not exist"@),
        exists && path_extension(path@) is None ==> (r matches Err(e) && e.code_of()
            == ReasonCode::WallpaperUnsupportedFormat && e.message_of()
            == "wallpaper requires an image extension"@),
        exists ==> (path_extension(path@) matches Some(ext) ==> if is_supported_extension(
            lower(ext),
        ) {
            r is Ok
        } else {
            r matches Err(e) && e.code_of() == ReasonCode::WallpaperUnsupportedFormat
                && e.message_of() == "unsupported wallpaper extension '."@ + lower(ext) + "'"@
        }),
{
    if !exists {
        let mut msg = chars_of("wallpaper path ");
        push_all(&mut msg, &chars_of(path));
        push_all(&mut msg, &chars_of(" does not exist"));
        let text = string_from_chars(msg.as_slice());
        return Err(YaswitchError::new(ReasonCode::WallpaperPathMissing, text.as_str()));
    }
    let ext = match extension_of(path) {
        Some(e) => to_lower(&e),
        None => {
            return Err(
                YaswitchError::new(
                    ReasonCode::WallpaperUnsupportedFormat,
                    "wallpaper requires an image extension",
                ),
            );
        },
    };
    let supported = chars_eq(&ext, &chars_of("png")) || chars_eq(&ext, &chars_of("jpg"))
        || chars_eq(&ext, &chars_of("jpeg")) || chars_eq(&ext, &chars_of("webp")) || chars_eq(
        &ext,
        &chars_of("bmp"),
    );
    if !supported {
        let mut msg = chars_of("unsupported wallpaper extension '.");
        push_all(&mut msg, &ext);
        push_all(&mut msg, &chars_of("'"));
        let text = string_from_chars(msg.as_slice());
        return Err(YaswitchError::new(ReasonCode::WallpaperUnsupportedFormat, text.as_str()));
    }
    Ok(())
}

/// The command line that sets `wallpaper` with `tool`, refused when the tool is blank or
/// the mode or the path holds a shell command separator.
pub fn build_safe_wallpaper_command(tool: &str, wallpaper: &str, mode: &str) -> (r: Result<
    Vec<String>,
    YaswitchError,
>)
    ensures
        trim(tool@).len() == 0 ==> (r matches Err(e) && e.code_of()
            == ReasonCode::WallpaperCommandUnsafe && e.message_of()
            == "wallpaper tool must not be empty"@),
        trim(tool@).len() > 0 && has_meta(mode@) ==> (r matches Err(e) && e.code_of()
            == ReasonCode::WallpaperCommandUnsafe && e.message_of()
            == "wallpaper mode contains unsafe shell metacharacters"@),
        trim(tool@).len() > 0 && !has_meta(mode@) && has_meta(wallpaper@) ==> (r matches Err(e)
            && e.code_of() == ReasonCode::WallpaperCommandUnsafe && e.message_of()
            == "wallpaper path contains unsafe shell metacharacters"@),
        trim(tool@).len() > 0 && !has_meta(mode@) && !has_meta(wallpaper@) ==> (r matches Ok(
            v,
        ) && v@.map_values(|s: String| s@) == seq![tool@, "img"@, wallpaper@, "--resize"@, mode@]),
{
    if trim_chars(&chars_of(tool)).len() == 0 {
        return Err(
            YaswitchError::new(ReasonCode::WallpaperCommandUnsafe, "wallpaper tool must not be empty"),
        );
    }
    if has_shell_meta(&chars_of(mode)) {
        return Err(
            YaswitchError::new(
                ReasonCode::WallpaperCommandUnsafe,
                "wallpaper mode contains unsafe shell metacharacters",
            ),
        );
    }
    if has_shell_meta(&chars_of(wallpaper)) {
        return Err(
            YaswitchError::new(
                ReasonCode::WallpaperCommandUnsafe,
                "wallpaper path contains unsafe shell metacharacters",
            ),
        );
    }
    let mut v: Vec<String> = Vec::new();
    v.push(tool.to_owned());
    v.push("img".to_owned());
    v.push(wallpaper.to_owned());
    v.push("--resize".to_owned());
    v.push(mode.to_owned());
    assert(v@.map_values(|s: String| s@) =~= seq![tool@, "img"@, wallpaper@, "--resize"@, mode@]);
    Ok(v)
}

/// Checks that the wallpaper at `path`, read as `bytes`, is not empty.
pub fn validate_wallpaper_bytes(path: &str, bytes: &[u8]) -> (r: Result<(), YaswitchError>)
    ensures
        bytes@.len() > 0 ==> r is Ok,
        bytes@.len() == 0 ==> (r matches Err(e) && e.code_of() == ReasonCode::WallpaperDecodeFailed
            && e.message_of() == "wallpaper "@ + path@ + " has empty content"@),
{
    if bytes.len() == 0 {
        let mut msg = chars_of("wallpaper ");
        push_all(&mut msg, &chars_of(path));
        push_all(&mut msg, &chars_of(" has empty content"));
        let text = string_from_chars(msg.as_slice());
        return Err(YaswitchError::new(ReasonCode::WallpaperDecodeFailed, text.as_str()));
    }
    Ok(())
}

/// The wallpaper state file under the runtime state directory.
pub fn default_state_file(runtime_state_dir: &str) -> (r: String)
    ensures
        r@ == path_join(runtime_state_dir@, "wallpaper-state.json"@),
{
    join_path(runtime_state_dir, "wallpaper-state.json")
}

/// The supported wallpaper extensions are exactly png, jpg, jpeg, webp and bmp (compared
/// in lower case).
pub proof fn law_supported_extensions(e: Seq<char>)
    ensures
        is_supported_extension(e) == seq!["png"@, "jpg"@, "jpeg"@, "webp"@, "bmp"@].contains(e),
{
    let list = seq!["png"@, "jpg"@, "jpeg"@, "webp"@, "bmp"@];
    if is_supported_extension(e) {
        if e == "png"@ {
            assert(list[0] == e);
        } else if e == "jpg"@ {
            assert(list[1] == e);
        } else if e == "jpeg"@ {
            assert(list[2] == e);
        } else if e == "webp"@ {
            assert(list[3] == e);
        } else {
            assert(list[4] == e);
        }
    }
    if list.contains(e) {
        let k = choose|k: int| 0 <= k < list.len() && list[k] == e;
        assert(0 <= k < 5);
    }
}

/// The extension of a path `dir` + `stem` + `.` + `ext`, where `dir` is empty or ends with
/// `/` and neither the stem nor the extension holds `/` or `.`, is `ext`: so such a path
/// names a supported wallpaper exactly when `ext` in lower case is png, jpg, jpeg, webp
/// or bmp.
pub proof fn law_wallpaper_extension_of_path(dir: Seq<char>, stem: Seq<char>, ext: Seq<char>)
    requires
        dir.len() == 0 || dir.last() == '/',
        stem.len() > 0,
        forall|i: int| 0 <= i < stem.len() ==> stem[i] != '/' && stem[i] != '.',
        forall|i: int| 0 <= i < ext.len() ==> ext[i] != '/' && ext[i] != '.',
    ensures
        path_extension(dir + stem + seq!['.'] + ext) == Some(ext),
        is_supported_extension(lower(ext)) == seq!["png"@, "jpg"@, "jpeg"@, "webp"@, "bmp"@].contains(
            lower(ext),
        ),
{
    law_supported_extensions(lower(ext));
    let name = stem + seq!['.'] + ext;
    let p = dir + name;
    assert(dir + stem + seq!['.'] + ext =~= p);
    assert(scan_path(dir, false).1.len() == 0) by {
        if dir.len() > 0 {
            assert(dir.last() == '/');
        }
    }
    assert forall|j: int| 0 <= j < name.len() implies name[j] != '/' by {
        if j < stem.len() {
            assert(name[j] == stem[j]);
        } else if j > stem.len() {
            assert(name[j] == ext[j - stem.len() - 1]);
        }
    }
    lemma_scan_append(dir, name, name.len() as int);
    assert(name.take(name.len() as int) =~= name);
    assert(name != seq!['.']) by {
        assert(name.len() >= 2);
    }
    assert(name != seq!['.', '.']) by {
        if name.len() == 2 {
            assert(name[0] == stem[0]);
        }
    }
    assert(path_parts(p, false) == scan_path(dir, false).0.push(name));
    assert(file_name(p) == Some(name));
    let d = stem.len() as int;
    assert(last_dot_at(name, d)) by {
        assert forall|j: int| d < j < name.len() implies name[j] != '.' by {
            assert(name[j] == ext[j - d - 1]);
        }
    }
    assert forall|i: int| 0 < i && last_dot_at(name, i) implies i == d by {
        if i < d {
            assert(name[i] == stem[i]);
        } else if i > d {
            assert(name[i] == ext[i - d - 1]);
        }
    }
    assert(name.skip(d + 1) =~= ext);
}

} // verus!
