//! The theme manifest: its data, its validation, and where it is found.
use vstd::prelude::*;

use crate::engine::paths::{join_path, path_join};
use crate::engine::result::{ReasonCode, YaswitchError};
use crate::text::{chars_of, push_all, string_from_chars, trim, trim_chars};

verus! {

/// A theme as its manifest describes it.
#[derive(Debug, Clone, PartialEq, Eq)]
pub struct ThemeSpec {
    pub schema_version: u8,
    pub theme_name: String,
    pub palette: Palette,
    /// Each target's id with its description, in manifest order.
    pub targets: Vec<(String, TargetSpec)>,
    pub wallpaper: WallpaperSpec,
}

/// A base16 palette.
#[derive(Debug, Clone, PartialEq, Eq)]
pub struct Palette {
    pub base00: String,
    pub base01: String,
    pub base02: String,
    pub base03: String,
    pub base04: String,
    pub base05: String,
    pub base06: String,
    pub base07: String,
    pub base08: String,
    pub base09: String,
    pub base0a: String,
    pub base0b: String,
    pub base0c: String,
    pub base0d: String,
    pub base0e: String,
    pub base0f: String,
}

impl Palette {
    /// The sixteen colours, from `base00` to `base0F`.
    pub open spec fn colors(&self) -> Seq<Seq<char>> {
        seq![
            self.base00@,
            self.base01@,
            self.base02@,
            self.base03@,
            self.base04@,
            self.base05@,
            self.base06@,
            self.base07@,
            self.base08@,
            self.base09@,
            self.base0a@,
            self.base0b@,
            self.base0c@,
            self.base0d@,
            self.base0e@,
            self.base0f@,
        ]
    }
}

/// One configuration file a theme renders.
#[derive(Debug, Clone, PartialEq, Eq)]
pub struct TargetSpec {
    pub template: String,
    pub destination: String,
    pub mode: TargetMode,
}

/// How a rendered target reaches its destination.
#[derive(Debug, Clone, Copy, PartialEq, Eq, Structural)]
pub enum TargetMode {
    Inject,
    Overwrite,
}

/// The wallpaper a theme sets.
#[derive(Debug, Clone, PartialEq, Eq)]
pub struct WallpaperSpec {
    pub path: String,
    pub mode: WallpaperMode,
}

/// How the wallpaper is scaled.
#[derive(Debug, Clone, Copy, PartialEq, Eq, Structural)]
pub enum WallpaperMode {
    Fit,
    Fill,
    Center,
}

impl WallpaperMode {
    /// The lower-case name of a mode.
    pub open spec fn label(self) -> Seq<char> {
        match self {
            WallpaperMode::Fit => "fit"@,
            WallpaperMode::Fill => "fill"@,
            WallpaperMode::Center => "center"@,
        }
    }

    pub fn as_str(&self) -> (s: &'static str)
        ensures
            s@ == self.label(),
    {
        match self {
            WallpaperMode::Fit => "fit",
            WallpaperMode::Fill => "fill",
            WallpaperMode::Center => "center",
        }
    }
}

/// An ASCII hexadecimal digit.
pub open spec fn is_hex_digit(c: char) -> bool {
    ('0' <= c && c <= '9') || ('a' <= c && c <= 'f') || ('A' <= c && c <= 'F')
}

/// `v` without one leading `#`, if it has one.
pub open spec fn strip_hash(v: Seq<char>) -> Seq<char> {
    if v.len() > 0 && v[0] == '#' {
        v.drop_first()
    } else {
        v
    }
}

/// Six hexadecimal digits.
pub open spec fn six_hex_digits(w: Seq<char>) -> bool {
    w.len() == 6 && forall|i: int| 0 <= i < 6 ==> is_hex_digit(#[trigger] w[i])
}

/// Six hexadecimal digits, optionally after one `#`.
pub open spec fn is_hex_color_spec(v: Seq<char>) -> bool {
    six_hex_digits(strip_hash(v))
}

/// The first colour of `colors` that is not a hex colour.
pub open spec fn first_bad_color(colors: Seq<Seq<char>>) -> Option<Seq<char>>
    decreases colors.len(),
{
    if colors.len() == 0 {
        None
    } else if !is_hex_color_spec(colors[0]) {
        Some(colors[0])
    } else {
        first_bad_color(colors.drop_first())
    }
}

/// Whether no two targets share an id, as the keys of the manifest's target map.
pub open spec fn distinct_target_ids(targets: Seq<(String, TargetSpec)>) -> bool {
    forall|i: int, j: int|
        0 <= i < j < targets.len() ==> (#[trigger] targets[i]).0@ != (#[trigger] targets[j]).0@
}

fn has_distinct_ids(targets: &Vec<(String, TargetSpec)>) -> (b: bool)
    ensures
        b == distinct_target_ids(targets@),
{
    let n = targets.len();
    let mut i: usize = 0;
    while i < n
        invariant
            n == targets.len(),
            i <= n,
            forall|a: int, b: int|
                0 <= a < b < n && a < i ==> (#[trigger] targets@[a]).0@ != (#[trigger] targets@[b]).0@,
        decreases n - i,
    {
        let mut j: usize = i + 1;
        while j < n
            invariant
                n == targets.len(),
                i < n,
                i + 1 <= j <= n,
                forall|a: int, b: int|
                    0 <= a < b < n && a < i ==> (#[trigger] targets@[a]).0@ != (#[trigger] targets@[b]).0@,
                forall|b: int| i < b < j ==> targets@[i as int].0@ != (#[trigger] targets@[b]).0@,
            decreases n - j,
        {
            if targets[i].0 == targets[j].0 {
                assert(!distinct_target_ids(targets@)) by {
                    assert(targets@[i as int].0@ == targets@[j as int].0@);
                }
                return false;
            }
            j = j + 1;
        }
        i = i + 1;
    }
    true
}

/// What is wrong with a theme, in the order the checks run; `None` for a valid theme.
pub open spec fn theme_problem(spec: ThemeSpec) -> Option<Seq<char>> {
    if spec.schema_version != 1 {
        Some("schema_version must be 1"@)
    } else if trim(spec.theme_name@).len() == 0 {
        Some("theme_name must not be empty"@)
    } else if spec.targets@.len() == 0 {
        Some("targets must not be empty"@)
    } else if !distinct_target_ids(spec.targets@) {
        Some("target ids must be distinct"@)
    } else {
        match first_bad_color(spec.palette.colors()) {
            Some(c) => Some("invalid palette color "@ + c),
            None => None,
        }
    }
}

fn is_hex_digit_char(c: char) -> (b: bool)
    ensures
        b == is_hex_digit(c),
{
    ('0' <= c && c <= '9') || ('a' <= c && c <= 'f') || ('A' <= c && c <= 'F')
}

/// Whether `value` is six hexadecimal digits, optionally after one `#`.
pub fn is_hex_color(value: &str) -> (b: bool)
    ensures
        b == is_hex_color_spec(value@),
{
    let v = chars_of(value);
    let start: usize = if v.len() > 0 && v[0] == '#' {
        1
    } else {
        0
    };
    let ghost w = strip_hash(v@);
    assert(w =~= v@.skip(start as int));
    if v.len() - start != 6 {
        return false;
    }
    let mut i: usize = 0;
    while i < 6
        invariant
            v@.len() == start + 6,
            v.len() == start + 6,
            w == strip_hash(value@),
            w =~= v@.skip(start as int),
            i <= 6,
            forall|k: int| 0 <= k < i ==> is_hex_digit(#[trigger] w[k]),
        decreases 6 - i,
    {
        assert(w[i as int] == v@[start + i]);
        if !is_hex_digit_char(v[start + i]) {
            assert(!is_hex_digit(w[i as int]));
            return false;
        }
        i = i + 1;
    }
    true
}

/// The first palette colour that is not a hex colour, as a message.
pub fn validate_hex_palette(palette: &Palette) -> (r: Result<(), String>)
    ensures
        match first_bad_color(palette.colors()) {
            None => r is Ok,
            Some(c) => r matches Err(m) && m@ == "invalid palette color "@ + c,
        },
{
    let mut values: Vec<&str> = Vec::new();
    values.push(palette.base00.as_str());
    values.push(palette.base01.as_str());
    values.push(palette.base02.as_str());
    values.push(palette.base03.as_str());
    values.push(palette.base04.as_str());
    values.push(palette.base05.as_str());
    values.push(palette.base06.as_str());
    values.push(palette.base07.as_str());
    values.push(palette.base08.as_str());
    values.push(palette.base09.as_str());
    values.push(palette.base0a.as_str());
    values.push(palette.base0b.as_str());
    values.push(palette.base0c.as_str());
    values.push(palette.base0d.as_str());
    values.push(palette.base0e.as_str());
    values.push(palette.base0f.as_str());
    let ghost colors = palette.colors();
    assert(values@.map_values(|s: &str| s@) =~= colors);
    let mut i: usize = 0;
    assert(colors.skip(0) =~= colors);
    while i < values.len()
        invariant
            i <= values.len(),
            values@.map_values(|s: &str| s@) == colors,
            colors == palette.colors(),
            first_bad_color(colors) == first_bad_color(colors.skip(i as int)),
        decreases values.len() - i,
    {
        assert(values[i as int]@ == colors[i as int]);
        assert(colors.skip(i as int)[0] == colors[i as int]);
        if !is_hex_color(values[i]) {
            let mut msg = chars_of("invalid palette color ");
            push_all(&mut msg, &chars_of(values[i]));
            assert(first_bad_color(colors.skip(i as int)) == Some(colors[i as int]));
            assert(msg@ == "invalid palette color "@ + colors[i as int]);
            assert(first_bad_color(palette.colors()) == Some(colors[i as int]));
            let m = string_from_chars(msg.as_slice());
            assert(m@ == "invalid palette color "@ + colors[i as int]);
            return Err(m);
        }
        assert(colors.skip(i as int).drop_first() =~= colors.skip(i + 1));
        i = i + 1;
    }
    assert(colors.skip(i as int).len() == 0);
    Ok(())
}

/// Checks a parsed theme: schema version 1, a non-blank name, at least one target, no
/// target id twice (a manifest's targets are a map) and a palette of hex colours.
pub fn validate_theme_spec(spec: &ThemeSpec) -> (r: Result<(), String>)
    ensures
        match theme_problem(*spec) {
            None => r is Ok,
            Some(m) => r matches Err(s) && s@ == m,
        },
{
    if spec.schema_version != 1 {
        return Err(string_from_chars(chars_of("schema_version must be 1").as_slice()));
    }
    if trim_chars(&chars_of(spec.theme_name.as_str())).len() == 0 {
        return Err(string_from_chars(chars_of("theme_name must not be empty").as_slice()));
    }
    if spec.targets.len() == 0 {
        return Err(string_from_chars(chars_of("targets must not be empty").as_slice()));
    }
    if !has_distinct_ids(&spec.targets) {
        return Err(string_from_chars(chars_of("target ids must be distinct").as_slice()));
    }
    validate_hex_palette(&spec.palette)
}

/// A theme directory and the manifest file found in it.
#[derive(Debug, Clone, PartialEq, Eq)]
pub struct ThemeLocation {
    pub root: String,
    pub manifest: String,
}

/// Picks the manifest of the theme in `dir`, given which of `theme.yaml` and `theme.json`
/// exist there: exactly one of them must.
pub fn locate_theme_manifest(dir: &str, yaml_exists: bool, json_exists: bool) -> (r: Result<
    ThemeLocation,
    YaswitchError,
>)
    ensures
        yaml_exists && !json_exists ==> (r matches Ok(l) && l.root@ == dir@ && l.manifest@
            == path_join(dir@, "theme.yaml"@)),
        !yaml_exists && json_exists ==> (r matches Ok(l) && l.root@ == dir@ && l.manifest@
            == path_join(dir@, "theme.json"@)),
        yaml_exists && json_exists ==> (r matches Err(e) && e.code_of()
            == ReasonCode::ThemeSchemaInvalid && e.message_of()
            == "expected exactly one of theme.yaml or theme.json"@),
        !yaml_exists && !json_exists ==> (r matches Err(e) && e.code_of()
            == ReasonCode::ThemeSchemaInvalid && e.message_of()
            == "missing theme.yaml or theme.json"@),
{
    let manifest = if yaml_exists && !json_exists {
        join_path(dir, "theme.yaml")
    } else if !yaml_exists && json_exists {
        join_path(dir, "theme.json")
    } else if yaml_exists {
        return Err(
            YaswitchError::new(
                ReasonCode::ThemeSchemaInvalid,
                "expected exactly one of theme.yaml or theme.json",
            ),
        );
    } else {
        return Err(
            YaswitchError::new(ReasonCode::ThemeSchemaInvalid, "missing theme.yaml or theme.json"),
        );
    };
    Ok(ThemeLocation { root: dir.to_owned(), manifest })
}

/// A character counts as a hex digit exactly when it is one of the ASCII hex digits
/// `0`-`9`, `a`-`f` and `A`-`F`; so a colour is valid exactly when, after at most one
/// leading `#` (`strip_hash`), it has six of them.
pub proof fn law_hex_digits(c: char, v: Seq<char>)
    ensures
        is_hex_digit(c) == "0123456789abcdefABCDEF"@.contains(c),
        is_hex_color_spec(v) == (strip_hash(v).len() == 6 && forall|i: int|
            0 <= i < 6 ==> "0123456789abcdefABCDEF"@.contains(#[trigger] strip_hash(v)[i])),
{
    reveal_strlit("0123456789abcdefABCDEF");
    let digits = "0123456789abcdefABCDEF"@;
    assert(digits =~= seq!['0', '1', '2', '3', '4', '5', '6', '7', '8', '9', 'a', 'b', 'c', 'd', 'e', 'f', 'A', 'B', 'C', 'D', 'E', 'F']);
    assert forall|d: char| #[trigger] digits.contains(d) implies is_hex_digit(d) by {
        let k = choose|k: int| 0 <= k < digits.len() && digits[k] == d;
        assert(0 <= k < 22);
    }
    assert forall|d: char| is_hex_digit(d) implies #[trigger] digits.contains(d) by {
        lemma_hex_digit_listed(d);
    }
    let w = strip_hash(v);
    assert forall|i: int| 0 <= i < w.len() implies is_hex_digit(w[i]) == digits.contains(
        #[trigger] w[i],
    ) by {
        if is_hex_digit(w[i]) {
            lemma_hex_digit_listed(w[i]);
        }
    }
    if is_hex_color_spec(v) {
        assert forall|i: int| 0 <= i < 6 implies digits.contains(#[trigger] w[i]) by {
            assert(is_hex_digit(w[i]));
        }
    } else if w.len() == 6 {
        let i = choose|i: int| 0 <= i < 6 && !is_hex_digit(#[trigger] w[i]);
        assert(!digits.contains(w[i]));
    }
}

proof fn lemma_hex_digit_listed(c: char)
    requires
        is_hex_digit(c),
    ensures
        "0123456789abcdefABCDEF"@.contains(c),
{
    reveal_strlit("0123456789abcdefABCDEF");
    let digits = "0123456789abcdefABCDEF"@;
    assert(digits =~= seq!['0', '1', '2', '3', '4', '5', '6', '7', '8', '9', 'a', 'b', 'c', 'd', 'e', 'f', 'A', 'B', 'C', 'D', 'E', 'F']);
    assert(c == '0' || c == '1' || c == '2' || c == '3' || c == '4' || c == '5' || c == '6' || c == '7'
        || c == '8' || c == '9' || c == 'a' || c == 'b' || c == 'c' || c == 'd' || c == 'e' || c == 'f'
        || c == 'A' || c == 'B' || c == 'C' || c == 'D' || c == 'E' || c == 'F');
        if c == '0' {
            assert(digits[0] == c);
        }
        if c == '1' {
            assert(digits[1] == c);
        }
        if c == '2' {
            assert(digits[2] == c);
        }
        if c == '3' {
            assert(digits[3] == c);
        }
        if c == '4' {
            assert(digits[4] == c);
        }
        if c == '5' {
            assert(digits[5] == c);
        }
        if c == '6' {
            assert(digits[6] == c);
        }
        if c == '7' {
            assert(digits[7] == c);
        }
        if c == '8' {
            assert(digits[8] == c);
        }
        if c == '9' {
            assert(digits[9] == c);
        }
        if c == 'a' {
            assert(digits[10] == c);
        }
        if c == 'b' {
            assert(digits[11] == c);
        }
        if c == 'c' {
            assert(digits[12] == c);
        }
        if c == 'd' {
            assert(digits[13] == c);
        }
        if c == 'e' {
            assert(digits[14] == c);
        }
        if c == 'f' {
            assert(digits[15] == c);
        }
        if c == 'A' {
            assert(digits[16] == c);
        }
        if c == 'B' {
            assert(digits[17] == c);
        }
        if c == 'C' {
            assert(digits[18] == c);
        }
        if c == 'D' {
            assert(digits[19] == c);
        }
        if c == 'E' {
            assert(digits[20] == c);
        }
        if c == 'F' {
            assert(digits[21] == c);
        }
}

} // verus!
