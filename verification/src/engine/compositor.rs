//! Which Wayland compositor is running, from the session's environment.
use vstd::prelude::*;

use crate::text::{
    chars_of, contains, find_chars, join, lemma_find_from_bounds, lower, push_all,
    string_from_chars, to_lower, trim, trim_chars,
};

verus! {

/// The environment variables compositor detection reads.
#[derive(Debug, Clone, Default, PartialEq, Eq)]
pub struct CompositorEnv {
    pub sway_socket: Option<String>,
    pub hyprland_signature: Option<String>,
    pub niri_socket: Option<String>,
    pub xdg_current_desktop: Option<String>,
    pub xdg_session_desktop: Option<String>,
}

/// Whether a variable is set to a non-empty value.
pub open spec fn set_nonempty(v: Option<String>) -> bool {
    v matches Some(s) && s@.len() > 0
}

/// The desktop names that are set, in lower case.
pub open spec fn present_desktops(current: Option<String>, session: Option<String>) -> Seq<Seq<char>> {
    match (current, session) {
        (Some(a), Some(b)) => seq![lower(a@), lower(b@)],
        (Some(a), None) => seq![lower(a@)],
        (None, Some(b)) => seq![lower(b@)],
        (None, None) => Seq::empty(),
    }
}

/// The desktop names that are set, in lower case, joined by `:`.
pub open spec fn desktop_probe(current: Option<String>, session: Option<String>) -> Seq<char> {
    join(present_desktops(current, session), seq![':'])
}

/// The compositor a desktop probe names, by the first of its keywords it contains.
pub open spec fn compositor_from_probe(probe: Seq<char>) -> Option<Seq<char>> {
    if probe.len() == 0 {
        None
    } else if contains(probe, "sway"@) {
        Some("sway"@)
    } else if contains(probe, "hypr"@) {
        Some("hyprland"@)
    } else if contains(probe, "niri"@) {
        Some("niri"@)
    } else if contains(probe, "dwl"@) {
        Some("dwl"@)
    } else if contains(probe, "mango"@) {
        Some("mangowm"@)
    } else {
        None
    }
}

/// The compositor the environment shows: a sway socket, a Hyprland instance signature
/// or a niri socket, in that order, else the XDG desktop names.
pub open spec fn detected_compositor(env: CompositorEnv) -> Option<Seq<char>> {
    if set_nonempty(env.sway_socket) {
        Some("sway"@)
    } else if set_nonempty(env.hyprland_signature) {
        Some("hyprland"@)
    } else if set_nonempty(env.niri_socket) {
        Some("niri"@)
    } else {
        compositor_from_probe(desktop_probe(env.xdg_current_desktop, env.xdg_session_desktop))
    }
}

/// The text of an optional string.
pub open spec fn opt_view(o: Option<String>) -> Option<Seq<char>> {
    match o {
        Some(s) => Some(s@),
        None => None,
    }
}

fn nonempty(v: &Option<String>) -> (b: bool)
    ensures
        b == set_nonempty(*v),
{
    match v {
        Some(s) => s.unicode_len() > 0,
        None => false,
    }
}

fn probe_contains(probe: &Vec<char>, word: &str) -> (b: bool)
    ensures
        b == contains(probe@, word@),
{
    let w = chars_of(word);
    find_chars(probe, &w, 0).is_some()
}

/// The compositor the XDG desktop names point to.
pub fn detect_compositor_from_desktop_strings(
    xdg_current_desktop: &Option<String>,
    xdg_session_desktop: &Option<String>,
) -> (r: Option<String>)
    ensures
        opt_view(r) == compositor_from_probe(
            desktop_probe(*xdg_current_desktop, *xdg_session_desktop),
        ),
{
    let mut probe: Vec<char> = Vec::new();
    let mut any = false;
    if let Some(a) = xdg_current_desktop {
        push_all(&mut probe, &to_lower(&chars_of(a.as_str())));
        any = true;
    }
    if let Some(b) = xdg_session_desktop {
        if any {
            probe.push(':');
        }
        push_all(&mut probe, &to_lower(&chars_of(b.as_str())));
    }
    proof {
        let present = present_desktops(*xdg_current_desktop, *xdg_session_desktop);
        if present.len() == 2 {
            assert(present.drop_last() =~= seq![present[0]]);
            assert(join(seq![present[0]], seq![':']) == present[0]);
            assert(join(present.drop_last(), seq![':']) == present[0]);
            assert(join(present, seq![':']) == present[0] + seq![':'] + present[1]);
        } else if present.len() == 1 {
            assert(join(present, seq![':']) == present[0]);
        } else {
            assert(join(present, seq![':']) == Seq::<char>::empty());
        }
        assert(probe@ =~= desktop_probe(*xdg_current_desktop, *xdg_session_desktop));
    }
    if probe.len() == 0 {
        None
    } else if probe_contains(&probe, "sway") {
        Some("sway".to_owned())
    } else if probe_contains(&probe, "hypr") {
        Some("hyprland".to_owned())
    } else if probe_contains(&probe, "niri") {
        Some("niri".to_owned())
    } else if probe_contains(&probe, "dwl") {
        Some("dwl".to_owned())
    } else if probe_contains(&probe, "mango") {
        Some("mangowm".to_owned())
    } else {
        None
    }
}

/// The compositor the environment shows, if any.
pub fn detect_compositor_from_env(env: &CompositorEnv) -> (r: Option<String>)
    ensures
        opt_view(r) == detected_compositor(*env),
{
    if nonempty(&env.sway_socket) {
        return Some("sway".to_owned());
    }
    if nonempty(&env.hyprland_signature) {
        return Some("hyprland".to_owned());
    }
    if nonempty(&env.niri_socket) {
        return Some("niri".to_owned());
    }
    detect_compositor_from_desktop_strings(&env.xdg_current_desktop, &env.xdg_session_desktop)
}

/// The compositor to use: the requested one, trimmed and in lower case, when it is not
/// blank; else the detected one; else `sway`.
pub open spec fn resolved_compositor(requested: Option<Seq<char>>, detected: Option<Seq<char>>) -> Seq<
    char,
> {
    if requested matches Some(r) && trim(r).len() > 0 {
        lower(trim(requested->0))
    } else {
        match detected {
            Some(d) => d,
            None => "sway"@,
        }
    }
}

/// The compositor to use: the requested one, trimmed and in lower case, when it is not
/// blank; else `detected`, the one the environment shows; else `sway`.
pub fn resolve_compositor(requested: Option<&str>, detected: Option<String>) -> (r: String)
    ensures
        r@ == resolved_compositor(
            match requested {
                Some(s) => Some(s@),
                None => None,
            },
            opt_view(detected),
        ),
{
    if let Some(req) = requested {
        let t = trim_chars(&chars_of(req));
        if t.len() > 0 {
            return string_from_chars(to_lower(&t).as_slice());
        }
    }
    match detected {
        Some(d) => d,
        None => "sway".to_owned(),
    }
}

proof fn lemma_contains_len(p: Seq<char>, w: Seq<char>)
    requires
        contains(p, w),
    ensures
        p.len() >= w.len(),
{
    lemma_find_from_bounds(p, w, 0);
}

/// Each compositor keyword of a desktop probe names its compositor, the first in the
/// order sway, hypr, niri, dwl, mango: the probe is read as sway exactly when it holds
/// `sway`, as Hyprland exactly when it holds `hypr` but not `sway`, as niri exactly when
/// it holds `niri` but neither of those, as dwl exactly when it holds `dwl` but none of
/// those, as mangowm exactly when it holds `mango` but none of those, and as no
/// compositor when it holds none of the keywords.
pub proof fn law_probe_keywords(probe: Seq<char>)
    ensures
        (compositor_from_probe(probe) == Some("sway"@)) == contains(probe, "sway"@),
        (compositor_from_probe(probe) == Some("hyprland"@)) == (contains(probe, "hypr"@)
            && !contains(probe, "sway"@)),
        (compositor_from_probe(probe) == Some("niri"@)) == (contains(probe, "niri"@)
            && !contains(probe, "sway"@) && !contains(probe, "hypr"@)),
        (compositor_from_probe(probe) == Some("dwl"@)) == (contains(probe, "dwl"@)
            && !contains(probe, "sway"@) && !contains(probe, "hypr"@) && !contains(probe, "niri"@)),
        (compositor_from_probe(probe) == Some("mangowm"@)) == (contains(probe, "mango"@)
            && !contains(probe, "sway"@) && !contains(probe, "hypr"@) && !contains(probe, "niri"@)
            && !contains(probe, "dwl"@)),
        (compositor_from_probe(probe) is None) == (!contains(probe, "sway"@) && !contains(
            probe,
            "hypr"@,
        ) && !contains(probe, "niri"@) && !contains(probe, "dwl"@) && !contains(probe, "mango"@)),
{
    reveal_strlit("sway");
    reveal_strlit("hyprland");
    reveal_strlit("niri");
    reveal_strlit("dwl");
    reveal_strlit("mangowm");
    reveal_strlit("hypr");
    reveal_strlit("mango");
    if contains(probe, "sway"@) {
        lemma_contains_len(probe, "sway"@);
    }
    if contains(probe, "hypr"@) {
        lemma_contains_len(probe, "hypr"@);
    }
    if contains(probe, "niri"@) {
        lemma_contains_len(probe, "niri"@);
    }
    if contains(probe, "dwl"@) {
        lemma_contains_len(probe, "dwl"@);
    }
    if contains(probe, "mango"@) {
        lemma_contains_len(probe, "mango"@);
    }
    assert("sway"@ != "hyprland"@ && "sway"@ != "niri"@ && "sway"@ != "dwl"@ && "sway"@ != "mangowm"@) by {
        assert("sway"@.len() == 4 && "hyprland"@.len() == 8 && "niri"@.len() == 4);
        assert("sway"@[0] == 's' && "niri"@[0] == 'n');
        assert("dwl"@.len() == 3 && "mangowm"@.len() == 7);
    }
    assert("hyprland"@ != "niri"@ && "hyprland"@ != "dwl"@ && "hyprland"@ != "mangowm"@) by {
        assert("hyprland"@.len() == 8 && "niri"@.len() == 4 && "dwl"@.len() == 3 && "mangowm"@.len() == 7);
    }
    assert("niri"@ != "dwl"@ && "niri"@ != "mangowm"@ && "dwl"@ != "mangowm"@) by {
        assert("niri"@.len() == 4 && "dwl"@.len() == 3 && "mangowm"@.len() == 7);
    }
}

/// A single desktop name (in any letter case) that holds `niri` and neither `sway` nor
/// `hypr` is read as niri.
pub proof fn law_niri_desktop(name: String)
    requires
        contains(lower(name@), "niri"@),
        !contains(lower(name@), "sway"@),
        !contains(lower(name@), "hypr"@),
    ensures
        compositor_from_probe(desktop_probe(Some(name), None)) == Some("niri"@),
{
    assert(desktop_probe(Some(name), None) == lower(name@));
    law_probe_keywords(lower(name@));
}

} // verus!
