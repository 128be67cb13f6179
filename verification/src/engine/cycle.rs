//! Cycling through installed themes, one step per invocation.
use vstd::prelude::*;

use crate::engine::paths::{join_path, path_join, texts, RuntimePaths};
use crate::engine::result::{ReasonCode, YaswitchError};
use crate::text::{
    chars_of, copy_chars, insert_sorted, push_all, sorted_set_of, string_from_chars,
    strictly_sorted, trim, trim_chars, views,
};

verus! {

/// The persisted cycle position: the theme applied last.
#[derive(Debug, Clone, PartialEq, Eq)]
pub struct CycleState {
    pub last_theme: String,
}

/// The theme after `last` in `themes`, wrapping around; the first theme when `last` is
/// unknown or not among them.
pub open spec fn next_theme(last: Option<Seq<char>>, themes: Seq<Seq<char>>) -> Seq<char> {
    match last {
        Some(l) => match themes.index_of_first(l) {
            Some(i) => themes[(i + 1) % themes.len() as int],
            None => themes[0],
        },
        None => themes[0],
    }
}

/// Picks the theme to apply next from the sorted theme directories, given the theme the
/// cycle state file names (`None` when it is missing or unreadable).
pub fn next_theme_from_state(last_theme: Option<&str>, themes: &Vec<String>) -> (r: String)
    requires
        themes@.len() > 0,
    ensures
        r@ == next_theme(
            match last_theme {
                Some(s) => Some(s@),
                None => None,
            },
            texts(themes@),
        ),
{
    let ghost ts = texts(themes@);
    if let Some(last) = last_theme {
        let last_owned = last.to_owned();
        let mut i: usize = 0;
        while i < themes.len()
            invariant
                i <= themes.len(),
                ts == texts(themes@),
                last_owned@ == last@,
                last_theme == Some(last),
                themes@.len() > 0,
                forall|j: int| 0 <= j < i ==> ts[j] != last@,
            decreases themes.len() - i,
        {
            if themes[i] == last_owned {
                assert(ts[i as int] == last@);
                let next = (i + 1) % themes.len();
                proof {
                    ts.index_of_first_ensures(last@);
                }
                let ghost k = ts.index_of_first(last@)->0;
                assert(k == i) by {
                    if k < i {
                    } else if k > i {
                        assert(ts[i as int] == last@);
                    }
                }
                assert(next as int == (k + 1) % (ts.len() as int));
                let chosen = themes[next].clone();
                assert(chosen@ == ts[next as int]);
                return chosen;
            }
            i = i + 1;
        }
        proof {
            ts.index_of_first_ensures(last@);
            if ts.contains(last@) {
                let k = choose|k: int| 0 <= k < ts.len() && ts[k] == last@;
                assert(ts[k] == last@);
            }
        }
    }
    themes[0].clone()
}

/// The directories of valid themes in ascending order.
pub fn sort_theme_dirs(dirs: &Vec<String>) -> (r: Vec<String>)
    ensures
        sorted_set_of(texts(r@), texts(dirs@)),
{
    let mut sorted: Vec<Vec<char>> = Vec::new();
    let mut i: usize = 0;
    while i < dirs.len()
        invariant
            i <= dirs.len(),
            strictly_sorted(views(sorted@)),
            views(sorted@).to_set() == texts(dirs@).take(i as int).to_set(),
        decreases dirs.len() - i,
    {
        let ghost before = texts(dirs@).take(i as int);
        insert_sorted(&mut sorted, chars_of(dirs[i].as_str()));
        assert(texts(dirs@).take(i + 1) =~= before.push(dirs@[i as int]@));
        proof {
            before.lemma_push_to_set_commute(dirs@[i as int]@);
        }
        i = i + 1;
    }
    assert(texts(dirs@).take(i as int) =~= texts(dirs@));
    let mut out: Vec<String> = Vec::new();
    let mut k: usize = 0;
    while k < sorted.len()
        invariant
            k <= sorted.len(),
            texts(out@) =~= views(sorted@).take(k as int),
        decreases sorted.len() - k,
    {
        let ghost before = texts(out@);
        let s = string_from_chars(sorted[k].as_slice());
        assert(s@ == views(sorted@)[k as int]);
        out.push(s);
        assert(texts(out@) =~= before.push(s@));
        assert(views(sorted@).take(k + 1) =~= views(sorted@).take(k as int).push(views(sorted@)[k as int]));
        k = k + 1;
    }
    assert(views(sorted@).take(k as int) =~= views(sorted@));
    out
}

/// The themes directory under the config directory.
pub open spec fn themes_root(paths: RuntimePaths) -> Seq<char> {
    path_join(paths.config_dir@, "themes"@)
}

/// The cycle state file under the state directory.
pub open spec fn cycle_state_file(paths: RuntimePaths) -> Seq<char> {
    path_join(paths.state_dir@, "cycle_state.json"@)
}

/// The directory that holds the installed themes.
pub fn themes_root_dir(paths: &RuntimePaths) -> (r: String)
    ensures
        r@ == themes_root(*paths),
{
    join_path(paths.config_dir.as_str(), "themes")
}

/// The file that records the theme applied last.
pub fn cycle_state_path(paths: &RuntimePaths) -> (r: String)
    ensures
        r@ == cycle_state_file(*paths),
{
    join_path(paths.state_dir.as_str(), "cycle_state.json")
}

/// One cycle step, given the sorted theme directories found under `themes_root` and the
/// theme the state file names: the next theme, or an error when there are no themes.
pub fn cycle_theme(runtime_paths: &RuntimePaths, themes: &Vec<String>, last_theme: Option<&str>) -> (r:
    Result<String, YaswitchError>)
    ensures
        themes@.len() == 0 ==> (r matches Err(e) && e.code_of() == ReasonCode::ThemeCycleNoThemes
            && e.message_of() == "no valid themes under "@ + themes_root(*runtime_paths)),
        themes@.len() > 0 ==> (r matches Ok(t) && t@ == next_theme(
            match last_theme {
                Some(s) => Some(s@),
                None => None,
            },
            texts(themes@),
        )),
{
    if themes.len() == 0 {
        let root = themes_root_dir(runtime_paths);
        let mut msg = chars_of("no valid themes under ");
        push_all(&mut msg, &chars_of(root.as_str()));
        let text = string_from_chars(msg.as_slice());
        return Err(YaswitchError::new(ReasonCode::ThemeCycleNoThemes, text.as_str()));
    }
    Ok(next_theme_from_state(last_theme, themes))
}

/// The cycle state file of a profile: `cycle_state_<profile>.json` under `state_root`,
/// with `default` standing for a blank profile.
pub open spec fn profile_state_file_spec(state_root: Seq<char>, profile: Seq<char>) -> Seq<char> {
    let p = if trim(profile).len() == 0 {
        "default"@
    } else {
        profile
    };
    path_join(state_root, "cycle_state_"@ + p + ".json"@)
}

/// The cycle state file of a profile.
pub fn profile_state_file(state_root: &str, profile: &str) -> (r: String)
    ensures
        r@ == profile_state_file_spec(state_root@, profile@),
{
    let p = chars_of(profile);
    let name_part = if trim_chars(&p).len() == 0 {
        chars_of("default")
    } else {
        copy_chars(&p)
    };
    let mut name = chars_of("cycle_state_");
    push_all(&mut name, &name_part);
    push_all(&mut name, &chars_of(".json"));
    let file = string_from_chars(name.as_slice());
    join_path(state_root, file.as_str())
}

/// The include file for the cycle shortcut, with its directory and content.
#[derive(Debug, Clone, PartialEq, Eq)]
pub struct ShortcutFile {
    pub dir: String,
    pub file: String,
    pub content: String,
}

/// The text of the sway include file that binds the cycle command.
pub open spec fn sway_shortcut_text() -> Seq<char> {
    "# yaswitch generated shortcut\n# Include this from your sway config: include ~/.config/yaswitch/shortcuts/sway-cycle.conf\nbindsym Mod1+Tab exec yaswitch cycle --compositor sway --json\n"@
}

/// The shortcut file to install for a compositor under the config directory; only sway is
/// supported.
pub fn plan_cycle_shortcut(compositor: &str, config_dir: &str) -> (r: Result<
    ShortcutFile,
    YaswitchError,
>)
    ensures
        compositor@ == "sway"@ ==> (r matches Ok(f) && f.dir@ == path_join(
            config_dir@,
            "shortcuts"@,
        ) && f.file@ == path_join(path_join(config_dir@, "shortcuts"@), "sway-cycle.conf"@)
            && f.content@ == sway_shortcut_text()),
        compositor@ != "sway"@ ==> (r matches Err(e) && e.code_of()
            == ReasonCode::ShortcutUnsupportedCompositor && e.message_of()
            == "install-shortcut currently supports sway only, got '"@ + compositor@ + "'"@),
{
    let c = compositor.to_owned();
    let sway = "sway".to_owned();
    if c != sway {
        let mut msg = chars_of("install-shortcut currently supports sway only, got '");
        push_all(&mut msg, &chars_of(compositor));
        push_all(&mut msg, &chars_of("'"));
        let text = string_from_chars(msg.as_slice());
        return Err(YaswitchError::new(ReasonCode::ShortcutUnsupportedCompositor, text.as_str()));
    }
    let dir = join_path(config_dir, "shortcuts");
    let file = join_path(dir.as_str(), "sway-cycle.conf");
    let content = "# yaswitch generated shortcut\n# Include this from your sway config: include ~/.config/yaswitch/shortcuts/sway-cycle.conf\nbindsym Mod1+Tab exec yaswitch cycle --compositor sway --json\n".to_owned();
    Ok(ShortcutFile { dir, file, content })
}


/// No theme appears twice.
pub open spec fn distinct_themes(themes: Seq<Seq<char>>) -> bool {
    forall|i: int, j: int| 0 <= i < j < themes.len() ==> themes[i] != themes[j]
}

/// The theme after `k + 1` cycle steps from a missing state.
pub open spec fn cycle_from_start(themes: Seq<Seq<char>>, k: nat) -> Seq<char>
    decreases k,
{
    if k == 0 {
        next_theme(None, themes)
    } else {
        next_theme(Some(cycle_from_start(themes, (k - 1) as nat)), themes)
    }
}

/// One cycle step moves from a theme to the one after it, and from the last back to the
/// first.
pub proof fn law_cycle_step(themes: Seq<Seq<char>>, i: int)
    requires
        distinct_themes(themes),
        0 <= i < themes.len(),
    ensures
        next_theme(Some(themes[i]), themes) == themes[(i + 1) % (themes.len() as int)],
{
    themes.index_of_first_ensures(themes[i]);
    assert(themes.contains(themes[i]));
    let k = themes.index_of_first(themes[i])->0;
    if k != i {
        if k < i {
            assert(themes[k] != themes[i]);
        } else {
            assert(themes[i] != themes[k]);
        }
    }
}

/// Cycling from no saved state visits the themes in order, one per step, and wraps
/// around: step `k` (counting from zero) applies theme `k` modulo their number.
pub proof fn law_cycle_visits_in_order(themes: Seq<Seq<char>>, k: nat)
    requires
        distinct_themes(themes),
        themes.len() > 0,
    ensures
        cycle_from_start(themes, k) == themes[(k as int) % (themes.len() as int)],
    decreases k,
{
    if k == 0 {
    } else {
        law_cycle_visits_in_order(themes, (k - 1) as nat);
        let n = themes.len() as int;
        let i = ((k - 1) as int) % n;
        law_cycle_step(themes, i);
        assert((i + 1) % n == (k as int) % n) by (nonlinear_arith)
            requires
                n > 0,
                i == ((k - 1) as int) % n,
                k >= 1,
        ;
    }
}

} // verus!
