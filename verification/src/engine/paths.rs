//! XDG runtime directories and the path sandbox, over paths held as text.
use vstd::prelude::*;

use crate::engine::result::{ReasonCode, YaswitchError};
use crate::text::{chars_eq, chars_of, copy_chars, join, join_chars, push_all, string_from_chars, views};

verus! {

/// `seg` appended to `base` as one more path component: an absolute `seg` replaces
/// `base`, and a separator goes between them unless `base` is empty or already ends
/// in one.
pub open spec fn path_join(base: Seq<char>, seg: Seq<char>) -> Seq<char> {
    if seg.len() > 0 && seg[0] == '/' {
        seg
    } else if base.len() == 0 || base.last() == '/' {
        base + seg
    } else {
        base + seq!['/'] + seg
    }
}

/// Joins `seg` onto `base` as a path.
pub fn join_path(base: &str, seg: &str) -> (r: String)
    ensures
        r@ == path_join(base@, seg@),
{
    let b = chars_of(base);
    let s = chars_of(seg);
    if s.len() > 0 && s[0] == '/' {
        return string_from_chars(s.as_slice());
    }
    let mut out = copy_chars(&b);
    if !(b.len() == 0 || b[b.len() - 1] == '/') {
        out.push('/');
    }
    push_all(&mut out, &s);
    assert(out@ =~= path_join(b@, s@));
    string_from_chars(out.as_slice())
}

/// Whether a path is absolute.
pub open spec fn is_absolute(p: Seq<char>) -> bool {
    p.len() > 0 && p[0] == '/'
}

/// The component sequence after one more segment: empty and `.` segments add nothing;
/// `..` drops the last component when `resolve` is set and is kept otherwise.
pub open spec fn push_segment(stack: Seq<Seq<char>>, seg: Seq<char>, resolve: bool) -> Seq<
    Seq<char>,
> {
    if seg.len() == 0 || seg == seq!['.'] {
        stack
    } else if resolve && seg == seq!['.', '.'] {
        if stack.len() > 0 {
            stack.drop_last()
        } else {
            stack
        }
    } else {
        stack.push(seg)
    }
}

/// The components completed so far and the segment being read, after the characters `p`.
pub open spec fn scan_path(p: Seq<char>, resolve: bool) -> (Seq<Seq<char>>, Seq<char>)
    decreases p.len(),
{
    if p.len() == 0 {
        (Seq::empty(), Seq::empty())
    } else {
        let (stack, cur) = scan_path(p.drop_last(), resolve);
        if p.last() == '/' {
            (push_segment(stack, cur, resolve), Seq::empty())
        } else {
            (stack, cur.push(p.last()))
        }
    }
}

/// The components of a path split at `/`, with empty and `.` components left out and,
/// when `resolve` is set, each `..` cancelling the component before it.
pub open spec fn path_parts(p: Seq<char>, resolve: bool) -> Seq<Seq<char>> {
    push_segment(scan_path(p, resolve).0, scan_path(p, resolve).1, resolve)
}

/// The lexically normalised form of an absolute path.
pub open spec fn normalized(p: Seq<char>) -> Seq<char> {
    seq!['/'] + join(path_parts(p, true), seq!['/'])
}

/// Whether the component sequence `base` is a prefix of `parts`.
pub open spec fn parts_prefix(base: Seq<Seq<char>>, parts: Seq<Seq<char>>) -> bool {
    base.len() <= parts.len() && forall|i: int| 0 <= i < base.len() ==> base[i] == parts[i]
}

/// Whether the absolute path `p` lies inside the absolute path `base`, component by
/// component.
pub open spec fn path_within(p: Seq<char>, base: Seq<char>) -> bool {
    parts_prefix(path_parts(base, false), path_parts(p, false))
}

fn push_segment_exec(stack: &mut Vec<Vec<char>>, seg: Vec<char>, resolve: bool)
    ensures
        views(final(stack)@) == push_segment(views(old(stack)@), seg@, resolve),
{
    let dot = seg.len() == 1 && seg[0] == '.';
    let dotdot = seg.len() == 2 && seg[0] == '.' && seg[1] == '.';
    assert(dot == (seg@ == seq!['.'])) by {
        if seg@.len() == 1 && seg@[0] == '.' {
            assert(seg@ =~= seq!['.']);
        }
    }
    assert(dotdot == (seg@ == seq!['.', '.'])) by {
        if seg@.len() == 2 && seg@[0] == '.' && seg@[1] == '.' {
            assert(seg@ =~= seq!['.', '.']);
        }
    }
    if seg.len() == 0 || dot {
    } else if resolve && dotdot {
        if stack.len() > 0 {
            let ghost before = views(stack@);
            stack.pop();
            assert(views(stack@) =~= before.drop_last());
        }
    } else {
        let ghost before = views(stack@);
        let ghost sv = seg@;
        stack.push(seg);
        assert(views(stack@) =~= before.push(sv));
    }
}

/// The components of `p`, as `path_parts` describes them.
pub fn split_path(p: &Vec<char>, resolve: bool) -> (r: Vec<Vec<char>>)
    ensures
        views(r@) == path_parts(p@, resolve),
{
    let mut stack: Vec<Vec<char>> = Vec::new();
    let mut cur: Vec<char> = Vec::new();
    let mut i: usize = 0;
    assert(views(stack@) =~= Seq::<Seq<char>>::empty());
    assert(p@.take(0) =~= Seq::<char>::empty());
    while i < p.len()
        invariant
            i <= p.len(),
            (views(stack@), cur@) == scan_path(p@.take(i as int), resolve),
        decreases p.len() - i,
    {
        assert(p@.take(i + 1).drop_last() =~= p@.take(i as int));
        if p[i] == '/' {
            let seg = cur;
            cur = Vec::new();
            push_segment_exec(&mut stack, seg, resolve);
        } else {
            cur.push(p[i]);
        }
        i = i + 1;
    }
    assert(p@.take(p.len() as int) =~= p@);
    push_segment_exec(&mut stack, cur, resolve);
    stack
}

/// Whether the components `base` are a prefix of the components `parts`.
pub fn parts_prefix_exec(base: &Vec<Vec<char>>, parts: &Vec<Vec<char>>) -> (b: bool)
    ensures
        b == parts_prefix(views(base@), views(parts@)),
{
    if base.len() > parts.len() {
        return false;
    }
    let mut i: usize = 0;
    while i < base.len()
        invariant
            base.len() <= parts.len(),
            i <= base.len(),
            forall|k: int| 0 <= k < i ==> views(base@)[k] == views(parts@)[k],
        decreases base.len() - i,
    {
        if !chars_eq(&base[i], &parts[i]) {
            assert(views(base@)[i as int] != views(parts@)[i as int]);
            return false;
        }
        i = i + 1;
    }
    true
}

/// Whether a path starts with a `.` component (`.` alone, or `./` at its head).
pub open spec fn leading_cur_dir(p: Seq<char>) -> bool {
    p.len() > 0 && p[0] == '.' && (p.len() == 1 || p[1] == '/')
}

/// Whether two paths have the same components, as paths compare: both absolute or both
/// relative, both with or without a leading `.` component, and the same components
/// otherwise (repeated `/`, a trailing `/` and inner `.` components do not count; `..`
/// does).
pub open spec fn same_path(a: Seq<char>, b: Seq<char>) -> bool {
    path_key(a) == path_key(b)
}

/// What a path is compared by: whether it is absolute, whether it starts with a `.`
/// component, and its components.
pub open spec fn path_key(p: Seq<char>) -> (bool, bool, Seq<Seq<char>>) {
    (is_absolute(p), leading_cur_dir(p), path_parts(p, false))
}

/// Whether `a` and `b` name the same path, component by component.
pub fn same_path_text(a: &str, b: &str) -> (r: bool)
    ensures
        r == same_path(a@, b@),
{
    let av = chars_of(a);
    let bv = chars_of(b);
    let abs_a = av.len() > 0 && av[0] == '/';
    let abs_b = bv.len() > 0 && bv[0] == '/';
    let cur_a = av.len() > 0 && av[0] == '.' && (av.len() == 1 || av[1] == '/');
    let cur_b = bv.len() > 0 && bv[0] == '.' && (bv.len() == 1 || bv[1] == '/');
    if abs_a != abs_b || cur_a != cur_b {
        return false;
    }
    let pa = split_path(&av, false);
    let pb = split_path(&bv, false);
    if pa.len() != pb.len() {
        assert(views(pa@).len() != views(pb@).len());
        return false;
    }
    let prefix = parts_prefix_exec(&pa, &pb);
    if prefix {
        assert(views(pa@) =~= views(pb@));
    } else {
        assert(views(pa@) != views(pb@)) by {
            if views(pa@) == views(pb@) {
                assert(parts_prefix(views(pa@), views(pb@)));
            }
        }
    }
    prefix
}

/// The lexically normalised form of `path`, which must be absolute: `.` and empty
/// components dropped and each `..` cancelling the component before it.
pub fn normalize_absolute(path: &str) -> (r: Result<String, YaswitchError>)
    ensures
        is_absolute(path@) ==> (r matches Ok(s) && s@ == normalized(path@)),
        !is_absolute(path@) ==> (r matches Err(e) && e.code_of() == ReasonCode::PathNotAbsolute
            && e.message_of() == "path "@ + path@ + " must be absolute"@),
{
    let p = chars_of(path);
    if !(p.len() > 0 && p[0] == '/') {
        let mut msg = chars_of("path ");
        push_all(&mut msg, &p);
        push_all(&mut msg, &chars_of(" must be absolute"));
        let text = string_from_chars(msg.as_slice());
        return Err(YaswitchError::new(ReasonCode::PathNotAbsolute, text.as_str()));
    }
    let parts = split_path(&p, true);
    let mut sep: Vec<char> = Vec::new();
    sep.push('/');
    let joined = join_chars(&parts, &sep);
    let mut out: Vec<char> = Vec::new();
    out.push('/');
    push_all(&mut out, &joined);
    assert(sep@ =~= seq!['/']);
    assert(out@ =~= normalized(path@));
    Ok(string_from_chars(out.as_slice()))
}


/// The text of each string in a sequence.
pub open spec fn texts(v: Seq<String>) -> Seq<Seq<char>> {
    v.map_values(|s: String| s@)
}

/// Whether `p` lies inside `base` once both are lexically normalised.
pub open spec fn lexically_within(p: Seq<char>, base: Seq<char>) -> bool {
    parts_prefix(path_parts(base, true), path_parts(p, true))
}

/// The first stage of the sandbox check, which needs no file system: the candidate and
/// every root must be absolute, and the normalised candidate must lie inside one of the
/// normalised roots. On success it returns the normalised candidate and roots.
pub fn check_lexical_containment(candidate: &str, allowed_roots: &Vec<String>) -> (r: Result<
    (String, Vec<String>),
    YaswitchError,
>)
    ensures
        ({
            let roots = texts(allowed_roots@);
            if roots.len() == 0 {
                r matches Err(e) && e.code_of() == ReasonCode::PathOutsideAllowedRoot
                    && e.message_of() == "no allowed roots configured"@
            } else if !is_absolute(candidate@) {
                r matches Err(e) && e.code_of() == ReasonCode::PathNotAbsolute && e.message_of()
                    == "path "@ + candidate@ + " must be absolute"@
            } else if exists|j: int| 0 <= j < roots.len() && !is_absolute(#[trigger] roots[j]) {
                r matches Err(e) && e.code_of() == ReasonCode::PathNotAbsolute && exists|j: int|
                    0 <= j < roots.len() && !is_absolute(#[trigger] roots[j]) && (forall|k: int|
                        0 <= k < j ==> is_absolute(roots[k])) && e.message_of() == "path "@
                        + roots[j] + " must be absolute"@
            } else if !exists|i: int|
                0 <= i < roots.len() && lexically_within(candidate@, #[trigger] roots[i]) {
                r matches Err(e) && e.code_of() == ReasonCode::PathOutsideAllowedRoot
                    && e.message_of() == "path "@ + normalized(candidate@)
                    + " is outside configured sandbox roots"@
            } else {
                r matches Ok((c, rs)) && c@ == normalized(candidate@) && rs.len() == roots.len()
                    && forall|i: int| 0 <= i < roots.len() ==> #[trigger] rs@[i]@ == normalized(
                    roots[i])
            }
        }),
{
    let ghost roots = texts(allowed_roots@);
    if allowed_roots.len() == 0 {
        return Err(
            YaswitchError::new(ReasonCode::PathOutsideAllowedRoot, "no allowed roots configured"),
        );
    }
    let normalized_candidate = match normalize_absolute(candidate) {
        Ok(c) => c,
        Err(e) => return Err(e),
    };
    let cand_parts = split_path(&chars_of(candidate), true);
    let mut normalized_roots: Vec<String> = Vec::new();
    let mut found = false;
    let mut i: usize = 0;
    while i < allowed_roots.len()
        invariant
            i <= allowed_roots.len(),
            roots == texts(allowed_roots@),
            views(cand_parts@) == path_parts(candidate@, true),
            is_absolute(candidate@),
            normalized_candidate@ == normalized(candidate@),
            normalized_roots.len() == i,
            forall|k: int| 0 <= k < i ==> is_absolute(#[trigger] roots[k]),
            forall|k: int| 0 <= k < i ==> #[trigger] normalized_roots@[k]@ == normalized(roots[k]),
            found == exists|k: int| 0 <= k < i && lexically_within(candidate@, #[trigger] roots[k]),
        decreases allowed_roots.len() - i,
    {
        let root = allowed_roots[i].as_str();
        assert(root@ == roots[i as int]);
        match normalize_absolute(root) {
            Ok(n) => {
                normalized_roots.push(n);
            },
            Err(e) => {
                assert(!is_absolute(roots[i as int]));
                assert(0 <= i < roots.len() && !is_absolute(roots[i as int]) && (forall|k: int|
                    0 <= k < i ==> is_absolute(roots[k])) && e.message_of() == "path "@
                    + roots[i as int] + " must be absolute"@);
                assert(exists|j: int|
                    0 <= j < roots.len() && !is_absolute(#[trigger] roots[j]) && (forall|k: int|
                        0 <= k < j ==> is_absolute(roots[k])) && e.message_of() == "path "@
                        + roots[j] + " must be absolute"@);
                assert(exists|j: int| 0 <= j < roots.len() && !is_absolute(#[trigger] roots[j]));
                assert(is_absolute(candidate@));
                return Err(e);
            },
        }
        let root_parts = split_path(&chars_of(root), true);
        if parts_prefix_exec(&root_parts, &cand_parts) {
            found = true;
        }
        i = i + 1;
    }
    if !found {
        let mut msg = chars_of("path ");
        push_all(&mut msg, &chars_of(normalized_candidate.as_str()));
        push_all(&mut msg, &chars_of(" is outside configured sandbox roots"));
        let text = string_from_chars(msg.as_slice());
        return Err(YaswitchError::new(ReasonCode::PathOutsideAllowedRoot, text.as_str()));
    }
    Ok((normalized_candidate, normalized_roots))
}

/// The second stage of the sandbox check: the real location of the nearest existing
/// ancestor of the candidate must lie inside one of the canonical roots.
pub fn check_resolved_containment(real_path: &str, canonical_roots: &Vec<String>) -> (r: Result<
    (),
    YaswitchError,
>)
    ensures
        (exists|i: int|
            0 <= i < canonical_roots@.len() && path_within(real_path@, #[trigger] texts(
                canonical_roots@,
            )[i])) ==> r is Ok,
        !(exists|i: int|
            0 <= i < canonical_roots@.len() && path_within(real_path@, #[trigger] texts(
                canonical_roots@,
            )[i])) ==> (r matches Err(e) && e.code_of() == ReasonCode::PathOutsideAllowedRoot
            && e.message_of() == "resolved path "@ + real_path@
            + " escapes configured sandbox roots"@),
{
    let ghost roots = texts(canonical_roots@);
    let real_parts = split_path(&chars_of(real_path), false);
    let mut i: usize = 0;
    while i < canonical_roots.len()
        invariant
            i <= canonical_roots.len(),
            roots == texts(canonical_roots@),
            views(real_parts@) == path_parts(real_path@, false),
            forall|k: int| 0 <= k < i ==> !path_within(real_path@, #[trigger] roots[k]),
        decreases canonical_roots.len() - i,
    {
        let root_parts = split_path(&chars_of(canonical_roots[i].as_str()), false);
        if parts_prefix_exec(&root_parts, &real_parts) {
            assert(canonical_roots[i as int]@ == roots[i as int]);
            assert(path_within(real_path@, roots[i as int]));
            return Ok(());
        }
        i = i + 1;
    }
    let mut msg = chars_of("resolved path ");
    push_all(&mut msg, &chars_of(real_path));
    push_all(&mut msg, &chars_of(" escapes configured sandbox roots"));
    let text = string_from_chars(msg.as_slice());
    Err(YaswitchError::new(ReasonCode::PathOutsideAllowedRoot, text.as_str()))
}

/// The per-user directories the tool reads and writes.
#[derive(Debug, Clone, PartialEq, Eq)]
pub struct RuntimePaths {
    pub config_dir: String,
    pub state_dir: String,
    pub cache_dir: String,
    pub backup_dir: String,
}

/// The environment variables the runtime directories derive from.
#[derive(Debug, Clone, PartialEq, Eq, Default)]
pub struct PathEnv {
    pub home: Option<String>,
    pub xdg_config_home: Option<String>,
    pub xdg_state_home: Option<String>,
    pub xdg_cache_home: Option<String>,
}

/// The XDG base directory: the explicit one when set, else `home` joined with `suffix`.
pub open spec fn xdg_base(explicit: Option<String>, home: Seq<char>, suffix: Seq<char>) -> Seq<
    char,
> {
    match explicit {
        Some(e) => e@,
        None => path_join(home, suffix),
    }
}

/// The XDG base directory: the explicit one when set, else `home` joined with `suffix`.
pub fn resolve_xdg_base(explicit: &Option<String>, home: &str, fallback_suffix: &str) -> (r:
    String)
    ensures
        r@ == xdg_base(*explicit, home@, fallback_suffix@),
{
    match explicit {
        Some(e) => e.clone(),
        None => join_path(home, fallback_suffix),
    }
}

impl RuntimePaths {
    /// Resolves the config, state, cache and backup directories from the environment;
    /// `HOME` must be set.
    pub fn from_env(env: &PathEnv) -> (r: Result<Self, YaswitchError>)
        ensures
            env.home is None ==> (r matches Err(e) && e.code_of()
                == ReasonCode::HomeDirectoryMissing && e.message_of()
                == "HOME is required to resolve XDG runtime paths"@),
            env.home matches Some(home) ==> (r matches Ok(p) && {
                let state = path_join(xdg_base(env.xdg_state_home, home@, ".local/state"@), "yaswitch"@);
                &&& p.config_dir@ == path_join(
                    xdg_base(env.xdg_config_home, home@, ".config"@),
                    "yaswitch"@,
                )
                &&& p.state_dir@ == state
                &&& p.cache_dir@ == path_join(
                    xdg_base(env.xdg_cache_home, home@, ".cache"@),
                    "yaswitch"@,
                )
                &&& p.backup_dir@ == path_join(state, "backups"@)
            }),
    {
        let home = match &env.home {
            Some(h) => h.as_str(),
            None => {
                return Err(
                    YaswitchError::new(
                        ReasonCode::HomeDirectoryMissing,
                        "HOME is required to resolve XDG runtime paths",
                    ),
                );
            },
        };
        let config_base = resolve_xdg_base(&env.xdg_config_home, home, ".config");
        let state_base = resolve_xdg_base(&env.xdg_state_home, home, ".local/state");
        let cache_base = resolve_xdg_base(&env.xdg_cache_home, home, ".cache");
        let config_dir = join_path(config_base.as_str(), "yaswitch");
        let state_dir = join_path(state_base.as_str(), "yaswitch");
        let cache_dir = join_path(cache_base.as_str(), "yaswitch");
        let backup_dir = join_path(state_dir.as_str(), "backups");
        Ok(RuntimePaths { config_dir, state_dir, cache_dir, backup_dir })
    }

    /// The directories the sandbox lets the tool write under.
    pub fn allowed_roots(&self) -> (r: Vec<String>)
        ensures
            texts(r@) == seq![self.config_dir@, self.state_dir@, self.cache_dir@, self.backup_dir@],
    {
        let mut r: Vec<String> = Vec::new();
        r.push(self.config_dir.clone());
        r.push(self.state_dir.clone());
        r.push(self.cache_dir.clone());
        r.push(self.backup_dir.clone());
        assert(texts(r@) =~= seq![self.config_dir@, self.state_dir@, self.cache_dir@, self.backup_dir@]);
        r
    }
}

} // verus!
