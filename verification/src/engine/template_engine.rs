//! Placeholder rendering and managed-block injection for generated config files.
use vstd::prelude::*;

use crate::engine::result::{ReasonCode, YaswitchError};
use crate::text::{
    contains,
    chars_of, copy_chars, find, find_from, occurs_at, join, join_chars, lemma_find_from_bounds, lemma_find_from_skip,
    push_all, replace_all, trim_end, trim_end_chars, replace_all_chars, slice_chars, sorted_set_of, string_from_chars,
    strictly_sorted, trim, trim_chars, views, insert_sorted, find_chars,
};

verus! {

/// The two characters that open a placeholder.
pub open spec fn open_braces() -> Seq<char> {
    seq!['{', '{']
}

/// The two characters that close a placeholder.
pub open spec fn close_braces() -> Seq<char> {
    seq!['}', '}']
}

/// The placeholder that stands for `key` in a template.
pub open spec fn placeholder(key: Seq<char>) -> Seq<char> {
    open_braces() + key + close_braces()
}

/// The context as pairs of character sequences.
pub open spec fn context_view(context: Seq<(String, String)>) -> Seq<(Seq<char>, Seq<char>)> {
    context.map_values(|p: (String, String)| (p.0@, p.1@))
}

/// The template with the placeholder of each key replaced by its value, one pair after
/// the other in the order of the context.
pub open spec fn fill_context(t: Seq<char>, context: Seq<(Seq<char>, Seq<char>)>) -> Seq<char>
    decreases context.len(),
{
    if context.len() == 0 {
        t
    } else {
        fill_context(
            replace_all(t, placeholder(context[0].0), context[0].1),
            context.drop_first(),
        )
    }
}

/// The trimmed, non-empty keys of the placeholders left in `s`, from left to right.
pub open spec fn unresolved_keys(s: Seq<char>) -> Seq<Seq<char>>
    decreases s.len(),
{
    match find(s, open_braces()) {
        None => Seq::empty(),
        Some(o) => {
            let after = s.skip((o + 2) as int);
            match find(after, close_braces()) {
                None => Seq::empty(),
                Some(c) => {
                    proof {
                        lemma_find_from_bounds(s, open_braces(), 0);
                        lemma_find_from_bounds(after, close_braces(), 0);
                    }
                    let key = trim(after.take(c as int));
                    let rest = unresolved_keys(after.skip((c + 2) as int));
                    if key.len() > 0 {
                        seq![key] + rest
                    } else {
                        rest
                    }
                },
            }
        },
    }
}

/// The message listing missing keys.
pub open spec fn missing_keys_message(sorted_keys: Seq<Seq<char>>) -> Seq<char> {
    "missing template keys: "@ + join(sorted_keys, ", "@)
}

/// Renders `template` by replacing `{{key}}` with the value of each key in `context`.
/// Placeholders left over after that are an error that lists their keys, sorted and
/// without duplicates.
pub fn render_template(template: &str, context: &Vec<(String, String)>) -> (r: Result<
    String,
    YaswitchError,
>)
    ensures
        ({
            let rendered = fill_context(template@, context_view(context@));
            let keys = unresolved_keys(rendered);
            &&& (r is Ok <==> keys.len() == 0)
            &&& (r matches Ok(s) ==> s@ == rendered)
            &&& (r matches Err(e) ==> {
                &&& e.code_of() == ReasonCode::TemplateKeyMissing
                &&& exists|sorted: Seq<Seq<char>>|
                    sorted_set_of(sorted, keys) && e.message_of() == missing_keys_message(sorted)
            })
        }),
{
    let ghost ctx = context_view(context@);
    let mut rendered = chars_of(template);
    let mut i: usize = 0;
    assert(ctx.skip(0) =~= ctx);
    while i < context.len()
        invariant
            i <= context.len(),
            ctx == context_view(context@),
            fill_context(template@, ctx) == fill_context(rendered@, ctx.skip(i as int)),
        decreases context.len() - i,
    {
        let key = chars_of(context[i].0.as_str());
        let value = chars_of(context[i].1.as_str());
        let mut pat: Vec<char> = Vec::new();
        pat.push('{');
        pat.push('{');
        push_all(&mut pat, &key);
        pat.push('}');
        pat.push('}');
        assert(pat@ =~= placeholder(ctx[i as int].0));
        assert(ctx.skip(i as int).drop_first() =~= ctx.skip(i + 1));
        rendered = replace_all_chars(&rendered, &pat, &value);
        i = i + 1;
    }
    assert(ctx.skip(i as int) =~= Seq::<(Seq<char>, Seq<char>)>::empty());
    assert(fill_context(template@, ctx) == rendered@);
    let ghost full = rendered@;
    let mut open: Vec<char> = Vec::new();
    open.push('{');
    open.push('{');
    let mut close: Vec<char> = Vec::new();
    close.push('}');
    close.push('}');
    assert(open@ =~= open_braces());
    assert(close@ =~= close_braces());
    let mut keys: Vec<Vec<char>> = Vec::new();
    let mut pos: usize = 0;
    assert(full.skip(0) =~= full);
    loop
        invariant
            pos <= rendered@.len(),
            rendered@ == full,
            open@ == open_braces(),
            close@ == close_braces(),
            unresolved_keys(full) == views(keys@) + unresolved_keys(full.skip(pos as int)),
        ensures
            rendered@ == full,
            unresolved_keys(full) == views(keys@),
        decreases rendered@.len() - pos,
    {
        let ghost rest = full.skip(pos as int);
        proof {
            lemma_find_from_skip(full, open_braces(), pos as nat, 0);
            lemma_find_from_bounds(full, open_braces(), pos as nat);
        }
        match find_chars(&rendered, &open, pos) {
            None => {
                assert(unresolved_keys(rest) == Seq::<Seq<char>>::empty());
                assert(views(keys@) + Seq::<Seq<char>>::empty() =~= views(keys@));
                break ;
            },
            Some(o) => {
                assert(find_from(full, open_braces(), pos as nat) == Some(o as nat));
                assert(occurs_at(full, open_braces(), o as int));
                assert(o + 2 <= rendered@.len());
                assert(rendered@.len() == rendered.len());
                let after = o + 2;
                let ghost after_seq = rest.skip((o - pos) + 2);
                assert(after_seq =~= full.skip(after as int));
                proof {
                    lemma_find_from_skip(full, close_braces(), after as nat, 0);
                    lemma_find_from_bounds(full, close_braces(), after as nat);
                }
                match find_chars(&rendered, &close, after) {
                    None => {
                        assert(unresolved_keys(rest) == Seq::<Seq<char>>::empty());
                        assert(views(keys@) + Seq::<Seq<char>>::empty() =~= views(keys@));
                        break ;
                    },
                    Some(c) => {
                        assert(find_from(full, close_braces(), after as nat) == Some(c as nat));
                        assert(occurs_at(full, close_braces(), c as int));
                        assert(c + 2 <= rendered@.len());
                        assert(rendered@.len() == rendered.len());
                        let raw = slice_chars(&rendered, after, c);
                        assert(raw@ =~= after_seq.take((c - after) as int));
                        assert(after_seq.skip((c - after) + 2) =~= full.skip(c + 2));
                        let key = trim_chars(&raw);
                        let ghost prev = views(keys@);
                        if key.len() > 0 {
                            let ghost kv = key@;
                            keys.push(key);
                            assert(views(keys@) =~= prev.push(kv));
                            assert(prev + (seq![kv] + unresolved_keys(full.skip(c + 2))) =~= prev.push(
                                kv,
                            ) + unresolved_keys(full.skip(c + 2)));
                        }
                        pos = c + 2;
                    },
                }
            },
        }
    }
    assert(unresolved_keys(full) == views(keys@));
    if keys.len() == 0 {
        assert(views(keys@) =~= Seq::<Seq<char>>::empty());
        return Ok(string_from_chars(rendered.as_slice()));
    }
    let mut sorted: Vec<Vec<char>> = Vec::new();
    let mut k: usize = 0;
    while k < keys.len()
        invariant
            k <= keys.len(),
            strictly_sorted(views(sorted@)),
            views(sorted@).to_set() == views(keys@).take(k as int).to_set(),
        decreases keys.len() - k,
    {
        let ghost before = views(keys@).take(k as int);
        insert_sorted(&mut sorted, copy_chars(&keys[k]));
        assert(views(keys@).take(k + 1) =~= before.push(keys@[k as int]@));
        proof {
            before.lemma_push_to_set_commute(keys@[k as int]@);
        }
        k = k + 1;
    }
    assert(views(keys@).take(keys.len() as int) =~= views(keys@));
    let mut message = chars_of("missing template keys: ");
    let sep = chars_of(", ");
    let joined = join_chars(&sorted, &sep);
    push_all(&mut message, &joined);
    let text = string_from_chars(message.as_slice());
    assert(sorted_set_of(views(sorted@), unresolved_keys(full)));
    assert(text@ == missing_keys_message(views(sorted@)));
    Err(YaswitchError::new(ReasonCode::TemplateKeyMissing, text.as_str()))
}


/// The line that opens a managed block.
pub open spec fn begin_marker() -> Seq<char> {
    "# yaswitch:begin"@
}

/// The line that closes a managed block.
pub open spec fn end_marker() -> Seq<char> {
    "# yaswitch:end"@
}

/// The managed block that holds `content`, without its trailing whitespace.
pub open spec fn managed_block(content: Seq<char>) -> Seq<char> {
    begin_marker() + seq!['\n'] + trim_end(content) + seq!['\n'] + end_marker()
}

/// `original` with its first managed block (from the first begin marker to the first end
/// marker after it) replaced by the block of `content`, if it has such a block.
pub open spec fn spliced(original: Seq<char>, content: Seq<char>) -> Option<Seq<char>> {
    match find(original, begin_marker()) {
        None => None,
        Some(b) => {
            let after = (b + begin_marker().len()) as int;
            match find(original.skip(after), end_marker()) {
                None => None,
                Some(e) => Some(
                    original.take(b as int) + managed_block(content) + original.skip(
                        after + e + end_marker().len(),
                    ),
                ),
            }
        },
    }
}

/// `original` with the block of `content` appended after a blank line (or alone, when
/// `original` is blank).
pub open spec fn appended(original: Seq<char>, content: Seq<char>) -> Seq<char> {
    if trim(original).len() == 0 {
        managed_block(content) + seq!['\n']
    } else {
        trim_end(original) + seq!['\n', '\n'] + managed_block(content) + seq!['\n']
    }
}

/// Writes `managed_content` into the managed block of `original`: replaces the existing
/// block, or appends a new one when there is none and `allow_append` is set.
pub fn inject_managed_block(original: &str, managed_content: &str, allow_append: bool) -> (r:
    Result<String, YaswitchError>)
    ensures
        match spliced(original@, managed_content@) {
            Some(t) => r matches Ok(s) && s@ == t,
            None => if allow_append {
                r matches Ok(s) && s@ == appended(original@, managed_content@)
            } else {
                r matches Err(e) && e.code_of() == ReasonCode::MarkerNotFoundAppendDisabled
                    && e.message_of() == "managed marker block not found and append is disabled"@
            },
        },
{
    let orig = chars_of(original);
    let content = chars_of(managed_content);
    let begin = chars_of("# yaswitch:begin");
    let end = chars_of("# yaswitch:end");
    let mut block: Vec<char> = copy_chars(&begin);
    block.push('\n');
    push_all(&mut block, &trim_end_chars(&content));
    block.push('\n');
    push_all(&mut block, &end);
    assert(block@ =~= managed_block(content@));
    proof {
        lemma_find_from_bounds(orig@, begin@, 0);
    }
    if let Some(b) = find_chars(&orig, &begin, 0) {
        assert(occurs_at(orig@, begin@, b as int));
        assert(orig@.len() == orig.len());
        let after = b + begin.len();
        proof {
            lemma_find_from_skip(orig@, end@, after as nat, 0);
            lemma_find_from_bounds(orig@, end@, after as nat);
        }
        if let Some(e) = find_chars(&orig, &end, after) {
            assert(occurs_at(orig@, end@, e as int));
            let end_idx = e + end.len();
            let mut output = slice_chars(&orig, 0, b);
            push_all(&mut output, &block);
            push_all(&mut output, &slice_chars(&orig, end_idx, orig.len()));
            assert(output@ =~= orig@.take(b as int) + managed_block(content@) + orig@.skip(
                end_idx as int,
            ));
            return Ok(string_from_chars(output.as_slice()));
        }
    }
    if allow_append {
        let trimmed = trim_chars(&orig);
        if trimmed.len() == 0 {
            let mut output = block;
            output.push('\n');
            Ok(string_from_chars(output.as_slice()))
        } else {
            let mut output = trim_end_chars(&orig);
            output.push('\n');
            output.push('\n');
            push_all(&mut output, &block);
            output.push('\n');
            assert(output@ =~= appended(orig@, content@));
            Ok(string_from_chars(output.as_slice()))
        }
    } else {
        Err(
            YaswitchError::new(
                ReasonCode::MarkerNotFoundAppendDisabled,
                "managed marker block not found and append is disabled",
            ),
        )
    }
}


/// What injecting `content` into `original` gives: the splice when there is a block, else
/// the append when appending is allowed, else nothing (an error).
pub open spec fn injected(original: Seq<char>, content: Seq<char>, allow_append: bool) -> Option<
    Seq<char>,
> {
    match spliced(original, content) {
        Some(t) => Some(t),
        None => if allow_append {
            Some(appended(original, content))
        } else {
            None
        },
    }
}

proof fn lemma_marker_chars()
    ensures
        begin_marker().len() == 16,
        begin_marker()[0] == '#',
        forall|i: int| 1 <= i < 16 ==> #[trigger] begin_marker()[i] != '#',
        forall|i: int| 0 <= i < 16 ==> #[trigger] begin_marker()[i] != '\n',
        end_marker().len() == 14,
        end_marker()[0] == '#',
        forall|i: int| 0 <= i < 14 ==> #[trigger] end_marker()[i] != '\n',
{
    reveal_strlit("# yaswitch:begin");
    reveal_strlit("# yaswitch:end");
    assert(begin_marker() =~= seq!['#', ' ', 'y', 'a', 's', 'w', 'i', 't', 'c', 'h', ':', 'b', 'e', 'g', 'i', 'n']);
    assert(end_marker() =~= seq!['#', ' ', 'y', 'a', 's', 'w', 'i', 't', 'c', 'h', ':', 'e', 'n', 'd']);
}

proof fn lemma_find_first(s: Seq<char>, pat: Seq<char>, i: nat, k: nat)
    requires
        i <= k,
        occurs_at(s, pat, k as int),
        forall|j: int| i <= j < k ==> !#[trigger] occurs_at(s, pat, j),
    ensures
        find_from(s, pat, i) == Some(k),
    decreases k - i,
{
    if i < k {
        assert(!occurs_at(s, pat, i as int));
        lemma_find_first(s, pat, i + 1, k);
    }
}

proof fn lemma_trim_end_prefix(s: Seq<char>)
    ensures
        trim_end(s).len() <= s.len(),
        trim_end(s) =~= s.take(trim_end(s).len() as int),
    decreases s.len(),
{
    if s.len() > 0 && crate::text::is_ws(s.last()) {
        lemma_trim_end_prefix(s.drop_last());
    }
}

/// A text made of `p`, a managed block and `r`, where `p` holds no begin marker, is its
/// own splice.
proof fn lemma_block_found(p: Seq<char>, content: Seq<char>, r: Seq<char>)
    requires
        forall|j: int| 0 <= j && j + 16 <= p.len() ==> !#[trigger] occurs_at(p, begin_marker(), j),
        !contains(trim_end(content), end_marker()),
    ensures
        spliced(p + managed_block(content) + r, content) == Some(p + managed_block(content) + r),
{
    lemma_marker_chars();
    let b = begin_marker();
    let e = end_marker();
    let tm = trim_end(content);
    let block = managed_block(content);
    let s = p + block + r;
    let pl = p.len() as int;
    assert(s.subrange(pl, pl + 16) =~= b);
    assert forall|j: int| 0 <= j < pl implies !#[trigger] occurs_at(s, b, j) by {
        if j + 16 <= pl {
            assert(s.subrange(j, j + 16) =~= p.subrange(j, j + 16));
            assert(!occurs_at(p, b, j));
        } else if occurs_at(s, b, j) {
            let k = pl - j;
            assert(1 <= k < 16);
            assert(block[0] == b[0]);
            assert(s[pl] == block[0]);
            assert(s.subrange(j, j + 16)[k] == s[pl]);
            assert(b[k] != '#');
            assert(s.subrange(j, j + 16)[k] == b[k]);
        }
    }
    lemma_find_first(s, b, 0, pl as nat);
    let after = pl + 16;
    let t = s.skip(after);
    let tl = tm.len() as int;
    assert(t =~= seq!['\n'] + tm + seq!['\n'] + e + r);
    assert(t.subrange(tl + 2, tl + 16) =~= e);
    crate::text::lemma_find_from_bounds(tm, e, 0);
    assert forall|j: int| 0 <= j < tl + 2 implies !#[trigger] occurs_at(t, e, j) by {
        if occurs_at(t, e, j) {
            if j == 0 {
                assert(t.subrange(0, 14)[0] == t[0]);
            } else if j + 14 <= tl + 1 {
                assert(t.subrange(j, j + 14) =~= tm.subrange(j - 1, j + 13));
                assert(occurs_at(tm, e, j - 1));
            } else {
                assert(t.subrange(j, j + 14)[tl + 1 - j] == t[tl + 1]);
            }
        }
    }
    lemma_find_first(t, e, 0, (tl + 2) as nat);
    assert(s.take(pl) =~= p);
    assert(s.skip(after + tl + 2 + 14) =~= r);
    assert(block.len() == 16 + 1 + tl + 1 + 14);
}

/// Injecting the same content twice gives the text of injecting it once, when the content
/// (without trailing whitespace) holds no end marker and the original has either a whole
/// managed block or no begin marker at all.
pub proof fn law_injection_idempotent(
    original: Seq<char>,
    content: Seq<char>,
    allow_append: bool,
    again_allow_append: bool,
)
    requires
        !contains(trim_end(content), end_marker()),
        spliced(original, content) is Some || find(original, begin_marker()) is None,
        injected(original, content, allow_append) is Some,
    ensures
        injected(injected(original, content, allow_append)->0, content, again_allow_append)
            == injected(original, content, allow_append),
{
    lemma_marker_chars();
    let b = begin_marker();
    match spliced(original, content) {
        Some(t) => {
            let bi = find(original, b)->0;
            lemma_find_from_bounds(original, b, 0);
            let p = original.take(bi as int);
            assert forall|j: int| 0 <= j && j + 16 <= p.len() implies !#[trigger] occurs_at(p, b, j) by {
                assert(p.subrange(j, j + 16) =~= original.subrange(j, j + 16));
                assert(!occurs_at(original, b, j));
            }
            let after = (bi + b.len()) as int;
            let ei = find(original.skip(after), end_marker())->0;
            let r = original.skip(after + ei + end_marker().len());
            lemma_block_found(p, content, r);
        },
        None => {
            lemma_find_from_bounds(original, b, 0);
            if trim(original).len() == 0 {
                let r = seq!['\n'];
                lemma_block_found(Seq::empty(), content, r);
                assert(Seq::<char>::empty() + managed_block(content) + r =~= appended(original, content));
            } else {
                let te = trim_end(original);
                lemma_trim_end_prefix(original);
                let p = te + seq!['\n', '\n'];
                let tl = te.len() as int;
                assert forall|j: int| 0 <= j && j + 16 <= p.len() implies !#[trigger] occurs_at(p, b, j) by {
                    if j + 16 <= tl {
                        assert(p.subrange(j, j + 16) =~= original.subrange(j, j + 16));
                        assert(!occurs_at(original, b, j));
                    } else if occurs_at(p, b, j) {
                        assert(p.subrange(j, j + 16)[15] == p[j + 15]);
                        assert(p[j + 15] == '\n');
                    }
                }
                let r = seq!['\n'];
                lemma_block_found(p, content, r);
                assert(p + managed_block(content) + r =~= appended(original, content));
            }
        },
    }
}

} // verus!
