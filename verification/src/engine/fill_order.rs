//! Why the order of a template context does not matter: filling placeholders one key after
//! the other gives the text of filling them all at once, for keys and values without
//! braces and templates without nested placeholders.
use vstd::prelude::*;

use crate::engine::template_engine::{close_braces, fill_context, open_braces, placeholder};
use crate::text::{occurs_at, replace_all};

verus! {

/// Whether `s` holds no brace.
pub open spec fn brace_free(s: Seq<char>) -> bool {
    forall|i: int| 0 <= i < s.len() ==> (#[trigger] s[i]) != '{' && s[i] != '}'
}

/// Whether `t` begins with `p`.
pub open spec fn starts_with(t: Seq<char>, p: Seq<char>) -> bool {
    p.len() <= t.len() && t.take(p.len() as int) =~= p
}

/// Whether no `{{` of `t` stands between another `{{` and the `}}` that follows it.
pub open spec fn unnested(t: Seq<char>) -> bool {
    forall|i: int, j: int|
        0 <= i < j && #[trigger] occurs_at(t, open_braces(), i) && #[trigger] occurs_at(
            t,
            open_braces(),
            j,
        ) ==> exists|k: int| i < k && k + 2 <= j && #[trigger] occurs_at(t, close_braces(), k)
}

/// The text of `t` with every placeholder of a key of `context` replaced by the key's
/// value, all keys at once, scanning from the left.
pub open spec fn fill_at_once(t: Seq<char>, context: Seq<(Seq<char>, Seq<char>)>) -> Seq<char>
    decreases t.len(),
{
    if t.len() == 0 {
        t
    } else if exists|i: int|
        0 <= i < context.len() && starts_with(t, #[trigger] placeholder(context[i].0)) {
        let i = choose|i: int|
            0 <= i < context.len() && starts_with(t, #[trigger] placeholder(context[i].0));
        context[i].1 + fill_at_once(t.skip(placeholder(context[i].0).len() as int), context)
    } else {
        seq![t[0]] + fill_at_once(t.skip(1), context)
    }
}

proof fn lemma_placeholder_shape(k: Seq<char>)
    ensures
        placeholder(k).len() == k.len() + 4,
        placeholder(k)[0] == '{',
        placeholder(k)[1] == '{',
        placeholder(k)[(k.len() + 2) as int] == '}',
        placeholder(k)[(k.len() + 3) as int] == '}',
        forall|j: int| 0 <= j < k.len() ==> placeholder(k)[j + 2] == #[trigger] k[j],
{
}

/// A text cannot begin with the placeholders of two different brace-free keys.
proof fn lemma_one_placeholder(t: Seq<char>, a: Seq<char>, b: Seq<char>)
    requires
        brace_free(a),
        brace_free(b),
        starts_with(t, placeholder(a)),
        starts_with(t, placeholder(b)),
    ensures
        a == b,
{
    lemma_placeholder_shape(a);
    lemma_placeholder_shape(b);
    let pa = placeholder(a);
    let pb = placeholder(b);
    if a.len() < b.len() {
        assert(t[(a.len() + 2) as int] == pa[(a.len() + 2) as int]);
        assert(t[(a.len() + 2) as int] == pb[(a.len() + 2) as int]);
        assert(pb[(a.len() + 2) as int] == b[a.len() as int]);
    } else if b.len() < a.len() {
        assert(t[(b.len() + 2) as int] == pb[(b.len() + 2) as int]);
        assert(t[(b.len() + 2) as int] == pa[(b.len() + 2) as int]);
        assert(pa[(b.len() + 2) as int] == a[b.len() as int]);
    } else {
        assert forall|j: int| 0 <= j < a.len() implies a[j] == b[j] by {
            assert(t[j + 2] == pa[j + 2]);
            assert(t[j + 2] == pb[j + 2]);
        }
        assert(a =~= b);
    }
}

proof fn lemma_occurs_skip(t: Seq<char>, n: int, p: Seq<char>, i: int)
    requires
        0 <= n <= t.len(),
        0 <= i,
    ensures
        occurs_at(t.skip(n), p, i) == occurs_at(t, p, i + n),
{
    if i + p.len() <= t.len() - n {
        assert(t.skip(n).subrange(i, i + p.len()) =~= t.subrange(i + n, i + n + p.len()));
    }
}

proof fn lemma_unnested_skip(t: Seq<char>, n: int)
    requires
        unnested(t),
        0 <= n <= t.len(),
    ensures
        unnested(t.skip(n)),
{
    let u = t.skip(n);
    assert forall|i: int, j: int|
        0 <= i < j && #[trigger] occurs_at(u, open_braces(), i) && #[trigger] occurs_at(
            u,
            open_braces(),
            j,
        ) implies exists|k: int| i < k && k + 2 <= j && #[trigger] occurs_at(u, close_braces(), k) by {
        lemma_occurs_skip(t, n, open_braces(), i);
        lemma_occurs_skip(t, n, open_braces(), j);
        assert(occurs_at(t, open_braces(), i + n) && occurs_at(t, open_braces(), j + n));
        let k0 = choose|k: int| i + n < k && k + 2 <= j + n && #[trigger] occurs_at(t, close_braces(), k);
        lemma_occurs_skip(t, n, close_braces(), k0 - n);
        assert(occurs_at(u, close_braces(), k0 - n));
    }
}

/// Replacing `p` leaves alone a head `s` at which no occurrence of `p` starts.
proof fn lemma_replace_keeps_head(s: Seq<char>, x: Seq<char>, p: Seq<char>, v: Seq<char>)
    requires
        p.len() > 0,
        forall|j: int| 0 <= j < s.len() ==> !starts_with(#[trigger] (s + x).skip(j), p),
    ensures
        replace_all(s + x, p, v) == s + replace_all(x, p, v),
    decreases s.len(),
{
    if s.len() > 0 {
        let y = s + x;
        assert(y.skip(0) =~= y);
        assert(!starts_with(y.skip(0), p));
        assert(y.skip(1) =~= s.skip(1) + x);
        assert forall|j: int| 0 <= j < s.skip(1).len() implies !starts_with(
            #[trigger] (s.skip(1) + x).skip(j),
            p,
        ) by {
            assert((s.skip(1) + x).skip(j) =~= y.skip(j + 1));
            assert(!starts_with(y.skip(j + 1), p));
        }
        lemma_replace_keeps_head(s.skip(1), x, p, v);
        assert(s =~= seq![s[0]] + s.skip(1));
        assert(y[0] == s[0]);
    } else {
        assert(s + x =~= x);
    }
}

/// Filling all placeholders at once leaves alone a brace-free head.
proof fn lemma_fill_keeps_head(v: Seq<char>, x: Seq<char>, c: Seq<(Seq<char>, Seq<char>)>)
    requires
        brace_free(v),
    ensures
        fill_at_once(v + x, c) == v + fill_at_once(x, c),
    decreases v.len(),
{
    if v.len() > 0 {
        let y = v + x;
        assert forall|i: int| 0 <= i < c.len() implies !starts_with(y, #[trigger] placeholder(c[i].0)) by {
            lemma_placeholder_shape(c[i].0);
            if starts_with(y, placeholder(c[i].0)) {
                assert(y.take(placeholder(c[i].0).len() as int)[0] == y[0]);
                assert(y[0] == v[0]);
            }
        }
        assert(y.skip(1) =~= v.skip(1) + x);
        lemma_fill_keeps_head(v.skip(1), x, c);
        assert(v =~= seq![v[0]] + v.skip(1));
    } else {
        assert(v + x =~= x);
    }
}

/// In a text whose head is a `{{` that is not nested, replacing placeholders of `a` leaves
/// the text alone up to the next `}}`: what the replaced text begins with up to there,
/// the text already began with.
proof fn lemma_open_head(t: Seq<char>, a: Seq<char>, va: Seq<char>, w: Seq<char>)
    requires
        unnested(t),
        occurs_at(t, open_braces(), 0),
        w.len() >= 2,
        brace_free(w.take(w.len() - 2)),
        starts_with(replace_all(t.skip(2), placeholder(a), va), w),
    ensures
        starts_with(t.skip(2), w),
{
    let u = t.skip(2);
    let pa = placeholder(a);
    lemma_placeholder_shape(a);
    lemma_no_placeholder_before(t, a, va, w, w.len() as int);
    let m = if u.len() < w.len() {
        u.len() as int
    } else {
        w.len() as int
    };
    assert forall|j: int| 0 <= j < u.take(m).len() implies !starts_with(
        #[trigger] (u.take(m) + u.skip(m)).skip(j),
        pa,
    ) by {
        assert(u.take(m) + u.skip(m) =~= u);
    }
    lemma_replace_keeps_head(u.take(m), u.skip(m), pa, va);
    assert(u.take(m) + u.skip(m) =~= u);
    if m < w.len() {
        assert(u.skip(m).len() == 0);
        assert(replace_all(u.skip(m), pa, va).len() == 0);
    } else {
        assert(replace_all(u, pa, va).take(m) =~= u.take(m));
    }
}

proof fn lemma_no_placeholder_before(t: Seq<char>, a: Seq<char>, va: Seq<char>, w: Seq<char>, q: int)
    requires
        unnested(t),
        occurs_at(t, open_braces(), 0),
        w.len() >= 2,
        brace_free(w.take(w.len() - 2)),
        starts_with(replace_all(t.skip(2), placeholder(a), va), w),
        0 <= q <= w.len(),
    ensures
        forall|p: int|
            0 <= p < q && p < t.skip(2).len() ==> !starts_with(
                #[trigger] t.skip(2).skip(p),
                placeholder(a),
            ),
    decreases q,
{
    if q > 0 {
        lemma_no_placeholder_before(t, a, va, w, q - 1);
        let p = q - 1;
        let u = t.skip(2);
        let pa = placeholder(a);
        lemma_placeholder_shape(a);
        if p < u.len() && starts_with(u.skip(p), pa) {
            assert(u.skip(p).len() >= 4);
            assert(u.skip(p).take(pa.len() as int)[0] == pa[0]);
            assert(u.skip(p).take(pa.len() as int)[1] == pa[1]);
            assert(u.skip(p).take(pa.len() as int)[0] == u[p]);
            assert(u.skip(p).take(pa.len() as int)[1] == u[p + 1]);
            assert(t[p + 2] == u[p] && t[p + 3] == u[p + 1]);
            assert(t.subrange(p + 2, p + 4) =~= open_braces());
            assert(occurs_at(t, open_braces(), p + 2));
            let k = choose|k: int| 0 < k && k + 2 <= p + 2 && #[trigger] occurs_at(t, close_braces(), k);
            assert(t.subrange(k, k + 2)[0] == '}');
            assert(t[k] == '}');
            assert(t.subrange(0, 2)[1] == t[1]);
            // the head up to p is the head of w
            assert forall|j: int| 0 <= j < u.take(p).len() implies !starts_with(
                #[trigger] (u.take(p) + u.skip(p)).skip(j),
                pa,
            ) by {
                assert(u.take(p) + u.skip(p) =~= u);
                assert(u.skip(j) =~= t.skip(2).skip(j));
            }
            lemma_replace_keeps_head(u.take(p), u.skip(p), pa, va);
            assert(u.take(p) + u.skip(p) =~= u);
            let r = replace_all(u, pa, va);
            assert(r.take(p) =~= u.take(p));
            assert(r.take(w.len() as int) =~= w);
            assert(u[k - 2] == r[k - 2]);
            assert(r[k - 2] == w[k - 2]);
            assert(w.take(w.len() - 2)[k - 2] == w[k - 2]);
        }
    }
}

proof fn lemma_no_other_at_head(t: Seq<char>, rest: Seq<char>, a: Seq<char>, b: Seq<char>)
    requires
        brace_free(b),
        t =~= placeholder(b) + rest,
        !starts_with(t, placeholder(a)),
    ensures
        forall|j: int|
            0 <= j < placeholder(b).len() ==> !starts_with(
                #[trigger] (placeholder(b) + rest).skip(j),
                placeholder(a),
            ),
{
    let pa = placeholder(a);
    let pb = placeholder(b);
    lemma_placeholder_shape(a);
    lemma_placeholder_shape(b);
    assert forall|j: int| 0 <= j < pb.len() implies !starts_with(#[trigger] (pb + rest).skip(j), pa) by {
        let y = (pb + rest).skip(j);
        if j == 0 {
            assert(y =~= t);
        } else if starts_with(y, pa) {
            if j == 1 {
                assert(y.take(pa.len() as int)[1] == y[1]);
                assert(y[1] == pb[2]);
                if b.len() > 0 {
                    assert(pb[2] == b[0]);
                }
            } else {
                assert(y.take(pa.len() as int)[0] == y[0]);
                assert(y[0] == pb[j]);
                if j < b.len() + 2 {
                    assert(pb[j] == b[j - 2]);
                }
            }
        }
    }
}

/// Whether every `{{` of `y` has a `}}` ending at least two places before it.
pub open spec fn guarded(y: Seq<char>) -> bool {
    forall|m: int|
        #[trigger] occurs_at(y, open_braces(), m) ==> exists|k: int|
            k + 2 <= m && #[trigger] occurs_at(y, close_braces(), k)
}

proof fn lemma_first_at(u: Seq<char>, pat: Seq<char>, q: int)
    requires
        0 <= q <= u.len(),
    ensures
        (forall|p: int| 0 <= p < q ==> !starts_with(#[trigger] u.skip(p), pat)) || exists|p0: int|
            0 <= p0 < q && starts_with(u.skip(p0), pat) && forall|p: int|
                0 <= p < p0 ==> !starts_with(#[trigger] u.skip(p), pat),
    decreases q,
{
    if q > 0 {
        lemma_first_at(u, pat, q - 1);
    }
}

proof fn lemma_occurs_char(y: Seq<char>, p: Seq<char>, m: int, j: int)
    requires
        occurs_at(y, p, m),
        0 <= j < p.len(),
    ensures
        y[m + j] == p[j],
{
    assert(y.subrange(m, m + p.len())[j] == y[m + j]);
}

proof fn lemma_guard_no_placeholder(t: Seq<char>, a: Seq<char>, va: Seq<char>, m: int, q: int)
    requires
        unnested(t),
        occurs_at(t, open_braces(), 0),
        brace_free(a),
        brace_free(va),
        occurs_at(replace_all(t.skip(2), placeholder(a), va), open_braces(), m),
        q == if m + 2 <= t.skip(2).len() {
            m + 2
        } else {
            t.skip(2).len() as int
        },
        forall|p: int| 0 <= p < q ==> !starts_with(#[trigger] t.skip(2).skip(p), placeholder(a)),
    ensures
        exists|k: int|
            k + 2 <= m && #[trigger] occurs_at(
                replace_all(t.skip(2), placeholder(a), va),
                close_braces(),
                k,
            ),
{
    let u = t.skip(2);
    let pa = placeholder(a);
    let r = replace_all(u, pa, va);
    lemma_placeholder_shape(a);
    lemma_occurs_char(t, open_braces(), 0, 1);
    lemma_occurs_char(r, open_braces(), m, 0);
    lemma_occurs_char(r, open_braces(), m, 1);
    assert forall|j: int| 0 <= j < u.take(q).len() implies !starts_with(
        #[trigger] (u.take(q) + u.skip(q)).skip(j),
        pa,
    ) by {
        assert(u.take(q) + u.skip(q) =~= u);
    }
    lemma_replace_keeps_head(u.take(q), u.skip(q), pa, va);
    assert(u.take(q) + u.skip(q) =~= u);
    if q < m + 2 {
        assert(u.skip(q).len() == 0);
        assert(replace_all(u.skip(q), pa, va).len() == 0);
        assert(r.len() == q);
    } else {
        assert(r[m] == u[m] && r[m + 1] == u[m + 1]);
        assert(u.subrange(m, m + 2) =~= open_braces());
        lemma_occurs_skip(t, 2, open_braces(), m);
        assert(occurs_at(t, open_braces(), m + 2));
        let k0 = choose|k: int| 0 < k && k + 2 <= m + 2 && #[trigger] occurs_at(t, close_braces(), k);
        lemma_occurs_char(t, close_braces(), k0, 0);
        assert(k0 >= 2);
        lemma_occurs_skip(t, 2, close_braces(), k0 - 2);
        lemma_occurs_char(u, close_braces(), k0 - 2, 0);
        lemma_occurs_char(u, close_braces(), k0 - 2, 1);
        assert(r[k0 - 2] == u[k0 - 2] && r[k0 - 1] == u[k0 - 1]);
        assert(r.subrange(k0 - 2, k0) =~= close_braces());
        assert(occurs_at(r, close_braces(), k0 - 2));
    }
}

proof fn lemma_guard_first_placeholder(t: Seq<char>, a: Seq<char>, va: Seq<char>, m: int, p0: int)
    requires
        unnested(t),
        occurs_at(t, open_braces(), 0),
        brace_free(a),
        brace_free(va),
        occurs_at(replace_all(t.skip(2), placeholder(a), va), open_braces(), m),
        0 <= p0 <= m + 1,
        p0 < t.skip(2).len(),
        starts_with(t.skip(2).skip(p0), placeholder(a)),
        forall|p: int| 0 <= p < p0 ==> !starts_with(#[trigger] t.skip(2).skip(p), placeholder(a)),
    ensures
        exists|k: int|
            k + 2 <= m && #[trigger] occurs_at(
                replace_all(t.skip(2), placeholder(a), va),
                close_braces(),
                k,
            ),
{
    let u = t.skip(2);
    let pa = placeholder(a);
    let r = replace_all(u, pa, va);
    lemma_placeholder_shape(a);
    lemma_occurs_char(t, open_braces(), 0, 1);
    lemma_occurs_char(r, open_braces(), m, 0);
    assert forall|j: int| 0 <= j < u.take(p0).len() implies !starts_with(
        #[trigger] (u.take(p0) + u.skip(p0)).skip(j),
        pa,
    ) by {
        assert(u.take(p0) + u.skip(p0) =~= u);
    }
    lemma_replace_keeps_head(u.take(p0), u.skip(p0), pa, va);
    assert(u.take(p0) + u.skip(p0) =~= u);
    assert(u.skip(p0).take(pa.len() as int)[0] == u[p0]);
    assert(u.skip(p0).take(pa.len() as int)[1] == u[p0 + 1]);
    assert(u.subrange(p0, p0 + 2) =~= open_braces());
    lemma_occurs_skip(t, 2, open_braces(), p0);
    let k0 = choose|k: int| 0 < k && k + 2 <= p0 + 2 && #[trigger] occurs_at(t, close_braces(), k);
    lemma_occurs_char(t, close_braces(), k0, 0);
    assert(k0 >= 2);
    lemma_occurs_skip(t, 2, close_braces(), k0 - 2);
    lemma_occurs_char(u, close_braces(), k0 - 2, 0);
    lemma_occurs_char(u, close_braces(), k0 - 2, 1);
    assert(k0 - 1 < p0) by {
        if k0 == p0 {
            assert(u[p0] == '{');
        }
    }
    assert(r[k0 - 2] == u[k0 - 2] && r[k0 - 1] == u[k0 - 1]);
    assert(r.subrange(k0 - 2, k0) =~= close_braces());
    assert(occurs_at(r, close_braces(), k0 - 2));
    if k0 > m {
        assert(r[m] == u[m]);
    }
}

proof fn lemma_open_first_char(t: Seq<char>, a: Seq<char>, va: Seq<char>)
    requires
        unnested(t),
        occurs_at(t, open_braces(), 0),
        brace_free(a),
        brace_free(va),
    ensures
        replace_all(t.skip(2), placeholder(a), va).len() > 0 ==> replace_all(
            t.skip(2),
            placeholder(a),
            va,
        )[0] != '{',
{
    let u = t.skip(2);
    let pa = placeholder(a);
    let r = replace_all(u, pa, va);
    lemma_placeholder_shape(a);
    lemma_occurs_char(t, open_braces(), 0, 1);
    if r.len() > 0 {
        if starts_with(u, pa) {
            assert(u.take(pa.len() as int)[0] == u[0]);
            assert(u.take(pa.len() as int)[1] == u[1]);
            assert(t.subrange(2, 4) =~= open_braces());
            assert(occurs_at(t, open_braces(), 2));
            assert(r == va + replace_all(u.skip(pa.len() as int), pa, va));
            if va.len() == 0 {
                assert(false);
            }
        } else {
            assert(r[0] == u[0]);
            if u[0] == '{' {
                assert(t.subrange(1, 3) =~= open_braces());
                assert(occurs_at(t, open_braces(), 1));
            }
        }
    }
}

/// After a `{{` that is not nested, every `{{` of the replaced rest has a `}}` before it,
/// and the replaced rest does not begin with `{`.
proof fn lemma_open_guarded(t: Seq<char>, a: Seq<char>, va: Seq<char>)
    requires
        unnested(t),
        occurs_at(t, open_braces(), 0),
        brace_free(a),
        brace_free(va),
    ensures
        guarded(replace_all(t.skip(2), placeholder(a), va)),
        replace_all(t.skip(2), placeholder(a), va).len() > 0 ==> replace_all(
            t.skip(2),
            placeholder(a),
            va,
        )[0] != '{',
{
    let u = t.skip(2);
    let pa = placeholder(a);
    let r = replace_all(u, pa, va);
    lemma_open_first_char(t, a, va);
    assert forall|m: int| #[trigger] occurs_at(r, open_braces(), m) implies exists|k: int|
        k + 2 <= m && #[trigger] occurs_at(r, close_braces(), k) by {
        let q = if m + 2 <= u.len() {
            m + 2
        } else {
            u.len() as int
        };
        lemma_first_at(u, pa, q);
        if forall|p: int| 0 <= p < q ==> !starts_with(#[trigger] u.skip(p), pa) {
            lemma_guard_no_placeholder(t, a, va, m, q);
        } else {
            let p0 = choose|p0: int|
                0 <= p0 < q && starts_with(u.skip(p0), pa) && forall|p: int|
                    0 <= p < p0 ==> !starts_with(#[trigger] u.skip(p), pa);
            lemma_guard_first_placeholder(t, a, va, m, p0);
        }
    }
}

proof fn lemma_unnested_prefix(v: Seq<char>, y: Seq<char>)
    requires
        brace_free(v),
        unnested(y),
    ensures
        unnested(v + y),
{
    let w = v + y;
    let n = v.len() as int;
    assert(w.skip(n) =~= y);
    assert forall|i: int, j: int|
        0 <= i < j && #[trigger] occurs_at(w, open_braces(), i) && #[trigger] occurs_at(
            w,
            open_braces(),
            j,
        ) implies exists|k: int| i < k && k + 2 <= j && #[trigger] occurs_at(w, close_braces(), k) by {
        lemma_occurs_char(w, open_braces(), i, 0);
        lemma_occurs_char(w, open_braces(), j, 0);
        if i < n {
            assert(w[i] == v[i]);
        }
        lemma_occurs_skip(w, n, open_braces(), i - n);
        lemma_occurs_skip(w, n, open_braces(), j - n);
        let k0 = choose|k: int| i - n < k && k + 2 <= j - n && #[trigger] occurs_at(y, close_braces(), k);
        lemma_occurs_skip(w, n, close_braces(), k0);
    }
}

proof fn lemma_unnested_cons(c: char, y: Seq<char>)
    requires
        unnested(y),
        c == '{' && y.len() > 0 && y[0] == '{' ==> (y.skip(1).len() == 0 || y.skip(1)[0] != '{')
            && guarded(y.skip(1)),
    ensures
        unnested(seq![c] + y),
{
    let w = seq![c] + y;
    assert(w.skip(1) =~= y);
    assert forall|i: int, j: int|
        0 <= i < j && #[trigger] occurs_at(w, open_braces(), i) && #[trigger] occurs_at(
            w,
            open_braces(),
            j,
        ) implies exists|k: int| i < k && k + 2 <= j && #[trigger] occurs_at(w, close_braces(), k) by {
        if i == 0 {
            lemma_occurs_char(w, open_braces(), 0, 0);
            lemma_occurs_char(w, open_braces(), 0, 1);
            assert(w[1] == y[0]);
            assert(w.skip(2) =~= y.skip(1));
            if j == 1 {
                lemma_occurs_char(w, open_braces(), 1, 1);
                assert(w[2] == y.skip(1)[0]);
            } else {
                lemma_occurs_skip(w, 2, open_braces(), j - 2);
                let k0 = choose|k: int| k + 2 <= j - 2 && #[trigger] occurs_at(y.skip(1), close_braces(), k);
                lemma_occurs_skip(w, 2, close_braces(), k0);
            }
        } else {
            lemma_occurs_skip(w, 1, open_braces(), i - 1);
            lemma_occurs_skip(w, 1, open_braces(), j - 1);
            let k0 = choose|k: int| i - 1 < k && k + 2 <= j - 1 && #[trigger] occurs_at(y, close_braces(), k);
            lemma_occurs_skip(w, 1, close_braces(), k0);
        }
    }
}

/// Replacing placeholders of a brace-free key by a brace-free value keeps a template
/// free of nested placeholders.
proof fn lemma_unnested_replace(t: Seq<char>, a: Seq<char>, va: Seq<char>)
    requires
        unnested(t),
        brace_free(a),
        brace_free(va),
    ensures
        unnested(replace_all(t, placeholder(a), va)),
    decreases t.len(),
{
    let pa = placeholder(a);
    lemma_placeholder_shape(a);
    if t.len() == 0 {
        assert(replace_all(t, pa, va).len() == 0);
        assert forall|i: int, j: int|
            0 <= i < j && #[trigger] occurs_at(replace_all(t, pa, va), open_braces(), i)
                && #[trigger] occurs_at(replace_all(t, pa, va), open_braces(), j) implies exists|k: int|
            i < k && k + 2 <= j && #[trigger] occurs_at(replace_all(t, pa, va), close_braces(), k) by {}
    } else if starts_with(t, pa) {
        let rest = t.skip(pa.len() as int);
        lemma_unnested_skip(t, pa.len() as int);
        lemma_unnested_replace(rest, a, va);
        lemma_unnested_prefix(va, replace_all(rest, pa, va));
        assert(replace_all(t, pa, va) == va + replace_all(rest, pa, va));
    } else {
        let t1 = t.skip(1);
        let y = replace_all(t1, pa, va);
        lemma_unnested_skip(t, 1);
        lemma_unnested_replace(t1, a, va);
        assert(replace_all(t, pa, va) == seq![t[0]] + y);
        if t[0] == '{' && y.len() > 0 && y[0] == '{' {
            if starts_with(t1, pa) {
                assert(y == va + replace_all(t1.skip(pa.len() as int), pa, va));
                if va.len() > 0 {
                    assert(y[0] == va[0]);
                }
                assert(t1.take(pa.len() as int)[0] == t1[0]);
                assert(t1.take(pa.len() as int)[1] == t1[1]);
                assert(t.subrange(0, 2) =~= open_braces());
                assert(t.subrange(1, 3) =~= open_braces());
                assert(occurs_at(t, open_braces(), 0) && occurs_at(t, open_braces(), 1));
            } else {
                let t2 = t1.skip(1);
                assert(y == seq![t1[0]] + replace_all(t2, pa, va));
                assert(t.subrange(0, 2) =~= open_braces());
                assert(t.skip(2) =~= t2);
                lemma_open_guarded(t, a, va);
                assert(y.skip(1) =~= replace_all(t2, pa, va));
            }
        }
        lemma_unnested_cons(t[0], y);
    }
}

/// Whether a context has brace-free keys and values, and no key twice.
pub open spec fn plain_pairs(c: Seq<(Seq<char>, Seq<char>)>) -> bool {
    &&& forall|i: int| 0 <= i < c.len() ==> brace_free((#[trigger] c[i]).0) && brace_free(c[i].1)
    &&& forall|i: int, j: int| 0 <= i < j < c.len() ==> (#[trigger] c[i]).0 != (#[trigger] c[j]).0
}

/// Whether two contexts hold the same pairs.
pub open spec fn same_pairs(c: Seq<(Seq<char>, Seq<char>)>, d: Seq<(Seq<char>, Seq<char>)>) -> bool {
    &&& forall|i: int| 0 <= i < c.len() ==> d.contains(#[trigger] c[i])
    &&& forall|j: int| 0 <= j < d.len() ==> c.contains(#[trigger] d[j])
}

/// Replacing the placeholders of `a` cannot make a text begin with the placeholder of
/// another key that it did not begin with.
proof fn lemma_head_not_placeholder(t: Seq<char>, a: Seq<char>, va: Seq<char>, b: Seq<char>)
    requires
        unnested(t),
        brace_free(a),
        brace_free(va),
        brace_free(b),
        t.len() > 0,
        !starts_with(t, placeholder(a)),
        !starts_with(t, placeholder(b)),
    ensures
        !starts_with(replace_all(t, placeholder(a), va), placeholder(b)),
{
    let pa = placeholder(a);
    let pb = placeholder(b);
    lemma_placeholder_shape(a);
    lemma_placeholder_shape(b);
    let t1 = t.skip(1);
    let r = replace_all(t, pa, va);
    let r1 = replace_all(t1, pa, va);
    assert(r == seq![t[0]] + r1);
    if starts_with(r, pb) {
        assert(r.take(pb.len() as int)[0] == r[0]);
        assert(r.take(pb.len() as int)[1] == r[1]);
        assert(t[0] == '{');
        if starts_with(t1, pa) {
            let rest1 = t1.skip(pa.len() as int);
            assert(r1 == va + replace_all(rest1, pa, va));
            if va.len() > 0 {
                assert(r[1] == va[0]);
            } else {
                assert(t1.take(pa.len() as int)[0] == t1[0]);
                assert(t1.take(pa.len() as int)[1] == t1[1]);
                assert(t[1] == '{' && t[2] == '{');
                assert(t.subrange(0, 2) =~= open_braces());
                assert(t.subrange(1, 3) =~= open_braces());
                assert(occurs_at(t, open_braces(), 0) && occurs_at(t, open_braces(), 1));
            }
        } else {
            let t2 = t1.skip(1);
            assert(r1 == seq![t1[0]] + replace_all(t2, pa, va));
            assert(t[1] == '{');
            assert(t.subrange(0, 2) =~= open_braces());
            assert(t.skip(2) =~= t2);
            let w = b + close_braces();
            assert(pb =~= open_braces() + w);
            assert(replace_all(t2, pa, va).take(w.len() as int) =~= w) by {
                assert(r.take(pb.len() as int) =~= pb);
                assert forall|j: int| 0 <= j < w.len() implies replace_all(t2, pa, va)[j] == w[j] by {
                    assert(r[j + 2] == replace_all(t2, pa, va)[j]);
                    assert(r.take(pb.len() as int)[j + 2] == r[j + 2]);
                }
            }
            assert(w.take(w.len() - 2) =~= b);
            lemma_open_head(t, a, va, w);
            assert(t.take(pb.len() as int) =~= pb) by {
                assert forall|j: int| 0 <= j < pb.len() implies t[j] == pb[j] by {
                    if j >= 2 {
                        assert(t2.take(w.len() as int)[j - 2] == t2[j - 2]);
                    }
                }
            }
        }
    }
}

/// Filling a context after replacing the placeholders of one more key fills them all at
/// once.
proof fn lemma_fill_after_replace_all(
    t: Seq<char>,
    a: Seq<char>,
    va: Seq<char>,
    c: Seq<(Seq<char>, Seq<char>)>,
)
    requires
        unnested(t),
        brace_free(a),
        brace_free(va),
        plain_pairs(c),
        forall|i: int| 0 <= i < c.len() ==> (#[trigger] c[i]).0 != a,
    ensures
        fill_at_once(replace_all(t, placeholder(a), va), c) == fill_at_once(t, seq![(a, va)] + c),
    decreases t.len(),
{
    let pa = placeholder(a);
    let cc = seq![(a, va)] + c;
    lemma_placeholder_shape(a);
    assert forall|i: int| 1 <= i < cc.len() implies #[trigger] cc[i] == c[i - 1] by {}
    if t.len() == 0 {
    } else if starts_with(t, pa) {
        let rest = t.skip(pa.len() as int);
        let rr = replace_all(rest, pa, va);
        assert(replace_all(t, pa, va) == va + rr);
        lemma_fill_keeps_head(va, rr, c);
        lemma_unnested_skip(t, pa.len() as int);
        lemma_fill_after_replace_all(rest, a, va, c);
        assert(starts_with(t, placeholder(cc[0].0)));
        let i = choose|i: int| 0 <= i < cc.len() && starts_with(t, #[trigger] placeholder(cc[i].0));
        if i > 0 {
            assert(cc[i] == c[i - 1]);
            lemma_one_placeholder(t, cc[i].0, a);
        }
    } else if exists|j: int| 0 <= j < c.len() && starts_with(t, #[trigger] placeholder(c[j].0)) {
        let j = choose|j: int| 0 <= j < c.len() && starts_with(t, #[trigger] placeholder(c[j].0));
        let b = c[j].0;
        let pb = placeholder(b);
        lemma_placeholder_shape(b);
        let rest = t.skip(pb.len() as int);
        assert(t =~= pb + rest);
        lemma_no_other_at_head(t, rest, a, b);
        lemma_replace_keeps_head(pb, rest, pa, va);
        let rr = replace_all(rest, pa, va);
        let r = pb + rr;
        assert(r.take(pb.len() as int) =~= pb);
        assert(starts_with(r, placeholder(c[j].0)));
        let i = choose|i: int| 0 <= i < c.len() && starts_with(r, #[trigger] placeholder(c[i].0));
        lemma_one_placeholder(r, c[i].0, b);
        assert(i == j) by {
            if i < j {
                assert(c[i].0 != c[j].0);
            } else if j < i {
                assert(c[j].0 != c[i].0);
            }
        }
        assert(r.skip(pb.len() as int) =~= rr);
        lemma_unnested_skip(t, pb.len() as int);
        lemma_fill_after_replace_all(rest, a, va, c);
        assert(cc[j + 1] == c[j]);
        assert(starts_with(t, placeholder(cc[j + 1].0)));
        let k = choose|k: int| 0 <= k < cc.len() && starts_with(t, #[trigger] placeholder(cc[k].0));
        if k == 0 {
            lemma_one_placeholder(t, a, b);
        } else {
            assert(cc[k] == c[k - 1]);
            lemma_one_placeholder(t, c[k - 1].0, b);
            assert(k - 1 == j) by {
                if k - 1 < j {
                    assert(c[k - 1].0 != c[j].0);
                } else if j < k - 1 {
                    assert(c[j].0 != c[k - 1].0);
                }
            }
        }
    } else {
        let t1 = t.skip(1);
        let r = replace_all(t, pa, va);
        let r1 = replace_all(t1, pa, va);
        assert(r == seq![t[0]] + r1);
        assert forall|i: int| 0 <= i < cc.len() implies !starts_with(t, #[trigger] placeholder(cc[i].0)) by {
            if i > 0 {
                assert(cc[i] == c[i - 1]);
            }
        }
        assert forall|i: int| 0 <= i < c.len() implies !starts_with(r, #[trigger] placeholder(c[i].0)) by {
            lemma_head_not_placeholder(t, a, va, c[i].0);
        }
        assert(r[0] == t[0]);
        assert(r.skip(1) =~= r1);
        lemma_unnested_skip(t, 1);
        lemma_fill_after_replace_all(t1, a, va, c);
    }
}

proof fn lemma_fill_empty(t: Seq<char>)
    ensures
        fill_at_once(t, Seq::<(Seq<char>, Seq<char>)>::empty()) == t,
    decreases t.len(),
{
    if t.len() > 0 {
        lemma_fill_empty(t.skip(1));
        assert(t =~= seq![t[0]] + t.skip(1));
    }
}

/// Filling a context one key after the other fills it all at once.
proof fn lemma_fill_context_at_once(t: Seq<char>, c: Seq<(Seq<char>, Seq<char>)>)
    requires
        unnested(t),
        plain_pairs(c),
    ensures
        fill_context(t, c) == fill_at_once(t, c),
    decreases c.len(),
{
    if c.len() == 0 {
        lemma_fill_empty(t);
        assert(c =~= Seq::<(Seq<char>, Seq<char>)>::empty());
    } else {
        let a = c[0].0;
        let va = c[0].1;
        let rest = c.drop_first();
        let r = replace_all(t, placeholder(a), va);
        lemma_unnested_replace(t, a, va);
        assert forall|i: int| 0 <= i < rest.len() implies brace_free((#[trigger] rest[i]).0)
            && brace_free(rest[i].1) by {
            assert(rest[i] == c[i + 1]);
        }
        assert forall|i: int, j: int| 0 <= i < j < rest.len() implies (#[trigger] rest[i]).0
            != (#[trigger] rest[j]).0 by {
            assert(rest[i] == c[i + 1] && rest[j] == c[j + 1]);
        }
        assert forall|i: int| 0 <= i < rest.len() implies (#[trigger] rest[i]).0 != a by {
            assert(rest[i] == c[i + 1]);
        }
        lemma_fill_context_at_once(r, rest);
        lemma_fill_after_replace_all(t, a, va, rest);
        assert(seq![(a, va)] + rest =~= c);
    }
}

/// Filling at once gives the same text for two contexts that hold the same pairs.
proof fn lemma_fill_same_pairs(
    t: Seq<char>,
    c: Seq<(Seq<char>, Seq<char>)>,
    d: Seq<(Seq<char>, Seq<char>)>,
)
    requires
        plain_pairs(c),
        plain_pairs(d),
        same_pairs(c, d),
    ensures
        fill_at_once(t, c) == fill_at_once(t, d),
    decreases t.len(),
{
    if t.len() > 0 {
        if exists|i: int| 0 <= i < c.len() && starts_with(t, #[trigger] placeholder(c[i].0)) {
            let i = choose|i: int| 0 <= i < c.len() && starts_with(t, #[trigger] placeholder(c[i].0));
            assert(d.contains(c[i]));
            let j = choose|j: int| 0 <= j < d.len() && d[j] == c[i];
            assert(starts_with(t, placeholder(d[j].0)));
            let k = choose|k: int| 0 <= k < d.len() && starts_with(t, #[trigger] placeholder(d[k].0));
            lemma_one_placeholder(t, d[k].0, d[j].0);
            assert(k == j) by {
                if k < j {
                    assert(d[k].0 != d[j].0);
                } else if j < k {
                    assert(d[j].0 != d[k].0);
                }
            }
            lemma_fill_same_pairs(t.skip(placeholder(c[i].0).len() as int), c, d);
        } else {
            assert forall|k: int| 0 <= k < d.len() implies !starts_with(t, #[trigger] placeholder(d[k].0)) by {
                if starts_with(t, placeholder(d[k].0)) {
                    assert(c.contains(d[k]));
                    let i = choose|i: int| 0 <= i < c.len() && c[i] == d[k];
                    assert(starts_with(t, placeholder(c[i].0)));
                }
            }
            lemma_fill_same_pairs(t.skip(1), c, d);
        }
    }
}

/// Rendering does not depend on the order of the context: for a template without nested
/// placeholders (no `{{` between another `{{` and the `}}` after it), and contexts whose
/// keys and values hold no braces and which name each key once, two contexts with the
/// same pairs fill the template alike, and filling one key after the other gives the text
/// of filling every placeholder at once.
pub proof fn law_fill_order_irrelevant(
    t: Seq<char>,
    c: Seq<(Seq<char>, Seq<char>)>,
    d: Seq<(Seq<char>, Seq<char>)>,
)
    requires
        unnested(t),
        plain_pairs(c),
        plain_pairs(d),
        same_pairs(c, d),
    ensures
        fill_context(t, c) == fill_context(t, d),
        fill_context(t, c) == fill_at_once(t, c),
{
    lemma_fill_context_at_once(t, c);
    lemma_fill_context_at_once(t, d);
    lemma_fill_same_pairs(t, c, d);
}

} // verus!
