use vstd::prelude::*;
use crate::errors::TokenError;
use crate::outside::chars_of;

verus! {

/// Whether `s` contains no `'.'` at all.
pub open spec fn no_dot(s: Seq<char>) -> bool {
    forall|i: int| 0 <= i < s.len() ==> s[i] != '.'
}

/// The first index at or after `i` holding a `'.'`, or `s.len()` if none.
pub open spec fn find_dot(s: Seq<char>, i: int) -> int
    decreases s.len() - i,
{
    if 0 <= i && i < s.len() {
        if s[i] == '.' {
            i
        } else {
            find_dot(s, i + 1)
        }
    } else {
        s.len() as int
    }
}

pub proof fn lemma_find_dot_bounds(s: Seq<char>, i: int)
    requires
        0 <= i <= s.len(),
    ensures
        i <= find_dot(s, i) <= s.len(),
        find_dot(s, i) < s.len() ==> s[find_dot(s, i)] == '.',
        forall|j: int| i <= j < find_dot(s, i) ==> s[j] != '.',
    decreases s.len() - i,
{
    if i < s.len() && s[i] != '.' {
        lemma_find_dot_bounds(s, i + 1);
    }
}

/// If `[i, e)` is dot-free and `e` is the end or a dot, the first dot at or
/// after `i` is exactly `e`.
pub proof fn lemma_find_dot_at(s: Seq<char>, i: int, e: int)
    requires
        0 <= i <= e <= s.len(),
        forall|j: int| i <= j < e ==> s[j] != '.',
        e == s.len() || s[e] == '.',
    ensures
        find_dot(s, i) == e,
    decreases e - i,
{
    if i < e {
        lemma_find_dot_at(s, i + 1, e);
    }
}

/// The decomposition of `t` into exactly three dot-separated segments,
/// if `t` has exactly two dots.
pub open spec fn spec_split3(t: Seq<char>) -> Option<(Seq<char>, Seq<char>, Seq<char>)> {
    let d1 = find_dot(t, 0);
    if d1 == t.len() {
        None
    } else {
        let d2 = find_dot(t, d1 + 1);
        if d2 == t.len() {
            None
        } else {
            if find_dot(t, d2 + 1) < t.len() {
                None
            } else {
                Some((t.subrange(0, d1), t.subrange(d1 + 1, d2), t.subrange(d2 + 1, t.len() as int)))
            }
        }
    }
}

/// A string splits on dots into three non-empty segments.
pub open spec fn spec_is_jwt_format(t: Seq<char>) -> bool {
    match spec_split3(t) {
        Some((a, b, c)) => a.len() > 0 && b.len() > 0 && c.len() > 0,
        None => false,
    }
}

/// Joining three dot-free segments with dots splits back into exactly
/// those segments.
pub proof fn lemma_split3_join(h: Seq<char>, p: Seq<char>, g: Seq<char>)
    requires
        no_dot(h),
        no_dot(p),
        no_dot(g),
    ensures
        spec_split3(h + seq!['.'] + p + seq!['.'] + g) == Some((h, p, g)),
{
    let t = h + seq!['.'] + p + seq!['.'] + g;
    let d1 = h.len() as int;
    let d2 = d1 + 1 + p.len() as int;
    assert(t.len() == h.len() + 1 + p.len() + 1 + g.len());
    assert(t[d1] == '.');
    assert(t[d2] == '.');
    assert forall|j: int| 0 <= j < d1 implies t[j] != '.' by {
        assert(t[j] == h[j]);
    }
    assert forall|j: int| d1 + 1 <= j < d2 implies t[j] != '.' by {
        assert(t[j] == p[j - d1 - 1]);
    }
    assert forall|j: int| d2 + 1 <= j < t.len() implies t[j] != '.' by {
        assert(t[j] == g[j - d2 - 1]);
    }
    lemma_find_dot_at(t, 0, d1);
    lemma_find_dot_at(t, d1 + 1, d2);
    lemma_find_dot_at(t, d2 + 1, t.len() as int);
    assert(t.subrange(0, d1) =~= h);
    assert(t.subrange(d1 + 1, d2) =~= p);
    assert(t.subrange(d2 + 1, t.len() as int) =~= g);
}

/// Copy of `s[a..b]` as a fresh vector.
pub fn sub_vec(s: &Vec<char>, a: usize, b: usize) -> (r: Vec<char>)
    requires
        a <= b <= s@.len(),
    ensures
        r@ == s@.subrange(a as int, b as int),
{
    let mut out: Vec<char> = Vec::new();
    let mut i: usize = a;
    while i < b
        invariant
            a <= i <= b <= s@.len(),
            out@ == s@.subrange(a as int, i as int),
        decreases b - i,
    {
        out.push(s[i]);
        proof {
            assert(out@ =~= s@.subrange(a as int, i as int + 1));
        }
        i += 1;
    }
    out
}

/// First dot at or after `i`, as executable code.
pub fn find_dot_exec(s: &Vec<char>, i: usize) -> (r: usize)
    requires
        i <= s@.len(),
    ensures
        r as int == find_dot(s@, i as int),
        i <= r <= s@.len(),
{
    let mut j: usize = i;
    while j < s.len() && s[j] != '.'
        invariant
            i <= j <= s@.len(),
            find_dot(s@, i as int) == find_dot(s@, j as int),
        decreases s@.len() - j,
    {
        j += 1;
    }
    j
}

/// Split a character vector into three dot-separated segments.
pub fn split3(s: &Vec<char>) -> (r: Option<(Vec<char>, Vec<char>, Vec<char>)>)
    ensures
        match r {
            Some(parts) => spec_split3(s@) == Some((parts.0@, parts.1@, parts.2@)),
            None => spec_split3(s@) is None,
        },
{
    let d1 = find_dot_exec(s, 0);
    if d1 == s.len() {
        return None;
    }
    let d2 = find_dot_exec(s, d1 + 1);
    if d2 == s.len() {
        return None;
    }
    let d3 = find_dot_exec(s, d2 + 1);
    if d3 < s.len() {
        return None;
    }
    let a = sub_vec(s, 0, d1);
    let b = sub_vec(s, d1 + 1, d2);
    let c = sub_vec(s, d2 + 1, s.len());
    Some((a, b, c))
}

/// Whether `token` looks like a compact three-segment token: exactly two
/// dots and no empty segment. No content validation beyond that.
pub fn is_jwt_format(token: &str) -> (r: bool)
    ensures
        r == spec_is_jwt_format(token@),
{
    let cs = chars_of(token);
    match split3(&cs) {
        Some(parts) => parts.0.len() > 0 && parts.1.len() > 0 && parts.2.len() > 0,
        None => false,
    }
}

/// Like `is_jwt_format`, but fails loudly on a malformed token.
pub fn validate_jwt_format(token: &str) -> (r: Result<bool, TokenError>)
    ensures
        r == if spec_is_jwt_format(token@) {
            Ok::<bool, TokenError>(true)
        } else {
            Err::<bool, TokenError>(TokenError::MalformedToken)
        },
{
    if is_jwt_format(token) {
        Ok(true)
    } else {
        Err(TokenError::MalformedToken)
    }
}

} // verus!
