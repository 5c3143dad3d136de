use vstd::prelude::*;
use crate::claims::{ClaimsModel, JsonVal};
use crate::jsonser::{dec_u, digit_char, dval, esc_char, esc_str, hex_char, hexval, is_digit,
    is_hex_lower, key_exp, key_id, key_jti, key_token, key_ttl, ser_claims, ser_extras, ser_id,
    ser_int, ser_items, ser_members, ser_string, ser_val, tail_exp, tail_jti, tail_token, tail_ttl};
use crate::jsonparse::{digits_end, lit_false, lit_null, lit_true, match_lit, sp_parse_claims,
    sp_parse_extras, sp_parse_id_part, sp_parse_int_b, sp_parse_items, sp_parse_members,
    sp_parse_strbody, sp_parse_string, sp_parse_uint_b, sp_parse_val, sp_parse_rest, val_fl};
use crate::claims::wf_val;
use crate::claims::wf_claims;

verus! {

/// Splitting a known slice of `s` into two pieces identifies both.
pub proof fn lemma_peel(s: Seq<char>, a: int, m: int, b: int, x: Seq<char>, y: Seq<char>)
    requires
        0 <= a <= b <= s.len(),
        s.subrange(a, b) == x + y,
        m == a + x.len(),
    ensures
        a <= m <= b,
        s.subrange(a, m) == x,
        s.subrange(m, b) == y,
{
    assert(s.subrange(a, b).len() == x.len() + y.len());
    assert(s.subrange(a, m) =~= x) by {
        assert forall|k: int| 0 <= k < x.len() implies s.subrange(a, m)[k] == x[k] by {
            assert(s.subrange(a, b)[k] == (x + y)[k]);
        }
    }
    assert(s.subrange(m, b) =~= y) by {
        assert forall|k: int| 0 <= k < y.len() implies s.subrange(m, b)[k] == y[k] by {
            assert(s.subrange(a, b)[x.len() + k] == (x + y)[x.len() + k]);
            assert(s.subrange(m, b)[k] == s[m + k]);
            assert(s.subrange(a, b)[x.len() + k] == s[a + x.len() + k]);
        }
    }
}

pub proof fn lemma_digit_char(d: int)
    requires
        0 <= d <= 9,
    ensures
        is_digit(digit_char(d)),
        dval(digit_char(d)) == d,
        digit_char(d) == '0' <==> d == 0,
{
}

pub proof fn lemma_hex_char(d: int)
    requires
        0 <= d <= 15,
    ensures
        is_hex_lower(hex_char(d)),
        hexval(hex_char(d)) == d,
{
}

/// Properties of the canonical decimal form: non-empty, all digits,
/// leading zero only for zero itself, and it reads back to its value.
pub proof fn lemma_dec_u_props(n: int)
    requires
        n >= 0,
    ensures
        dec_u(n).len() >= 1,
        forall|k: int| 0 <= k < dec_u(n).len() ==> is_digit(#[trigger] dec_u(n)[k]),
        dec_u(n)[0] == '0' ==> n == 0,
        n == 0 ==> dec_u(n).len() == 1,
        val_fl(dec_u(n)) == n,
    decreases n,
{
    if n <= 9 {
        lemma_digit_char(n);
        assert(dec_u(n) == seq![digit_char(n)]);
        assert(dec_u(n).drop_last() =~= Seq::<char>::empty());
        assert(val_fl(dec_u(n)) == val_fl(Seq::<char>::empty()) * 10 + dval(digit_char(n)));
    } else {
        lemma_dec_u_props(n / 10);
        lemma_digit_char(n % 10);
        let pre = dec_u(n / 10);
        let whole = pre + seq![digit_char(n % 10)];
        assert(whole.drop_last() =~= pre);
        assert(whole.last() == digit_char(n % 10));
        assert(val_fl(whole) == val_fl(pre) * 10 + (n % 10));
        assert(val_fl(whole) == (n / 10) * 10 + (n % 10));
        assert forall|k: int| 0 <= k < whole.len() implies is_digit(#[trigger] whole[k]) by {
            if k < pre.len() {
                assert(whole[k] == pre[k]);
            }
        }
        assert(whole[0] == pre[0]);
    }
}

/// A maximal digit run determines `digits_end`.
pub proof fn lemma_digits_end_at(s: Seq<char>, i: int, e: int)
    requires
        0 <= i <= e <= s.len(),
        forall|j: int| i <= j < e ==> is_digit(#[trigger] s[j]),
        e == s.len() || !is_digit(s[e]),
    ensures
        digits_end(s, i) == e,
    decreases e - i,
{
    if i < e {
        lemma_digits_end_at(s, i + 1, e);
    }
}

/// Parsing the canonical decimal form of `n` at its place in `s` yields
/// `n`, provided no digit follows it.
pub proof fn lemma_parse_uint_at(s: Seq<char>, i: int, j: int, n: int, hi: int)
    requires
        0 <= n <= hi,
        0 <= i <= j <= s.len(),
        s.subrange(i, j) == dec_u(n),
        j == s.len() || !is_digit(s[j]),
    ensures
        sp_parse_uint_b(s, i, hi) == Some((n, j)),
{
    lemma_dec_u_props(n);
    assert(j - i == dec_u(n).len());
    assert forall|k: int| i <= k < j implies is_digit(#[trigger] s[k]) by {
        assert(s[k] == s.subrange(i, j)[k - i]);
    }
    lemma_digits_end_at(s, i, j);
    assert(s[i] == s.subrange(i, j)[0]);
    if s[i] == '0' {
        assert(dec_u(n)[0] == '0');
    }
    assert(s.subrange(i, digits_end(s, i)) == dec_u(n));
}

/// Parsing the canonical signed form of `n` at its place in `s` yields
/// `n`, provided no digit follows it.
pub proof fn lemma_parse_int_at(s: Seq<char>, i: int, j: int, n: int, lo: int, hi: int)
    requires
        lo <= n <= hi,
        lo <= 0 <= hi,
        0 <= i <= j <= s.len(),
        s.subrange(i, j) == ser_int(n),
        j == s.len() || !is_digit(s[j]),
    ensures
        sp_parse_int_b(s, i, lo, hi) == Some((n, j)),
{
    if n < 0 {
        lemma_dec_u_props(-n);
        lemma_peel(s, i, i + 1, j, seq!['-'], dec_u(-n));
        assert(s[i] == s.subrange(i, i + 1)[0]);
        lemma_parse_uint_at(s, i + 1, j, -n, -lo);
    } else {
        lemma_dec_u_props(n);
        assert(s[i] == s.subrange(i, j)[0]);
        assert(is_digit(s[i]));
        assert(s[i] != '-');
        lemma_parse_uint_at(s, i, j, n, hi);
    }
}

/// Parsing the escaped form of `cs` followed by a closing quote yields
/// exactly `cs`, stopping right after the quote.
pub proof fn lemma_parse_strbody_at(s: Seq<char>, i: int, j: int, cs: Seq<char>)
    requires
        0 <= i <= j <= s.len(),
        s.subrange(i, j) == esc_str(cs) + seq!['"'],
    ensures
        sp_parse_strbody(s, i) == Some((cs, j)),
    decreases cs.len(),
{
    if cs.len() == 0 {
        assert(esc_str(cs) + seq!['"'] =~= seq!['"']);
        assert(s[i] == s.subrange(i, j)[0]);
        assert(j == i + 1);
    } else {
        let c = cs[0];
        let e = esc_char(c);
        let rest = cs.skip(1);
        assert(esc_str(cs) == e + esc_str(rest));
        assert(esc_str(cs) + seq!['"'] =~= e + (esc_str(rest) + seq!['"']));
        lemma_peel(s, i, i + e.len(), j, e, esc_str(rest) + seq!['"']);
        let m = i + e.len();
        assert forall|k: int| 0 <= k < e.len() implies s[i + k] == e[k] by {
            assert(s.subrange(i, m)[k] == e[k]);
        }
        lemma_parse_strbody_at(s, m, j, rest);
        assert(seq![c] + rest =~= cs);
        if c == '"' {
            assert(s[i] == '\\' && s[i + 1] == '"');
        } else if c == '\\' {
            assert(s[i] == '\\' && s[i + 1] == '\\');
        } else if (c as u32) < 32 {
            let hi = (c as u32) as int / 16;
            let lo = (c as u32) as int % 16;
            lemma_hex_char(hi);
            lemma_hex_char(lo);
            assert(s[i] == '\\' && s[i + 1] == 'u' && s[i + 2] == '0' && s[i + 3] == '0');
            assert(s[i + 4] == hex_char(hi) && s[i + 5] == hex_char(lo));
            assert(hexval(s[i + 4]) * 16 + hexval(s[i + 5]) == c as u32);
            vstd::utf8::char_u32_cast(c, c as u32);
            assert(((hexval(s[i + 4]) * 16 + hexval(s[i + 5])) as u32) == c as u32);
        } else {
            assert(s[i] == c);
        }
    }
}

/// Parsing the serialized form of the string `cs` at its place in `s`
/// yields `cs`.
pub proof fn lemma_parse_string_at(s: Seq<char>, i: int, j: int, cs: Seq<char>)
    requires
        0 <= i <= j <= s.len(),
        s.subrange(i, j) == ser_string(cs),
    ensures
        sp_parse_string(s, i) == Some((cs, j)),
        i + 2 <= j,
{
    assert(ser_string(cs) == seq!['"'] + (esc_str(cs) + seq!['"']));
    lemma_peel(s, i, i + 1, j, seq!['"'], esc_str(cs) + seq!['"']);
    assert(s[i] == s.subrange(i, i + 1)[0]);
    lemma_parse_strbody_at(s, i + 1, j, cs);
}

/// Characters that can open a serialized value.
pub open spec fn val_opener(c: char) -> bool {
    c == 'n' || c == 't' || c == 'f' || c == '"' || c == '[' || c == '{' || c == '-' || is_digit(c)
}

/// Every serialized value is non-empty and starts with an opener, so it
/// can never be confused with a separator or a closing bracket.
pub proof fn lemma_ser_val_first(v: JsonVal)
    ensures
        ser_val(v).len() >= 1,
        val_opener(ser_val(v)[0]),
{
    match v {
        JsonVal::Int(n) => {
            if n >= 0 {
                lemma_dec_u_props(n);
            }
        },
        _ => {},
    }
}

/// Parsing the serialized form of `v` at its place in `s` yields `v`,
/// provided a separator or closing bracket follows it.
pub proof fn lemma_parse_val_at(s: Seq<char>, i: int, j: int, v: JsonVal)
    requires
        wf_val(v),
        0 <= i <= j <= s.len(),
        s.subrange(i, j) == ser_val(v),
        j < s.len(),
        s[j] == ',' || s[j] == ']' || s[j] == '}',
    ensures
        sp_parse_val(s, i) == Some((v, j)),
    decreases v, 0int,
{
    lemma_ser_val_first(v);
    assert(s[i] == s.subrange(i, j)[0]);
    match v {
        JsonVal::Null => {
            assert(j == i + 4);
            assert(s.subrange(i, i + 4) == lit_null());
            assert(match_lit(s, i, lit_null()));
            assert(sp_parse_val(s, i) == Some((JsonVal::Null, i + 4)));
        },
        JsonVal::Bool(b) => {
            if b {
                assert(j == i + 4);
                assert(match_lit(s, i, lit_true()));
            } else {
                assert(j == i + 5);
                assert(match_lit(s, i, lit_false()));
            }
        },
        JsonVal::Int(n) => {
            if n < 0 {
                assert(ser_val(v)[0] == (seq!['-'] + dec_u(-n))[0]);
                assert(s[i] == '-');
            } else {
                lemma_dec_u_props(n);
                assert(is_digit(s[i]));
            }
            lemma_parse_int_at(s, i, j, n, i64::MIN as int, i64::MAX as int);
        },
        JsonVal::Strv(cs) => {
            assert(ser_val(v) == ser_string(cs));
            lemma_peel(s, i, i + 1, j, seq!['"'], esc_str(cs) + seq!['"']);
            lemma_parse_strbody_at(s, i + 1, j, cs);
        },
        JsonVal::Arr(es) => {
            if es.len() == 0 {
                assert(j == i + 2);
                assert(s[i + 1] == s.subrange(i, j)[1]);
                assert(es =~= Seq::<JsonVal>::empty());
            } else {
                assert(forall|t: int| 0 <= t < es.len() ==> wf_val(#[trigger] es[t]));
                assert(s.subrange(i, j) =~= seq!['['] + (ser_items(es, 0) + seq![']']));
                lemma_peel(s, i, i + 1, j, seq!['['], ser_items(es, 0) + seq![']']);
                lemma_ser_val_first(es[0]);
                assert(s[i + 1] == s.subrange(i + 1, j)[0]);
                assert(s.subrange(i + 1, j)[0] == ser_val(es[0])[0]);
                lemma_parse_items_at(s, i + 1, j, es, 0);
                assert(es.skip(0) =~= es);
            }
        },
        JsonVal::Obj(ms) => {
            if ms.len() == 0 {
                assert(j == i + 2);
                assert(s[i + 1] == s.subrange(i, j)[1]);
                assert(ms =~= Seq::<(Seq<char>, JsonVal)>::empty());
            } else {
                assert(forall|t: int| 0 <= t < ms.len() ==> wf_val(#[trigger] ms[t].1));
                assert(s.subrange(i, j) =~= seq!['{'] + (ser_members(ms, 0) + seq!['}']));
                lemma_peel(s, i, i + 1, j, seq!['{'], ser_members(ms, 0) + seq!['}']);
                assert(s[i + 1] == s.subrange(i + 1, j)[0]);
                assert(s.subrange(i + 1, j)[0] == ser_string(ms[0].0)[0]);
                lemma_parse_members_at(s, i + 1, j, ms, 0);
                assert(ms.skip(0) =~= ms);
            }
        },
    }
}

/// Parsing serialized array elements from `k` on, followed by `]`,
/// yields exactly those elements.
pub proof fn lemma_parse_items_at(s: Seq<char>, i: int, j: int, es: Seq<JsonVal>, k: int)
    requires
        forall|t: int| 0 <= t < es.len() ==> wf_val(#[trigger] es[t]),
        0 <= k < es.len(),
        0 <= i <= j <= s.len(),
        s.subrange(i, j) == ser_items(es, k) + seq![']'],
    ensures
        sp_parse_items(s, i) == Some((es.skip(k), j)),
    decreases es, es.len() - k,
{
    let w = ser_val(es[k]);
    lemma_ser_val_first(es[k]);
    if k == es.len() - 1 {
        assert(ser_items(es, k) == w);
        lemma_peel(s, i, i + w.len(), j, w, seq![']']);
        let m = i + w.len() as int;
        assert(s[m] == s.subrange(m, j)[0]);
        lemma_parse_val_at(s, i, m, es[k]);
        assert(seq![es[k]] =~= es.skip(k));
    } else {
        assert(s.subrange(i, j) =~= w + (seq![','] + (ser_items(es, k + 1) + seq![']'])));
        lemma_peel(s, i, i + w.len(), j, w, seq![','] + (ser_items(es, k + 1) + seq![']']));
        let m = i + w.len() as int;
        lemma_peel(s, m, m + 1, j, seq![','], ser_items(es, k + 1) + seq![']']);
        assert(s[m] == s.subrange(m, m + 1)[0]);
        lemma_parse_val_at(s, i, m, es[k]);
        lemma_parse_items_at(s, m + 1, j, es, k + 1);
        assert(seq![es[k]] + es.skip(k + 1) =~= es.skip(k));
    }
}

/// Parsing serialized object members from `k` on, followed by `}`,
/// yields exactly those members.
pub proof fn lemma_parse_members_at(
    s: Seq<char>,
    i: int,
    j: int,
    ms: Seq<(Seq<char>, JsonVal)>,
    k: int,
)
    requires
        forall|t: int| 0 <= t < ms.len() ==> wf_val(#[trigger] ms[t].1),
        0 <= k < ms.len(),
        0 <= i <= j <= s.len(),
        s.subrange(i, j) == ser_members(ms, k) + seq!['}'],
    ensures
        sp_parse_members(s, i) == Some((ms.skip(k), j)),
    decreases ms, ms.len() - k,
{
    let key = ms[k].0;
    let v = ms[k].1;
    let ks = ser_string(key);
    let w = ser_val(v);
    lemma_ser_val_first(v);
    if k == ms.len() - 1 {
        assert(s.subrange(i, j) =~= ks + (seq![':'] + (w + seq!['}'])));
        lemma_peel(s, i, i + ks.len(), j, ks, seq![':'] + (w + seq!['}']));
        let a = i + ks.len() as int;
        lemma_peel(s, a, a + 1, j, seq![':'], w + seq!['}']);
        lemma_peel(s, a + 1, a + 1 + w.len(), j, w, seq!['}']);
        let m = a + 1 + w.len() as int;
        lemma_parse_string_at(s, i, a, key);
        assert(s[a] == s.subrange(a, a + 1)[0]);
        assert(s[m] == s.subrange(m, j)[0]);
        lemma_parse_val_at(s, a + 1, m, v);
        assert(seq![(key, v)] =~= ms.skip(k));
    } else {
        assert(s.subrange(i, j) =~= ks + (seq![':'] + (w + (seq![','] + (ser_members(ms, k + 1)
            + seq!['}'])))));
        lemma_peel(s, i, i + ks.len(), j, ks, seq![':'] + (w + (seq![','] + (ser_members(ms, k + 1)
            + seq!['}']))));
        let a = i + ks.len() as int;
        lemma_peel(s, a, a + 1, j, seq![':'], w + (seq![','] + (ser_members(ms, k + 1)
            + seq!['}'])));
        lemma_peel(s, a + 1, a + 1 + w.len(), j, w, seq![','] + (ser_members(ms, k + 1)
            + seq!['}']));
        let m = a + 1 + w.len() as int;
        lemma_peel(s, m, m + 1, j, seq![','], ser_members(ms, k + 1) + seq!['}']);
        lemma_parse_string_at(s, i, a, key);
        assert(s[a] == s.subrange(a, a + 1)[0]);
        assert(s[m] == s.subrange(m, m + 1)[0]);
        lemma_parse_val_at(s, a + 1, m, v);
        lemma_parse_members_at(s, m + 1, j, ms, k + 1);
        assert(seq![(key, v)] + ms.skip(k + 1) =~= ms.skip(k));
    }
}

/// Parsing serialized extension members from `k` on, followed by the
/// closing `}` of the payload, yields exactly those members.
pub proof fn lemma_parse_extras_at(
    s: Seq<char>,
    i: int,
    j: int,
    ms: Seq<(Seq<char>, JsonVal)>,
    k: int,
)
    requires
        forall|t: int| 0 <= t < ms.len() ==> wf_val(#[trigger] ms[t].1),
        0 <= k <= ms.len(),
        0 <= i <= j <= s.len(),
        s.subrange(i, j) == ser_extras(ms, k) + seq!['}'],
    ensures
        sp_parse_extras(s, i) == Some((ms.skip(k), j)),
    decreases ms.len() - k,
{
    if k >= ms.len() {
        assert(ser_extras(ms, k) + seq!['}'] =~= seq!['}']);
        assert(s[i] == s.subrange(i, j)[0]);
        assert(j == i + 1);
        assert(ms.skip(k) =~= Seq::<(Seq<char>, JsonVal)>::empty());
    } else {
        let key = ms[k].0;
        let v = ms[k].1;
        let ks = ser_string(key);
        let w = ser_val(v);
        lemma_ser_val_first(v);
        assert(s.subrange(i, j) =~= seq![','] + (ks + (seq![':'] + (w + (ser_extras(ms, k + 1)
            + seq!['}'])))));
        lemma_peel(s, i, i + 1, j, seq![','], ks + (seq![':'] + (w + (ser_extras(ms, k + 1)
            + seq!['}']))));
        lemma_peel(s, i + 1, i + 1 + ks.len(), j, ks, seq![':'] + (w + (ser_extras(ms, k + 1)
            + seq!['}'])));
        let a = i + 1 + ks.len() as int;
        lemma_peel(s, a, a + 1, j, seq![':'], w + (ser_extras(ms, k + 1) + seq!['}']));
        lemma_peel(s, a + 1, a + 1 + w.len(), j, w, ser_extras(ms, k + 1) + seq!['}']);
        let m = a + 1 + w.len() as int;
        assert(s[i] == s.subrange(i, i + 1)[0]);
        lemma_parse_string_at(s, i + 1, a, key);
        assert(s[a] == s.subrange(a, a + 1)[0]);
        if k + 1 >= ms.len() {
            assert(ser_extras(ms, k + 1) + seq!['}'] =~= seq!['}']);
            assert(s[m] == s.subrange(m, j)[0]);
        } else {
            assert(s[m] == s.subrange(m, j)[0]);
            assert(s.subrange(m, j)[0] == ',');
        }
        lemma_parse_val_at(s, a + 1, m, v);
        lemma_parse_extras_at(s, m, j, ms, k + 1);
        assert(seq![(key, v)] + ms.skip(k + 1) =~= ms.skip(k));
    }
}

/// The round trip at the heart of the engine: parsing the canonical
/// payload text of any well-formed claims record yields exactly that
/// record.
/// Parsing the members from the expiry member on, at their place in
/// `s`, yields the fixed fields and extension members of `c`.
#[verifier::rlimit(60)]
pub proof fn lemma_parse_rest_at(s: Seq<char>, i1: int, idv: Option<int>, c: ClaimsModel)
    requires
        wf_claims(c),
        0 <= i1 <= s.len(),
        s.subrange(i1, s.len() as int) == tail_exp(c),
    ensures
        sp_parse_rest(s, i1, idv) == Some(
            ClaimsModel {
                id: idv,
                exp: c.exp,
                ttl: c.ttl,
                token: c.token,
                jti: c.jti,
                extra: c.extra,
            },
        ),
{
    let n = s.len() as int;
    assert(s.subrange(i1, n) == tail_exp(c));
    // the expiry member
    lemma_peel(s, i1, i1 + key_exp().len(), n, key_exp(), dec_u(c.exp) + (seq![','] + tail_ttl(c)));
    let a1 = i1 + key_exp().len() as int;
    lemma_peel(s, a1, a1 + dec_u(c.exp).len(), n, dec_u(c.exp), seq![','] + tail_ttl(c));
    let j1 = a1 + dec_u(c.exp).len() as int;
    lemma_peel(s, j1, j1 + 1, n, seq![','], tail_ttl(c));
    assert(s[j1] == s.subrange(j1, j1 + 1)[0]);
    assert(match_lit(s, i1, key_exp()));
    lemma_parse_uint_at(s, a1, j1, c.exp, u64::MAX as int);
    // the ttl member
    let i2 = j1 + 1;
    lemma_peel(s, i2, i2 + key_ttl().len(), n, key_ttl(), dec_u(c.ttl) + (seq![','] + tail_token(
        c,
    )));
    let a2 = i2 + key_ttl().len() as int;
    lemma_peel(s, a2, a2 + dec_u(c.ttl).len(), n, dec_u(c.ttl), seq![','] + tail_token(c));
    let j2 = a2 + dec_u(c.ttl).len() as int;
    lemma_peel(s, j2, j2 + 1, n, seq![','], tail_token(c));
    assert(s[j2] == s.subrange(j2, j2 + 1)[0]);
    assert(match_lit(s, i2, key_ttl()));
    lemma_parse_uint_at(s, a2, j2, c.ttl, u64::MAX as int);
    // the token-type member
    let i3 = j2 + 1;
    lemma_peel(s, i3, i3 + key_token().len(), n, key_token(), ser_string(c.token) + (seq![',']
        + tail_jti(c)));
    let a3 = i3 + key_token().len() as int;
    lemma_peel(s, a3, a3 + ser_string(c.token).len(), n, ser_string(c.token), seq![','] + tail_jti(
        c,
    ));
    let j3 = a3 + ser_string(c.token).len() as int;
    lemma_peel(s, j3, j3 + 1, n, seq![','], tail_jti(c));
    assert(s[j3] == s.subrange(j3, j3 + 1)[0]);
    assert(match_lit(s, i3, key_token()));
    lemma_parse_string_at(s, a3, j3, c.token);
    // the jti member
    let i4 = j3 + 1;
    lemma_peel(s, i4, i4 + key_jti().len(), n, key_jti(), ser_string(c.jti) + (ser_extras(
        c.extra,
        0,
    ) + seq!['}']));
    let a4 = i4 + key_jti().len() as int;
    lemma_peel(s, a4, a4 + ser_string(c.jti).len(), n, ser_string(c.jti), ser_extras(c.extra, 0)
        + seq!['}']);
    let j4 = a4 + ser_string(c.jti).len() as int;
    assert(match_lit(s, i4, key_jti()));
    lemma_parse_string_at(s, a4, j4, c.jti);
    // the extension members and the closing brace
    assert(s.subrange(j4, n) =~= ser_extras(c.extra, 0) + seq!['}']);
    lemma_parse_extras_at(s, j4, n, c.extra, 0);
    assert(c.extra.skip(0) =~= c.extra);
    let m = ClaimsModel {
        id: c.id,
        exp: c.exp,
        ttl: c.ttl,
        token: c.token,
        jti: c.jti,
        extra: c.extra.skip(0),
    };
    assert(sp_parse_rest(s, i1, idv) == Some(
        ClaimsModel {
            id: idv,
            exp: c.exp,
            ttl: c.ttl,
            token: c.token,
            jti: c.jti,
            extra: c.extra.skip(0),
        },
    ));
    assert(ClaimsModel {
        id: idv,
        exp: c.exp,
        ttl: c.ttl,
        token: c.token,
        jti: c.jti,
        extra: c.extra.skip(0),
    } =~= ClaimsModel {
        id: idv,
        exp: c.exp,
        ttl: c.ttl,
        token: c.token,
        jti: c.jti,
        extra: c.extra,
    });
}

/// Parsing the front of the canonical payload reads back the subject
/// and stops where the expiry member starts.
#[verifier::rlimit(60)]
pub proof fn lemma_parse_id_at(c: ClaimsModel) -> (i1: int)
    requires
        wf_claims(c),
    ensures
        ser_claims(c).len() >= 1,
        ser_claims(c)[0] == '{',
        sp_parse_id_part(ser_claims(c)) == Some((c.id, i1)),
        0 <= i1 <= ser_claims(c).len(),
        ser_claims(c).subrange(i1, ser_claims(c).len() as int) == tail_exp(c),
{
    let s = ser_claims(c);
    let n = s.len() as int;
    assert(s.subrange(0, n) =~= s);
    lemma_peel(s, 0, 1, n, seq!['{'], ser_id(c.id) + tail_exp(c));
    assert(s[0] == s.subrange(0, 1)[0]);
    match c.id {
        Some(idv) => {
            assert(s.subrange(1, n) =~= key_id() + (ser_int(idv) + (seq![','] + tail_exp(c))));
            lemma_peel(s, 1, 1 + key_id().len() as int, n, key_id(), ser_int(idv) + (seq![',']
                + tail_exp(c)));
            let a = 1 + key_id().len() as int;
            lemma_peel(s, a, a + ser_int(idv).len(), n, ser_int(idv), seq![','] + tail_exp(c));
            let b = a + ser_int(idv).len() as int;
            lemma_peel(s, b, b + 1, n, seq![','], tail_exp(c));
            assert(s[b] == s.subrange(b, b + 1)[0]);
            assert(match_lit(s, 1, key_id()));
            lemma_parse_int_at(s, a, b, idv, i128::MIN as int, i128::MAX as int);
            assert(sp_parse_id_part(s) == Some((Some(idv), b + 1)));
            b + 1
        },
        None => {
            assert(s.subrange(1, n) == tail_exp(c));
            if match_lit(s, 1, key_id()) {
                assert(s[2] == s.subrange(1, 1 + key_id().len() as int)[1]);
                assert(s[2] == s.subrange(1, n)[1]);
                assert(s.subrange(1, n)[1] == key_exp()[1]);
                assert(false);
            }
            assert(sp_parse_id_part(s) == Some((None::<int>, 1int)));
            1
        },
    }
}

/// The round trip at the heart of the engine: parsing the canonical
/// payload text of any well-formed claims record yields exactly that
/// record.
pub proof fn lemma_parse_ser_claims(c: ClaimsModel)
    requires
        wf_claims(c),
    ensures
        sp_parse_claims(ser_claims(c)) == Some(c),
{
    let s = ser_claims(c);
    let i1 = lemma_parse_id_at(c);
    lemma_parse_rest_at(s, i1, c.id, c);
    assert(ClaimsModel {
        id: c.id,
        exp: c.exp,
        ttl: c.ttl,
        token: c.token,
        jti: c.jti,
        extra: c.extra,
    } =~= c);
}

} // verus!
