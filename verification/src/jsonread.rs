use vstd::prelude::*;
use crate::claims::{claims_model, extra_model, val_model, ClaimValue, Claims, ClaimsModel, JsonVal};
use crate::jsonser::{is_digit, key_exp, key_id, key_jti, key_token, key_ttl};
use crate::jsonparse::{digits_end, lit_false, lit_null, lit_true, match_lit, sp_parse_claims,
    sp_parse_extras, sp_parse_id_part, sp_parse_int_b, sp_parse_items, sp_parse_members,
    sp_parse_strbody, sp_parse_string, sp_parse_u64, sp_parse_uint_b, sp_parse_val,
    val_fl};
use crate::outside::{chars_of, string_of};

verus! {

/// The model of a sequence of extension values.
pub open spec fn vals_model(es: Seq<ClaimValue>) -> Seq<JsonVal> {
    Seq::new(es.len(), |i: int| val_model(es[i]))
}

fn match_lit_exec(s: &Vec<char>, i: usize, lit: &Vec<char>) -> (r: bool)
    ensures
        r == match_lit(s@, i as int, lit@),
{
    let n: usize = s.len();
    if n < lit.len() || i > n - lit.len() {
        return false;
    }
    let mut k: usize = 0;
    while k < lit.len()
        invariant
            k <= lit@.len(),
            n == s@.len(),
            i + lit@.len() <= n,
            forall|t: int| 0 <= t < k ==> s@[i + t] == lit@[t],
        decreases lit@.len() - k,
    {
        if s[i + k] != lit[k] {
            proof {
                assert(s@.subrange(i as int, i as int + lit@.len() as int)[k as int] != lit@[
                    k as int
                ]);
            }
            return false;
        }
        k += 1;
    }
    proof {
        assert(s@.subrange(i as int, i as int + lit@.len() as int) =~= lit@);
    }
    true
}

fn scan_digits(s: &Vec<char>, i: usize) -> (e: usize)
    requires
        i <= s@.len(),
    ensures
        e as int == digits_end(s@, i as int),
        i <= e <= s@.len(),
{
    let mut j: usize = i;
    while j < s.len() && '0' <= s[j] && s[j] <= '9'
        invariant
            i <= j <= s@.len(),
            digits_end(s@, i as int) == digits_end(s@, j as int),
        decreases s@.len() - j,
    {
        j += 1;
    }
    j
}

/// Every character before the end of a digit run is a digit.
proof fn lemma_digits_end_digits(s: Seq<char>, i: int)
    requires
        0 <= i <= s.len(),
    ensures
        i <= digits_end(s, i) <= s.len(),
        forall|t: int| i <= t < digits_end(s, i) ==> is_digit(#[trigger] s[t]),
    decreases s.len() - i,
{
    if i < s.len() && is_digit(s[i]) {
        lemma_digits_end_digits(s, i + 1);
    }
}

proof fn lemma_val_fl_nonneg(ds: Seq<char>)
    requires
        forall|k: int| 0 <= k < ds.len() ==> is_digit(#[trigger] ds[k]),
    ensures
        val_fl(ds) >= 0,
    decreases ds.len(),
{
    if ds.len() > 0 {
        assert forall|k: int| 0 <= k < ds.drop_last().len() implies is_digit(
            #[trigger] ds.drop_last()[k],
        ) by {
            assert(ds.drop_last()[k] == ds[k]);
        }
        lemma_val_fl_nonneg(ds.drop_last());
    }
}

/// The value of a digit run only grows as more digits are read.
proof fn lemma_val_fl_prefix(ds: Seq<char>, k: int)
    requires
        forall|t: int| 0 <= t < ds.len() ==> is_digit(#[trigger] ds[t]),
        0 <= k <= ds.len(),
    ensures
        val_fl(ds.subrange(0, k)) <= val_fl(ds),
    decreases ds.len(),
{
    if k == ds.len() {
        assert(ds.subrange(0, k) =~= ds);
    } else {
        let pre = ds.drop_last();
        assert forall|t: int| 0 <= t < pre.len() implies is_digit(#[trigger] pre[t]) by {
            assert(pre[t] == ds[t]);
        }
        lemma_val_fl_nonneg(pre);
        lemma_val_fl_prefix(pre, k);
        assert(ds.subrange(0, k) =~= pre.subrange(0, k));
        assert(val_fl(ds) == val_fl(pre) * 10 + dval_of(ds.last()));
        assert(val_fl(pre) * 10 >= val_fl(pre));
    }
}

/// Local alias so the lemma above can name the digit value.
pub open spec fn dval_of(c: char) -> int {
    crate::jsonser::dval(c)
}

/// The numeric value of the digit run `[i, e)`, unless it exceeds the
/// largest unsigned 128-bit value.
fn digits_value(s: &Vec<char>, i: usize, e: usize) -> (r: Option<u128>)
    requires
        i <= e <= s@.len(),
        forall|t: int| i <= t < e ==> is_digit(#[trigger] s@[t]),
    ensures
        match r {
            Some(x) => x as int == val_fl(s@.subrange(i as int, e as int)),
            None => val_fl(s@.subrange(i as int, e as int)) > u128::MAX,
        },
{
    let ghost whole = s@.subrange(i as int, e as int);
    proof {
        assert forall|t: int| 0 <= t < whole.len() implies is_digit(#[trigger] whole[t]) by {
            assert(whole[t] == s@[i + t]);
        }
    }
    let mut acc: u128 = 0;
    let mut m: usize = i;
    while m < e
        invariant
            i <= m <= e <= s@.len(),
            forall|t: int| i <= t < e ==> is_digit(#[trigger] s@[t]),
            forall|t: int| 0 <= t < whole.len() ==> is_digit(#[trigger] whole[t]),
            whole == s@.subrange(i as int, e as int),
            acc as int == val_fl(s@.subrange(i as int, m as int)),
        decreases e - m,
    {
        let c = s[m];
        let d: u128 = (c as u32 - '0' as u32) as u128;
        proof {
            assert(s@.subrange(i as int, m as int + 1).drop_last() =~= s@.subrange(
                i as int,
                m as int,
            ));
            assert(s@.subrange(i as int, m as int + 1).last() == s@[m as int]);
        }
        let step = match acc.checked_mul(10) {
            Some(x) => x.checked_add(d),
            None => None,
        };
        match step {
            Some(x) => {
                acc = x;
            },
            None => {
                proof {
                    let part = s@.subrange(i as int, m as int + 1);
                    assert(val_fl(part) > u128::MAX);
                    assert(part =~= whole.subrange(0, m as int + 1 - i));
                    lemma_val_fl_prefix(whole, m as int + 1 - i);
                }
                return None;
            },
        }
        m += 1;
    }
    Some(acc)
}

/// Parse a canonical unsigned number no larger than `hi`.
fn parse_uint_exec(s: &Vec<char>, i: usize, hi: u128) -> (r: Option<(u128, usize)>)
    ensures
        match r {
            Some((v, j)) => sp_parse_uint_b(s@, i as int, hi as int) == Some((v as int, j as int))
                && i < j <= s@.len(),
            None => sp_parse_uint_b(s@, i as int, hi as int) is None,
        },
{
    if i >= s.len() {
        return None;
    }
    let e = scan_digits(s, i);
    if e == i {
        return None;
    }
    if s[i] == '0' && e > i + 1 {
        return None;
    }
    proof {
        lemma_digits_end_digits(s@, i as int);
    }
    match digits_value(s, i, e) {
        Some(x) => if x > hi {
            None
        } else {
            Some((x, e))
        },
        None => None,
    }
}

fn parse_u64_exec(s: &Vec<char>, i: usize) -> (r: Option<(u64, usize)>)
    ensures
        match r {
            Some((v, j)) => sp_parse_u64(s@, i as int) == Some((v as int, j as int)) && i < j
                <= s@.len(),
            None => sp_parse_u64(s@, i as int) is None,
        },
{
    match parse_uint_exec(s, i, u64::MAX as u128) {
        Some((v, j)) => Some((v as u64, j)),
        None => None,
    }
}

/// Parse a canonical signed number within the signed 64-bit range.
fn parse_i64_exec(s: &Vec<char>, i: usize) -> (r: Option<(i64, usize)>)
    ensures
        match r {
            Some((v, j)) => sp_parse_int_b(s@, i as int, i64::MIN as int, i64::MAX as int) == Some(
                (v as int, j as int),
            ) && i < j <= s@.len(),
            None => sp_parse_int_b(s@, i as int, i64::MIN as int, i64::MAX as int) is None,
        },
{
    if i < s.len() && s[i] == '-' {
        match parse_uint_exec(s, i + 1, (i64::MAX as u128) + 1) {
            Some((v, j)) => {
                if v == 0 {
                    None
                } else if v == (i64::MAX as u128) + 1 {
                    Some((i64::MIN, j))
                } else {
                    Some((-(v as i64), j))
                }
            },
            None => None,
        }
    } else {
        match parse_uint_exec(s, i, i64::MAX as u128) {
            Some((v, j)) => Some((v as i64, j)),
            None => None,
        }
    }
}

/// Parse a canonical signed number within the signed 128-bit range.
fn parse_i128_exec(s: &Vec<char>, i: usize) -> (r: Option<(i128, usize)>)
    ensures
        match r {
            Some((v, j)) => sp_parse_int_b(s@, i as int, i128::MIN as int, i128::MAX as int)
                == Some((v as int, j as int)) && i < j <= s@.len(),
            None => sp_parse_int_b(s@, i as int, i128::MIN as int, i128::MAX as int) is None,
        },
{
    if i < s.len() && s[i] == '-' {
        match parse_uint_exec(s, i + 1, (i128::MAX as u128) + 1) {
            Some((v, j)) => {
                if v == 0 {
                    None
                } else if v == (i128::MAX as u128) + 1 {
                    Some((i128::MIN, j))
                } else {
                    Some((-(v as i128), j))
                }
            },
            None => None,
        }
    } else {
        match parse_uint_exec(s, i, i128::MAX as u128) {
            Some((v, j)) => Some((v as i128, j)),
            None => None,
        }
    }
}

fn hexval_exec(c: char) -> (r: u32)
    requires
        crate::jsonser::is_hex_lower(c),
    ensures
        r as int == crate::jsonser::hexval(c),
        r <= 15,
{
    if '0' <= c && c <= '9' {
        c as u32 - '0' as u32
    } else {
        c as u32 - 'a' as u32 + 10
    }
}

/// Parse a string body after its opening quote, unescaping as it goes.
fn parse_strbody_exec(s: &Vec<char>, i: usize) -> (r: Option<(Vec<char>, usize)>)
    ensures
        match r {
            Some(p) => sp_parse_strbody(s@, i as int) == Some((p.0@, p.1 as int)) && i < p.1
                <= s@.len(),
            None => sp_parse_strbody(s@, i as int) is None,
        },
    decreases s@.len() - i,
{
    if i >= s.len() {
        return None;
    }
    let c = s[i];
    if c == '"' {
        let out: Vec<char> = Vec::new();
        proof {
            assert(out@ =~= Seq::<char>::empty());
        }
        Some((out, i + 1))
    } else if c == '\\' {
        if i + 1 >= s.len() {
            None
        } else if s[i + 1] == '"' || s[i + 1] == '\\' {
            match parse_strbody_exec(s, i + 2) {
                Some((mut cs, j)) => {
                    cs.insert(0, s[i + 1]);
                    proof {
                        assert(cs@ =~= seq![s@[i as int + 1]] + cs@.skip(1));
                    }
                    Some((cs, j))
                },
                None => None,
            }
        } else if s[i + 1] == 'b' || s[i + 1] == 't' || s[i + 1] == 'n' || s[i + 1] == 'f'
            || s[i + 1] == 'r' || s[i + 1] == '/' {
            match parse_strbody_exec(s, i + 2) {
                Some((mut cs, j)) => {
                    let e = s[i + 1];
                    let dc: char = if e == 'b' {
                        (8u8) as char
                    } else if e == 't' {
                        '\t'
                    } else if e == 'n' {
                        '\n'
                    } else if e == 'f' {
                        (12u8) as char
                    } else if e == 'r' {
                        '\r'
                    } else {
                        '/'
                    };
                    cs.insert(0, dc);
                    proof {
                        assert(dc == crate::jsonparse::short_escape_char(s@[i as int + 1]));
                        assert(cs@ =~= seq![dc] + cs@.skip(1));
                    }
                    Some((cs, j))
                },
                None => None,
            }
        } else if s[i + 1] == 'u' {
            if s.len() < 6 || i > s.len() - 6 {
                return None;
            }
            let h1 = s[i + 4];
            let h2 = s[i + 5];
            let hex_ok_1 = ('0' <= h1 && h1 <= '9') || ('a' <= h1 && h1 <= 'f');
            let hex_ok_2 = ('0' <= h2 && h2 <= '9') || ('a' <= h2 && h2 <= 'f');
            if s[i + 2] == '0' && s[i + 3] == '0' && hex_ok_1 && hex_ok_2 {
                let v: u32 = hexval_exec(h1) * 16 + hexval_exec(h2);
                if v < 32 {
                    match parse_strbody_exec(s, i + 6) {
                        Some((mut cs, j)) => {
                            let dc = (v as u8) as char;
                            cs.insert(0, dc);
                            proof {
                                assert(dc == (v as u32) as char);
                                assert(cs@ =~= seq![dc] + cs@.skip(1));
                            }
                            Some((cs, j))
                        },
                        None => None,
                    }
                } else {
                    None
                }
            } else {
                None
            }
        } else {
            None
        }
    } else if (c as u32) < 32 {
        None
    } else {
        match parse_strbody_exec(s, i + 1) {
            Some((mut cs, j)) => {
                cs.insert(0, c);
                proof {
                    assert(cs@ =~= seq![c] + cs@.skip(1));
                }
                Some((cs, j))
            },
            None => None,
        }
    }
}

fn parse_string_exec(s: &Vec<char>, i: usize) -> (r: Option<(Vec<char>, usize)>)
    ensures
        match r {
            Some(p) => sp_parse_string(s@, i as int) == Some((p.0@, p.1 as int)) && i < p.1
                <= s@.len(),
            None => sp_parse_string(s@, i as int) is None,
        },
{
    if i < s.len() && s[i] == '"' {
        parse_strbody_exec(s, i + 1)
    } else {
        None
    }
}

/// Parse a value, producing its executable representation.
#[verifier::rlimit(100)]
pub fn parse_val_exec(s: &Vec<char>, i: usize) -> (r: Option<(ClaimValue, usize)>)
    ensures
        r matches Some(p) ==> sp_parse_val(s@, i as int) == Some((val_model(p.0), p.1 as int)),
        r matches Some(p) ==> i < p.1 <= s@.len(),
        r is None ==> sp_parse_val(s@, i as int) is None,
    decreases s@.len() - i, 1int,
{
    if i >= s.len() {
        return None;
    }
    let c = s[i];
    if c == 'n' {
        let lit = chars_of("null");
        proof {
            reveal_strlit("null");
            assert("null"@ =~= lit_null());
        }
        if match_lit_exec(s, i, &lit) {
            proof {
                assert(sp_parse_val(s@, i as int) == Some((val_model(ClaimValue::Null), i as int
                    + 4)));
            }
            Some((ClaimValue::Null, i + 4))
        } else {
            None
        }
    } else if c == 't' {
        let lit = chars_of("true");
        proof {
            reveal_strlit("true");
            assert("true"@ =~= lit_true());
        }
        if match_lit_exec(s, i, &lit) {
            proof {
                assert(sp_parse_val(s@, i as int) == Some((val_model(ClaimValue::Bool(true)),
                    i as int + 4)));
            }
            Some((ClaimValue::Bool(true), i + 4))
        } else {
            None
        }
    } else if c == 'f' {
        let lit = chars_of("false");
        proof {
            reveal_strlit("false");
            assert("false"@ =~= lit_false());
        }
        if match_lit_exec(s, i, &lit) {
            proof {
                assert(sp_parse_val(s@, i as int) == Some((val_model(ClaimValue::Bool(false)),
                    i as int + 5)));
            }
            Some((ClaimValue::Bool(false), i + 5))
        } else {
            None
        }
    } else if c == '"' {
        match parse_strbody_exec(s, i + 1) {
            Some((cs, j)) => {
                let st = string_of(&cs);
                proof {
                    assert(val_model(ClaimValue::Str(st)) == JsonVal::Strv(cs@));
                    assert(sp_parse_val(s@, i as int) == Some((val_model(ClaimValue::Str(st)),
                        j as int)));
                }
                Some((ClaimValue::Str(st), j))
            },
            None => None,
        }
    } else if c == '[' {
        if i + 1 < s.len() && s[i + 1] == ']' {
            let es: Vec<ClaimValue> = Vec::new();
            proof {
                assert(vals_model(es@) =~= Seq::<JsonVal>::empty());
                assert(val_model(ClaimValue::Arr(es))->Arr_0 =~= Seq::<JsonVal>::empty());
                assert(val_model(ClaimValue::Arr(es)) == JsonVal::Arr(Seq::<JsonVal>::empty()));
                assert(sp_parse_val(s@, i as int) == Some((val_model(ClaimValue::Arr(es)),
                    i as int + 2)));
            }
            Some((ClaimValue::Arr(es), i + 2))
        } else {
            match parse_items_exec(s, i + 1) {
                Some((es, j)) => {
                    proof {
                        assert(val_model(ClaimValue::Arr(es))->Arr_0 =~= vals_model(es@));
                        assert(val_model(ClaimValue::Arr(es)) == JsonVal::Arr(vals_model(es@)));
                        assert(sp_parse_val(s@, i as int) == Some((val_model(ClaimValue::Arr(es)),
                            j as int)));
                    }
                    Some((ClaimValue::Arr(es), j))
                },
                None => None,
            }
        }
    } else if c == '{' {
        if i + 1 < s.len() && s[i + 1] == '}' {
            let ms: Vec<(String, ClaimValue)> = Vec::new();
            proof {
                assert(extra_model(ms@) =~= Seq::<(Seq<char>, JsonVal)>::empty());
                assert(val_model(ClaimValue::Obj(ms))->Obj_0 =~= Seq::<(
                    Seq<char>,
                    JsonVal,
                )>::empty());
                assert(val_model(ClaimValue::Obj(ms)) == JsonVal::Obj(Seq::<(
                    Seq<char>,
                    JsonVal,
                )>::empty()));
                assert(sp_parse_val(s@, i as int) == Some((val_model(ClaimValue::Obj(ms)),
                    i as int + 2)));
            }
            Some((ClaimValue::Obj(ms), i + 2))
        } else {
            match parse_members_exec(s, i + 1) {
                Some((ms, j)) => {
                    proof {
                        assert(val_model(ClaimValue::Obj(ms))->Obj_0 =~= extra_model(ms@));
                        assert(val_model(ClaimValue::Obj(ms)) == JsonVal::Obj(extra_model(ms@)));
                        assert(sp_parse_val(s@, i as int) == Some((val_model(ClaimValue::Obj(ms)),
                            j as int)));
                    }
                    Some((ClaimValue::Obj(ms), j))
                },
                None => None,
            }
        }
    } else if c == '-' || ('0' <= c && c <= '9') {
        match parse_i64_exec(s, i) {
            Some((n, j)) => {
                proof {
                    assert(sp_parse_val(s@, i as int) == Some((val_model(ClaimValue::Int(n)),
                        j as int)));
                }
                Some((ClaimValue::Int(n), j))
            },
            None => None,
        }
    } else {
        None
    }
}

/// Parse the elements of a non-empty array, through the closing bracket.
fn parse_items_exec(s: &Vec<char>, i: usize) -> (r: Option<(Vec<ClaimValue>, usize)>)
    ensures
        match r {
            Some(p) => sp_parse_items(s@, i as int) == Some((vals_model(p.0@), p.1 as int)) && i
                < p.1 <= s@.len(),
            None => sp_parse_items(s@, i as int) is None,
        },
    decreases s@.len() - i, 2int,
{
    if i >= s.len() {
        return None;
    }
    match parse_val_exec(s, i) {
        Some((v, j)) => {
            if j < s.len() && s[j] == ']' {
                let mut es: Vec<ClaimValue> = Vec::new();
                es.push(v);
                proof {
                    assert(vals_model(es@) =~= seq![val_model(v)]);
                }
                Some((es, j + 1))
            } else if j < s.len() && s[j] == ',' {
                match parse_items_exec(s, j + 1) {
                    Some((mut es, k)) => {
                        let ghost tail = es@;
                        es.insert(0, v);
                        proof {
                            assert(vals_model(es@) =~= seq![val_model(v)] + vals_model(tail));
                        }
                        Some((es, k))
                    },
                    None => None,
                }
            } else {
                None
            }
        },
        None => None,
    }
}

/// Parse the members of a non-empty object, through the closing brace.
fn parse_members_exec(s: &Vec<char>, i: usize) -> (r: Option<(Vec<(String, ClaimValue)>, usize)>)
    ensures
        match r {
            Some(p) => sp_parse_members(s@, i as int) == Some((extra_model(p.0@), p.1 as int)) && i
                < p.1 <= s@.len(),
            None => sp_parse_members(s@, i as int) is None,
        },
    decreases s@.len() - i, 2int,
{
    if i >= s.len() {
        return None;
    }
    match parse_string_exec(s, i) {
        Some((key, j)) => {
            if j < s.len() && s[j] == ':' {
                match parse_val_exec(s, j + 1) {
                    Some((v, m)) => {
                        let ks = string_of(&key);
                        if m < s.len() && s[m] == '}' {
                            let mut ms: Vec<(String, ClaimValue)> = Vec::new();
                            ms.push((ks, v));
                            proof {
                                assert(extra_model(ms@) =~= seq![(key@, val_model(v))]);
                            }
                            Some((ms, m + 1))
                        } else if m < s.len() && s[m] == ',' {
                            match parse_members_exec(s, m + 1) {
                                Some((mut ms, e)) => {
                                    let ghost tail = ms@;
                                    ms.insert(0, (ks, v));
                                    proof {
                                        assert(extra_model(ms@) =~= seq![(key@, val_model(v))]
                                            + extra_model(tail));
                                    }
                                    Some((ms, e))
                                },
                                None => None,
                            }
                        } else {
                            None
                        }
                    },
                    None => None,
                }
            } else {
                None
            }
        },
        None => None,
    }
}

/// Parse the extension members of a payload, through the closing brace.
fn parse_extras_exec(s: &Vec<char>, i: usize) -> (r: Option<(Vec<(String, ClaimValue)>, usize)>)
    ensures
        match r {
            Some(p) => sp_parse_extras(s@, i as int) == Some((extra_model(p.0@), p.1 as int)) && i
                < p.1 <= s@.len(),
            None => sp_parse_extras(s@, i as int) is None,
        },
    decreases s@.len() - i, 2int,
{
    if i >= s.len() {
        return None;
    }
    if s[i] == '}' {
        let ms: Vec<(String, ClaimValue)> = Vec::new();
        proof {
            assert(extra_model(ms@) =~= Seq::<(Seq<char>, JsonVal)>::empty());
        }
        return Some((ms, i + 1));
    }
    if s[i] != ',' {
        return None;
    }
    match parse_string_exec(s, i + 1) {
        Some((key, j)) => {
            if j < s.len() && s[j] == ':' {
                match parse_val_exec(s, j + 1) {
                    Some((v, m)) => {
                        let ks = string_of(&key);
                        match parse_extras_exec(s, m) {
                            Some((mut ms, e)) => {
                                let ghost tail = ms@;
                                ms.insert(0, (ks, v));
                                proof {
                                    assert(extra_model(ms@) =~= seq![(key@, val_model(v))]
                                        + extra_model(tail));
                                }
                                Some((ms, e))
                            },
                            None => None,
                        }
                    },
                    None => None,
                }
            } else {
                None
            }
        },
        None => None,
    }
}

/// Parse the optional subject member right after the opening brace.
fn parse_id_part_exec(s: &Vec<char>) -> (r: Option<(Option<i128>, usize)>)
    requires
        s@.len() >= 1,
    ensures
        match r {
            Some(p) => sp_parse_id_part(s@) == Some(
                (
                    match p.0 {
                        Some(n) => Some(n as int),
                        None => None,
                    },
                    p.1 as int,
                ),
            ) && 1 <= p.1 <= s@.len(),
            None => sp_parse_id_part(s@) is None,
        },
{
    let kid = chars_of("\"id\":");
    let knull = chars_of("null");
    proof {
        reveal_strlit("\"id\":");
        reveal_strlit("null");
        assert(kid@ =~= key_id());
        assert(knull@ =~= lit_null());
    }
    if match_lit_exec(s, 1, &kid) {
        if match_lit_exec(s, 1 + kid.len(), &knull) {
            let j = 1 + kid.len() + 4;
            if j < s.len() && s[j] == ',' {
                Some((None, j + 1))
            } else {
                None
            }
        } else {
            match parse_i128_exec(s, 1 + kid.len()) {
                Some((n, j)) => {
                    if j < s.len() && s[j] == ',' {
                        Some((Some(n), j + 1))
                    } else {
                        None
                    }
                },
                None => None,
            }
        }
    } else {
        Some((None, 1))
    }
}

/// Parse an entire canonical payload into a claims record.
#[verifier::rlimit(100)]
pub fn parse_claims_exec(s: &Vec<char>) -> (r: Option<Claims>)
    ensures
        match r {
            Some(c) => sp_parse_claims(s@) == Some(claims_model(c)),
            None => sp_parse_claims(s@) is None,
        },
{
    if s.len() < 1 {
        return None;
    }
    if s[0] != '{' {
        return None;
    }
    let kexp = chars_of("\"exp\":");
    let kttl = chars_of("\"ttl\":");
    let ktok = chars_of("\"token\":");
    let kjti = chars_of("\"jti\":");
    proof {
        reveal_strlit("\"exp\":");
        reveal_strlit("\"ttl\":");
        reveal_strlit("\"token\":");
        reveal_strlit("\"jti\":");
        assert(kexp@ =~= key_exp());
        assert(kttl@ =~= key_ttl());
        assert(ktok@ =~= key_token());
        assert(kjti@ =~= key_jti());
    }
    let id_and_pos: (Option<i128>, usize) = match parse_id_part_exec(s) {
        Some(p) => p,
        None => {
            return None;
        },
    };
    let idv = id_and_pos.0;
    let i1 = id_and_pos.1;
    proof {
        assert(sp_parse_id_part(s@) == Some(
            (
                match idv {
                    Some(n) => Some(n as int),
                    None => None,
                },
                i1 as int,
            ),
        ));
    }
    // the expiry member
    if !match_lit_exec(s, i1, &kexp) {
        return None;
    }
    let (expv, j1) = match parse_u64_exec(s, i1 + kexp.len()) {
        Some(p) => p,
        None => {
            return None;
        },
    };
    if !(j1 < s.len() && s[j1] == ',') {
        return None;
    }
    // the ttl member
    if !match_lit_exec(s, j1 + 1, &kttl) {
        return None;
    }
    let (ttlv, j2) = match parse_u64_exec(s, j1 + 1 + kttl.len()) {
        Some(p) => p,
        None => {
            return None;
        },
    };
    if !(j2 < s.len() && s[j2] == ',') {
        return None;
    }
    // the token-type member
    if !match_lit_exec(s, j2 + 1, &ktok) {
        return None;
    }
    let (tok, j3) = match parse_string_exec(s, j2 + 1 + ktok.len()) {
        Some(p) => p,
        None => {
            return None;
        },
    };
    if !(j3 < s.len() && s[j3] == ',') {
        return None;
    }
    // the jti member
    if !match_lit_exec(s, j3 + 1, &kjti) {
        return None;
    }
    let (jt, j4) = match parse_string_exec(s, j3 + 1 + kjti.len()) {
        Some(p) => p,
        None => {
            return None;
        },
    };
    // the extension members
    let (extra, e) = match parse_extras_exec(s, j4) {
        Some(p) => p,
        None => {
            return None;
        },
    };
    if e != s.len() {
        return None;
    }
    let c = Claims {
        id: idv,
        exp: expv,
        ttl: ttlv,
        token: string_of(&tok),
        jti: string_of(&jt),
        extra,
    };
    proof {
        assert(claims_model(c) =~= ClaimsModel {
            id: match idv {
                Some(n) => Some(n as int),
                None => None,
            },
            exp: expv as int,
            ttl: ttlv as int,
            token: tok@,
            jti: jt@,
            extra: extra_model(c.extra@),
        });
    }
    Some(c)
}

} // verus!
