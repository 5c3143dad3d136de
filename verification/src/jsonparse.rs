use vstd::prelude::*;
use crate::claims::{ClaimsModel, JsonVal};
use crate::jsonser::{dval, hexval, is_digit, is_hex_lower, key_exp, key_id, key_jti, key_token,
    key_ttl};

verus! {

/// First index at or after `i` that does not hold a decimal digit.
pub open spec fn digits_end(s: Seq<char>, i: int) -> int
    decreases s.len() - i, 0int,
{
    if 0 <= i && i < s.len() && is_digit(s[i]) {
        digits_end(s, i + 1)
    } else {
        i
    }
}

/// Numeric value of a digit string, read left to right.
pub open spec fn val_fl(ds: Seq<char>) -> int
    decreases ds.len(),
{
    if ds.len() == 0 {
        0
    } else {
        val_fl(ds.drop_last()) * 10 + dval(ds.last())
    }
}

/// Parse a canonical unsigned decimal number at `i`, no larger than `hi`:
/// the longest run of digits, rejecting empty runs, leading zeros, and
/// values above the bound. Returns the value and the index after it.
pub open spec fn sp_parse_uint_b(s: Seq<char>, i: int, hi: int) -> Option<(int, int)> {
    if !(0 <= i && i < s.len()) {
        None
    } else {
        let e = digits_end(s, i);
        if e == i {
            None
        } else if s[i] == '0' && e > i + 1 {
            None
        } else {
            let v = val_fl(s.subrange(i, e));
            if v > hi {
                None
            } else {
                Some((v, e))
            }
        }
    }
}

/// Parse a canonical signed decimal number at `i`, within `[lo, hi]`.
/// A leading minus must be followed by a non-zero canonical number.
pub open spec fn sp_parse_int_b(s: Seq<char>, i: int, lo: int, hi: int) -> Option<(int, int)> {
    if 0 <= i && i < s.len() && s[i] == '-' {
        match sp_parse_uint_b(s, i + 1, -lo) {
            Some((v, e)) => if v == 0 {
                None
            } else {
                Some((-v, e))
            },
            None => None,
        }
    } else {
        sp_parse_uint_b(s, i, hi)
    }
}

pub open spec fn sp_parse_u64(s: Seq<char>, i: int) -> Option<(int, int)> {
    sp_parse_uint_b(s, i, u64::MAX as int)
}

/// Parse the body of a quoted string starting just after the opening
/// quote: plain characters, backslash escapes for quote and backslash,
/// and lower-case `\u00xx` escapes for control characters. Returns the
/// unescaped characters and the index after the closing quote.
pub open spec fn sp_parse_strbody(s: Seq<char>, i: int) -> Option<(Seq<char>, int)>
    decreases s.len() - i, 0int,
{
    if !(0 <= i && i < s.len()) {
        None
    } else if s[i] == '"' {
        Some((Seq::empty(), i + 1))
    } else if s[i] == '\\' {
        if i + 1 >= s.len() {
            None
        } else if s[i + 1] == '"' || s[i + 1] == '\\' {
            match sp_parse_strbody(s, i + 2) {
                Some((cs, j)) => Some((seq![s[i + 1]] + cs, j)),
                None => None,
            }
        } else if s[i + 1] == 'b' || s[i + 1] == 't' || s[i + 1] == 'n' || s[i + 1] == 'f' || s[i
            + 1] == 'r' || s[i + 1] == '/' {
            match sp_parse_strbody(s, i + 2) {
                Some((cs, j)) => Some((seq![short_escape_char(s[i + 1])] + cs, j)),
                None => None,
            }
        } else if s[i + 1] == 'u' {
            if i + 6 > s.len() {
                None
            } else if s[i + 2] == '0' && s[i + 3] == '0' && is_hex_lower(s[i + 4]) && is_hex_lower(
                s[i + 5],
            ) && hexval(s[i + 4]) * 16 + hexval(s[i + 5]) < 32 {
                match sp_parse_strbody(s, i + 6) {
                    Some((cs, j)) => Some(
                        (seq![((hexval(s[i + 4]) * 16 + hexval(s[i + 5])) as u32) as char] + cs, j),
                    ),
                    None => None,
                }
            } else {
                None
            }
        } else {
            None
        }
    } else if (s[i] as u32) < 32 {
        None
    } else {
        match sp_parse_strbody(s, i + 1) {
            Some((cs, j)) => Some((seq![s[i]] + cs, j)),
            None => None,
        }
    }
}

/// The character a short escape stands for.
pub open spec fn short_escape_char(c: char) -> char {
    if c == 'b' {
        (8u8) as char
    } else if c == 't' {
        '\t'
    } else if c == 'n' {
        '\n'
    } else if c == 'f' {
        (12u8) as char
    } else if c == 'r' {
        '\r'
    } else {
        '/'
    }
}

/// Parse a quoted string at `i`.
pub open spec fn sp_parse_string(s: Seq<char>, i: int) -> Option<(Seq<char>, int)>
    decreases s.len() - i, 1int,
{
    if 0 <= i && i < s.len() && s[i] == '"' {
        sp_parse_strbody(s, i + 1)
    } else {
        None
    }
}

/// Whether `lit` occurs in `s` starting at `i`.
pub open spec fn match_lit(s: Seq<char>, i: int, lit: Seq<char>) -> bool {
    0 <= i && i + lit.len() <= s.len() && s.subrange(i, i + lit.len()) == lit
}

pub open spec fn lit_null() -> Seq<char> {
    seq!['n', 'u', 'l', 'l']
}

pub open spec fn lit_true() -> Seq<char> {
    seq!['t', 'r', 'u', 'e']
}

pub open spec fn lit_false() -> Seq<char> {
    seq!['f', 'a', 'l', 's', 'e']
}

/// Parse a value at `i`: one of the literals, a number within the signed
/// 64-bit range, a string, an array or an object.
pub open spec fn sp_parse_val(s: Seq<char>, i: int) -> Option<(JsonVal, int)>
    decreases s.len() - i, 1int,
{
    if !(0 <= i && i < s.len()) {
        None
    } else if s[i] == 'n' {
        if match_lit(s, i, lit_null()) {
            Some((JsonVal::Null, i + 4))
        } else {
            None
        }
    } else if s[i] == 't' {
        if match_lit(s, i, lit_true()) {
            Some((JsonVal::Bool(true), i + 4))
        } else {
            None
        }
    } else if s[i] == 'f' {
        if match_lit(s, i, lit_false()) {
            Some((JsonVal::Bool(false), i + 5))
        } else {
            None
        }
    } else if s[i] == '"' {
        match sp_parse_strbody(s, i + 1) {
            Some((cs, j)) => Some((JsonVal::Strv(cs), j)),
            None => None,
        }
    } else if s[i] == '[' {
        if i + 1 < s.len() && s[i + 1] == ']' {
            Some((JsonVal::Arr(Seq::empty()), i + 2))
        } else {
            match sp_parse_items(s, i + 1) {
                Some((es, j)) => Some((JsonVal::Arr(es), j)),
                None => None,
            }
        }
    } else if s[i] == '{' {
        if i + 1 < s.len() && s[i + 1] == '}' {
            Some((JsonVal::Obj(Seq::empty()), i + 2))
        } else {
            match sp_parse_members(s, i + 1) {
                Some((ms, j)) => Some((JsonVal::Obj(ms), j)),
                None => None,
            }
        }
    } else if s[i] == '-' || is_digit(s[i]) {
        match sp_parse_int_b(s, i, i64::MIN as int, i64::MAX as int) {
            Some((n, j)) => Some((JsonVal::Int(n), j)),
            None => None,
        }
    } else {
        None
    }
}

/// Parse the elements of a non-empty array starting after `[`, up to and
/// including the closing `]`.
pub open spec fn sp_parse_items(s: Seq<char>, i: int) -> Option<(Seq<JsonVal>, int)>
    decreases s.len() - i, 2int,
{
    if !(0 <= i && i < s.len()) {
        None
    } else {
        match sp_parse_val(s, i) {
            Some((v, j)) => if !(i < j && j <= s.len()) {
                None
            } else if j < s.len() && s[j] == ']' {
                Some((seq![v], j + 1))
            } else if j < s.len() && s[j] == ',' {
                match sp_parse_items(s, j + 1) {
                    Some((es, k)) => Some((seq![v] + es, k)),
                    None => None,
                }
            } else {
                None
            },
            None => None,
        }
    }
}

/// Parse the members of a non-empty object starting after `{`, up to and
/// including the closing `}`.
pub open spec fn sp_parse_members(s: Seq<char>, i: int) -> Option<
    (Seq<(Seq<char>, JsonVal)>, int),
>
    decreases s.len() - i, 2int,
{
    if !(0 <= i && i < s.len()) {
        None
    } else {
        match sp_parse_string(s, i) {
            Some((key, j)) => if !(i < j && j < s.len() && s[j] == ':') {
                None
            } else {
                match sp_parse_val(s, j + 1) {
                    Some((v, m)) => if !(j + 1 <= m && m <= s.len()) {
                        None
                    } else if m < s.len() && s[m] == '}' {
                        Some((seq![(key, v)], m + 1))
                    } else if m < s.len() && s[m] == ',' {
                        match sp_parse_members(s, m + 1) {
                            Some((ms, e)) => Some((seq![(key, v)] + ms, e)),
                            None => None,
                        }
                    } else {
                        None
                    },
                    None => None,
                }
            },
            None => None,
        }
    }
}

/// Parse the extension members of a payload: a possibly empty run of
/// comma-led `"key":value` pairs, ended by the closing `}` of the payload.
pub open spec fn sp_parse_extras(s: Seq<char>, i: int) -> Option<
    (Seq<(Seq<char>, JsonVal)>, int),
>
    decreases s.len() - i, 2int,
{
    if !(0 <= i && i < s.len()) {
        None
    } else if s[i] == '}' {
        Some((Seq::empty(), i + 1))
    } else if s[i] == ',' {
        match sp_parse_string(s, i + 1) {
            Some((key, j)) => if !(i + 1 < j && j < s.len() && s[j] == ':') {
                None
            } else {
                match sp_parse_val(s, j + 1) {
                    Some((v, m)) => if !(j + 1 <= m && m <= s.len()) {
                        None
                    } else {
                        match sp_parse_extras(s, m) {
                            Some((rest, e)) => Some((seq![(key, v)] + rest, e)),
                            None => None,
                        }
                    },
                    None => None,
                }
            },
            None => None,
        }
    } else {
        None
    }
}

/// Parse the optional subject member right after the opening `{`.
/// Returns the subject, if present, and the index where the expiry
/// member must start.
pub open spec fn sp_parse_id_part(s: Seq<char>) -> Option<(Option<int>, int)> {
    if match_lit(s, 1, key_id()) {
        if match_lit(s, 1 + key_id().len() as int, lit_null()) {
            let j = 1 + key_id().len() as int + 4;
            if 0 <= j && j < s.len() && s[j] == ',' {
                Some((None, j + 1))
            } else {
                None
            }
        } else {
            match sp_parse_int_b(
                s,
                1 + key_id().len() as int,
                i128::MIN as int,
                i128::MAX as int,
            ) {
                Some((n, j)) => if 0 <= j && j < s.len() && s[j] == ',' {
                    Some((Some(n), j + 1))
                } else {
                    None
                },
                None => None,
            }
        }
    } else {
        Some((None, 1))
    }
}

pub open spec fn sp_after_key_u64(s: Seq<char>, i: int, key: Seq<char>) -> Option<(int, int)> {
    if match_lit(s, i, key) {
        sp_parse_u64(s, i + key.len())
    } else {
        None
    }
}

pub open spec fn sp_after_key_string(s: Seq<char>, i: int, key: Seq<char>) -> Option<
    (Seq<char>, int),
> {
    if match_lit(s, i, key) {
        sp_parse_string(s, i + key.len())
    } else {
        None
    }
}

/// Parse the members from the expiry member on, given the subject
/// already read, consuming the whole of `s`.
pub open spec fn sp_parse_rest(s: Seq<char>, i1: int, id: Option<int>) -> Option<ClaimsModel> {
    match sp_after_key_u64(s, i1, key_exp()) {
        None => None,
        Some((expv, j1)) => if !(0 <= j1 && j1 < s.len() && s[j1] == ',') {
            None
        } else {
            match sp_after_key_u64(s, j1 + 1, key_ttl()) {
                None => None,
                Some((ttlv, j2)) => if !(0 <= j2 && j2 < s.len() && s[j2] == ',') {
                    None
                } else {
                    match sp_after_key_string(s, j2 + 1, key_token()) {
                        None => None,
                        Some((tok, j3)) => if !(0 <= j3 && j3 < s.len() && s[j3] == ',') {
                            None
                        } else {
                            match sp_after_key_string(s, j3 + 1, key_jti()) {
                                None => None,
                                Some((jt, j4)) => match sp_parse_extras(s, j4) {
                                    None => None,
                                    Some((ex, e)) => if e == s.len() {
                                        Some(
                                            ClaimsModel {
                                                id,
                                                exp: expv,
                                                ttl: ttlv,
                                                token: tok,
                                                jti: jt,
                                                extra: ex,
                                            },
                                        )
                                    } else {
                                        None
                                    },
                                },
                            }
                        },
                    }
                },
            }
        },
    }
}

/// Parse an entire canonical payload: the fixed members in their fixed
/// order (subject optional), then the extension members, consuming the
/// whole of `s`.
pub open spec fn sp_parse_claims(s: Seq<char>) -> Option<ClaimsModel> {
    if s.len() < 1 || s[0] != '{' {
        None
    } else {
        match sp_parse_id_part(s) {
            None => None,
            Some((id, i1)) => sp_parse_rest(s, i1, id),
        }
    }
}

} // verus!
