use vstd::prelude::*;
use crate::claims::{ClaimsModel, JsonVal};

verus! {

pub open spec fn is_digit(c: char) -> bool {
    '0' <= c && c <= '9'
}

pub open spec fn dval(c: char) -> int {
    (c as u32) - ('0' as u32)
}

pub open spec fn digit_char(d: int) -> char {
    if d == 0 {
        '0'
    } else if d == 1 {
        '1'
    } else if d == 2 {
        '2'
    } else if d == 3 {
        '3'
    } else if d == 4 {
        '4'
    } else if d == 5 {
        '5'
    } else if d == 6 {
        '6'
    } else if d == 7 {
        '7'
    } else if d == 8 {
        '8'
    } else {
        '9'
    }
}

pub open spec fn is_hex_lower(c: char) -> bool {
    is_digit(c) || ('a' <= c && c <= 'f')
}

pub open spec fn hex_char(d: int) -> char {
    if d <= 9 {
        digit_char(d)
    } else if d == 10 {
        'a'
    } else if d == 11 {
        'b'
    } else if d == 12 {
        'c'
    } else if d == 13 {
        'd'
    } else if d == 14 {
        'e'
    } else {
        'f'
    }
}

pub open spec fn hexval(c: char) -> int {
    if is_digit(c) {
        dval(c)
    } else {
        (c as u32) - ('a' as u32) + 10
    }
}

/// Decimal digits of a non-negative integer, most significant first.
pub open spec fn dec_u(n: int) -> Seq<char>
    decreases n,
{
    if n <= 9 {
        seq![digit_char(n)]
    } else {
        dec_u(n / 10) + seq![digit_char(n % 10)]
    }
}

/// Canonical textual form of an integer.
pub open spec fn ser_int(n: int) -> Seq<char> {
    if n < 0 {
        seq!['-'] + dec_u(-n)
    } else {
        dec_u(n)
    }
}

/// The escape sequence a character becomes inside a quoted string:
/// quote and backslash get a backslash escape, control characters get a
/// four-digit hexadecimal escape, everything else stands for itself.
pub open spec fn esc_char(c: char) -> Seq<char> {
    if c == '"' {
        seq!['\\', '"']
    } else if c == '\\' {
        seq!['\\', '\\']
    } else if (c as u32) < 32 {
        seq!['\\', 'u', '0', '0', hex_char((c as u32) as int / 16), hex_char((c as u32) as int % 16)]
    } else {
        seq![c]
    }
}

pub open spec fn esc_str(s: Seq<char>) -> Seq<char>
    decreases s.len(),
{
    if s.len() == 0 {
        Seq::empty()
    } else {
        esc_char(s[0]) + esc_str(s.skip(1))
    }
}

/// Canonical textual form of a quoted string.
pub open spec fn ser_string(s: Seq<char>) -> Seq<char> {
    seq!['"'] + (esc_str(s) + seq!['"'])
}

/// Canonical textual form of a value.
pub open spec fn ser_val(v: JsonVal) -> Seq<char>
    decreases v, 0int,
{
    match v {
        JsonVal::Null => seq!['n', 'u', 'l', 'l'],
        JsonVal::Bool(b) => if b {
            seq!['t', 'r', 'u', 'e']
        } else {
            seq!['f', 'a', 'l', 's', 'e']
        },
        JsonVal::Int(n) => ser_int(n),
        JsonVal::Strv(s) => ser_string(s),
        JsonVal::Arr(es) => if es.len() == 0 {
            seq!['[', ']']
        } else {
            seq!['['] + ser_items(es, 0) + seq![']']
        },
        JsonVal::Obj(ms) => if ms.len() == 0 {
            seq!['{', '}']
        } else {
            seq!['{'] + ser_members(ms, 0) + seq!['}']
        },
    }
}

/// Comma-separated array elements from index `k` on.
pub open spec fn ser_items(es: Seq<JsonVal>, k: int) -> Seq<char>
    decreases es, es.len() - k,
{
    if k < 0 || k >= es.len() {
        Seq::empty()
    } else if k == es.len() - 1 {
        ser_val(es[k])
    } else {
        ser_val(es[k]) + (seq![','] + ser_items(es, k + 1))
    }
}

/// Comma-separated object members from index `k` on.
pub open spec fn ser_members(ms: Seq<(Seq<char>, JsonVal)>, k: int) -> Seq<char>
    decreases ms, ms.len() - k,
{
    if k < 0 || k >= ms.len() {
        Seq::empty()
    } else if k == ms.len() - 1 {
        ser_string(ms[k].0) + (seq![':'] + ser_val(ms[k].1))
    } else {
        ser_string(ms[k].0) + (seq![':'] + (ser_val(ms[k].1) + (seq![','] + ser_members(ms, k + 1))))
    }
}

pub open spec fn key_id() -> Seq<char> {
    seq!['"', 'i', 'd', '"', ':']
}

pub open spec fn key_exp() -> Seq<char> {
    seq!['"', 'e', 'x', 'p', '"', ':']
}

pub open spec fn key_ttl() -> Seq<char> {
    seq!['"', 't', 't', 'l', '"', ':']
}

pub open spec fn key_token() -> Seq<char> {
    seq!['"', 't', 'o', 'k', 'e', 'n', '"', ':']
}

pub open spec fn key_jti() -> Seq<char> {
    seq!['"', 'j', 't', 'i', '"', ':']
}

/// The subject part of the payload: present only when a subject is bound.
pub open spec fn ser_id(id: Option<int>) -> Seq<char> {
    match id {
        Some(n) => key_id() + (ser_int(n) + seq![',']),
        None => Seq::empty(),
    }
}

/// Leading-comma extension members from index `k` on.
pub open spec fn ser_extras(ms: Seq<(Seq<char>, JsonVal)>, k: int) -> Seq<char>
    decreases ms, ms.len() - k,
{
    if k < 0 || k >= ms.len() {
        Seq::empty()
    } else {
        seq![','] + (ser_string(ms[k].0) + (seq![':'] + (ser_val(ms[k].1) + ser_extras(ms, k + 1))))
    }
}

/// The payload text from the jti member on.
pub open spec fn tail_jti(c: ClaimsModel) -> Seq<char> {
    key_jti() + (ser_string(c.jti) + (ser_extras(c.extra, 0) + seq!['}']))
}

/// The payload text from the token-type member on.
pub open spec fn tail_token(c: ClaimsModel) -> Seq<char> {
    key_token() + (ser_string(c.token) + (seq![','] + tail_jti(c)))
}

/// The payload text from the ttl member on.
pub open spec fn tail_ttl(c: ClaimsModel) -> Seq<char> {
    key_ttl() + (dec_u(c.ttl) + (seq![','] + tail_token(c)))
}

/// The payload text from the expiry member on.
pub open spec fn tail_exp(c: ClaimsModel) -> Seq<char> {
    key_exp() + (dec_u(c.exp) + (seq![','] + tail_ttl(c)))
}

/// The canonical payload text of a claims record: the fixed fields in a
/// fixed order, the extension members after them.
pub open spec fn ser_claims(c: ClaimsModel) -> Seq<char> {
    seq!['{'] + (ser_id(c.id) + tail_exp(c))
}

} // verus!
