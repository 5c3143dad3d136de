use vstd::prelude::*;
use crate::claims::{claims_model, extra_model, val_model, ClaimValue, Claims};
use crate::jsonser::{dec_u, digit_char, esc_char, esc_str, hex_char, key_exp, key_id, key_jti,
    key_token, key_ttl, ser_claims, ser_extras, ser_id, ser_int, ser_items, ser_members,
    ser_string, ser_val, tail_exp, tail_jti};
use crate::outside::chars_of;
use crate::textutil::push_all;

verus! {

fn digit_char_exec(d: u64) -> (r: char)
    requires
        d <= 9,
    ensures
        r == digit_char(d as int),
{
    if d == 0 {
        '0'
    } else if d == 1 {
        '1'
    } else if d == 2 {
        '2'
    } else if d == 3 {
        '3'
    } else if d == 4 {
        '4'
    } else if d == 5 {
        '5'
    } else if d == 6 {
        '6'
    } else if d == 7 {
        '7'
    } else if d == 8 {
        '8'
    } else {
        '9'
    }
}

fn hex_char_exec(d: u32) -> (r: char)
    requires
        d <= 15,
    ensures
        r == hex_char(d as int),
{
    if d <= 9 {
        digit_char_exec(d as u64)
    } else if d == 10 {
        'a'
    } else if d == 11 {
        'b'
    } else if d == 12 {
        'c'
    } else if d == 13 {
        'd'
    } else if d == 14 {
        'e'
    } else {
        'f'
    }
}

/// Write the canonical decimal form of `n`.
fn write_u128(out: &mut Vec<char>, n: u128)
    ensures
        final(out)@ == old(out)@ + dec_u(n as int),
    decreases n,
{
    if n <= 9 {
        out.push(digit_char_exec(n as u64));
    } else {
        write_u128(out, n / 10);
        out.push(digit_char_exec((n % 10) as u64));
        proof {
            assert(final(out)@ =~= old(out)@ + (dec_u(n as int / 10) + seq![digit_char(
                n as int % 10,
            )]));
        }
    }
}

fn write_u64(out: &mut Vec<char>, n: u64)
    ensures
        final(out)@ == old(out)@ + dec_u(n as int),
{
    write_u128(out, n as u128);
}

/// Write the canonical form of a signed subject identifier.
fn write_i128(out: &mut Vec<char>, n: i128)
    ensures
        final(out)@ == old(out)@ + ser_int(n as int),
{
    if n < 0 {
        out.push('-');
        let mag: u128 = ((-(n + 1)) as u128) + 1;
        write_u128(out, mag);
        proof {
            assert(mag as int == -(n as int));
            assert(final(out)@ =~= old(out)@ + (seq!['-'] + dec_u(-(n as int))));
        }
    } else {
        write_u128(out, n as u128);
    }
}

fn write_i64(out: &mut Vec<char>, n: i64)
    ensures
        final(out)@ == old(out)@ + ser_int(n as int),
{
    write_i128(out, n as i128);
}

/// Appending a character to a string appends its escape to the escaped
/// form.
proof fn lemma_esc_str_snoc(p: Seq<char>, c: char)
    ensures
        esc_str(p.push(c)) == esc_str(p) + esc_char(c),
    decreases p.len(),
{
    if p.len() == 0 {
        assert(p.push(c)[0] == c);
        assert(p.push(c).skip(1) =~= Seq::<char>::empty());
        assert(esc_str(p.push(c).skip(1)) == Seq::<char>::empty());
        assert(esc_str(p.push(c)) =~= esc_str(p) + esc_char(c));
    } else {
        assert(p.push(c)[0] == p[0]);
        assert(p.push(c).skip(1) =~= p.skip(1).push(c));
        lemma_esc_str_snoc(p.skip(1), c);
        assert(esc_char(p[0]) + (esc_str(p.skip(1)) + esc_char(c)) =~= (esc_char(p[0]) + esc_str(
            p.skip(1),
        )) + esc_char(c));
    }
}

/// Write one character's escape.
fn write_esc_char(out: &mut Vec<char>, c: char)
    ensures
        final(out)@ == old(out)@ + esc_char(c),
{
    if c == '"' {
        out.push('\\');
        out.push('"');
        proof {
            assert(final(out)@ =~= old(out)@ + esc_char(c));
        }
    } else if c == '\\' {
        out.push('\\');
        out.push('\\');
        proof {
            assert(final(out)@ =~= old(out)@ + esc_char(c));
        }
    } else if (c as u32) < 32 {
        out.push('\\');
        out.push('u');
        out.push('0');
        out.push('0');
        out.push(hex_char_exec((c as u32) / 16));
        out.push(hex_char_exec((c as u32) % 16));
        proof {
            assert(((c as u32) / 16) as int == (c as u32) as int / 16);
            assert(((c as u32) % 16) as int == (c as u32) as int % 16);
            assert(final(out)@ =~= old(out)@ + esc_char(c));
        }
    } else {
        out.push(c);
        proof {
            assert(final(out)@ =~= old(out)@ + esc_char(c));
        }
    }
}

/// Write the quoted, escaped form of a string.
fn write_string(out: &mut Vec<char>, s: &String)
    ensures
        final(out)@ == old(out)@ + ser_string(s@),
{
    let cs = chars_of(s.as_str());
    out.push('"');
    let mut i: usize = 0;
    while i < cs.len()
        invariant
            i <= cs@.len(),
            cs@ == s@,
            out@ == old(out)@ + seq!['"'] + esc_str(s@.subrange(0, i as int)),
        decreases cs@.len() - i,
    {
        write_esc_char(out, cs[i]);
        proof {
            assert(s@.subrange(0, i as int).push(s@[i as int]) =~= s@.subrange(0, i as int + 1));
            lemma_esc_str_snoc(s@.subrange(0, i as int), s@[i as int]);
        }
        i += 1;
    }
    out.push('"');
    proof {
        assert(s@.subrange(0, s@.len() as int) =~= s@);
        assert(final(out)@ =~= old(out)@ + ser_string(s@));
    }
}

/// Write the canonical form of a value.
pub fn write_val(out: &mut Vec<char>, v: &ClaimValue)
    ensures
        final(out)@ == old(out)@ + ser_val(val_model(*v)),
    decreases v, 0int,
{
    match v {
        ClaimValue::Null => {
            out.push('n');
            out.push('u');
            out.push('l');
            out.push('l');
            proof {
                assert(final(out)@ =~= old(out)@ + ser_val(val_model(*v)));
            }
        },
        ClaimValue::Bool(b) => {
            if *b {
                out.push('t');
                out.push('r');
                out.push('u');
                out.push('e');
            } else {
                out.push('f');
                out.push('a');
                out.push('l');
                out.push('s');
                out.push('e');
            }
            proof {
                assert(final(out)@ =~= old(out)@ + ser_val(val_model(*v)));
            }
        },
        ClaimValue::Int(n) => {
            write_i64(out, *n);
        },
        ClaimValue::Str(s) => {
            write_string(out, s);
        },
        ClaimValue::Arr(es) => {
            out.push('[');
            if es.len() == 0 {
                out.push(']');
                proof {
                    assert(final(out)@ =~= old(out)@ + ser_val(val_model(*v)));
                }
            } else {
                write_items(out, es, 0);
                out.push(']');
                proof {
                    let m = val_model(*v)->Arr_0;
                    assert(final(out)@ =~= old(out)@ + (seq!['['] + ser_items(m, 0) + seq![']']));
                }
            }
        },
        ClaimValue::Obj(ms) => {
            out.push('{');
            if ms.len() == 0 {
                out.push('}');
                proof {
                    assert(final(out)@ =~= old(out)@ + ser_val(val_model(*v)));
                }
            } else {
                write_members(out, ms, 0);
                out.push('}');
                proof {
                    let m = val_model(*v)->Obj_0;
                    assert(final(out)@ =~= old(out)@ + (seq!['{'] + ser_members(m, 0) + seq!['}']));
                }
            }
        },
    }
}

/// Write array elements from `k` on, comma separated.
fn write_items(out: &mut Vec<char>, es: &Vec<ClaimValue>, k: usize)
    requires
        k < es@.len(),
    ensures
        final(out)@ == old(out)@ + ser_items(val_model(ClaimValue::Arr(*es))->Arr_0, k as int),
    decreases es, es@.len() - k,
{
    let ghost m = val_model(ClaimValue::Arr(*es))->Arr_0;
    write_val(out, &es[k]);
    proof {
        assert(m[k as int] == val_model(es@[k as int]));
    }
    if k == es.len() - 1 {
    } else {
        out.push(',');
        write_items(out, es, k + 1);
        proof {
            assert(final(out)@ =~= old(out)@ + (ser_val(m[k as int]) + (seq![','] + ser_items(
                m,
                k as int + 1,
            ))));
        }
    }
}

/// Write object members from `k` on, comma separated.
fn write_members(out: &mut Vec<char>, ms: &Vec<(String, ClaimValue)>, k: usize)
    requires
        k < ms@.len(),
    ensures
        final(out)@ == old(out)@ + ser_members(val_model(ClaimValue::Obj(*ms))->Obj_0, k as int),
    decreases ms, ms@.len() - k,
{
    let ghost m = val_model(ClaimValue::Obj(*ms))->Obj_0;
    proof {
        assert(m[k as int] == (ms@[k as int].0@, val_model(ms@[k as int].1)));
    }
    write_string(out, &ms[k].0);
    out.push(':');
    write_val(out, &ms[k].1);
    if k == ms.len() - 1 {
        proof {
            assert(final(out)@ =~= old(out)@ + (ser_string(m[k as int].0) + (seq![':'] + ser_val(
                m[k as int].1,
            ))));
        }
    } else {
        out.push(',');
        write_members(out, ms, k + 1);
        proof {
            assert(final(out)@ =~= old(out)@ + (ser_string(m[k as int].0) + (seq![':'] + (ser_val(
                m[k as int].1,
            ) + (seq![','] + ser_members(m, k as int + 1))))));
        }
    }
}

/// Write extension members from `k` on, each led by a comma.
fn write_extras(out: &mut Vec<char>, ms: &Vec<(String, ClaimValue)>, k: usize)
    requires
        k <= ms@.len(),
    ensures
        final(out)@ == old(out)@ + ser_extras(extra_model(ms@), k as int),
    decreases ms, ms@.len() - k,
{
    let ghost m = extra_model(ms@);
    if k < ms.len() {
        proof {
            assert(m[k as int] == (ms@[k as int].0@, val_model(ms@[k as int].1)));
        }
        out.push(',');
        write_string(out, &ms[k].0);
        out.push(':');
        write_val(out, &ms[k].1);
        write_extras(out, ms, k + 1);
        proof {
            assert(final(out)@ =~= old(out)@ + (seq![','] + (ser_string(m[k as int].0) + (seq![':']
                + (ser_val(m[k as int].1) + ser_extras(m, k as int + 1))))));
        }
    } else {
        proof {
            assert(final(out)@ =~= old(out)@ + ser_extras(m, k as int));
        }
    }
}

/// Write the canonical payload text of a claims record.
#[verifier::rlimit(100)]
pub fn write_claims(c: &Claims) -> (r: Vec<char>)
    ensures
        r@ == ser_claims(claims_model(*c)),
{
    let ghost cm = claims_model(*c);
    let mut out: Vec<char> = Vec::new();
    out.push('{');
    match &c.id {
        Some(idv) => {
            push_all(&mut out, &chars_of("\"id\":"));
            write_i128(&mut out, *idv);
            out.push(',');
            proof {
                reveal_strlit("\"id\":");
                assert("\"id\":"@ =~= key_id());
                assert(out@ =~= seq!['{'] + ser_id(cm.id));
            }
        },
        None => {
            proof {
                assert(out@ =~= seq!['{'] + ser_id(cm.id));
            }
        },
    }
    push_all(&mut out, &chars_of("\"exp\":"));
    write_u64(&mut out, c.exp);
    out.push(',');
    push_all(&mut out, &chars_of("\"ttl\":"));
    write_u64(&mut out, c.ttl);
    out.push(',');
    push_all(&mut out, &chars_of("\"token\":"));
    write_string(&mut out, &c.token);
    out.push(',');
    push_all(&mut out, &chars_of("\"jti\":"));
    write_string(&mut out, &c.jti);
    write_extras(&mut out, &c.extra, 0);
    out.push('}');
    proof {
        reveal_strlit("\"exp\":");
        reveal_strlit("\"ttl\":");
        reveal_strlit("\"token\":");
        reveal_strlit("\"jti\":");
        assert("\"exp\":"@ =~= key_exp());
        assert("\"ttl\":"@ =~= key_ttl());
        assert("\"token\":"@ =~= key_token());
        assert("\"jti\":"@ =~= key_jti());
        assert(tail_jti(cm) =~= key_jti() + (ser_string(cm.jti) + (ser_extras(cm.extra, 0)
            + seq!['}'])));
        assert(out@ =~= seq!['{'] + (ser_id(cm.id) + tail_exp(cm)));
    }
    out
}

} // verus!
