use vstd::prelude::*;
use crate::algs::{lemma_wire_name_injective, spec_family, spec_wire_name, Alg, KeyFamily};
use crate::claims::{ClaimsModel, JsonVal};
use crate::format::{no_dot, spec_split3};
use crate::jsonparse::sp_parse_claims;
use crate::jsonser::ser_claims;

verus! {

/// What the base64url encoding of the text of a character string returns;
/// a pure function of the characters (the bytes encoded are their UTF-8
/// form).
pub uninterp spec fn b64url_of(s: Seq<char>) -> Seq<char>;

/// The unpadded base64url alphabet.
pub open spec fn is_b64url_char(c: char) -> bool {
    ('A' <= c && c <= 'Z') || ('a' <= c && c <= 'z') || ('0' <= c && c <= '9') || c == '-' || c
        == '_'
}

pub open spec fn b64url_text(s: Seq<char>) -> bool {
    forall|i: int| 0 <= i < s.len() ==> is_b64url_char(#[trigger] s[i])
}

pub proof fn lemma_b64url_text_no_dot(s: Seq<char>)
    requires
        b64url_text(s),
    ensures
        no_dot(s),
{
}

/// What `jsonwebtoken::crypto::verify` answers for a signature segment
/// against a signing input, under the key built from `secret` for the
/// algorithm named `alg_name` (false where the key cannot be built).
/// The verdict is a pure function of these arguments: the HMAC arm
/// recomputes the signature and compares, and the RSA/EC/Ed arms are
/// deterministic verification.
pub uninterp spec fn sig_ok_of(
    alg_name: Seq<char>,
    secret: Seq<char>,
    msg: Seq<char>,
    sig: Seq<char>,
) -> bool;

/// Whether `jsonwebtoken::EncodingKey::from_rsa_pem` accepts `secret`.
pub uninterp spec fn rsa_enc_pem_ok(secret: Seq<char>) -> bool;

/// Whether `jsonwebtoken::EncodingKey::from_ec_pem` accepts `secret`.
pub uninterp spec fn ec_enc_pem_ok(secret: Seq<char>) -> bool;

/// Whether `jsonwebtoken::EncodingKey::from_ed_pem` accepts `secret`.
pub uninterp spec fn ed_enc_pem_ok(secret: Seq<char>) -> bool;

/// Whether `jsonwebtoken::DecodingKey::from_rsa_pem` accepts `secret`.
pub uninterp spec fn rsa_dec_pem_ok(secret: Seq<char>) -> bool;

/// Whether `jsonwebtoken::DecodingKey::from_ec_pem` accepts `secret`.
pub uninterp spec fn ec_dec_pem_ok(secret: Seq<char>) -> bool;

/// Whether `jsonwebtoken::DecodingKey::from_ed_pem` accepts `secret`.
pub uninterp spec fn ed_dec_pem_ok(secret: Seq<char>) -> bool;

/// Whether the encoding key for `a` can be built from `secret`:
/// symmetric keys wrap any byte string, the others need a parsing PEM.
pub open spec fn enc_key_ok(a: Alg, secret: Seq<char>) -> bool {
    match spec_family(a) {
        KeyFamily::Symmetric => true,
        KeyFamily::RsaPem => rsa_enc_pem_ok(secret),
        KeyFamily::EcPem => ec_enc_pem_ok(secret),
        KeyFamily::EdPem => ed_enc_pem_ok(secret),
    }
}

/// Whether the decoding key for `a` can be built from `secret`.
pub open spec fn dec_key_ok(a: Alg, secret: Seq<char>) -> bool {
    match spec_family(a) {
        KeyFamily::Symmetric => true,
        KeyFamily::RsaPem => rsa_dec_pem_ok(secret),
        KeyFamily::EcPem => ec_dec_pem_ok(secret),
        KeyFamily::EdPem => ed_dec_pem_ok(secret),
    }
}

/// The canonical hyphenated form of a random token identifier: 36
/// characters, hyphens at the four fixed positions, lower-case
/// hexadecimal elsewhere.
pub open spec fn is_uuid_text(s: Seq<char>) -> bool {
    s.len() == 36 && forall|i: int| 0 <= i < 36 ==> if i == 8 || i == 13 || i == 18 || i == 23 {
        s[i] == '-'
    } else {
        crate::jsonser::is_hex_lower(#[trigger] s[i])
    }
}

/// `part` is the encoding of `p` and of nothing else: any other string
/// encodes to something different.
pub open spec fn b64_pin(part: Seq<char>, p: Seq<char>) -> bool {
    part == b64url_of(p) && (forall|q: Seq<char>| q != p ==> b64url_of(q) != part)
}

pub open spec fn hdr_pre() -> Seq<char> {
    seq!['{', '"', 'a', 'l', 'g', '"', ':', '"']
}

pub open spec fn hdr_suf() -> Seq<char> {
    seq!['"', ',', '"', 't', 'y', 'p', '"', ':', '"', 'J', 'W', 'T', '"', '}']
}

/// The header text a token carries: the algorithm's wire name inside the
/// fixed frame.
pub open spec fn spec_header_json(a: Alg) -> Seq<char> {
    hdr_pre() + spec_wire_name(a) + hdr_suf()
}

pub open spec fn hdr_alt_pre() -> Seq<char> {
    seq!['{', '"', 't', 'y', 'p', '"', ':', '"', 'J', 'W', 'T', '"', ',', '"', 'a', 'l', 'g', '"',
        ':', '"']
}

pub open spec fn hdr_alt_suf() -> Seq<char> {
    seq!['"', '}']
}

/// The same header with its two members in the other order, as the
/// signing library's own serializer writes it.
pub open spec fn spec_header_json_alt(a: Alg) -> Seq<char> {
    hdr_alt_pre() + spec_wire_name(a) + hdr_alt_suf()
}

/// Distinct algorithms have distinct header texts.
pub proof fn lemma_header_json_injective(a: Alg, b: Alg)
    requires
        spec_header_json(a) == spec_header_json(b),
    ensures
        a == b,
{
    assert(spec_wire_name(a).len() == 5);
    assert(spec_wire_name(b).len() == 5);
    assert forall|k: int| 0 <= k < 5 implies spec_wire_name(a)[k] == spec_wire_name(b)[k] by {
        assert(spec_header_json(a)[8 + k] == spec_wire_name(a)[k]);
        assert(spec_header_json(b)[8 + k] == spec_wire_name(b)[k]);
    }
    assert(spec_wire_name(a) =~= spec_wire_name(b));
    lemma_wire_name_injective(a, b);
}

/// The two header orders can never be confused with one another.
pub proof fn lemma_header_orders_distinct(a: Alg, b: Alg)
    ensures
        spec_header_json(a) != spec_header_json_alt(b),
{
    assert(spec_header_json(a)[2] == 'a');
    assert(spec_header_json_alt(b)[2] == 't');
}

/// Distinct algorithms have distinct alternate header texts.
pub proof fn lemma_header_json_alt_injective(a: Alg, b: Alg)
    requires
        spec_header_json_alt(a) == spec_header_json_alt(b),
    ensures
        a == b,
{
    assert(spec_wire_name(a).len() == 5);
    assert(spec_wire_name(b).len() == 5);
    assert forall|k: int| 0 <= k < 5 implies spec_wire_name(a)[k] == spec_wire_name(b)[k] by {
        assert(spec_header_json_alt(a)[20 + k] == spec_wire_name(a)[k]);
        assert(spec_header_json_alt(b)[20 + k] == spec_wire_name(b)[k]);
    }
    assert(spec_wire_name(a) =~= spec_wire_name(b));
    lemma_wire_name_injective(a, b);
}

/// The shape of a token this engine has just minted under algorithm `a`
/// with payload `cm`: three dot-joined base64url segments, the first two
/// pinned to the header and the canonical payload text.
pub open spec fn created_token_shape_with(
    a: Alg,
    cm: ClaimsModel,
    t: Seq<char>,
    sig: Seq<char>,
) -> bool {
    let h = b64url_of(spec_header_json(a));
    let p = b64url_of(ser_claims(cm));
    &&& t == h + seq!['.'] + p + seq!['.'] + sig
    &&& b64url_text(h) && h.len() > 0 && b64_pin(h, spec_header_json(a))
    &&& b64url_text(p) && p.len() > 0 && b64_pin(p, ser_claims(cm))
    &&& b64url_text(sig) && sig.len() > 0
}

pub open spec fn created_token_shape(a: Alg, cm: ClaimsModel, t: Seq<char>) -> bool {
    exists|sig: Seq<char>| created_token_shape_with(a, cm, t, sig)
}

/// The structural facts a successful decode establishes: the token
/// splits in three, its header segment is pinned to this engine's
/// header, and its payload segment is pinned to a text that parses to
/// exactly `cm`.
pub open spec fn structural_claims(a: Alg, t: Seq<char>, cm: ClaimsModel) -> bool {
    match spec_split3(t) {
        Some(parts) => {
            &&& (b64_pin(parts.0, spec_header_json(a)) || b64_pin(
                parts.0,
                spec_header_json_alt(a),
            ))
            &&& exists|pl: Seq<char>|
                #[trigger] b64_pin(parts.1, pl) && sp_parse_claims(pl) == Some(cm)
        },
        None => false,
    }
}

/// A token determines at most one structurally sound claims record:
/// the payload segment pins a unique text, and parsing is a function.
pub proof fn lemma_structural_unique(a: Alg, t: Seq<char>, c1: ClaimsModel, c2: ClaimsModel)
    requires
        structural_claims(a, t, c1),
        structural_claims(a, t, c2),
    ensures
        c1 == c2,
{
    let parts1 = spec_split3(t)->Some_0.1;
    let pl1 = choose|pl: Seq<char>| #[trigger] b64_pin(parts1, pl) && sp_parse_claims(pl) == Some(
        c1,
    );
    let pl2 = choose|pl: Seq<char>| #[trigger] b64_pin(parts1, pl) && sp_parse_claims(pl) == Some(
        c2,
    );
    assert(pl2 == pl1);
}

/// What `decode` may accept at time `now`: structurally sound and not
/// yet expired.
pub open spec fn decode_ok_shape(a: Alg, now: int, t: Seq<char>, cm: ClaimsModel) -> bool {
    structural_claims(a, t, cm) && cm.exp > now
}

/// What `inspect` accepts: three segments whose payload segment is
/// pinned to a text parsing to exactly `cm`; no signature or expiry
/// involvement.
pub open spec fn inspect_shape(t: Seq<char>, cm: ClaimsModel) -> bool {
    match spec_split3(t) {
        Some(parts) => exists|pl: Seq<char>|
            #[trigger] b64_pin(parts.1, pl) && sp_parse_claims(pl) == Some(cm),
        None => false,
    }
}

/// A token freshly minted under `a` with the given fields and some
/// fresh 36-character identifier.
pub open spec fn minted_shape(
    a: Alg,
    id: Option<int>,
    exp: int,
    ttl: int,
    tok: Seq<char>,
    extra: Seq<(Seq<char>, JsonVal)>,
    t: Seq<char>,
) -> bool {
    exists|jti: Seq<char>|
        is_uuid_text(jti) && #[trigger] created_token_shape(
            a,
            ClaimsModel { id, exp, ttl, token: tok, jti, extra },
            t,
        )
}

/// Whether the signature segment of `t` verifies against its signing
/// input under `secret` and `a`.
pub open spec fn token_sig_ok(a: Alg, secret: Seq<char>, t: Seq<char>) -> bool {
    match spec_split3(t) {
        Some(parts) => sig_ok_of(
            spec_wire_name(a),
            secret,
            parts.0 + seq!['.'] + parts.1,
            parts.2,
        ),
        None => false,
    }
}

/// Exactly when `decode` succeeds: the token is structurally sound for
/// `a` with claims `cm`, not yet expired, the decoding key builds from
/// `secret`, and the signature verifies.
pub open spec fn decode_accepts(
    a: Alg,
    secret: Seq<char>,
    now: int,
    t: Seq<char>,
    cm: ClaimsModel,
) -> bool {
    &&& decode_ok_shape(a, now, t, cm)
    &&& dec_key_ok(a, secret)
    &&& token_sig_ok(a, secret, t)
}

/// The expiry stored when a token is minted: the clock plus the ttl,
/// saturating at the largest unsigned 64-bit value.
pub open spec fn sat_add64(a: int, b: int) -> int {
    if a + b > u64::MAX {
        u64::MAX as int
    } else {
        a + b
    }
}

} // verus!
