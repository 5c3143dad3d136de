use vstd::prelude::*;
use crate::algs::Alg;
use crate::claims::{wf_claims, ClaimsModel};
use crate::format::{lemma_split3_join, spec_split3};
use crate::jsonparse::sp_parse_claims;
use crate::jsonround::lemma_parse_ser_claims;
use crate::jsonser::ser_claims;
use crate::shapes::{b64_pin, b64url_of, created_token_shape, created_token_shape_with,
    dec_key_ok, decode_accepts, decode_ok_shape, inspect_shape, lemma_b64url_text_no_dot,
    lemma_header_json_injective, lemma_header_orders_distinct, lemma_structural_unique,
    spec_header_json, spec_header_json_alt, structural_claims, token_sig_ok};

verus! {

/// A freshly minted token splits on its dots into exactly its header,
/// payload and signature segments.
proof fn lemma_created_split(a: Alg, cm: ClaimsModel, t: Seq<char>, sig: Seq<char>)
    requires
        created_token_shape_with(a, cm, t, sig),
    ensures
        spec_split3(t) == Some(
            (b64url_of(spec_header_json(a)), b64url_of(ser_claims(cm)), sig),
        ),
{
    let h = b64url_of(spec_header_json(a));
    let p = b64url_of(ser_claims(cm));
    lemma_b64url_text_no_dot(h);
    lemma_b64url_text_no_dot(p);
    lemma_b64url_text_no_dot(sig);
    lemma_split3_join(h, p, sig);
}

/// Round trip: whatever claims record a decode accepts from a freshly
/// minted token is exactly the record that was minted — every fixed
/// field and every extension entry.
pub proof fn lemma_create_decode_roundtrip(
    a: Alg,
    cm: ClaimsModel,
    t: Seq<char>,
    now: int,
    c: ClaimsModel,
)
    requires
        wf_claims(cm),
        created_token_shape(a, cm, t),
        decode_ok_shape(a, now, t, c),
    ensures
        c == cm,
{
    let sig = choose|sig: Seq<char>| created_token_shape_with(a, cm, t, sig);
    lemma_created_split(a, cm, t, sig);
    let parts1 = spec_split3(t)->Some_0.1;
    let pl = choose|pl: Seq<char>| #[trigger] b64_pin(parts1, pl) && sp_parse_claims(pl) == Some(
        c,
    );
    assert(pl == ser_claims(cm));
    lemma_parse_ser_claims(cm);
}

/// Expiry boundary: once the clock reaches the expiry a token was
/// minted with, no decode under the same algorithm can accept it.
pub proof fn lemma_expired_token_rejected(a: Alg, cm: ClaimsModel, t: Seq<char>, now2: int)
    requires
        wf_claims(cm),
        created_token_shape(a, cm, t),
        cm.exp <= now2,
    ensures
        forall|c: ClaimsModel| !decode_ok_shape(a, now2, t, c),
{
    assert forall|c: ClaimsModel| !decode_ok_shape(a, now2, t, c) by {
        if decode_ok_shape(a, now2, t, c) {
            lemma_create_decode_roundtrip(a, cm, t, now2, c);
        }
    }
}

/// Algorithm mismatch: a token minted under one algorithm can never
/// pass the structural checks of an engine configured for another,
/// whichever header order that engine would accept.
#[verifier::rlimit(100)]
pub proof fn lemma_algorithm_mismatch(
    a: Alg,
    b: Alg,
    cm: ClaimsModel,
    t: Seq<char>,
    now: int,
)
    requires
        created_token_shape(a, cm, t),
        a != b,
    ensures
        forall|c: ClaimsModel| !decode_ok_shape(b, now, t, c),
{
    let sig = choose|sig: Seq<char>| created_token_shape_with(a, cm, t, sig);
    lemma_created_split(a, cm, t, sig);
    let parts0 = spec_split3(t)->Some_0.0;
    assert forall|c: ClaimsModel| !decode_ok_shape(b, now, t, c) by {
        if decode_ok_shape(b, now, t, c) {
            if b64_pin(parts0, spec_header_json(b)) {
                assert(parts0 == b64url_of(spec_header_json(b)));
                assert(spec_header_json(b) == spec_header_json(a));
                lemma_header_json_injective(a, b);
            } else {
                assert(b64_pin(parts0, spec_header_json_alt(b)));
                assert(parts0 == b64url_of(spec_header_json_alt(b)));
                assert(spec_header_json_alt(b) == spec_header_json(a));
                lemma_header_orders_distinct(a, b);
            }
        }
    }
}

/// Success owed: a freshly minted, unexpired token whose signature
/// verifies under key material the decoding side accepts is decodable,
/// and every decode of it yields exactly the minted claims. Combined
/// with the create contract, a symmetric engine's own tokens always
/// decode until they expire.
pub proof fn lemma_minted_token_decodes(
    a: Alg,
    secret: Seq<char>,
    cm: ClaimsModel,
    t: Seq<char>,
    now: int,
)
    requires
        wf_claims(cm),
        created_token_shape(a, cm, t),
        token_sig_ok(a, secret, t),
        dec_key_ok(a, secret),
        cm.exp > now,
    ensures
        decode_accepts(a, secret, now, t, cm),
        forall|c: ClaimsModel| decode_accepts(a, secret, now, t, c) ==> c == cm,
{
    let sig = choose|sig: Seq<char>| created_token_shape_with(a, cm, t, sig);
    lemma_created_split(a, cm, t, sig);
    lemma_parse_ser_claims(cm);
    let parts1 = spec_split3(t)->Some_0.1;
    assert(b64_pin(parts1, ser_claims(cm)) && sp_parse_claims(ser_claims(cm)) == Some(cm));
    assert(structural_claims(a, t, cm));
    assert(decode_accepts(a, secret, now, t, cm));
    assert forall|c: ClaimsModel| decode_accepts(a, secret, now, t, c) implies c == cm by {
        lemma_structural_unique(a, t, c, cm);
    }
}

/// Inspect versus decode: a freshly minted token always has the inspect
/// shape, carrying exactly the claims that were minted — whatever its
/// expiry, so an expired token that decode rejects still inspects.
pub proof fn lemma_inspect_of_created(a: Alg, cm: ClaimsModel, t: Seq<char>)
    requires
        wf_claims(cm),
        created_token_shape(a, cm, t),
    ensures
        inspect_shape(t, cm),
        forall|c: ClaimsModel| inspect_shape(t, c) ==> c == cm,
{
    let sig = choose|sig: Seq<char>| created_token_shape_with(a, cm, t, sig);
    lemma_created_split(a, cm, t, sig);
    lemma_parse_ser_claims(cm);
    let parts1 = spec_split3(t)->Some_0.1;
    assert(b64_pin(parts1, ser_claims(cm)) && sp_parse_claims(ser_claims(cm)) == Some(cm));
    assert(inspect_shape(t, cm));
    assert forall|c: ClaimsModel| inspect_shape(t, c) implies c == cm by {
        let pl = choose|pl: Seq<char>| #[trigger] b64_pin(parts1, pl) && sp_parse_claims(pl)
            == Some(c);
        assert(pl == ser_claims(cm));
    }
}

} // verus!
