use vstd::prelude::*;
use crate::algs::{parse_algorithm, spec_alg_name, spec_family, spec_parse_algorithm, Alg,
    KeyFamily};
use crate::claims::{claims_model, extra_model, val_model, ClaimValue, Claims, ClaimsModel};
use crate::errors::TokenError;
use crate::format::split3;
use crate::jsonread::parse_claims_exec;
use crate::jsonwrite::write_claims;
use crate::outside::{b64url_decode, b64url_encode, chars_of, ec_pem_decoding_key,
    ec_pem_encoding_key, ed_pem_decoding_key, ed_pem_encoding_key, error_text, new_jti, now_unix,
    rsa_pem_decoding_key, rsa_pem_encoding_key, sign_ec_pem, sign_ed_pem, sign_rsa_pem,
    sign_symmetric, string_of, symmetric_decoding_key, symmetric_encoding_key, verify_sig_ec_pem,
    verify_sig_ed_pem, verify_sig_rsa_pem, verify_sig_symmetric};
use crate::shapes::{b64_pin, created_token_shape, created_token_shape_with, dec_key_ok,
    decode_accepts, enc_key_ok, hdr_alt_pre, hdr_alt_suf, hdr_pre, hdr_suf, inspect_shape,
    minted_shape, sat_add64, sig_ok_of, spec_header_json, spec_header_json_alt, structural_claims,
    token_sig_ok};
use crate::algs::spec_wire_name;
use crate::format::lemma_split3_join;
use crate::shapes::lemma_b64url_text_no_dot;
use crate::textutil::{push_all, vec_char_eq};

verus! {

broadcast use vstd::std_specs::vec::group_vec_axioms;

/// The model of an optional subject identifier.
pub open spec fn opt_int(o: Option<i128>) -> Option<int> {
    match o {
        Some(n) => Some(n as int),
        None => None,
    }
}

/// The mask shown instead of a short secret.
pub open spec fn spec_mask(s: Seq<char>) -> Seq<char> {
    if s.len() > 8 {
        s.take(8) + seq!['.', '.', '.']
    } else {
        seq!['*', '*', '*']
    }
}

/// The header text for an algorithm, as executable code.
fn header_json(a: Alg) -> (r: Vec<char>)
    ensures
        r@ == spec_header_json(a),
{
    let mut out = chars_of("{\"alg\":\"");
    let wire = a.wire_name();
    push_all(&mut out, &chars_of(wire.as_str()));
    push_all(&mut out, &chars_of("\",\"typ\":\"JWT\"}"));
    proof {
        reveal_strlit("{\"alg\":\"");
        reveal_strlit("\",\"typ\":\"JWT\"}");
        assert("{\"alg\":\""@ =~= hdr_pre());
        assert("\",\"typ\":\"JWT\"}"@ =~= hdr_suf());
        assert(out@ =~= spec_header_json(a));
    }
    out
}

/// The same header with its members in the order the signing library's
/// own serializer writes them.
fn header_json_alt(a: Alg) -> (r: Vec<char>)
    ensures
        r@ == spec_header_json_alt(a),
{
    let mut out = chars_of("{\"typ\":\"JWT\",\"alg\":\"");
    let wire = a.wire_name();
    push_all(&mut out, &chars_of(wire.as_str()));
    push_all(&mut out, &chars_of("\"}"));
    proof {
        reveal_strlit("{\"typ\":\"JWT\",\"alg\":\"");
        reveal_strlit("\"}");
        assert("{\"typ\":\"JWT\",\"alg\":\""@ =~= hdr_alt_pre());
        assert("\"}"@ =~= hdr_alt_suf());
        assert(out@ =~= spec_header_json_alt(a));
    }
    out
}

/// A deep copy of an extension value, preserving its model.
pub fn clone_val(v: &ClaimValue) -> (r: ClaimValue)
    ensures
        val_model(r) == val_model(*v),
    decreases v, 1int,
{
    match v {
        ClaimValue::Null => ClaimValue::Null,
        ClaimValue::Bool(b) => ClaimValue::Bool(*b),
        ClaimValue::Int(n) => ClaimValue::Int(*n),
        ClaimValue::Str(s) => ClaimValue::Str(s.clone()),
        ClaimValue::Arr(es) => {
            let mut out: Vec<ClaimValue> = Vec::new();
            clone_vals_into(&mut out, es, 0);
            proof {
                assert forall|j: int| 0 <= j < es@.len() implies val_model(#[trigger] out@[j])
                    == val_model(es@[j]) by {
                    assert(val_model(out@[0 + j - 0]) == val_model(es@[j]));
                }
                assert(val_model(ClaimValue::Arr(out))->Arr_0 =~= val_model(
                    ClaimValue::Arr(*es),
                )->Arr_0);
            }
            ClaimValue::Arr(out)
        },
        ClaimValue::Obj(ms) => {
            let mut out: Vec<(String, ClaimValue)> = Vec::new();
            clone_pairs_into(&mut out, ms, 0);
            proof {
                assert forall|j: int| 0 <= j < ms@.len() implies (#[trigger] out@[j]).0@
                    == ms@[j].0@ && val_model(out@[j].1) == val_model(ms@[j].1) by {
                    assert((out@[0 + j - 0]).0@ == ms@[j].0@);
                    assert(val_model(out@[0 + j - 0].1) == val_model(ms@[j].1));
                }
                assert(val_model(ClaimValue::Obj(out))->Obj_0 =~= val_model(
                    ClaimValue::Obj(*ms),
                )->Obj_0);
            }
            ClaimValue::Obj(out)
        },
    }
}

/// Append deep copies of `es[k..]` to `out`.
fn clone_vals_into(out: &mut Vec<ClaimValue>, es: &Vec<ClaimValue>, k: usize)
    requires
        k <= es@.len(),
    ensures
        final(out)@.len() == old(out)@.len() + (es@.len() - k),
        forall|j: int| 0 <= j < old(out)@.len() ==> final(out)@[j] == old(out)@[j],
        forall|j: int| k <= j < es@.len() ==> val_model(
            #[trigger] final(out)@[old(out)@.len() + j - k],
        ) == val_model(es@[j]),
    decreases es, es@.len() - k,
{
    if k < es.len() {
        let ghost pre = out@;
        out.push(clone_val(&es[k]));
        let ghost mid = out@;
        clone_vals_into(out, es, k + 1);
        proof {
            assert forall|j: int| k <= j < es@.len() implies val_model(
                #[trigger] out@[pre.len() + j - k],
            ) == val_model(es@[j]) by {
                if j == k {
                    assert(out@[pre.len() as int] == mid[pre.len() as int]);
                } else {
                    assert(val_model(out@[mid.len() + j - (k + 1)]) == val_model(es@[j]));
                }
            }
        }
    }
}

/// Append deep copies of `ms[k..]` to `out`.
fn clone_pairs_into(
    out: &mut Vec<(String, ClaimValue)>,
    ms: &Vec<(String, ClaimValue)>,
    k: usize,
)
    requires
        k <= ms@.len(),
    ensures
        final(out)@.len() == old(out)@.len() + (ms@.len() - k),
        forall|j: int| 0 <= j < old(out)@.len() ==> final(out)@[j] == old(out)@[j],
        forall|j: int| k <= j < ms@.len() ==> (#[trigger] final(out)@[old(out)@.len() + j - k]).0@
            == ms@[j].0@ && val_model(final(out)@[old(out)@.len() + j - k].1) == val_model(
            ms@[j].1,
        ),
    decreases ms, ms@.len() - k,
{
    if k < ms.len() {
        let ghost pre = out@;
        out.push((ms[k].0.clone(), clone_val(&ms[k].1)));
        let ghost mid = out@;
        clone_pairs_into(out, ms, k + 1);
        proof {
            assert forall|j: int| k <= j < ms@.len() implies (#[trigger] out@[pre.len() + j
                - k]).0@ == ms@[j].0@ && val_model(out@[pre.len() + j - k].1) == val_model(
                ms@[j].1,
            ) by {
                if j == k {
                    assert(out@[pre.len() as int] == mid[pre.len() as int]);
                } else {
                    assert((out@[mid.len() + j - (k + 1)]).0@ == ms@[j].0@);
                    assert(val_model(out@[mid.len() + j - (k + 1)].1) == val_model(ms@[j].1));
                }
            }
        }
    }
}

/// A deep copy of an extension map, preserving its model.
pub fn clone_extras(ms: &Vec<(String, ClaimValue)>) -> (r: Vec<(String, ClaimValue)>)
    ensures
        extra_model(r@) == extra_model(ms@),
{
    let mut out: Vec<(String, ClaimValue)> = Vec::new();
    clone_pairs_into(&mut out, ms, 0);
    proof {
        assert forall|j: int| 0 <= j < ms@.len() implies (#[trigger] out@[j]).0@ == ms@[j].0@
            && val_model(out@[j].1) == val_model(ms@[j].1) by {
            assert((out@[0 + j - 0]).0@ == ms@[j].0@);
            assert(val_model(out@[0 + j - 0].1) == val_model(ms@[j].1));
        }
        assert(extra_model(out@) =~= extra_model(ms@));
    }
    out
}

/// What a decode call owes at clock reading `now`: success exactly on
/// accepted tokens, the accepted claims returned, and the expired error
/// exactly on structurally sound but expired tokens.
pub open spec fn spec_decode_outcome(
    a: Alg,
    secret: Seq<char>,
    now: int,
    t: Seq<char>,
    r: Result<Claims, TokenError>,
) -> bool {
    &&& (r matches Ok(c) ==> decode_accepts(a, secret, now, t, claims_model(c)))
    &&& ((exists|cm: ClaimsModel| #[trigger] decode_accepts(a, secret, now, t, cm)) ==> r is Ok)
    &&& ((r matches Err(e) && e is TokenExpired) <==> exists|cm: ClaimsModel|
        #[trigger] structural_claims(a, t, cm) && cm.exp <= now)
}

/// The verdict a verify call owes at clock reading `now`.
pub open spec fn spec_verify_verdict(a: Alg, secret: Seq<char>, now: int, t: Seq<char>) -> bool {
    exists|cm: ClaimsModel| #[trigger] decode_accepts(a, secret, now, t, cm)
}

/// What a rotation call owes at clock reading `now`: the new pair on an
/// accepted refresh token with a subject, each failure pinned to the
/// stage that decided it, and success owed outright for a symmetric
/// engine.
pub open spec fn spec_rotation_outcome(
    a: Alg,
    secret: Seq<char>,
    att: int,
    rtt: int,
    now: int,
    t: Seq<char>,
    extra: Seq<(Seq<char>, crate::claims::JsonVal)>,
    r: Result<(String, String), TokenError>,
) -> bool {
    &&& (r matches Ok(pair) ==> exists|cm: ClaimsModel|
        {
            &&& #[trigger] decode_accepts(a, secret, now, t, cm)
            &&& cm.token == "refresh"@
            &&& cm.id is Some
            &&& minted_shape(a, cm.id, sat_add64(now, att), att, "access"@, extra, pair.0@)
            &&& minted_shape(a, cm.id, sat_add64(now, rtt), rtt, "refresh"@, extra, pair.1@)
        })
    &&& ((forall|cm: ClaimsModel| !decode_accepts(a, secret, now, t, cm)) ==> (r matches Err(e)
        && (e is TokenInvalid || e is TokenExpired || e is InvalidKeyMaterial)))
    &&& ((exists|cm: ClaimsModel| #[trigger] decode_accepts(a, secret, now, t, cm) && cm.token
        != "refresh"@) ==> r == Err::<(String, String), TokenError>(TokenError::WrongTokenType))
    &&& ((exists|cm: ClaimsModel| #[trigger] decode_accepts(a, secret, now, t, cm) && cm.token
        == "refresh"@ && cm.id is None) ==> r == Err::<(String, String), TokenError>(
        TokenError::MissingSubject,
    ))
    &&& ((spec_family(a) == KeyFamily::Symmetric && exists|cm: ClaimsModel|
        #[trigger] decode_accepts(a, secret, now, t, cm) && cm.token == "refresh"@
        && cm.id is Some) ==> r is Ok)
    &&& (spec_family(a) == KeyFamily::Symmetric ==> (r matches Ok(pair) ==> token_sig_ok(
        a,
        secret,
        pair.0@,
    ) && token_sig_ok(a, secret, pair.1@)))
}

/// The token engine: immutable key material, one algorithm, and the two
/// time-to-live policies. All operations are pure functions of the
/// engine's fields, their inputs and the clock.
pub struct CipherToken {
    secret: String,
    algorithm: Alg,
    access_ttl: u64,
    refresh_ttl: u64,
}

impl CipherToken {
    pub closed spec fn spec_secret(&self) -> Seq<char> {
        self.secret@
    }

    pub closed spec fn spec_alg(&self) -> Alg {
        self.algorithm
    }

    pub closed spec fn spec_access_ttl(&self) -> u64 {
        self.access_ttl
    }

    pub closed spec fn spec_refresh_ttl(&self) -> u64 {
        self.refresh_ttl
    }

    /// Build an engine from raw key material, a case-insensitive
    /// algorithm name and the two time-to-live policies. Any algorithm
    /// name outside the supported set is rejected, naming the offender.
    pub fn new(secret: String, algorithm: String, access_ttl: u64, refresh_ttl: u64) -> (r: Result<
        CipherToken,
        TokenError,
    >)
        ensures
            match spec_parse_algorithm(algorithm@) {
                Some(a) => r matches Ok(e) && e.spec_secret() == secret@ && e.spec_alg() == a
                    && e.spec_access_ttl() == access_ttl && e.spec_refresh_ttl() == refresh_ttl,
                None => r matches Err(TokenError::UnsupportedAlgorithm(s)) && s@ == algorithm@,
            },
    {
        match parse_algorithm(algorithm.as_str()) {
            Ok(alg) => Ok(
                CipherToken { secret, algorithm: alg, access_ttl, refresh_ttl },
            ),
            Err(e) => Err(e),
        }
    }

    /// The encoding key for this engine's algorithm, rebuilt from the
    /// raw secret on every call.
    fn encoding_key(&self) -> (r: Result<jsonwebtoken::EncodingKey, TokenError>)
        ensures
            r matches Err(e) ==> e is InvalidKeyMaterial,
            r is Ok <==> enc_key_ok(self.spec_alg(), self.spec_secret()),
    {
        match self.algorithm.family() {
            KeyFamily::Symmetric => Ok(symmetric_encoding_key(self.secret.as_str())),
            KeyFamily::RsaPem => match rsa_pem_encoding_key(self.secret.as_str()) {
                Ok(k) => Ok(k),
                Err(e) => Err(TokenError::InvalidKeyMaterial(error_text(&e))),
            },
            KeyFamily::EcPem => match ec_pem_encoding_key(self.secret.as_str()) {
                Ok(k) => Ok(k),
                Err(e) => Err(TokenError::InvalidKeyMaterial(error_text(&e))),
            },
            KeyFamily::EdPem => match ed_pem_encoding_key(self.secret.as_str()) {
                Ok(k) => Ok(k),
                Err(e) => Err(TokenError::InvalidKeyMaterial(error_text(&e))),
            },
        }
    }

    /// The decoding key for this engine's algorithm. Either half of an
    /// asymmetric pair is accepted here; a mismatch surfaces later as a
    /// signature failure, not here.
    fn decoding_key(&self) -> (r: Result<jsonwebtoken::DecodingKey, TokenError>)
        ensures
            r matches Err(e) ==> e is InvalidKeyMaterial,
            r is Ok <==> dec_key_ok(self.spec_alg(), self.spec_secret()),
    {
        match self.algorithm.family() {
            KeyFamily::Symmetric => Ok(symmetric_decoding_key(self.secret.as_str())),
            KeyFamily::RsaPem => match rsa_pem_decoding_key(self.secret.as_str()) {
                Ok(k) => Ok(k),
                Err(e) => Err(TokenError::InvalidKeyMaterial(error_text(&e))),
            },
            KeyFamily::EcPem => match ec_pem_decoding_key(self.secret.as_str()) {
                Ok(k) => Ok(k),
                Err(e) => Err(TokenError::InvalidKeyMaterial(error_text(&e))),
            },
            KeyFamily::EdPem => match ed_pem_decoding_key(self.secret.as_str()) {
                Ok(k) => Ok(k),
                Err(e) => Err(TokenError::InvalidKeyMaterial(error_text(&e))),
            },
        }
    }

    /// Mint a token at clock reading `now`: expiry is `now + ttl_time`
    /// (saturating), the type string is carried verbatim, a fresh random
    /// identifier is drawn, and the extension map is embedded as given.
    pub fn create_token_at(
        &self,
        now: u64,
        ttl_time: u64,
        token_type: &str,
        user_id: Option<i128>,
        extra_payload: &Vec<(String, ClaimValue)>,
    ) -> (r: Result<String, TokenError>)
        ensures
            r matches Ok(t) ==> minted_shape(
                self.spec_alg(),
                opt_int(user_id),
                sat_add64(now as int, ttl_time as int),
                ttl_time as int,
                token_type@,
                extra_model(extra_payload@),
                t@,
            ),
            r matches Err(e) ==> (e is InvalidKeyMaterial || e is SigningFailed),
            (r matches Err(e) && e is InvalidKeyMaterial) <==> !enc_key_ok(
                self.spec_alg(),
                self.spec_secret(),
            ),
            spec_family(self.spec_alg()) == KeyFamily::Symmetric ==> r is Ok,
            spec_family(self.spec_alg()) == KeyFamily::Symmetric ==> (r matches Ok(t)
                ==> token_sig_ok(self.spec_alg(), self.spec_secret(), t@)),
    {
        let exp: u64 = match now.checked_add(ttl_time) {
            Some(v) => v,
            None => u64::MAX,
        };
        let jti_string = new_jti();
        let ghost jti_view = jti_string@;
        let claims = Claims {
            id: user_id,
            exp,
            ttl: ttl_time,
            token: token_type.to_owned(),
            jti: jti_string,
            extra: clone_extras(extra_payload),
        };
        let ghost cm = claims_model(claims);
        let payload = write_claims(&claims);
        let header = header_json(self.algorithm);
        let h64 = b64url_encode(&header);
        let p64 = b64url_encode(&payload);
        let mut signing_input = h64;
        let ghost h64v = signing_input@;
        signing_input.push('.');
        push_all(&mut signing_input, &p64);
        let msg = string_of(&signing_input);
        let _key = match self.encoding_key() {
            Ok(k) => k,
            Err(e) => {
                return Err(e);
            },
        };
        let wire = self.algorithm.wire_name();
        let sig_res = match self.algorithm.family() {
            KeyFamily::Symmetric => sign_symmetric(
                self.algorithm,
                wire.as_str(),
                self.secret.as_str(),
                msg.as_str(),
            ),
            KeyFamily::RsaPem => sign_rsa_pem(
                self.algorithm,
                wire.as_str(),
                self.secret.as_str(),
                msg.as_str(),
            ),
            KeyFamily::EcPem => sign_ec_pem(
                self.algorithm,
                wire.as_str(),
                self.secret.as_str(),
                msg.as_str(),
            ),
            KeyFamily::EdPem => sign_ed_pem(
                self.algorithm,
                wire.as_str(),
                self.secret.as_str(),
                msg.as_str(),
            ),
        };
        match sig_res {
            Ok(sig) => {
                let mut token_chars = signing_input;
                token_chars.push('.');
                push_all(&mut token_chars, &chars_of(sig.as_str()));
                let t = string_of(&token_chars);
                proof {
                    assert(cm == ClaimsModel {
                        id: opt_int(user_id),
                        exp: sat_add64(now as int, ttl_time as int),
                        ttl: ttl_time as int,
                        token: token_type@,
                        jti: jti_view,
                        extra: extra_model(extra_payload@),
                    });
                    assert(t@ =~= h64v + seq!['.'] + p64@ + seq!['.'] + sig@);
                    assert(created_token_shape_with(self.spec_alg(), cm, t@, sig@));
                    assert(created_token_shape(self.spec_alg(), cm, t@));
                    assert(minted_shape(
                        self.spec_alg(),
                        opt_int(user_id),
                        sat_add64(now as int, ttl_time as int),
                        ttl_time as int,
                        token_type@,
                        extra_model(extra_payload@),
                        t@,
                    )) by {
                        assert(jti_view.len() == 36 && created_token_shape(
                            self.spec_alg(),
                            ClaimsModel {
                                id: opt_int(user_id),
                                exp: sat_add64(now as int, ttl_time as int),
                                ttl: ttl_time as int,
                                token: token_type@,
                                jti: jti_view,
                                extra: extra_model(extra_payload@),
                            },
                            t@,
                        ));
                    }
                    if spec_family(self.spec_alg()) == KeyFamily::Symmetric {
                        lemma_b64url_text_no_dot(h64v);
                        lemma_b64url_text_no_dot(p64@);
                        lemma_b64url_text_no_dot(sig@);
                        lemma_split3_join(h64v, p64@, sig@);
                        assert(msg@ =~= h64v + seq!['.'] + p64@);
                        assert(token_sig_ok(self.spec_alg(), self.spec_secret(), t@));
                    }
                }
                Ok(t)
            },
            Err(e) => Err(TokenError::SigningFailed(error_text(&e))),
        }
    }

    /// Decode and fully validate a token at clock reading `now`: exactly
    /// three segments, a header of this engine's algorithm (either
    /// member order), a payload in the claims shape, an expiry still in
    /// the future, a decoding key that builds, and a valid signature,
    /// in that order of checking. Succeeds exactly on such tokens.
    #[verifier::rlimit(100)]
    pub fn decode_at(&self, token: &str, now: u64) -> (r: Result<Claims, TokenError>)
        ensures
            r matches Ok(c) ==> decode_accepts(
                self.spec_alg(),
                self.spec_secret(),
                now as int,
                token@,
                claims_model(c),
            ),
            (exists|cm: ClaimsModel| #[trigger] decode_accepts(
                self.spec_alg(),
                self.spec_secret(),
                now as int,
                token@,
                cm,
            )) ==> r is Ok,
            r matches Err(e) ==> (e is TokenInvalid || e is TokenExpired
                || e is InvalidKeyMaterial),
            crate::format::spec_split3(token@) is None ==> r == Err::<Claims, TokenError>(
                TokenError::TokenInvalid,
            ),
            (r matches Err(e) && e is TokenExpired) <==> (exists|cm: ClaimsModel|
                #[trigger] structural_claims(self.spec_alg(), token@, cm) && cm.exp <= now),
            spec_family(self.spec_alg()) == KeyFamily::Symmetric ==> !(r matches Err(e)
                && e is InvalidKeyMaterial),
    {
        let cs = chars_of(token);
        let parts = match split3(&cs) {
            Some(p) => p,
            None => {
                return Err(TokenError::TokenInvalid);
            },
        };
        let (h, p, g) = parts;
        let expected = b64url_encode(&header_json(self.algorithm));
        let expected_alt = b64url_encode(&header_json_alt(self.algorithm));
        let header_primary = vec_char_eq(&h, &expected);
        let header_ok = header_primary || vec_char_eq(&h, &expected_alt);
        if !header_ok {
            proof {
                assert(forall|cm: ClaimsModel|
                    !structural_claims(self.spec_alg(), token@, cm));
            }
            return Err(TokenError::TokenInvalid);
        }
        let payload_chars = match b64url_decode(&p) {
            Some(pc) => pc,
            None => {
                proof {
                    assert(forall|cm: ClaimsModel|
                        !structural_claims(self.spec_alg(), token@, cm));
                }
                return Err(TokenError::TokenInvalid);
            },
        };
        let claims = match parse_claims_exec(&payload_chars) {
            Some(c) => c,
            None => {
                proof {
                    assert forall|cm: ClaimsModel|
                        !structural_claims(self.spec_alg(), token@, cm) by {
                        if structural_claims(self.spec_alg(), token@, cm) {
                            let pl = choose|pl: Seq<char>|
                                #[trigger] b64_pin(p@, pl) && crate::jsonparse::sp_parse_claims(
                                    pl,
                                ) == Some(cm);
                            assert(pl == payload_chars@);
                        }
                    }
                }
                return Err(TokenError::TokenInvalid);
            },
        };
        let ghost cmg = claims_model(claims);
        proof {
            assert(crate::format::spec_split3(token@)->Some_0.0 == h@);
            assert(crate::format::spec_split3(token@)->Some_0.1 == p@);
            assert(crate::format::spec_split3(token@)->Some_0.2 == g@);
            if header_primary {
                assert(b64_pin(h@, spec_header_json(self.spec_alg())));
            } else {
                assert(b64_pin(h@, spec_header_json_alt(self.spec_alg())));
            }
            assert(b64_pin(p@, payload_chars@) && crate::jsonparse::sp_parse_claims(
                payload_chars@,
            ) == Some(cmg));
            assert(structural_claims(self.spec_alg(), token@, cmg));
        }
        if claims.exp <= now {
            proof {
                assert forall|cm2: ClaimsModel|
                    structural_claims(self.spec_alg(), token@, cm2) implies cm2 == cmg by {
                    let pl2 = choose|pl: Seq<char>|
                        #[trigger] b64_pin(p@, pl) && crate::jsonparse::sp_parse_claims(pl)
                            == Some(cm2);
                    assert(pl2 == payload_chars@);
                }
            }
            return Err(TokenError::TokenExpired);
        }
        proof {
            assert forall|cm2: ClaimsModel|
                structural_claims(self.spec_alg(), token@, cm2) implies cm2 == cmg by {
                let pl2 = choose|pl: Seq<char>|
                    #[trigger] b64_pin(p@, pl) && crate::jsonparse::sp_parse_claims(pl) == Some(
                        cm2,
                    );
                assert(pl2 == payload_chars@);
            }
            assert(cmg.exp > now);
        }
        let _key = match self.decoding_key() {
            Ok(k) => k,
            Err(e) => {
                proof {
                    assert(!dec_key_ok(self.spec_alg(), self.spec_secret()));
                }
                return Err(e);
            },
        };
        let mut signing_input = h;
        let ghost hv = signing_input@;
        signing_input.push('.');
        push_all(&mut signing_input, &p);
        let msg = string_of(&signing_input);
        let sig = string_of(&g);
        let wire = self.algorithm.wire_name();
        let sig_valid = match self.algorithm.family() {
            KeyFamily::Symmetric => verify_sig_symmetric(
                self.algorithm,
                wire.as_str(),
                self.secret.as_str(),
                sig.as_str(),
                msg.as_str(),
            ),
            KeyFamily::RsaPem => verify_sig_rsa_pem(
                self.algorithm,
                wire.as_str(),
                self.secret.as_str(),
                sig.as_str(),
                msg.as_str(),
            ),
            KeyFamily::EcPem => verify_sig_ec_pem(
                self.algorithm,
                wire.as_str(),
                self.secret.as_str(),
                sig.as_str(),
                msg.as_str(),
            ),
            KeyFamily::EdPem => verify_sig_ed_pem(
                self.algorithm,
                wire.as_str(),
                self.secret.as_str(),
                sig.as_str(),
                msg.as_str(),
            ),
        };
        proof {
            assert(msg@ =~= hv + seq!['.'] + p@);
            assert(sig_valid == sig_ok_of(
                spec_wire_name(self.spec_alg()),
                self.spec_secret(),
                hv + seq!['.'] + p@,
                g@,
            ));
            assert(sig_valid == token_sig_ok(self.spec_alg(), self.spec_secret(), token@));
        }
        if sig_valid {
            proof {
                assert(decode_accepts(
                    self.spec_alg(),
                    self.spec_secret(),
                    now as int,
                    token@,
                    cmg,
                ));
            }
            Ok(claims)
        } else {
            Err(TokenError::TokenInvalid)
        }
    }

    /// Whether a token passes the same validation as `decode`: `true`
    /// exactly when signature and expiry both pass; never fails, every
    /// problem folds into `false`.
    pub fn verify_at(&self, token: &str, now: u64) -> (r: bool)
        ensures
            r == exists|cm: ClaimsModel| #[trigger] decode_accepts(
                self.spec_alg(),
                self.spec_secret(),
                now as int,
                token@,
                cm,
            ),
    {
        match self.decode_at(token, now) {
            Ok(c) => {
                proof {
                    assert(decode_accepts(
                        self.spec_alg(),
                        self.spec_secret(),
                        now as int,
                        token@,
                        claims_model(c),
                    ));
                }
                true
            },
            Err(_) => false,
        }
    }

    /// Decode a token's payload without checking the signature or the
    /// expiry: a diagnostic escape hatch whose output carries no trust.
    pub fn inspect(&self, token: &str) -> (r: Result<Claims, TokenError>)
        ensures
            r matches Ok(c) ==> inspect_shape(token@, claims_model(c)),
            r matches Err(e) ==> e is InspectFailed && (forall|cm: ClaimsModel| !inspect_shape(
                token@,
                cm,
            )),
    {
        let cs = chars_of(token);
        let parts = match split3(&cs) {
            Some(p) => p,
            None => {
                return Err(TokenError::InspectFailed);
            },
        };
        let (_h, p, _g) = parts;
        let payload_chars = match b64url_decode(&p) {
            Some(pc) => pc,
            None => {
                proof {
                    assert(forall|cm: ClaimsModel| !inspect_shape(token@, cm));
                }
                return Err(TokenError::InspectFailed);
            },
        };
        match parse_claims_exec(&payload_chars) {
            Some(c) => {
                proof {
                    assert(crate::format::spec_split3(token@)->Some_0.1 == p@);
                    assert(b64_pin(crate::format::spec_split3(token@)->Some_0.1, payload_chars@)
                        && crate::jsonparse::sp_parse_claims(payload_chars@) == Some(claims_model(
                        c,
                    )));
                    assert(inspect_shape(token@, claims_model(c)));
                }
                Ok(c)
            },
            None => {
                proof {
                    assert forall|cm: ClaimsModel| !inspect_shape(token@, cm) by {
                        if inspect_shape(token@, cm) {
                            let pl = choose|pl: Seq<char>|
                                #[trigger] b64_pin(p@, pl) && crate::jsonparse::sp_parse_claims(
                                    pl,
                                ) == Some(cm);
                            assert(pl == payload_chars@);
                        }
                    }
                }
                Err(TokenError::InspectFailed)
            },
        }
    }

    /// Seconds left until the expiry a token claims for itself, by the
    /// clock reading `now`: zero once passed, saturating at the largest
    /// signed 64-bit value. No signature trust is involved.
    pub fn remaining_time_at(&self, token: &str, now: u64) -> (r: Result<Option<i64>, TokenError>)
        ensures
            r matches Ok(o) ==> exists|cm: ClaimsModel| #[trigger] inspect_shape(token@, cm) && (
            o matches Some(d) && d as int == spec_remaining(cm.exp, now as int)),
            r matches Err(e) ==> e is InspectFailed && (forall|cm: ClaimsModel| !inspect_shape(
                token@,
                cm,
            )),
    {
        match self.inspect(token) {
            Ok(c) => {
                let d: i64 = if c.exp > now {
                    let diff = c.exp - now;
                    if diff > i64::MAX as u64 {
                        i64::MAX
                    } else {
                        diff as i64
                    }
                } else {
                    0
                };
                proof {
                    assert(inspect_shape(token@, claims_model(c)));
                    assert(d as int == spec_remaining(claims_model(c).exp, now as int));
                }
                Ok(Some(d))
            },
            Err(e) => Err(e),
        }
    }

    /// Exchange a valid refresh token for a fresh access/refresh pair
    /// bound to the same subject. The presented token must decode, be of
    /// the refresh type and carry a subject; nothing revokes the old
    /// token.
    #[verifier::rlimit(100)]
    /// Exchange a valid refresh token for a fresh access/refresh pair
    /// bound to the same subject. The presented token must decode, be of
    /// the refresh type and carry a subject; nothing revokes the old
    /// token. Each outcome is pinned to the stage that decided it.
    #[verifier::rlimit(100)]
    pub fn rotation_at(
        &self,
        refresh_token: &str,
        now: u64,
        extra_payload: &Vec<(String, ClaimValue)>,
    ) -> (r: Result<(String, String), TokenError>)
        ensures
            spec_rotation_outcome(
                self.spec_alg(),
                self.spec_secret(),
                self.spec_access_ttl() as int,
                self.spec_refresh_ttl() as int,
                now as int,
                refresh_token@,
                extra_model(extra_payload@),
                r,
            ),
            r matches Err(e) ==> (e is TokenInvalid || e is TokenExpired || e is InvalidKeyMaterial
                || e is WrongTokenType || e is MissingSubject || e is SigningFailed),
    {
        let claims = match self.decode_at(refresh_token, now) {
            Ok(c) => c,
            Err(e) => {
                return Err(e);
            },
        };
        let ghost cmg = claims_model(claims);
        proof {
            assert forall|cm: ClaimsModel| #[trigger] decode_accepts(
                self.spec_alg(),
                self.spec_secret(),
                now as int,
                refresh_token@,
                cm,
            ) implies cm == cmg by {
                crate::shapes::lemma_structural_unique(self.spec_alg(), refresh_token@, cm, cmg);
            }
        }
        let tt = chars_of(claims.token.as_str());
        let refresh_lit = chars_of("refresh");
        proof {
            reveal_strlit("refresh");
        }
        if !vec_char_eq(&tt, &refresh_lit) {
            return Err(TokenError::WrongTokenType);
        }
        let uid: i128 = match claims.id {
            Some(u) => u,
            None => {
                return Err(TokenError::MissingSubject);
            },
        };
        let access_token = match self.create_token_at(
            now,
            self.access_ttl,
            "access",
            Some(uid),
            extra_payload,
        ) {
            Ok(t) => t,
            Err(e) => {
                return Err(e);
            },
        };
        let refresh_token_new = match self.create_token_at(
            now,
            self.refresh_ttl,
            "refresh",
            Some(uid),
            extra_payload,
        ) {
            Ok(t) => t,
            Err(e) => {
                return Err(e);
            },
        };
        proof {
            assert(decode_accepts(
                self.spec_alg(),
                self.spec_secret(),
                now as int,
                refresh_token@,
                cmg,
            ));
            assert(cmg.token == "refresh"@);
            assert(cmg.id == opt_int(Some(uid)));
        }
        Ok((access_token, refresh_token_new))
    }

    /// Mint a token with the wall clock as `now`.
    pub fn create_token(
        &self,
        ttl_time: u64,
        token_type: &str,
        user_id: Option<i128>,
        extra_payload: &Vec<(String, ClaimValue)>,
    ) -> (r: Result<String, TokenError>)
        ensures
            r matches Ok(t) ==> exists|expv: int| #[trigger] minted_shape(
                self.spec_alg(),
                opt_int(user_id),
                expv,
                ttl_time as int,
                token_type@,
                extra_model(extra_payload@),
                t@,
            ),
            r matches Err(e) ==> (e is InvalidKeyMaterial || e is SigningFailed),
            spec_family(self.spec_alg()) == KeyFamily::Symmetric ==> r is Ok,
            spec_family(self.spec_alg()) == KeyFamily::Symmetric ==> (r matches Ok(t)
                ==> token_sig_ok(self.spec_alg(), self.spec_secret(), t@)),
    {
        let now = now_unix();
        self.create_token_at(now, ttl_time, token_type, user_id, extra_payload)
    }

    /// Mint an access token for a subject, with the engine's access ttl.
    pub fn access(&self, user_id: i128, extra_payload: &Vec<(String, ClaimValue)>) -> (r: Result<
        String,
        TokenError,
    >)
        ensures
            r matches Ok(t) ==> exists|expv: int| #[trigger] minted_shape(
                self.spec_alg(),
                Some(user_id as int),
                expv,
                self.spec_access_ttl() as int,
                "access"@,
                extra_model(extra_payload@),
                t@,
            ),
            r matches Err(e) ==> (e is InvalidKeyMaterial || e is SigningFailed),
            spec_family(self.spec_alg()) == KeyFamily::Symmetric ==> r is Ok,
            spec_family(self.spec_alg()) == KeyFamily::Symmetric ==> (r matches Ok(t)
                ==> token_sig_ok(self.spec_alg(), self.spec_secret(), t@)),
    {
        let r = self.create_token(self.access_ttl, "access", Some(user_id), extra_payload);
        proof {
            if r is Ok {
                let expv = choose|expv: int| #[trigger] minted_shape(
                    self.spec_alg(),
                    opt_int(Some(user_id)),
                    expv,
                    self.spec_access_ttl() as int,
                    "access"@,
                    extra_model(extra_payload@),
                    r->Ok_0@,
                );
                assert(minted_shape(
                    self.spec_alg(),
                    Some(user_id as int),
                    expv,
                    self.spec_access_ttl() as int,
                    "access"@,
                    extra_model(extra_payload@),
                    r->Ok_0@,
                ));
            }
        }
        r
    }

    /// Mint a refresh token for a subject, with the engine's refresh ttl.
    pub fn refresh(&self, user_id: i128, extra_payload: &Vec<(String, ClaimValue)>) -> (r: Result<
        String,
        TokenError,
    >)
        ensures
            r matches Ok(t) ==> exists|expv: int| #[trigger] minted_shape(
                self.spec_alg(),
                Some(user_id as int),
                expv,
                self.spec_refresh_ttl() as int,
                "refresh"@,
                extra_model(extra_payload@),
                t@,
            ),
            r matches Err(e) ==> (e is InvalidKeyMaterial || e is SigningFailed),
            spec_family(self.spec_alg()) == KeyFamily::Symmetric ==> r is Ok,
            spec_family(self.spec_alg()) == KeyFamily::Symmetric ==> (r matches Ok(t)
                ==> token_sig_ok(self.spec_alg(), self.spec_secret(), t@)),
    {
        let r = self.create_token(self.refresh_ttl, "refresh", Some(user_id), extra_payload);
        proof {
            if r is Ok {
                let expv = choose|expv: int| #[trigger] minted_shape(
                    self.spec_alg(),
                    opt_int(Some(user_id)),
                    expv,
                    self.spec_refresh_ttl() as int,
                    "refresh"@,
                    extra_model(extra_payload@),
                    r->Ok_0@,
                );
                assert(minted_shape(
                    self.spec_alg(),
                    Some(user_id as int),
                    expv,
                    self.spec_refresh_ttl() as int,
                    "refresh"@,
                    extra_model(extra_payload@),
                    r->Ok_0@,
                ));
            }
        }
        r
    }

    /// Decode with the wall clock as `now`.
    pub fn decode(&self, token: &str) -> (r: Result<Claims, TokenError>)
        ensures
            exists|now: int| 0 <= now && #[trigger] spec_decode_outcome(
                self.spec_alg(),
                self.spec_secret(),
                now,
                token@,
                r,
            ),
            r matches Err(e) ==> (e is TokenInvalid || e is TokenExpired
                || e is InvalidKeyMaterial),
            crate::format::spec_split3(token@) is None ==> r == Err::<Claims, TokenError>(
                TokenError::TokenInvalid,
            ),
    {
        let now = now_unix();
        let r = self.decode_at(token, now);
        proof {
            assert(spec_decode_outcome(
                self.spec_alg(),
                self.spec_secret(),
                now as int,
                token@,
                r,
            ));
        }
        r
    }

    /// Verify with the wall clock as `now`; total, never fails: `true`
    /// exactly when signature and expiry both passed at the clock
    /// reading taken during the call.
    pub fn verify(&self, token: &str) -> (r: bool)
        ensures
            exists|now: int| 0 <= now && r == #[trigger] spec_verify_verdict(
                self.spec_alg(),
                self.spec_secret(),
                now,
                token@,
            ),
    {
        let now = now_unix();
        let r = self.verify_at(token, now);
        proof {
            assert(r == spec_verify_verdict(
                self.spec_alg(),
                self.spec_secret(),
                now as int,
                token@,
            ));
        }
        r
    }

    /// Rotate with the wall clock as `now`.
    pub fn rotation(&self, refresh_token: &str, extra_payload: &Vec<(String, ClaimValue)>) -> (r:
        Result<(String, String), TokenError>)
        ensures
            exists|now: int| 0 <= now && #[trigger] spec_rotation_outcome(
                self.spec_alg(),
                self.spec_secret(),
                self.spec_access_ttl() as int,
                self.spec_refresh_ttl() as int,
                now,
                refresh_token@,
                extra_model(extra_payload@),
                r,
            ),
            r matches Err(e) ==> (e is TokenInvalid || e is TokenExpired || e is InvalidKeyMaterial
                || e is WrongTokenType || e is MissingSubject || e is SigningFailed),
    {
        let now = now_unix();
        let r = self.rotation_at(refresh_token, now, extra_payload);
        proof {
            assert(spec_rotation_outcome(
                self.spec_alg(),
                self.spec_secret(),
                self.spec_access_ttl() as int,
                self.spec_refresh_ttl() as int,
                now as int,
                refresh_token@,
                extra_model(extra_payload@),
                r,
            ));
        }
        r
    }

    /// Remaining seconds with the wall clock as `now`.
    pub fn remaining_time(&self, token: &str) -> (r: Result<Option<i64>, TokenError>)
        ensures
            r matches Err(e) ==> e is InspectFailed && (forall|cm: ClaimsModel| !inspect_shape(
                token@,
                cm,
            )),
            r matches Ok(o) ==> exists|now: int, cm: ClaimsModel|
                #![trigger inspect_shape(token@, cm), spec_remaining(cm.exp, now)]
                0 <= now && inspect_shape(token@, cm) && (o matches Some(d) && d as int
                    == spec_remaining(cm.exp, now)),
    {
        let now = now_unix();
        let r = self.remaining_time_at(token, now);
        proof {
            if r is Ok {
                let cm = choose|cm: ClaimsModel| #[trigger] inspect_shape(token@, cm) && (
                r->Ok_0 matches Some(d) && d as int == spec_remaining(cm.exp, now as int));
                assert(inspect_shape(token@, cm) && (r->Ok_0 matches Some(d) && d as int
                    == spec_remaining(cm.exp, now as int)));
            }
        }
        r
    }

    /// The display name of this engine's algorithm.
    pub fn algorithm_name(&self) -> (r: String)
        ensures
            r@ == spec_alg_name(self.spec_alg()),
    {
        self.algorithm.display_name()
    }

    /// A display-safe form of the secret: at most its first eight
    /// characters, or a fixed placeholder. The real secret stays in
    /// memory unmasked; this is no security control.
    pub fn secret(&self) -> (r: String)
        ensures
            r@ == spec_mask(self.spec_secret()),
    {
        let cs = chars_of(self.secret.as_str());
        if cs.len() > 8 {
            let mut out: Vec<char> = Vec::new();
            let mut i: usize = 0;
            while i < 8
                invariant
                    i <= 8,
                    cs@.len() > 8,
                    out@ == cs@.subrange(0, i as int),
                decreases 8 - i,
            {
                out.push(cs[i]);
                proof {
                    assert(out@ =~= cs@.subrange(0, i as int + 1));
                }
                i += 1;
            }
            out.push('.');
            out.push('.');
            out.push('.');
            proof {
                assert(out@ =~= spec_mask(self.spec_secret()));
            }
            string_of(&out)
        } else {
            proof {
                reveal_strlit("***");
                assert("***"@ =~= spec_mask(self.spec_secret()));
            }
            "***".to_owned()
        }
    }

    /// The engine's access-token time to live, in seconds.
    pub fn access_ttl(&self) -> (r: u64)
        ensures
            r == self.spec_access_ttl(),
    {
        self.access_ttl
    }

    /// The engine's refresh-token time to live, in seconds.
    pub fn refresh_ttl(&self) -> (r: u64)
        ensures
            r == self.spec_refresh_ttl(),
    {
        self.refresh_ttl
    }
}

/// Seconds from `now` to `exp`, clamped below by zero and above by the
/// largest signed 64-bit value.
pub open spec fn spec_remaining(exp: int, now: int) -> int {
    if exp > now {
        if exp - now > i64::MAX {
            i64::MAX as int
        } else {
            exp - now
        }
    } else {
        0
    }
}

} // verus!
