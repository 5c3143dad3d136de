use vstd::prelude::*;
use base64::Engine;
use rsa::pkcs8::{EncodePrivateKey, EncodePublicKey};

verus! {

/// Relies on `str::chars` and `Iterator::collect`: the characters of a
/// string slice, in order, as a vector.
#[verifier::external_body]
pub(crate) fn chars_of(s: &str) -> (r: Vec<char>)
    ensures
        r@ == s@,
{
    s.chars().collect()
}

/// Relies on `FromIterator<char> for String`: a string made of exactly
/// the given characters, in order.
#[verifier::external_body]
pub(crate) fn string_of(cs: &Vec<char>) -> (r: String)
    ensures
        r@ == cs@,
{
    cs.iter().collect()
}

#[verifier::external_type_specification]
#[verifier::external_body]
pub struct ExEncodingKey(jsonwebtoken::EncodingKey);

#[verifier::external_type_specification]
#[verifier::external_body]
pub struct ExDecodingKey(jsonwebtoken::DecodingKey);

#[verifier::external_type_specification]
#[verifier::external_body]
pub struct ExJwtError(jsonwebtoken::errors::Error);

#[verifier::external_type_specification]
#[verifier::external_body]
pub struct ExRsaPrivateKey(rsa::RsaPrivateKey);

/// Relies on `base64`'s `URL_SAFE_NO_PAD` engine: the encoding is a pure
/// function of the input bytes (here, the UTF-8 bytes of `s`), its output
/// uses only the unpadded url-safe alphabet, it is non-empty exactly when
/// the input is, and it is injective (every encoding has a decoder).
#[verifier::external_body]
pub(crate) fn b64url_encode(s: &Vec<char>) -> (r: Vec<char>)
    ensures
        r@ == crate::shapes::b64url_of(s@),
        crate::shapes::b64url_text(r@),
        s@.len() > 0 ==> r@.len() > 0,
        forall|q: Seq<char>| q != s@ ==> crate::shapes::b64url_of(q) != r@,
{
    let text: String = s.iter().collect();
    base64::engine::general_purpose::URL_SAFE_NO_PAD.encode(text.as_bytes()).chars().collect()
}

/// Relies on `base64`'s `URL_SAFE_NO_PAD` decode, which accepts exactly
/// the canonical encodings (no padding, no trailing bits), and on UTF-8
/// decoding: a success returns the unique preimage; a failure means the
/// input is no encoding of any character string (base64 failure: not an
/// encoding of any byte string; UTF-8 failure: the bytes are not the
/// UTF-8 form of any character string).
#[verifier::external_body]
pub(crate) fn b64url_decode(s: &Vec<char>) -> (r: Option<Vec<char>>)
    ensures
        match r {
            Some(p) => crate::shapes::b64_pin(s@, p@),
            None => forall|q: Seq<char>| crate::shapes::b64url_of(q) != s@,
        },
{
    let text: String = s.iter().collect();
    match base64::engine::general_purpose::URL_SAFE_NO_PAD.decode(text.as_bytes()) {
        Ok(bytes) => match String::from_utf8(bytes) {
            Ok(st) => Some(st.chars().collect()),
            Err(_) => None,
        },
        Err(_) => None,
    }
}

/// Relies on `jsonwebtoken::EncodingKey::from_secret`: infallible, wraps
/// the raw bytes.
#[verifier::external_body]
pub(crate) fn symmetric_encoding_key(secret: &str) -> (r: jsonwebtoken::EncodingKey) {
    jsonwebtoken::EncodingKey::from_secret(secret.as_bytes())
}

/// Relies on `jsonwebtoken::EncodingKey::from_rsa_pem`: a pure function
/// of the key text, succeeding exactly when the PEM parses.
#[verifier::external_body]
pub(crate) fn rsa_pem_encoding_key(secret: &str) -> (r: Result<
    jsonwebtoken::EncodingKey,
    jsonwebtoken::errors::Error,
>)
    ensures
        r is Ok <==> crate::shapes::rsa_enc_pem_ok(secret@),
{
    jsonwebtoken::EncodingKey::from_rsa_pem(secret.as_bytes())
}

/// Relies on `jsonwebtoken::EncodingKey::from_ec_pem`: a pure function
/// of the key text, succeeding exactly when the PEM parses.
#[verifier::external_body]
pub(crate) fn ec_pem_encoding_key(secret: &str) -> (r: Result<
    jsonwebtoken::EncodingKey,
    jsonwebtoken::errors::Error,
>)
    ensures
        r is Ok <==> crate::shapes::ec_enc_pem_ok(secret@),
{
    jsonwebtoken::EncodingKey::from_ec_pem(secret.as_bytes())
}

/// Relies on `jsonwebtoken::EncodingKey::from_ed_pem`: a pure function
/// of the key text, succeeding exactly when the PEM parses.
#[verifier::external_body]
pub(crate) fn ed_pem_encoding_key(secret: &str) -> (r: Result<
    jsonwebtoken::EncodingKey,
    jsonwebtoken::errors::Error,
>)
    ensures
        r is Ok <==> crate::shapes::ed_enc_pem_ok(secret@),
{
    jsonwebtoken::EncodingKey::from_ed_pem(secret.as_bytes())
}

/// Relies on `jsonwebtoken::DecodingKey::from_secret`: infallible.
#[verifier::external_body]
pub(crate) fn symmetric_decoding_key(secret: &str) -> (r: jsonwebtoken::DecodingKey) {
    jsonwebtoken::DecodingKey::from_secret(secret.as_bytes())
}

/// Relies on `jsonwebtoken::DecodingKey::from_rsa_pem`: a pure function
/// of the key text, succeeding exactly when the PEM parses.
#[verifier::external_body]
pub(crate) fn rsa_pem_decoding_key(secret: &str) -> (r: Result<
    jsonwebtoken::DecodingKey,
    jsonwebtoken::errors::Error,
>)
    ensures
        r is Ok <==> crate::shapes::rsa_dec_pem_ok(secret@),
{
    jsonwebtoken::DecodingKey::from_rsa_pem(secret.as_bytes())
}

/// Relies on `jsonwebtoken::DecodingKey::from_ec_pem`: a pure function
/// of the key text, succeeding exactly when the PEM parses.
#[verifier::external_body]
pub(crate) fn ec_pem_decoding_key(secret: &str) -> (r: Result<
    jsonwebtoken::DecodingKey,
    jsonwebtoken::errors::Error,
>)
    ensures
        r is Ok <==> crate::shapes::ec_dec_pem_ok(secret@),
{
    jsonwebtoken::DecodingKey::from_ec_pem(secret.as_bytes())
}

/// Relies on `jsonwebtoken::DecodingKey::from_ed_pem`: a pure function
/// of the key text, succeeding exactly when the PEM parses.
#[verifier::external_body]
pub(crate) fn ed_pem_decoding_key(secret: &str) -> (r: Result<
    jsonwebtoken::DecodingKey,
    jsonwebtoken::errors::Error,
>)
    ensures
        r is Ok <==> crate::shapes::ed_dec_pem_ok(secret@),
{
    jsonwebtoken::DecodingKey::from_ed_pem(secret.as_bytes())
}

/// Relies on the `Display` form of `jsonwebtoken::errors::Error` for the
/// messages carried in this library's own errors.
#[verifier::external_body]
pub(crate) fn error_text(e: &jsonwebtoken::errors::Error) -> (r: String) {
    e.to_string()
}

/// Relies on `jsonwebtoken::crypto::sign` over a symmetric key from
/// `jsonwebtoken::EncodingKey::from_secret`: the HMAC arms return `Ok`
/// unconditionally with the unpadded base64url encoding of a non-empty
/// digest, and `jsonwebtoken::crypto::verify` recomputes exactly this
/// signature and compares, so the result verifies. The algorithm is
/// recovered from its wire name through `Algorithm::from_str`.
#[verifier::external_body]
pub(crate) fn sign_symmetric(alg: crate::algs::Alg, alg_name: &str, secret: &str, msg: &str) -> (r:
    Result<String, jsonwebtoken::errors::Error>)
    requires
        alg_name@ == crate::algs::spec_wire_name(alg),
        crate::algs::spec_family(alg) == crate::algs::KeyFamily::Symmetric,
    ensures
        r is Ok,
        r matches Ok(sg) ==> crate::shapes::b64url_text(sg@) && sg@.len() > 0
            && crate::shapes::sig_ok_of(alg_name@, secret@, msg@, sg@),
{
    let key = jsonwebtoken::EncodingKey::from_secret(secret.as_bytes());
    match alg_name.parse::<jsonwebtoken::Algorithm>() {
        Ok(a) => jsonwebtoken::crypto::sign(msg.as_bytes(), &key, a),
        Err(e) => Err(e),
    }
}

/// Relies on `jsonwebtoken::EncodingKey::from_rsa_pem` and
/// `jsonwebtoken::crypto::sign`: any signature returned is the unpadded
/// base64url encoding of a non-empty signature. Which signature comes
/// back is not assumed (the PS family is randomized).
#[verifier::external_body]
pub(crate) fn sign_rsa_pem(alg: crate::algs::Alg, alg_name: &str, secret: &str, msg: &str) -> (r:
    Result<String, jsonwebtoken::errors::Error>)
    requires
        alg_name@ == crate::algs::spec_wire_name(alg),
        crate::algs::spec_family(alg) == crate::algs::KeyFamily::RsaPem,
        crate::shapes::rsa_enc_pem_ok(secret@),
    ensures
        r matches Ok(sg) ==> crate::shapes::b64url_text(sg@) && sg@.len() > 0,
{
    let key = match jsonwebtoken::EncodingKey::from_rsa_pem(secret.as_bytes()) {
        Ok(k) => k,
        Err(e) => return Err(e),
    };
    match alg_name.parse::<jsonwebtoken::Algorithm>() {
        Ok(a) => jsonwebtoken::crypto::sign(msg.as_bytes(), &key, a),
        Err(e) => Err(e),
    }
}

/// Relies on `jsonwebtoken::EncodingKey::from_ec_pem` and
/// `jsonwebtoken::crypto::sign`: any signature returned is the unpadded
/// base64url encoding of a non-empty signature (ECDSA is randomized).
#[verifier::external_body]
pub(crate) fn sign_ec_pem(alg: crate::algs::Alg, alg_name: &str, secret: &str, msg: &str) -> (r:
    Result<String, jsonwebtoken::errors::Error>)
    requires
        alg_name@ == crate::algs::spec_wire_name(alg),
        crate::algs::spec_family(alg) == crate::algs::KeyFamily::EcPem,
        crate::shapes::ec_enc_pem_ok(secret@),
    ensures
        r matches Ok(sg) ==> crate::shapes::b64url_text(sg@) && sg@.len() > 0,
{
    let key = match jsonwebtoken::EncodingKey::from_ec_pem(secret.as_bytes()) {
        Ok(k) => k,
        Err(e) => return Err(e),
    };
    match alg_name.parse::<jsonwebtoken::Algorithm>() {
        Ok(a) => jsonwebtoken::crypto::sign(msg.as_bytes(), &key, a),
        Err(e) => Err(e),
    }
}

/// Relies on `jsonwebtoken::EncodingKey::from_ed_pem` and
/// `jsonwebtoken::crypto::sign`: any signature returned is the unpadded
/// base64url encoding of a non-empty signature.
#[verifier::external_body]
pub(crate) fn sign_ed_pem(alg: crate::algs::Alg, alg_name: &str, secret: &str, msg: &str) -> (r:
    Result<String, jsonwebtoken::errors::Error>)
    requires
        alg_name@ == crate::algs::spec_wire_name(alg),
        crate::algs::spec_family(alg) == crate::algs::KeyFamily::EdPem,
        crate::shapes::ed_enc_pem_ok(secret@),
    ensures
        r matches Ok(sg) ==> crate::shapes::b64url_text(sg@) && sg@.len() > 0,
{
    let key = match jsonwebtoken::EncodingKey::from_ed_pem(secret.as_bytes()) {
        Ok(k) => k,
        Err(e) => return Err(e),
    };
    match alg_name.parse::<jsonwebtoken::Algorithm>() {
        Ok(a) => jsonwebtoken::crypto::sign(msg.as_bytes(), &key, a),
        Err(e) => Err(e),
    }
}

/// Relies on `jsonwebtoken::DecodingKey::from_secret` (infallible) and
/// `jsonwebtoken::crypto::verify`: for the HMAC family the verdict
/// recomputes the signature from (secret, message) and compares, a pure
/// function of the arguments; a library failure counts as rejection.
#[verifier::external_body]
pub(crate) fn verify_sig_symmetric(
    alg: crate::algs::Alg,
    alg_name: &str,
    secret: &str,
    sig: &str,
    msg: &str,
) -> (r: bool)
    requires
        alg_name@ == crate::algs::spec_wire_name(alg),
        crate::algs::spec_family(alg) == crate::algs::KeyFamily::Symmetric,
    ensures
        r == crate::shapes::sig_ok_of(alg_name@, secret@, msg@, sig@),
{
    let key = jsonwebtoken::DecodingKey::from_secret(secret.as_bytes());
    match alg_name.parse::<jsonwebtoken::Algorithm>() {
        Ok(a) => jsonwebtoken::crypto::verify(sig, msg.as_bytes(), &key, a).unwrap_or(false),
        Err(_) => false,
    }
}

/// Relies on `jsonwebtoken::DecodingKey::from_rsa_pem` and
/// `jsonwebtoken::crypto::verify`: deterministic RSA verification, a
/// pure function of the key text, message and signature.
#[verifier::external_body]
pub(crate) fn verify_sig_rsa_pem(
    alg: crate::algs::Alg,
    alg_name: &str,
    secret: &str,
    sig: &str,
    msg: &str,
) -> (r: bool)
    requires
        alg_name@ == crate::algs::spec_wire_name(alg),
        crate::algs::spec_family(alg) == crate::algs::KeyFamily::RsaPem,
        crate::shapes::rsa_dec_pem_ok(secret@),
    ensures
        r == crate::shapes::sig_ok_of(alg_name@, secret@, msg@, sig@),
{
    let key = match jsonwebtoken::DecodingKey::from_rsa_pem(secret.as_bytes()) {
        Ok(k) => k,
        Err(_) => return false,
    };
    match alg_name.parse::<jsonwebtoken::Algorithm>() {
        Ok(a) => jsonwebtoken::crypto::verify(sig, msg.as_bytes(), &key, a).unwrap_or(false),
        Err(_) => false,
    }
}

/// Relies on `jsonwebtoken::DecodingKey::from_ec_pem` and
/// `jsonwebtoken::crypto::verify`: deterministic ECDSA verification.
#[verifier::external_body]
pub(crate) fn verify_sig_ec_pem(
    alg: crate::algs::Alg,
    alg_name: &str,
    secret: &str,
    sig: &str,
    msg: &str,
) -> (r: bool)
    requires
        alg_name@ == crate::algs::spec_wire_name(alg),
        crate::algs::spec_family(alg) == crate::algs::KeyFamily::EcPem,
        crate::shapes::ec_dec_pem_ok(secret@),
    ensures
        r == crate::shapes::sig_ok_of(alg_name@, secret@, msg@, sig@),
{
    let key = match jsonwebtoken::DecodingKey::from_ec_pem(secret.as_bytes()) {
        Ok(k) => k,
        Err(_) => return false,
    };
    match alg_name.parse::<jsonwebtoken::Algorithm>() {
        Ok(a) => jsonwebtoken::crypto::verify(sig, msg.as_bytes(), &key, a).unwrap_or(false),
        Err(_) => false,
    }
}

/// Relies on `jsonwebtoken::DecodingKey::from_ed_pem` and
/// `jsonwebtoken::crypto::verify`: deterministic Ed25519 verification.
#[verifier::external_body]
pub(crate) fn verify_sig_ed_pem(
    alg: crate::algs::Alg,
    alg_name: &str,
    secret: &str,
    sig: &str,
    msg: &str,
) -> (r: bool)
    requires
        alg_name@ == crate::algs::spec_wire_name(alg),
        crate::algs::spec_family(alg) == crate::algs::KeyFamily::EdPem,
        crate::shapes::ed_dec_pem_ok(secret@),
    ensures
        r == crate::shapes::sig_ok_of(alg_name@, secret@, msg@, sig@),
{
    let key = match jsonwebtoken::DecodingKey::from_ed_pem(secret.as_bytes()) {
        Ok(k) => k,
        Err(_) => return false,
    };
    match alg_name.parse::<jsonwebtoken::Algorithm>() {
        Ok(a) => jsonwebtoken::crypto::verify(sig, msg.as_bytes(), &key, a).unwrap_or(false),
        Err(_) => false,
    }
}

/// Relies on `uuid::Uuid::new_v4` and its `Display` form: a random
/// identifier printed as the canonical hyphenated form, 36 characters of
/// lower-case hexadecimal with hyphens at the four fixed positions.
/// Nothing is assumed about which identifier comes back.
#[verifier::external_body]
pub(crate) fn new_jti() -> (r: String)
    ensures
        crate::shapes::is_uuid_text(r@),
{
    uuid::Uuid::new_v4().to_string()
}

/// Relies on `std::time::SystemTime`: the wall clock, as whole seconds
/// since the Unix epoch. Nothing is assumed about the value.
#[verifier::external_body]
pub(crate) fn now_unix() -> (r: u64) {
    match std::time::SystemTime::now().duration_since(std::time::UNIX_EPOCH) {
        Ok(d) => d.as_secs(),
        Err(_) => 0,
    }
}

/// Relies on `rand::rngs::OsRng::fill_bytes`: `n` bytes from the
/// operating system's generator. Nothing is assumed about their values.
#[verifier::external_body]
pub(crate) fn random_bytes(n: usize) -> (r: Vec<u8>)
    ensures
        r@.len() == n,
{
    let mut key = vec![0u8; n];
    rand::RngCore::fill_bytes(&mut rand::rngs::OsRng, &mut key);
    key
}

/// What `base64`'s standard padded engine returns for a byte string;
/// a pure function of the bytes.
pub uninterp spec fn b64std_of(b: Seq<u8>) -> Seq<char>;

/// Relies on `base64`'s `STANDARD` engine: a pure function of the bytes,
/// four output characters for every three input bytes, padded.
#[verifier::external_body]
pub(crate) fn b64std_encode(b: &Vec<u8>) -> (r: String)
    ensures
        r@ == b64std_of(b@),
        r@.len() == 4 * ((b@.len() + 2) / 3),
        forall|q: Seq<u8>| q != b@ ==> b64std_of(q) != r@,
{
    base64::engine::general_purpose::STANDARD.encode(b)
}

/// Relies on `rsa::RsaPrivateKey::new` with the operating system's
/// generator. Nothing is assumed about the key that comes back.
#[verifier::external_body]
pub(crate) fn rsa_generate(bits: usize) -> (r: Result<rsa::RsaPrivateKey, String>) {
    rsa::RsaPrivateKey::new(&mut rand::rngs::OsRng, bits).map_err(|e| e.to_string())
}

/// Relies on `rsa`'s `EncodePrivateKey::to_pkcs8_pem`.
#[verifier::external_body]
pub(crate) fn rsa_pkcs8_pem(k: &rsa::RsaPrivateKey) -> (r: Result<String, String>) {
    match k.to_pkcs8_pem(rsa::pkcs8::LineEnding::LF) {
        Ok(p) => Ok(p.to_string()),
        Err(e) => Err(e.to_string()),
    }
}

/// Relies on `rsa`'s `RsaPublicKey::from` and
/// `EncodePublicKey::to_public_key_pem`.
#[verifier::external_body]
pub(crate) fn rsa_public_pem(k: &rsa::RsaPrivateKey) -> (r: Result<String, String>) {
    match rsa::RsaPublicKey::from(k).to_public_key_pem(rsa::pkcs8::LineEnding::LF) {
        Ok(p) => Ok(p),
        Err(e) => Err(e.to_string()),
    }
}

} // verus!
