use vstd::prelude::*;
use crate::errors::KeygenError;
use crate::outside::{b64std_of, b64std_encode, random_bytes, rsa_generate, rsa_pkcs8_pem,
    rsa_public_pem};

verus! {

/// Draw `size` random bytes and present them in the standard padded
/// base64 alphabet, for use as symmetric key material. Sizes below 16
/// bytes are refused.
pub fn generate_hmac_secret(size: usize) -> (r: Result<String, KeygenError>)
    ensures
        size < 16 <==> r == Err::<String, KeygenError>(KeygenError::SecretTooSmall),
        r matches Err(e) ==> e is SecretTooSmall,
        r matches Ok(s) ==> exists|b: Seq<u8>| b.len() == size && s@ == #[trigger] b64std_of(b)
            && s@.len() == 4 * ((size + 2) / 3),
{
    if size < 16 {
        return Err(KeygenError::SecretTooSmall);
    }
    let key = random_bytes(size);
    let encoded = b64std_encode(&key);
    proof {
        assert(key@.len() == size && encoded@ == b64std_of(key@));
    }
    Ok(encoded)
}

/// A fresh 32-byte random secret, base64 encoded.
pub fn secret_key() -> (r: Result<String, KeygenError>)
    ensures
        r matches Ok(s) ==> (exists|b: Seq<u8>| b.len() == 32 && s@ == #[trigger] b64std_of(b))
            && s@.len() == 44,
        r is Ok,
{
    generate_hmac_secret(32)
}

/// A fresh random secret of the caller's size, base64 encoded.
pub fn secret_key_with_size(size: usize) -> (r: Result<String, KeygenError>)
    ensures
        size < 16 <==> r == Err::<String, KeygenError>(KeygenError::SecretTooSmall),
        r matches Ok(s) ==> (exists|b: Seq<u8>| b.len() == size && s@ == #[trigger] b64std_of(b))
            && s@.len() == 4 * ((size + 2) / 3),
{
    generate_hmac_secret(size)
}

/// Generate an RSA keypair of at least 2048 bits and return the private
/// and public halves as PEM text. The keys themselves are random; only
/// the size floor is enforced here.
pub fn generate_rsa_keypair(bits: Option<usize>) -> (r: Result<(String, String), KeygenError>)
    ensures
        (match bits {
            Some(b) => b < 2048,
            None => false,
        }) <==> r == Err::<(String, String), KeygenError>(KeygenError::KeySizeTooSmall),
{
    let nbits: usize = match bits {
        Some(b) => b,
        None => 2048,
    };
    if nbits < 2048 {
        return Err(KeygenError::KeySizeTooSmall);
    }
    let private_key = match rsa_generate(nbits) {
        Ok(k) => k,
        Err(m) => {
            return Err(KeygenError::GenerationFailed(m));
        },
    };
    let private_pem = match rsa_pkcs8_pem(&private_key) {
        Ok(p) => p,
        Err(m) => {
            return Err(KeygenError::GenerationFailed(m));
        },
    };
    let public_pem = match rsa_public_pem(&private_key) {
        Ok(p) => p,
        Err(m) => {
            return Err(KeygenError::GenerationFailed(m));
        },
    };
    Ok((private_pem, public_pem))
}

} // verus!
