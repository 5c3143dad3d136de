use vstd::prelude::*;
use crate::errors::TokenError;
use crate::outside::chars_of;
use crate::textutil::{spec_upper, to_upper_vec, vec_char_eq};

verus! {

/// The supported signing algorithms.
#[derive(Clone, Copy, PartialEq, Eq, Structural, Debug)]
pub enum Alg {
    Hs256,
    Hs384,
    Hs512,
    Rs256,
    Rs384,
    Rs512,
    Es256,
    Es384,
    Ps256,
    Ps384,
    Ps512,
    EdDsa,
}

/// The kind of key material an algorithm needs.
#[derive(Clone, Copy, PartialEq, Eq, Structural, Debug)]
pub enum KeyFamily {
    Symmetric,
    RsaPem,
    EcPem,
    EdPem,
}

/// The display name of an algorithm, as callers write it (upper case).
pub open spec fn spec_alg_name(a: Alg) -> Seq<char> {
    match a {
        Alg::Hs256 => seq!['H', 'S', '2', '5', '6'],
        Alg::Hs384 => seq!['H', 'S', '3', '8', '4'],
        Alg::Hs512 => seq!['H', 'S', '5', '1', '2'],
        Alg::Rs256 => seq!['R', 'S', '2', '5', '6'],
        Alg::Rs384 => seq!['R', 'S', '3', '8', '4'],
        Alg::Rs512 => seq!['R', 'S', '5', '1', '2'],
        Alg::Es256 => seq!['E', 'S', '2', '5', '6'],
        Alg::Es384 => seq!['E', 'S', '3', '8', '4'],
        Alg::Ps256 => seq!['P', 'S', '2', '5', '6'],
        Alg::Ps384 => seq!['P', 'S', '3', '8', '4'],
        Alg::Ps512 => seq!['P', 'S', '5', '1', '2'],
        Alg::EdDsa => seq!['E', 'D', 'D', 'S', 'A'],
    }
}

/// The wire name of an algorithm: how the token header spells it.
/// It equals the display name except for the Edwards-curve entry.
pub open spec fn spec_wire_name(a: Alg) -> Seq<char> {
    match a {
        Alg::EdDsa => seq!['E', 'd', 'D', 'S', 'A'],
        _ => spec_alg_name(a),
    }
}

/// The key-material family an algorithm requires.
pub open spec fn spec_family(a: Alg) -> KeyFamily {
    match a {
        Alg::Hs256 | Alg::Hs384 | Alg::Hs512 => KeyFamily::Symmetric,
        Alg::Rs256 | Alg::Rs384 | Alg::Rs512 | Alg::Ps256 | Alg::Ps384 | Alg::Ps512
            => KeyFamily::RsaPem,
        Alg::Es256 | Alg::Es384 => KeyFamily::EcPem,
        Alg::EdDsa => KeyFamily::EdPem,
    }
}

/// Case-insensitive algorithm selection: the algorithm whose display name
/// equals the ASCII upper-casing of `s`, if any.
pub open spec fn spec_parse_algorithm(s: Seq<char>) -> Option<Alg> {
    let u = spec_upper(s);
    if u == spec_alg_name(Alg::Hs256) {
        Some(Alg::Hs256)
    } else if u == spec_alg_name(Alg::Hs384) {
        Some(Alg::Hs384)
    } else if u == spec_alg_name(Alg::Hs512) {
        Some(Alg::Hs512)
    } else if u == spec_alg_name(Alg::Rs256) {
        Some(Alg::Rs256)
    } else if u == spec_alg_name(Alg::Rs384) {
        Some(Alg::Rs384)
    } else if u == spec_alg_name(Alg::Rs512) {
        Some(Alg::Rs512)
    } else if u == spec_alg_name(Alg::Es256) {
        Some(Alg::Es256)
    } else if u == spec_alg_name(Alg::Es384) {
        Some(Alg::Es384)
    } else if u == spec_alg_name(Alg::Ps256) {
        Some(Alg::Ps256)
    } else if u == spec_alg_name(Alg::Ps384) {
        Some(Alg::Ps384)
    } else if u == spec_alg_name(Alg::Ps512) {
        Some(Alg::Ps512)
    } else if u == spec_alg_name(Alg::EdDsa) {
        Some(Alg::EdDsa)
    } else {
        None
    }
}

/// Every pair of distinct algorithms has distinct wire names, so a token
/// header pins down the algorithm it was made under.
pub proof fn lemma_wire_name_injective(a: Alg, b: Alg)
    requires
        spec_wire_name(a) == spec_wire_name(b),
    ensures
        a == b,
{
    assert(spec_wire_name(a)[0] == spec_wire_name(b)[0]);
    assert(spec_wire_name(a)[1] == spec_wire_name(b)[1]);
    assert(spec_wire_name(a)[2] == spec_wire_name(b)[2]);
    assert(spec_wire_name(a)[3] == spec_wire_name(b)[3]);
    assert(spec_wire_name(a)[4] == spec_wire_name(b)[4]);
}

impl Alg {
    /// The display name, e.g. `"HS256"` or `"EDDSA"`.
    pub fn display_name(&self) -> (r: String)
        ensures
            r@ == spec_alg_name(*self),
    {
        match self {
            Alg::Hs256 => {
                proof {
                    reveal_strlit("HS256");
                    assert("HS256"@ =~= spec_alg_name(Alg::Hs256));
                }
                "HS256".to_owned()
            },
            Alg::Hs384 => {
                proof {
                    reveal_strlit("HS384");
                    assert("HS384"@ =~= spec_alg_name(Alg::Hs384));
                }
                "HS384".to_owned()
            },
            Alg::Hs512 => {
                proof {
                    reveal_strlit("HS512");
                    assert("HS512"@ =~= spec_alg_name(Alg::Hs512));
                }
                "HS512".to_owned()
            },
            Alg::Rs256 => {
                proof {
                    reveal_strlit("RS256");
                    assert("RS256"@ =~= spec_alg_name(Alg::Rs256));
                }
                "RS256".to_owned()
            },
            Alg::Rs384 => {
                proof {
                    reveal_strlit("RS384");
                    assert("RS384"@ =~= spec_alg_name(Alg::Rs384));
                }
                "RS384".to_owned()
            },
            Alg::Rs512 => {
                proof {
                    reveal_strlit("RS512");
                    assert("RS512"@ =~= spec_alg_name(Alg::Rs512));
                }
                "RS512".to_owned()
            },
            Alg::Es256 => {
                proof {
                    reveal_strlit("ES256");
                    assert("ES256"@ =~= spec_alg_name(Alg::Es256));
                }
                "ES256".to_owned()
            },
            Alg::Es384 => {
                proof {
                    reveal_strlit("ES384");
                    assert("ES384"@ =~= spec_alg_name(Alg::Es384));
                }
                "ES384".to_owned()
            },
            Alg::Ps256 => {
                proof {
                    reveal_strlit("PS256");
                    assert("PS256"@ =~= spec_alg_name(Alg::Ps256));
                }
                "PS256".to_owned()
            },
            Alg::Ps384 => {
                proof {
                    reveal_strlit("PS384");
                    assert("PS384"@ =~= spec_alg_name(Alg::Ps384));
                }
                "PS384".to_owned()
            },
            Alg::Ps512 => {
                proof {
                    reveal_strlit("PS512");
                    assert("PS512"@ =~= spec_alg_name(Alg::Ps512));
                }
                "PS512".to_owned()
            },
            Alg::EdDsa => {
                proof {
                    reveal_strlit("EDDSA");
                    assert("EDDSA"@ =~= spec_alg_name(Alg::EdDsa));
                }
                "EDDSA".to_owned()
            },
        }
    }

    /// The wire name, e.g. `"HS256"` or `"EdDSA"`.
    pub fn wire_name(&self) -> (r: String)
        ensures
            r@ == spec_wire_name(*self),
    {
        if let Alg::EdDsa = self {
            proof {
                reveal_strlit("EdDSA");
                assert("EdDSA"@ =~= spec_wire_name(Alg::EdDsa));
            }
            "EdDSA".to_owned()
        } else {
            self.display_name()
        }
    }

    /// The key-material family this algorithm requires.
    pub fn family(&self) -> (r: KeyFamily)
        ensures
            r == spec_family(*self),
    {
        match self {
            Alg::Hs256 | Alg::Hs384 | Alg::Hs512 => KeyFamily::Symmetric,
            Alg::Rs256 | Alg::Rs384 | Alg::Rs512 | Alg::Ps256 | Alg::Ps384 | Alg::Ps512
                => KeyFamily::RsaPem,
            Alg::Es256 | Alg::Es384 => KeyFamily::EcPem,
            Alg::EdDsa => KeyFamily::EdPem,
        }
    }
}

/// Select the algorithm named by `alg_str`, case-insensitively; any other
/// string is rejected, carrying the offending string back to the caller.
pub fn parse_algorithm(alg_str: &str) -> (r: Result<Alg, TokenError>)
    ensures
        match spec_parse_algorithm(alg_str@) {
            Some(a) => r == Ok::<Alg, TokenError>(a),
            None => (r matches Err(TokenError::UnsupportedAlgorithm(s)) && s@ == alg_str@),
        },
{
    proof {
        reveal_strlit("HS256");
        reveal_strlit("HS384");
        reveal_strlit("HS512");
        reveal_strlit("RS256");
        reveal_strlit("RS384");
        reveal_strlit("RS512");
        reveal_strlit("ES256");
        reveal_strlit("ES384");
        reveal_strlit("PS256");
        reveal_strlit("PS384");
        reveal_strlit("PS512");
        reveal_strlit("EDDSA");
        assert("HS256"@ =~= spec_alg_name(Alg::Hs256));
        assert("HS384"@ =~= spec_alg_name(Alg::Hs384));
        assert("HS512"@ =~= spec_alg_name(Alg::Hs512));
        assert("RS256"@ =~= spec_alg_name(Alg::Rs256));
        assert("RS384"@ =~= spec_alg_name(Alg::Rs384));
        assert("RS512"@ =~= spec_alg_name(Alg::Rs512));
        assert("ES256"@ =~= spec_alg_name(Alg::Es256));
        assert("ES384"@ =~= spec_alg_name(Alg::Es384));
        assert("PS256"@ =~= spec_alg_name(Alg::Ps256));
        assert("PS384"@ =~= spec_alg_name(Alg::Ps384));
        assert("PS512"@ =~= spec_alg_name(Alg::Ps512));
        assert("EDDSA"@ =~= spec_alg_name(Alg::EdDsa));
    }
    let cs = chars_of(alg_str);
    let up = to_upper_vec(&cs);
    if vec_char_eq(&up, &chars_of("HS256")) {
        Ok(Alg::Hs256)
    } else if vec_char_eq(&up, &chars_of("HS384")) {
        Ok(Alg::Hs384)
    } else if vec_char_eq(&up, &chars_of("HS512")) {
        Ok(Alg::Hs512)
    } else if vec_char_eq(&up, &chars_of("RS256")) {
        Ok(Alg::Rs256)
    } else if vec_char_eq(&up, &chars_of("RS384")) {
        Ok(Alg::Rs384)
    } else if vec_char_eq(&up, &chars_of("RS512")) {
        Ok(Alg::Rs512)
    } else if vec_char_eq(&up, &chars_of("ES256")) {
        Ok(Alg::Es256)
    } else if vec_char_eq(&up, &chars_of("ES384")) {
        Ok(Alg::Es384)
    } else if vec_char_eq(&up, &chars_of("PS256")) {
        Ok(Alg::Ps256)
    } else if vec_char_eq(&up, &chars_of("PS384")) {
        Ok(Alg::Ps384)
    } else if vec_char_eq(&up, &chars_of("PS512")) {
        Ok(Alg::Ps512)
    } else if vec_char_eq(&up, &chars_of("EDDSA")) {
        Ok(Alg::EdDsa)
    } else {
        Err(TokenError::UnsupportedAlgorithm(alg_str.to_owned()))
    }
}

} // verus!
