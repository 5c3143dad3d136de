pub mod algs;
pub mod claims;
pub mod engine;
pub mod errors;
pub mod format;
pub mod jsonparse;
pub mod jsonread;
pub mod jsonround;
pub mod jsonser;
pub mod jsonwrite;
pub mod laws;
pub mod secret;
pub mod outside;
pub mod shapes;
pub mod textutil;
pub mod timeutil;

pub use algs::{parse_algorithm, Alg, KeyFamily};
pub use claims::{ClaimValue, Claims};
pub use engine::CipherToken;
pub use errors::{KeygenError, TokenError};
pub use format::{is_jwt_format, validate_jwt_format};
pub use secret::{generate_hmac_secret, generate_rsa_keypair, secret_key, secret_key_with_size};
pub use timeutil::{days, hours, minutes, now, seconds, weeks};
