//! Caveat-restricted bearer tokens ("macaroons") with a chained signature.
//!
//! A [`Key`] holds the root secret. A [`Macaroon_Mint`] issues [`Token`]s
//! whose signature binds the token's identifier and its ordered caveats to
//! that secret. A [`Verifier`] re-derives the signature and checks every
//! caveat against its rules.

pub mod api;
pub mod caveat;
pub mod chain;
pub mod config;
pub mod error;
pub mod key;
pub mod laws;
pub mod macaroon;
pub mod mint;
pub mod random;
pub mod token;
pub mod verification;
pub mod wire;

pub use api::Api;
pub use caveat::Caveat;
pub use chain::TAG_LEN;
pub use config::ServiceConfig;
pub use error::AuthError;
pub use key::{Key, KEY_LEN};
pub use macaroon::{Macaroon, Macaroon_Auth};
pub use mint::Macaroon_Mint;
pub use random::RandomSource;
pub use token::{Token, TokenView};
pub use verification::{Matcher, VerificationResult, Verifier};
pub use wire::IDENTIFIER_LEN;
