//! What the transport layer holds of the token engine.

use vstd::prelude::*;
use crate::error::AuthError;
use crate::macaroon::Macaroon;
use crate::mint::default_caveats;
use crate::random::{seeded_state, SEED_WORDS};

verus! {

/// The engine as the transport layer sees it.
pub struct Api {
    pub auth: Macaroon,
}

impl Api {
    /// An interface over a new engine, or `EntropyUnavailable` where the
    /// engine's mint cannot be seeded.
    pub fn new() -> (api: Result<Api, AuthError>)
        ensures
            match api {
                Ok(a) => {
                    &&& !a.auth.macaroon_auth.trusted
                    &&& a.auth.macaroon_auth.untrusted_token is None
                    &&& a.auth.macaroon_auth.new_token is None
                    &&& a.auth.macaroon_mint.issued() == 0
                    &&& a.auth.macaroon_mint.caveats() == default_caveats()
                    &&& exists|seed: Seq<u32>|
                        seed.len() == SEED_WORDS && a.auth.macaroon_mint.stream_state()
                            == #[trigger] seeded_state(seed)
                },
                Err(e) => e == AuthError::EntropyUnavailable,
            },
    {
        match Macaroon::new() {
            Ok(auth) => Ok(Api { auth }),
            Err(e) => Err(e),
        }
    }
}

} // verus!
