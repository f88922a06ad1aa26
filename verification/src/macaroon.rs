//! The service's own use of the token engine: one mint, one set of rules.

use vstd::prelude::*;
use vstd::bytes::spec_u64_to_le_bytes;
use crate::error::AuthError;
use crate::key::Key;
use crate::mint::{default_caveats, Macaroon_Mint, SERIAL_LEN};
use crate::random::{seeded_state, SEED_WORDS};
use crate::token::{minted, Token};
use crate::config::ServiceConfig;
use crate::verification::{lemma_first_rejected, Rule, Verifier};
use crate::wire::IDENTIFIER_LEN;

verus! {

/// What the service knows of the token in hand.
#[allow(non_camel_case_types)]
#[derive(Debug)]
pub struct Macaroon_Auth {
    pub trusted: bool,
    pub untrusted_token: Option<Token>,
    pub new_token: Option<Token>,
}

impl Macaroon_Auth {
    /// Nothing trusted, no token in hand.
    pub fn new() -> (auth: Macaroon_Auth)
        ensures
            !auth.trusted,
            auth.untrusted_token is None,
            auth.new_token is None,
    {
        Macaroon_Auth { trusted: false, untrusted_token: None, new_token: None }
    }

    /// The token that `key` signs for the next identifier of `mint` and its
    /// service caveats, in their order.
    pub fn gen_service_token(mint: &mut Macaroon_Mint, key: &Key) -> (token: Result<Token, AuthError>)
        ensures
            final(mint).caveats() == old(mint).caveats(),
            match token {
                Ok(t) => {
                    &&& !key.released()
                    &&& old(mint).issued() < u64::MAX
                    &&& final(mint).issued() == old(mint).issued() + 1
                    &&& final(mint).stream_state() == old(mint).stream_state_after_issue()
                    &&& t@ == minted(
                        key.bytes(),
                        old(mint).upcoming_identifier(),
                        old(mint).caveats(),
                    )
                    &&& t@.identifier.len() == IDENTIFIER_LEN
                    &&& t@.identifier.take(SERIAL_LEN as int) == spec_u64_to_le_bytes(
                        old(mint).issued() as u64,
                    )
                },
                Err(e) => {
                    &&& final(mint).issued() == old(mint).issued()
                    &&& final(mint).stream_state() == old(mint).stream_state()
                    &&& if key.released() {
                        e == AuthError::KeyUnavailable
                    } else {
                        old(mint).issued() == u64::MAX && e == AuthError::EntropyUnavailable
                    }
                },
            },
    {
        mint.mint_service_token(key)
    }

    /// The verifier of the service: it accepts the default service caveats
    /// and nothing else.
    pub fn build_verifier() -> (verifier: Verifier)
        ensures
            verifier.matchers@.len() == 3,
            forall|i: int|
                0 <= i < 3 ==> (#[trigger] verifier.matchers@[i])@ == Rule::Exact(default_caveats()[i]),
            forall|caveat: Seq<u8>| verifier.accepts(caveat) <==> default_caveats().contains(caveat),
    {
        let verifier = Verifier::build(ServiceConfig::defaults().matchers());
        proof {
            let rules = verifier.matchers@;
            let defaults = default_caveats();
            assert forall|caveat: Seq<u8>| verifier.accepts(caveat) <==> defaults.contains(
                caveat,
            ) by {
                if verifier.accepts(caveat) {
                    let i = choose|i: int| 0 <= i < rules.len() && (#[trigger] rules[i]).accepts(caveat);
                    assert(rules[i]@ == Rule::Exact(defaults[i]));
                    assert(defaults[i] == caveat);
                }
                if defaults.contains(caveat) {
                    let i = choose|i: int| 0 <= i < defaults.len() && defaults[i] == caveat;
                    assert(rules[i]@ == Rule::Exact(defaults[i]));
                    assert(rules[i].accepts(caveat));
                }
            }
        }
        verifier
    }

    /// Whether `token` is valid under `key` for the service's verifier: the
    /// key is in use, the signature is the key's, and every caveat is one of
    /// the default service caveats.
    pub fn verify(key: &Key, token: &Token) -> (valid: bool)
        ensures
            valid <==> {
                &&& !key.released()
                &&& token@.signed_by(key.bytes())
                &&& forall|i: int|
                    0 <= i < token@.caveats.len() ==> default_caveats().contains(
                        #[trigger] token@.caveats[i],
                    )
            },
    {
        let verifier = Macaroon_Auth::build_verifier();
        proof {
            lemma_first_rejected(verifier, token@.caveats);
        }
        match verifier.verify(key, token) {
            Ok(result) => result.allows(),
            Err(_) => false,
        }
    }
}

/// The service's token engine: what it knows, and its mint.
pub struct Macaroon {
    pub macaroon_auth: Macaroon_Auth,
    pub macaroon_mint: Macaroon_Mint,
}

impl Macaroon {
    /// An engine with nothing trusted and a new mint, or
    /// `EntropyUnavailable` where the mint cannot be seeded.
    pub fn new() -> (engine: Result<Macaroon, AuthError>)
        ensures
            match engine {
                Ok(m) => {
                    &&& !m.macaroon_auth.trusted
                    &&& m.macaroon_auth.untrusted_token is None
                    &&& m.macaroon_auth.new_token is None
                    &&& m.macaroon_mint.issued() == 0
                    &&& m.macaroon_mint.caveats() == default_caveats()
                    &&& exists|seed: Seq<u32>|
                        seed.len() == SEED_WORDS && m.macaroon_mint.stream_state()
                            == #[trigger] seeded_state(seed)
                },
                Err(e) => e == AuthError::EntropyUnavailable,
            },
    {
        match Macaroon_Mint::new() {
            Ok(mint) => Ok(Macaroon { macaroon_auth: Macaroon_Auth::new(), macaroon_mint: mint }),
            Err(e) => Err(e),
        }
    }
}

} // verus!
