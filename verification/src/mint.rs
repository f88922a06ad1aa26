//! Minting: a fresh identifier for every token, and the chain signature
//! over the identifier and the caveats.

use vstd::prelude::*;
use vstd::bytes::{lemma_auto_spec_u64_to_from_le_bytes, spec_u64_to_le_bytes, u64_to_le_bytes};
use vstd::slice::slice_to_vec;
use crate::caveat::{predicates, Caveat};
use crate::config::{default_config, ServiceConfig};
use crate::error::AuthError;
use crate::key::Key;
use crate::random::{fill_result, seeded_state, RandomSource, SEED_WORDS};
use crate::token::{minted, Token};
use crate::wire::IDENTIFIER_LEN;

verus! {

/// Number of bytes at the front of an identifier that hold the mint's count
/// of tokens issued, least significant byte first.
pub const SERIAL_LEN: usize = 8;

/// Number of random bytes behind the count.
pub const NONCE_LEN: usize = 504;

/// The identifier of the token with a given serial number: the number, then
/// the random bytes drawn for it.
///
/// Two tokens of one mint never share an identifier, since they never share
/// a serial number. Tokens of two mints that share a key collide only where
/// the serial numbers agree and the `NONCE_LEN` random bytes agree as well;
/// the streams of two mints are seeded apart, with 256 bits of entropy each,
/// so that for two given tokens this happens with a probability of about
/// 2^-256.
pub open spec fn identifier_of(serial: u64, nonce: Seq<u8>) -> Seq<u8> {
    spec_u64_to_le_bytes(serial) + nonce
}

/// The caveats that name the service by default.
pub open spec fn default_caveats() -> Seq<Seq<u8>> {
    default_config().caveats()
}

/// Issues tokens. The mint owns the stream that its nonces come from; no
/// other part of the program draws from it.
#[allow(non_camel_case_types)]
pub struct Macaroon_Mint {
    stream: RandomSource,
    issued: u64,
    caveats: Vec<Caveat>,
}

impl Macaroon_Mint {
    /// Number of identifiers that the mint has given out.
    pub closed spec fn issued(&self) -> nat {
        self.issued as nat
    }

    /// The caveats that the mint attaches to a service token.
    pub closed spec fn caveats(&self) -> Seq<Seq<u8>> {
        predicates(self.caveats@)
    }

    /// The state of the stream that the mint's nonces come from.
    pub closed spec fn stream_state(&self) -> Seq<u32> {
        self.stream.state()
    }

    /// The identifier that the mint gives out next: its count of identifiers
    /// given out, then the next `NONCE_LEN` bytes of its stream.
    pub open spec fn upcoming_identifier(&self) -> Seq<u8> {
        identifier_of(
            self.issued() as u64,
            fill_result(self.stream_state(), NONCE_LEN as nat).0,
        )
    }

    /// The state of the mint's stream once the next identifier is given out.
    pub open spec fn stream_state_after_issue(&self) -> Seq<u32> {
        fill_result(self.stream_state(), NONCE_LEN as nat).1
    }

    /// A mint with the default service caveats and a nonce stream of its
    /// own, seeded with `SEED_WORDS` words, or `EntropyUnavailable` where the
    /// system grants no seed.
    pub fn new() -> (mint: Result<Macaroon_Mint, AuthError>)
        ensures
            match mint {
                Ok(m) => {
                    &&& m.issued() == 0
                    &&& m.caveats() == default_caveats()
                    &&& exists|seed: Seq<u32>|
                        seed.len() == SEED_WORDS && m.stream_state() == #[trigger] seeded_state(seed)
                },
                Err(e) => e == AuthError::EntropyUnavailable,
            },
    {
        match Macaroon_Mint::nonce_rng() {
            Ok(stream) => Ok(Macaroon_Mint::with_stream(stream, Macaroon_Mint::service_caveats(), 0)),
            Err(e) => Err(e),
        }
    }

    /// A mint that draws its nonces from `stream`, attaches `caveats` to a
    /// service token, and counts on from `issued` identifiers given out.
    pub fn with_stream(stream: RandomSource, caveats: Vec<Caveat>, issued: u64) -> (mint:
        Macaroon_Mint)
        ensures
            mint.issued() == issued,
            mint.caveats() == predicates(caveats@),
            mint.stream_state() == stream.state(),
    {
        Macaroon_Mint { stream, issued, caveats }
    }

    /// Number of identifiers that the mint has given out.
    pub fn tokens_issued(&self) -> (issued: u64)
        ensures
            issued == self.issued(),
    {
        self.issued
    }

    /// A stream for identifiers, seeded for that purpose alone with
    /// `SEED_WORDS` words of fresh entropy, or `EntropyUnavailable` where the
    /// system grants none. It is not to make keys.
    pub fn nonce_rng() -> (stream: Result<RandomSource, AuthError>)
        ensures
            match stream {
                Ok(s) => exists|seed: Seq<u32>|
                    seed.len() == SEED_WORDS && s.state() == #[trigger] seeded_state(seed),
                Err(e) => e == AuthError::EntropyUnavailable,
            },
    {
        RandomSource::new()
    }

    /// The default service caveats, in the order in which they are signed.
    pub fn service_caveats() -> (caveats: Vec<Caveat>)
        ensures
            predicates(caveats@) == default_caveats(),
    {
        ServiceConfig::defaults().caveats()
    }

    /// The identifier with serial number `serial` and the random bytes
    /// `nonce`.
    pub fn identifier(serial: u64, nonce: &[u8]) -> (identifier: Vec<u8>)
        ensures
            identifier@ == identifier_of(serial, nonce@),
    {
        let mut identifier = u64_to_le_bytes(serial);
        let mut tail = slice_to_vec(nonce);
        identifier.append(&mut tail);
        identifier
    }

    /// A fresh identifier: the count of identifiers given out so far, then
    /// the next `NONCE_LEN` bytes of the mint's stream. Once the count has
    /// reached its last value no identifier is left: the result is
    /// `EntropyUnavailable`, and nothing is drawn.
    pub fn next_identifier(&mut self) -> (identifier: Result<Vec<u8>, AuthError>)
        ensures
            final(self).caveats() == old(self).caveats(),
            match identifier {
                Ok(id) => {
                    &&& old(self).issued() < u64::MAX
                    &&& final(self).issued() == old(self).issued() + 1
                    &&& final(self).stream_state() == old(self).stream_state_after_issue()
                    &&& id@ == old(self).upcoming_identifier()
                    &&& id@.len() == IDENTIFIER_LEN
                    &&& id@.take(SERIAL_LEN as int) == spec_u64_to_le_bytes(old(self).issued() as u64)
                },
                Err(e) => {
                    &&& old(self).issued() == u64::MAX
                    &&& final(self).issued() == old(self).issued()
                    &&& final(self).stream_state() == old(self).stream_state()
                    &&& e == AuthError::EntropyUnavailable
                },
            },
    {
        if self.issued == u64::MAX {
            return Err(AuthError::EntropyUnavailable);
        }
        let serial = self.issued;
        let nonce = self.stream.bytes(NONCE_LEN);
        self.issued = serial + 1;
        let identifier = Macaroon_Mint::identifier(serial, nonce.as_slice());
        proof {
            lemma_auto_spec_u64_to_from_le_bytes();
            assert(identifier@.take(SERIAL_LEN as int) =~= spec_u64_to_le_bytes(serial));
        }
        Ok(identifier)
    }

    /// The token that `key` signs for the mint's next identifier and
    /// `caveats`. The key is looked at first: where it has been released the
    /// result is `KeyUnavailable`, no identifier is used up and nothing is
    /// drawn.
    pub fn mint(&mut self, key: &Key, caveats: &Vec<Caveat>) -> (token: Result<Token, AuthError>)
        ensures
            final(self).caveats() == old(self).caveats(),
            match token {
                Ok(t) => {
                    &&& !key.released()
                    &&& old(self).issued() < u64::MAX
                    &&& final(self).issued() == old(self).issued() + 1
                    &&& final(self).stream_state() == old(self).stream_state_after_issue()
                    &&& t@ == minted(
                        key.bytes(),
                        old(self).upcoming_identifier(),
                        predicates(caveats@),
                    )
                    &&& t@.identifier.len() == IDENTIFIER_LEN
                    &&& t@.identifier.take(SERIAL_LEN as int) == spec_u64_to_le_bytes(
                        old(self).issued() as u64,
                    )
                },
                Err(e) => {
                    &&& final(self).issued() == old(self).issued()
                    &&& final(self).stream_state() == old(self).stream_state()
                    &&& if key.released() {
                        e == AuthError::KeyUnavailable
                    } else {
                        old(self).issued() == u64::MAX && e == AuthError::EntropyUnavailable
                    }
                },
            },
    {
        match key.as_slice() {
            Ok(bytes) => match self.next_identifier() {
                Ok(identifier) => Ok(Token::with_caveats(bytes, identifier, caveats)),
                Err(e) => Err(e),
            },
            Err(e) => Err(e),
        }
    }

    /// The token that `key` signs for the mint's next identifier and the
    /// mint's service caveats.
    pub fn mint_service_token(&mut self, key: &Key) -> (token: Result<Token, AuthError>)
        ensures
            final(self).caveats() == old(self).caveats(),
            match token {
                Ok(t) => {
                    &&& !key.released()
                    &&& old(self).issued() < u64::MAX
                    &&& final(self).issued() == old(self).issued() + 1
                    &&& final(self).stream_state() == old(self).stream_state_after_issue()
                    &&& t@ == minted(
                        key.bytes(),
                        old(self).upcoming_identifier(),
                        old(self).caveats(),
                    )
                    &&& t@.identifier.len() == IDENTIFIER_LEN
                    &&& t@.identifier.take(SERIAL_LEN as int) == spec_u64_to_le_bytes(
                        old(self).issued() as u64,
                    )
                },
                Err(e) => {
                    &&& final(self).issued() == old(self).issued()
                    &&& final(self).stream_state() == old(self).stream_state()
                    &&& if key.released() {
                        e == AuthError::KeyUnavailable
                    } else {
                        old(self).issued() == u64::MAX && e == AuthError::EntropyUnavailable
                    }
                },
            },
    {
        let caveats = crate::token::clone_caveats(&self.caveats);
        self.mint(key, &caveats)
    }
}

/// A mint never gives out one identifier twice: at two different counts of
/// identifiers given out, the identifiers that come next differ, whatever its
/// stream yields.
pub proof fn lemma_fresh_identifier(earlier: Macaroon_Mint, later: Macaroon_Mint)
    requires
        earlier.issued() != later.issued(),
    ensures
        earlier.upcoming_identifier() != later.upcoming_identifier(),
{
    crate::laws::lemma_identifiers_distinct(
        earlier.issued() as u64,
        fill_result(earlier.stream_state(), NONCE_LEN as nat).0,
        later.issued() as u64,
        fill_result(later.stream_state(), NONCE_LEN as nat).0,
    );
}

} // verus!
