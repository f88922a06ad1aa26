//! Random bytes for keys and nonces: a keyed stream generator, seeded once
//! from the operating system's entropy source.

use vstd::prelude::*;
use rand::chacha::ChaChaRng;
use rand::os::OsRng;
use rand::{Rng, SeedableRng};
use crate::error::AuthError;

verus! {

/// Number of 32-bit words of entropy that seed a stream.
pub const SEED_WORDS: usize = 8;

/// `rand::os::OsRng`, the operating system's entropy source, as a value that
/// is carried and not looked into.
#[verifier::external_type_specification]
#[verifier::external_body]
pub struct ExOsRng(OsRng);

/// `rand::chacha::ChaChaRng`, the keyed stream generator, as a value that is
/// carried and not looked into.
#[verifier::external_type_specification]
#[verifier::external_body]
pub struct ExChaChaRng(ChaChaRng);

/// `std::io::Error`, with which the entropy source and the memory map report
/// failure. Only that it came back is used.
#[verifier::external_type_specification]
#[verifier::external_body]
pub struct ExIoError(std::io::Error);

/// Calls `rand::os::OsRng::new`, which opens the operating system's entropy
/// source and fails where it cannot. Nothing is claimed of the result.
#[verifier::external_body]
fn open_entropy() -> (source: Result<OsRng, std::io::Error>) {
    OsRng::new()
}

/// Calls `rand::Rng::next_u32` on the operating system's source. Nothing is
/// claimed of the word that comes back. Should the system refuse the read
/// after the source has been opened, the call does not return.
#[verifier::external_body]
fn entropy_word(source: &mut OsRng) -> (word: u32) {
    source.next_u32()
}

/// What a generator holds, as plain words: its key and block counter, the
/// block of output it computed last, and how far into that block it has
/// read. Two generators that hold the same behave the same.
pub uninterp spec fn stream_state(stream: ChaChaRng) -> Seq<u32>;

/// What `rand::SeedableRng::from_seed` makes of a seed: the state of the
/// `rand::chacha::ChaChaRng` that it returns, as a function of the seed.
pub uninterp spec fn seeded_state(seed: Seq<u32>) -> Seq<u32>;

/// What `rand::Rng::fill_bytes` does with a `rand::chacha::ChaChaRng` in a
/// given state and a buffer of `n` bytes: the bytes that it writes, and the
/// state in which it leaves the generator.
pub uninterp spec fn fill_result(state: Seq<u32>, n: nat) -> (Seq<u8>, Seq<u32>);

/// Calls `rand::SeedableRng::from_seed` for `rand::chacha::ChaChaRng`, which
/// takes a seed of any length. The generator starts in the state that the
/// seed determines: the function reads nothing but the seed.
#[verifier::external_body]
fn seeded_stream(seed: &[u32]) -> (stream: ChaChaRng)
    ensures
        stream_state(stream) == seeded_state(seed@),
{
    ChaChaRng::from_seed(seed)
}

/// Calls `rand::Rng::fill_bytes` on a buffer of `n` bytes and hands the
/// buffer back. The generator computes its output from its own state alone:
/// the bytes, `n` of them, and the state afterwards are those that the state
/// before and `n` determine.
#[verifier::external_body]
fn stream_bytes(stream: &mut ChaChaRng, n: usize) -> (out: Vec<u8>)
    ensures
        out@.len() == n,
        out@ == fill_result(stream_state(*old(stream)), n as nat).0,
        stream_state(*final(stream)) == fill_result(stream_state(*old(stream)), n as nat).1,
{
    let mut out = vec![0u8; n];
    stream.fill_bytes(&mut out);
    out
}

/// A stream of random bytes. Each stream serves one purpose: the stream that
/// makes a key is never the stream that makes nonces.
pub struct RandomSource {
    stream: ChaChaRng,
}

impl RandomSource {
    /// The state of the stream: what decides every byte that is still to
    /// come.
    pub closed spec fn state(&self) -> Seq<u32> {
        stream_state(self.stream)
    }

    /// A stream seeded with `SEED_WORDS` words of fresh entropy from the
    /// operating system, or `EntropyUnavailable` where its source cannot be
    /// opened. Which of the two comes back, and which words, is for the
    /// system to decide.
    pub fn new() -> (source: Result<RandomSource, AuthError>)
        ensures
            match source {
                Ok(s) => exists|seed: Seq<u32>|
                    seed.len() == SEED_WORDS && s.state() == #[trigger] seeded_state(seed),
                Err(e) => e == AuthError::EntropyUnavailable,
            },
    {
        match open_entropy() {
            Ok(mut entropy) => {
                let mut seed: Vec<u32> = Vec::new();
                let mut i: usize = 0;
                while i < SEED_WORDS
                    invariant
                        i <= SEED_WORDS,
                        seed.len() == i,
                    decreases SEED_WORDS - i,
                {
                    seed.push(entropy_word(&mut entropy));
                    i = i + 1;
                }
                Ok(RandomSource::from_seed(seed.as_slice()))
            },
            Err(_) => Err(AuthError::EntropyUnavailable),
        }
    }

    /// The stream that a given seed determines, with nothing drawn from it
    /// yet.
    pub fn from_seed(seed: &[u32]) -> (source: RandomSource)
        ensures
            source.state() == seeded_state(seed@),
    {
        RandomSource { stream: seeded_stream(seed) }
    }

    /// The next `n` bytes of the stream. The state before decides them, and
    /// decides the state after.
    pub fn bytes(&mut self, n: usize) -> (out: Vec<u8>)
        ensures
            out@.len() == n,
            out@ == fill_result(old(self).state(), n as nat).0,
            final(self).state() == fill_result(old(self).state(), n as nat).1,
    {
        stream_bytes(&mut self.stream, n)
    }
}

} // verus!
