//! The root secret: a buffer in memory mapped for it alone, filled once and
//! overwritten with zeros when it is released.

use vstd::prelude::*;
use memmap::MmapMut;
use crate::error::AuthError;
use crate::random::{fill_result, seeded_state, RandomSource, SEED_WORDS};

verus! {

/// Number of bytes in a key that the library generates.
pub const KEY_LEN: usize = 512;

/// `memmap::MmapMut`, a writable memory map, as a value that is carried and
/// not looked into.
#[verifier::external_type_specification]
#[verifier::external_body]
pub struct ExMmapMut(MmapMut);

/// The bytes that a memory map holds.
pub uninterp spec fn mapped_bytes(map: MmapMut) -> Seq<u8>;

/// Calls `memmap::MmapMut::map_anon`, which maps `len` bytes of anonymous
/// memory or reports why the system would not. A map that comes back holds
/// `len` bytes.
#[verifier::external_body]
fn map_anonymous(len: usize) -> (map: Result<MmapMut, std::io::Error>)
    ensures
        map matches Ok(m) ==> mapped_bytes(m).len() == len,
{
    MmapMut::map_anon(len)
}

/// Borrows the map as a slice through `Deref` of `memmap::MmapMut`: the bytes
/// that the map holds.
#[verifier::external_body]
fn mapped_slice(map: &MmapMut) -> (bytes: &[u8])
    ensures
        bytes@ == mapped_bytes(*map),
{
    &map[..]
}

/// Borrows the map as a mutable slice through `DerefMut` of
/// `memmap::MmapMut`: the slice holds the bytes of the map, and what is
/// written to the slice is what the map holds afterwards, as many bytes as
/// before. The call does not unwind.
#[verifier::external_body]
fn mapped_slice_mut(map: &mut MmapMut) -> (bytes: &mut [u8])
    ensures
        bytes@ == mapped_bytes(*old(map)),
        mapped_bytes(*final(map)) == final(bytes)@,
        mapped_bytes(*final(map)).len() == mapped_bytes(*old(map)).len(),
    opens_invariants none
    no_unwind
{
    &mut map[..]
}

/// The key store. It hands its bytes to the mint and the verifier of this
/// library and to nobody else.
pub struct Key {
    key: MmapMut,
    len: usize,
    released: bool,
}

impl Key {
    /// The store knows how many bytes it holds.
    #[verifier::type_invariant]
    spec fn len_is_known(&self) -> bool {
        self.len == mapped_bytes(self.key).len()
    }

    /// The bytes that the store holds.
    pub closed spec fn bytes(&self) -> Seq<u8> {
        mapped_bytes(self.key)
    }

    /// Whether the store has been released.
    pub closed spec fn released(&self) -> bool {
        self.released
    }

    /// A store with `KEY_LEN` bytes of fresh key material: the first bytes of
    /// a stream of its own, seeded with `SEED_WORDS` words. Memory is asked
    /// for first: where the system grants none the result is
    /// `AllocationFailed`, and where it then grants no entropy,
    /// `EntropyUnavailable`.
    pub fn new() -> (key: Result<Key, AuthError>)
        ensures
            match key {
                Ok(k) => {
                    &&& !k.released()
                    &&& k.bytes().len() == KEY_LEN
                    &&& exists|seed: Seq<u32>|
                        seed.len() == SEED_WORDS && k.bytes() == fill_result(
                            #[trigger] seeded_state(seed),
                            KEY_LEN as nat,
                        ).0
                },
                Err(e) => e == AuthError::AllocationFailed || e == AuthError::EntropyUnavailable,
            },
    {
        match map_anonymous(KEY_LEN) {
            Ok(map) => Key::fill(map, RandomSource::new()),
            Err(_) => Err(AuthError::AllocationFailed),
        }
    }

    /// The store over `map` with the first bytes of `stream` as its key, or
    /// the error with which the stream could not be had.
    fn fill(map: MmapMut, stream: Result<RandomSource, AuthError>) -> (key: Result<Key, AuthError>)
        requires
            mapped_bytes(map).len() == KEY_LEN,
        ensures
            match stream {
                Ok(s) => key matches Ok(k) && !k.released() && k.bytes().len() == KEY_LEN
                    && k.bytes() == fill_result(s.state(), KEY_LEN as nat).0,
                Err(e) => key matches Err(error) && error == e,
            },
    {
        match stream {
            Ok(mut stream) => {
                let material = stream.bytes(KEY_LEN);
                Ok(Key::seal(map, material.as_slice()))
            },
            Err(e) => Err(e),
        }
    }

    /// A store that holds a copy of `material`, or `AllocationFailed` where
    /// the system grants no memory for it.
    pub fn from_material(material: &[u8]) -> (key: Result<Key, AuthError>)
        ensures
            match key {
                Ok(k) => k.bytes() == material@ && !k.released(),
                Err(e) => e == AuthError::AllocationFailed,
            },
    {
        match map_anonymous(material.len()) {
            Ok(map) => Ok(Key::seal(map, material)),
            Err(_) => Err(AuthError::AllocationFailed),
        }
    }

    /// The store over `map`, once `material` is copied into it.
    fn seal(map: MmapMut, material: &[u8]) -> (key: Key)
        requires
            mapped_bytes(map).len() == material@.len(),
        ensures
            key.bytes() == material@,
            !key.released(),
    {
        let mut map = map;
        let bytes = mapped_slice_mut(&mut map);
        let mut i: usize = 0;
        while i < material.len()
            invariant
                i <= material.len(),
                bytes@.len() == material@.len(),
                forall|j: int| 0 <= j < i ==> bytes@[j] == material@[j],
            decreases material.len() - i,
        {
            bytes[i] = material[i];
            i = i + 1;
        }
        proof {
            assert(bytes@ =~= material@);
        }
        Key { key: map, len: material.len(), released: false }
    }

    /// Whether the store has been released.
    pub fn is_released(&self) -> (released: bool)
        ensures
            released == self.released(),
    {
        self.released
    }

    /// Number of bytes in the store.
    pub fn len(&self) -> (len: usize)
        ensures
            len == self.bytes().len(),
    {
        proof {
            use_type_invariant(self);
        }
        self.len
    }

    /// The key for reading, or `KeyUnavailable` once the store is released.
    pub(crate) fn as_slice(&self) -> (view: Result<&[u8], AuthError>)
        ensures
            match view {
                Ok(bytes) => !self.released() && bytes@ == self.bytes(),
                Err(e) => self.released() && e == AuthError::KeyUnavailable,
            },
    {
        if self.released {
            Err(AuthError::KeyUnavailable)
        } else {
            Ok(mapped_slice(&self.key))
        }
    }

    /// Overwrites the key with zeros and marks the store released. A store
    /// that is released stays so.
    pub fn release(&mut self)
        ensures
            final(self).released(),
            final(self).bytes() == zeros(old(self).bytes().len()),
        opens_invariants none
        no_unwind
    {
        proof {
            use_type_invariant(&*self);
        }
        let len = self.len;
        let bytes = mapped_slice_mut(&mut self.key);
        let mut i: usize = 0;
        while i < len
            invariant
                i <= len,
                bytes@.len() == len,
                forall|j: int| 0 <= j < i ==> bytes@[j] == 0u8,
            decreases len - i,
        {
            bytes[i] = 0u8;
            i = i + 1;
        }
        proof {
            assert(bytes@ =~= zeros(len as nat));
        }
        self.released = true;
    }
}

impl Drop for Key {
    /// A store that goes out of use is released first.
    fn drop(&mut self)
        opens_invariants none
        no_unwind
    {
        self.release();
    }
}

/// `len` zero bytes.
pub open spec fn zeros(len: nat) -> Seq<u8> {
    Seq::new(len, |i: int| 0u8)
}

} // verus!
