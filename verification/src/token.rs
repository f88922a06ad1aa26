//! Tokens, and how a key signs them.

use vstd::prelude::*;
use vstd::slice::slice_to_vec;
use crate::caveat::{predicates, Caveat};
use crate::chain::{
    caveat_tag, chain_authentic, chain_signature, lemma_chain_push, root_tag, sign_caveat,
    sign_identifier,
};

verus! {

/// A bearer credential: an identifier, the caveats that restrict it, in
/// order, and the chain signature that binds both to a root key.
///
/// A token is a value. Adding a caveat gives a new token and leaves the old
/// one as it was.
#[derive(Debug, PartialEq, Eq)]
pub struct Token {
    pub identifier: Vec<u8>,
    pub caveats: Vec<Caveat>,
    pub signature: [u8; 32],
}

/// What a token holds, as mathematical sequences.
pub struct TokenView {
    pub identifier: Seq<u8>,
    pub caveats: Seq<Seq<u8>>,
    pub signature: Seq<u8>,
}

impl View for Token {
    type V = TokenView;

    open spec fn view(&self) -> TokenView {
        TokenView {
            identifier: self.identifier@,
            caveats: predicates(self.caveats@),
            signature: self.signature@,
        }
    }
}

/// The token that a key signs for an identifier and caveats.
pub open spec fn minted(key: Seq<u8>, identifier: Seq<u8>, caveats: Seq<Seq<u8>>) -> TokenView {
    TokenView { identifier, caveats, signature: chain_signature(key, identifier, caveats) }
}

impl TokenView {
    /// Whether the signature is the chain signature of the identifier and
    /// the caveats under `key`.
    pub open spec fn signed_by(self, key: Seq<u8>) -> bool {
        self.signature == chain_signature(key, self.identifier, self.caveats)
    }
}

impl Token {
    /// The token without caveats that `key` signs for `identifier`.
    pub fn new(key: &[u8], identifier: Vec<u8>) -> (token: Token)
        ensures
            token@ == (TokenView {
                identifier: identifier@,
                caveats: Seq::empty(),
                signature: root_tag(key@, identifier@),
            }),
    {
        let signature = sign_identifier(key, identifier.as_slice());
        let token = Token { identifier, caveats: Vec::new(), signature };
        proof {
            assert(token@.caveats =~= Seq::empty());
        }
        token
    }

    /// This token with one more caveat at the end, and the signature that
    /// follows from this token's signature and the caveat.
    pub fn add_caveat(&self, caveat: &Caveat) -> (token: Token)
        ensures
            token@ == (TokenView {
                identifier: self@.identifier,
                caveats: self@.caveats.push(caveat@),
                signature: caveat_tag(self@.signature, caveat@),
            }),
    {
        let signature = sign_caveat(&self.signature, caveat.predicate.as_slice());
        let mut caveats = clone_caveats(&self.caveats);
        caveats.push(caveat.clone());
        let token = Token {
            identifier: slice_to_vec(self.identifier.as_slice()),
            caveats,
            signature,
        };
        proof {
            assert(token@.caveats =~= self@.caveats.push(caveat@));
        }
        token
    }
}

impl Token {
    /// The token that `key` signs for `identifier` and `caveats`: the caveats
    /// are added in the order given.
    pub fn with_caveats(key: &[u8], identifier: Vec<u8>, caveats: &Vec<Caveat>) -> (token: Token)
        ensures
            token@ == minted(key@, identifier@, predicates(caveats@)),
    {
        let ghost all = predicates(caveats@);
        let mut signature = sign_identifier(key, identifier.as_slice());
        let mut i: usize = 0;
        proof {
            assert(all.take(0) =~= Seq::<Seq<u8>>::empty());
        }
        while i < caveats.len()
            invariant
                i <= caveats.len(),
                all == predicates(caveats@),
                signature@ == chain_signature(key@, identifier@, all.take(i as int)),
            decreases caveats.len() - i,
        {
            proof {
                lemma_chain_push(key@, identifier@, all.take(i as int), all[i as int]);
                assert(all.take(i as int).push(all[i as int]) =~= all.take(i + 1));
            }
            signature = sign_caveat(&signature, caveats[i].predicate.as_slice());
            i = i + 1;
        }
        proof {
            assert(all.take(i as int) =~= all);
        }
        Token { identifier, caveats: clone_caveats(caveats), signature }
    }

    /// Whether the signature is the one that `key` gives the identifier and
    /// the caveats of this token.
    pub fn authenticate(&self, key: &[u8]) -> (authentic: bool)
        ensures
            authentic == self@.signed_by(key@),
    {
        chain_authentic(key, self.identifier.as_slice(), &self.caveats, &self.signature)
    }
}

impl Clone for Token {
    fn clone(&self) -> (copy: Token)
        ensures
            copy@ == self@,
    {
        Token {
            identifier: slice_to_vec(self.identifier.as_slice()),
            caveats: clone_caveats(&self.caveats),
            signature: self.signature,
        }
    }
}

/// A copy of a list of caveats.
pub fn clone_caveats(caveats: &Vec<Caveat>) -> (copy: Vec<Caveat>)
    ensures
        predicates(copy@) == predicates(caveats@),
{
    let mut copy: Vec<Caveat> = Vec::new();
    let mut i: usize = 0;
    while i < caveats.len()
        invariant
            i <= caveats.len(),
            copy.len() == i,
            forall|j: int| 0 <= j < i ==> copy[j]@ == caveats[j]@,
        decreases caveats.len() - i,
    {
        copy.push(caveats[i].clone());
        i = i + 1;
    }
    proof {
        assert(predicates(copy@) =~= predicates(caveats@));
    }
    copy
}

} // verus!
