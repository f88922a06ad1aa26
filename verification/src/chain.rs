//! The chain signature, and the calls that compute it step by step.

use vstd::prelude::*;
use macaroons::token::Token;
use macaroons::v1::V1Token;
use crate::caveat::{predicates, Caveat};

verus! {

/// Number of bytes in a chain signature.
pub const TAG_LEN: usize = 32;

/// The signature that `macaroons::v1::V1Token::new` gives a token without
/// caveats, as a function of the root key and the token's identifier.
pub uninterp spec fn root_tag(key: Seq<u8>, identifier: Seq<u8>) -> Seq<u8>;

/// The signature that `macaroons::v1::V1Token::add_caveat` gives a token
/// after a first-party caveat, as a function of the signature before it and
/// the caveat's predicate.
pub uninterp spec fn caveat_tag(tag: Seq<u8>, predicate: Seq<u8>) -> Seq<u8>;

/// The chain signature of an identifier and its caveats under a key: the
/// root signature of the identifier, folded over the caveats in order.
pub open spec fn chain_signature(key: Seq<u8>, identifier: Seq<u8>, caveats: Seq<Seq<u8>>) -> Seq<u8>
    decreases caveats.len(),
{
    if caveats.len() == 0 {
        root_tag(key, identifier)
    } else {
        caveat_tag(chain_signature(key, identifier, caveats.drop_last()), caveats.last())
    }
}

/// Calls `macaroons::v1::V1Token::new` with no location and hands back the
/// new token's signature. The signature depends on the key and the
/// identifier alone.
#[verifier::external_body]
pub(crate) fn sign_identifier(key: &[u8], identifier: &[u8]) -> (tag: [u8; 32])
    ensures
        tag@ == root_tag(key@, identifier@),
{
    V1Token::new(key, identifier.to_vec(), None).tag
}

/// Calls `macaroons::v1::V1Token::add_caveat` with a first-party caveat on
/// a token that carries the signature `tag`, and hands back the signature of
/// the token that results. That signature depends on `tag` and the
/// predicate alone.
#[verifier::external_body]
pub(crate) fn sign_caveat(tag: &[u8; 32], predicate: &[u8]) -> (next: [u8; 32])
    ensures
        next@ == caveat_tag(tag@, predicate@),
{
    let before = V1Token { identifier: Vec::new(), location: None, caveats: Vec::new(), tag: *tag };
    before.add_caveat(&macaroons::caveat::Caveat::first_party(predicate.to_vec())).tag
}

/// Calls `macaroons::v1::V1Token::authenticate_without_verifying` on a token
/// with the identifier, the first-party caveats and the signature given.
/// That function signs the identifier anew, adds the caveats in order, and
/// compares the signature it arrives at with the one presented, in time that
/// does not depend on where the two differ. The result says whether they are
/// equal.
#[verifier::external_body]
pub(crate) fn chain_authentic(
    key: &[u8],
    identifier: &[u8],
    caveats: &Vec<Caveat>,
    tag: &[u8; 32],
) -> (authentic: bool)
    ensures
        authentic == (chain_signature(key@, identifier@, predicates(caveats@)) == tag@),
{
    let caveats = caveats.iter().map(
        |c| macaroons::caveat::Caveat::first_party(c.predicate.clone()),
    ).collect();
    let presented = V1Token { identifier: identifier.to_vec(), location: None, caveats, tag: *tag };
    presented.authenticate_without_verifying(key).is_ok()
}

/// The chain signature grows by one step with each caveat added.
pub proof fn lemma_chain_push(key: Seq<u8>, identifier: Seq<u8>, caveats: Seq<Seq<u8>>, caveat: Seq<u8>)
    ensures
        chain_signature(key, identifier, caveats.push(caveat)) == caveat_tag(
            chain_signature(key, identifier, caveats),
            caveat,
        ),
{
    assert(caveats.push(caveat).drop_last() =~= caveats);
}

} // verus!
