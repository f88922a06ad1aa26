//! What holds of minting and verification together.
//!
//! The chain signature is thirty-two bytes long, whatever it is computed
//! over, so two different inputs can share a signature: nothing here rules
//! that out. Where a law needs two signatures to differ, it says so.

use vstd::prelude::*;
use vstd::bytes::{lemma_auto_spec_u64_to_from_le_bytes, spec_u64_to_le_bytes};
use crate::chain::{caveat_tag, chain_signature, lemma_chain_push, root_tag};
use crate::mint::{identifier_of, SERIAL_LEN};
use crate::token::{minted, TokenView};
use crate::verification::{lemma_first_rejected, Verdict, Verifier};

verus! {

/// What a mint signs, the key that signed it authenticates.
pub proof fn lemma_minted_is_signed(key: Seq<u8>, identifier: Seq<u8>, caveats: Seq<Seq<u8>>)
    ensures
        minted(key, identifier, caveats).signed_by(key),
{
}

/// Mint, then verify under the same key: the verdict is never
/// `InvalidSignature`. It is `Valid` where the verifier accepts every caveat
/// of the token, and otherwise names the first caveat that it does not
/// accept.
pub proof fn lemma_mint_verify_round_trip(verifier: Verifier, key: Seq<u8>, token: TokenView)
    requires
        token.signed_by(key),
    ensures
        verifier.verdict(token.signed_by(key), token) != Verdict::InvalidSignature,
        (forall|i: int| 0 <= i < token.caveats.len() ==> verifier.accepts(#[trigger] token.caveats[i]))
            <==> verifier.verdict(token.signed_by(key), token) == Verdict::Valid,
{
    lemma_first_rejected(verifier, token.caveats);
}

/// A token signed by one key, verified under another key that gives its
/// content another signature: the verdict is `InvalidSignature`.
pub proof fn lemma_key_separation(
    verifier: Verifier,
    signing: Seq<u8>,
    other: Seq<u8>,
    token: TokenView,
)
    requires
        token.signed_by(signing),
        other != signing,
        chain_signature(other, token.identifier, token.caveats) != chain_signature(
            signing,
            token.identifier,
            token.caveats,
        ),
    ensures
        verifier.verdict(token.signed_by(other), token) == Verdict::InvalidSignature,
{
}

/// Two different caveats, signed in one order and in the other: the two
/// tokens carry different signatures where the last step of the chain tells
/// the two orders apart.
pub proof fn lemma_order_sensitivity(
    key: Seq<u8>,
    identifier: Seq<u8>,
    first: Seq<u8>,
    second: Seq<u8>,
)
    requires
        first != second,
        caveat_tag(caveat_tag(root_tag(key, identifier), first), second) != caveat_tag(
            caveat_tag(root_tag(key, identifier), second),
            first,
        ),
    ensures
        minted(key, identifier, seq![first, second]).signature != minted(
            key,
            identifier,
            seq![second, first],
        ).signature,
        minted(key, identifier, seq![first, second]).caveats != minted(
            key,
            identifier,
            seq![second, first],
        ).caveats,
{
    let none = Seq::<Seq<u8>>::empty();
    lemma_chain_push(key, identifier, none, first);
    lemma_chain_push(key, identifier, none, second);
    lemma_chain_push(key, identifier, none.push(first), second);
    lemma_chain_push(key, identifier, none.push(second), first);
    assert(none.push(first).push(second) =~= seq![first, second]);
    assert(none.push(second).push(first) =~= seq![second, first]);
    assert(seq![first, second][0] == first);
    assert(seq![second, first][0] == second);
}

/// A signed token whose identifier or caveats are changed while its
/// signature stays: the verdict is `InvalidSignature`, where the key gives
/// the changed content another signature than the content it signed.
pub proof fn lemma_tampering_detected(
    verifier: Verifier,
    key: Seq<u8>,
    token: TokenView,
    tampered: TokenView,
)
    requires
        token.signed_by(key),
        tampered.signature == token.signature,
        tampered.identifier != token.identifier || tampered.caveats != token.caveats,
        chain_signature(key, tampered.identifier, tampered.caveats) != chain_signature(
            key,
            token.identifier,
            token.caveats,
        ),
    ensures
        verifier.verdict(tampered.signed_by(key), tampered) == Verdict::InvalidSignature,
{
}

/// A token with a signature other than the one its key gives it is never
/// judged by its caveats: whatever they say, the verdict is
/// `InvalidSignature`.
pub proof fn lemma_forged_caveats_not_evaluated(verifier: Verifier, token: TokenView)
    ensures
        verifier.verdict(false, token) == Verdict::InvalidSignature,
{
}

/// Identifiers with different serial numbers differ, whatever random bytes
/// follow the number.
pub proof fn lemma_identifiers_distinct(
    serial: u64,
    nonce: Seq<u8>,
    other_serial: u64,
    other_nonce: Seq<u8>,
)
    requires
        serial != other_serial,
    ensures
        identifier_of(serial, nonce) != identifier_of(other_serial, other_nonce),
{
    lemma_auto_spec_u64_to_from_le_bytes();
    assert(identifier_of(serial, nonce).take(SERIAL_LEN as int) =~= spec_u64_to_le_bytes(serial));
    assert(identifier_of(other_serial, other_nonce).take(SERIAL_LEN as int)
        =~= spec_u64_to_le_bytes(other_serial));
    lemma_serials_distinct(
        identifier_of(serial, nonce),
        serial,
        identifier_of(other_serial, other_nonce),
        other_serial,
    );
}

/// Two identifiers that one mint gave out, at different counts of tokens
/// issued, differ: no two tokens of a mint share an identifier.
pub proof fn lemma_serials_distinct(
    identifier: Seq<u8>,
    issued: u64,
    other: Seq<u8>,
    other_issued: u64,
)
    requires
        identifier.take(SERIAL_LEN as int) == spec_u64_to_le_bytes(issued),
        other.take(SERIAL_LEN as int) == spec_u64_to_le_bytes(other_issued),
        issued != other_issued,
    ensures
        identifier != other,
{
    lemma_auto_spec_u64_to_from_le_bytes();
}

/// A caveat added to a token that a key signed gives a token that the same
/// key signed: a holder can narrow a token without the key.
pub proof fn lemma_add_caveat_keeps_signed(key: Seq<u8>, token: TokenView, caveat: Seq<u8>)
    requires
        token.signed_by(key),
    ensures
        (TokenView {
            identifier: token.identifier,
            caveats: token.caveats.push(caveat),
            signature: caveat_tag(token.signature, caveat),
        }).signed_by(key),
{
    lemma_chain_push(key, token.identifier, token.caveats, caveat);
}

/// The verdict depends on the rules only through what they accept: their
/// order, and rules held twice, change nothing.
pub proof fn lemma_rules_as_a_set(
    verifier: Verifier,
    other: Verifier,
    authentic: bool,
    token: TokenView,
)
    requires
        forall|caveat: Seq<u8>| verifier.accepts(caveat) == other.accepts(caveat),
    ensures
        verifier.verdict(authentic, token) == other.verdict(authentic, token),
{
    lemma_same_first_rejected(verifier, other, token.caveats);
}

proof fn lemma_same_first_rejected(verifier: Verifier, other: Verifier, caveats: Seq<Seq<u8>>)
    requires
        forall|caveat: Seq<u8>| verifier.accepts(caveat) == other.accepts(caveat),
    ensures
        verifier.first_rejected(caveats) == other.first_rejected(caveats),
    decreases caveats.len(),
{
    if caveats.len() > 0 {
        lemma_same_first_rejected(verifier, other, caveats.drop_first());
    }
}

} // verus!
