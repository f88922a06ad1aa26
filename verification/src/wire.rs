//! The transport form of a token: the identifier, the number of caveats,
//! each caveat behind its length, and the signature. Counts and lengths are
//! four bytes, least significant first.

use vstd::prelude::*;
use vstd::bytes::{spec_u32_from_le_bytes, spec_u32_to_le_bytes, u32_from_le_bytes, u32_to_le_bytes, lemma_auto_spec_u32_to_from_le_bytes};
use vstd::slice::{slice_subrange, slice_to_vec};
use crate::caveat::{predicates, Caveat};
use crate::chain::TAG_LEN;
use crate::error::AuthError;
use crate::token::{Token, TokenView};

verus! {

/// Number of bytes in a token's identifier.
pub const IDENTIFIER_LEN: usize = 512;

/// Number of bytes in a count or a length.
pub const PREFIX_LEN: usize = 4;

/// The caveats one after another, each behind its length.
pub open spec fn encode_caveats(caveats: Seq<Seq<u8>>) -> Seq<u8>
    decreases caveats.len(),
{
    if caveats.len() == 0 {
        Seq::empty()
    } else {
        spec_u32_to_le_bytes(caveats.first().len() as u32) + caveats.first() + encode_caveats(
            caveats.drop_first(),
        )
    }
}

/// The transport form of a token.
pub open spec fn encoding(token: TokenView) -> Seq<u8> {
    token.identifier + spec_u32_to_le_bytes(token.caveats.len() as u32) + encode_caveats(
        token.caveats,
    ) + token.signature
}

/// Whether a token has a transport form: its identifier and signature have
/// their fixed lengths, the number of caveats and the length of each fit in
/// four bytes, and the whole fits in memory.
pub open spec fn encodable(token: TokenView) -> bool {
    &&& token.identifier.len() == IDENTIFIER_LEN
    &&& token.signature.len() == TAG_LEN
    &&& token.caveats.len() <= u32::MAX
    &&& forall|i: int| 0 <= i < token.caveats.len() ==> (#[trigger] token.caveats[i]).len() <= u32::MAX
    &&& encoding(token).len() <= usize::MAX
}

/// Reads `count` caveats from the front of `bytes`: the caveats and the
/// bytes behind them, or `None` where a length runs past the end.
pub open spec fn decode_caveats(bytes: Seq<u8>, count: nat) -> Option<(Seq<Seq<u8>>, Seq<u8>)>
    decreases count,
{
    if count == 0 {
        Some((Seq::empty(), bytes))
    } else if bytes.len() < PREFIX_LEN {
        None
    } else {
        let len = spec_u32_from_le_bytes(bytes.take(PREFIX_LEN as int)) as int;
        if bytes.len() - PREFIX_LEN < len {
            None
        } else {
            match decode_caveats(bytes.skip(PREFIX_LEN + len), (count - 1) as nat) {
                Some((caveats, rest)) => Some(
                    (seq![bytes.subrange(PREFIX_LEN as int, PREFIX_LEN + len)] + caveats, rest),
                ),
                None => None,
            }
        }
    }
}

/// The token that `bytes` is the transport form of, or `None` where there is
/// none: the buffer is too short for an identifier and a count, a declared
/// length runs past its end, or what follows the caveats is not exactly a
/// signature.
pub open spec fn decoding(bytes: Seq<u8>) -> Option<TokenView> {
    if bytes.len() < IDENTIFIER_LEN + PREFIX_LEN {
        None
    } else {
        let count = spec_u32_from_le_bytes(
            bytes.subrange(IDENTIFIER_LEN as int, IDENTIFIER_LEN + PREFIX_LEN),
        );
        match decode_caveats(bytes.skip(IDENTIFIER_LEN + PREFIX_LEN), count as nat) {
            Some((caveats, rest)) => if rest.len() == TAG_LEN {
                Some(
                    TokenView {
                        identifier: bytes.take(IDENTIFIER_LEN as int),
                        caveats,
                        signature: rest,
                    },
                )
            } else {
                None
            },
            None => None,
        }
    }
}

/// The result of reading further caveats, behind caveats already read.
pub open spec fn behind(
    done: Seq<Seq<u8>>,
    further: Option<(Seq<Seq<u8>>, Seq<u8>)>,
) -> Option<(Seq<Seq<u8>>, Seq<u8>)> {
    match further {
        Some((caveats, rest)) => Some((done + caveats, rest)),
        None => None,
    }
}

impl Token {
    /// The transport form of this token, or `MalformedToken` where it has
    /// none.
    pub fn serialize(&self) -> (result: Result<Vec<u8>, AuthError>)
        ensures
            match result {
                Ok(bytes) => encodable(self@) && bytes@ == encoding(self@),
                Err(e) => !encodable(self@) && e == AuthError::MalformedToken,
            },
    {
        proof {
            lemma_auto_spec_u32_to_from_le_bytes();
        }
        if self.identifier.len() != IDENTIFIER_LEN || self.caveats.len() > u32::MAX as usize {
            return Err(AuthError::MalformedToken);
        }
        let ghost all = self@.caveats;
        let mut out = slice_to_vec(self.identifier.as_slice());
        let mut count = u32_to_le_bytes(self.caveats.len() as u32);
        out.append(&mut count);
        proof {
            assert(all.take(0) =~= Seq::<Seq<u8>>::empty());
            assert(out@ =~= self@.identifier + spec_u32_to_le_bytes(all.len() as u32)
                + encode_caveats(all.take(0)));
        }
        let mut i: usize = 0;
        while i < self.caveats.len()
            invariant
                i <= self.caveats.len(),
                all == self@.caveats,
                all.len() == self.caveats.len(),
                self@.identifier.len() == IDENTIFIER_LEN,
                out@ == self@.identifier + spec_u32_to_le_bytes(all.len() as u32) + encode_caveats(
                    all.take(i as int),
                ),
                out.len() + TAG_LEN <= usize::MAX,
                forall|j: int| 0 <= j < i ==> (#[trigger] all[j]).len() <= u32::MAX,
            decreases self.caveats.len() - i,
        {
            let predicate = &self.caveats[i].predicate;
            proof {
                lemma_auto_spec_u32_to_from_le_bytes();
                assert(all[i as int] == predicate@);
                assert(all.take(i + 1) =~= all.take(i as int) + seq![predicate@]);
                assert(all =~= all.take(i + 1) + all.skip(i + 1));
                lemma_encode_concat(all.take(i as int), seq![predicate@]);
                lemma_encode_concat(all.take(i + 1), all.skip(i + 1));
                lemma_encode_one(predicate@);
            }
            if predicate.len() > u32::MAX as usize {
                return Err(AuthError::MalformedToken);
            }
            let room = usize::MAX - TAG_LEN - out.len();
            if room < PREFIX_LEN || room - PREFIX_LEN < predicate.len() {
                return Err(AuthError::MalformedToken);
            }
            let mut prefix = u32_to_le_bytes(predicate.len() as u32);
            out.append(&mut prefix);
            let mut body = slice_to_vec(predicate.as_slice());
            out.append(&mut body);
            i = i + 1;
            proof {
                assert(out@ =~= self@.identifier + spec_u32_to_le_bytes(all.len() as u32)
                    + encode_caveats(all.take(i as int)));
            }
        }
        let mut signature = slice_to_vec(self.signature.as_slice());
        out.append(&mut signature);
        proof {
            assert(all.take(i as int) =~= all);
            assert(out@ =~= encoding(self@));
        }
        Ok(out)
    }

    /// The token that `bytes` is the transport form of, or `MalformedToken`
    /// where it is the form of none.
    pub fn deserialize(bytes: &[u8]) -> (result: Result<Token, AuthError>)
        ensures
            match result {
                Ok(token) => decoding(bytes@) == Some(token@),
                Err(e) => decoding(bytes@) is None && e == AuthError::MalformedToken,
            },
    {
        if bytes.len() < IDENTIFIER_LEN + PREFIX_LEN {
            return Err(AuthError::MalformedToken);
        }
        let identifier = slice_to_vec(slice_subrange(bytes, 0, IDENTIFIER_LEN));
        let count = u32_from_le_bytes(
            slice_subrange(bytes, IDENTIFIER_LEN, IDENTIFIER_LEN + PREFIX_LEN),
        );
        let ghost body = bytes@.skip(IDENTIFIER_LEN + PREFIX_LEN);
        let mut caveats: Vec<Caveat> = Vec::new();
        let mut pos: usize = IDENTIFIER_LEN + PREFIX_LEN;
        let mut read: u32 = 0;
        proof {
            assert(predicates(caveats@) =~= Seq::<Seq<u8>>::empty());
            let whole = decode_caveats(body, count as nat);
            if whole is Some {
                assert(Seq::<Seq<u8>>::empty() + whole->Some_0.0 =~= whole->Some_0.0);
            }
        }
        while read < count
            invariant
                IDENTIFIER_LEN + PREFIX_LEN <= pos <= bytes.len(),
                read <= count,
                body == bytes@.skip(IDENTIFIER_LEN + PREFIX_LEN),
                count == spec_u32_from_le_bytes(
                    bytes@.subrange(IDENTIFIER_LEN as int, IDENTIFIER_LEN + PREFIX_LEN),
                ),
                decode_caveats(body, count as nat) == behind(
                    predicates(caveats@),
                    decode_caveats(bytes@.skip(pos as int), (count - read) as nat),
                ),
            decreases count - read,
        {
            let ghost here = bytes@.skip(pos as int);
            let ghost done = predicates(caveats@);
            if bytes.len() - pos < PREFIX_LEN {
                return Err(AuthError::MalformedToken);
            }
            let len = u32_from_le_bytes(slice_subrange(bytes, pos, pos + PREFIX_LEN)) as usize;
            proof {
                assert(here.take(PREFIX_LEN as int) =~= bytes@.subrange(
                    pos as int,
                    pos + PREFIX_LEN,
                ));
            }
            if bytes.len() - pos - PREFIX_LEN < len {
                return Err(AuthError::MalformedToken);
            }
            let predicate = slice_to_vec(
                slice_subrange(bytes, pos + PREFIX_LEN, pos + PREFIX_LEN + len),
            );
            proof {
                let further = decode_caveats(
                    bytes@.skip(pos + PREFIX_LEN + len),
                    (count - read - 1) as nat,
                );
                assert(here.subrange(PREFIX_LEN as int, PREFIX_LEN + len) =~= predicate@);
                assert(here.skip(PREFIX_LEN + len) =~= bytes@.skip(pos + PREFIX_LEN + len));
                assert(predicates(caveats@.push(Caveat { predicate })) =~= done.push(predicate@));
                if further is Some {
                    assert(done + (seq![predicate@] + further->Some_0.0) =~= done.push(predicate@)
                        + further->Some_0.0);
                }
            }
            caveats.push(Caveat { predicate });
            pos = pos + PREFIX_LEN + len;
            read = read + 1;
        }
        if bytes.len() - pos != TAG_LEN {
            return Err(AuthError::MalformedToken);
        }
        let mut signature = [0u8; 32];
        let mut k: usize = 0;
        while k < TAG_LEN
            invariant
                k <= TAG_LEN,
                pos + TAG_LEN == bytes.len(),
                forall|j: int| 0 <= j < k ==> signature@[j] == bytes@[pos + j],
            decreases TAG_LEN - k,
        {
            signature[k] = bytes[pos + k];
            k = k + 1;
        }
        let token = Token { identifier, caveats, signature };
        proof {
            assert(predicates(token.caveats@) + Seq::<Seq<u8>>::empty() =~= predicates(
                token.caveats@,
            ));
            assert(token.signature@ =~= bytes@.skip(pos as int));
            assert(token.identifier@ =~= bytes@.take(IDENTIFIER_LEN as int));
        }
        Ok(token)
    }
}

/// The encoding of caveats after caveats is the encoding of the first lot,
/// then that of the second.
pub proof fn lemma_encode_concat(front: Seq<Seq<u8>>, back: Seq<Seq<u8>>)
    ensures
        encode_caveats(front + back) == encode_caveats(front) + encode_caveats(back),
    decreases front.len(),
{
    if front.len() == 0 {
        assert(front + back =~= back);
        assert(encode_caveats(front) + encode_caveats(back) =~= encode_caveats(back));
    } else {
        lemma_encode_concat(front.drop_first(), back);
        assert((front + back).drop_first() =~= front.drop_first() + back);
        assert((front + back).first() == front.first());
        assert(encode_caveats(front + back) =~= encode_caveats(front) + encode_caveats(back));
    }
}

/// The encoding of one caveat: its length, then its bytes.
pub proof fn lemma_encode_one(caveat: Seq<u8>)
    ensures
        encode_caveats(seq![caveat]) == spec_u32_to_le_bytes(caveat.len() as u32) + caveat,
{
    let one = seq![caveat];
    assert(one.first() == caveat);
    assert(one.drop_first() =~= Seq::<Seq<u8>>::empty());
    assert(encode_caveats(one.drop_first()) =~= Seq::<u8>::empty());
    assert(encode_caveats(one) =~= spec_u32_to_le_bytes(caveat.len() as u32) + caveat);
}

/// Caveats whose lengths fit in four bytes are read back from their
/// encoding, whatever follows it.
pub proof fn lemma_decode_encoded_caveats(caveats: Seq<Seq<u8>>, rest: Seq<u8>)
    requires
        forall|i: int| 0 <= i < caveats.len() ==> (#[trigger] caveats[i]).len() <= u32::MAX,
    ensures
        decode_caveats(encode_caveats(caveats) + rest, caveats.len()) == Some((caveats, rest)),
    decreases caveats.len(),
{
    lemma_auto_spec_u32_to_from_le_bytes();
    let bytes = encode_caveats(caveats) + rest;
    if caveats.len() == 0 {
        assert(bytes =~= rest);
    } else {
        let head = caveats.first();
        let tail = caveats.drop_first();
        let prefix = spec_u32_to_le_bytes(head.len() as u32);
        assert(head == caveats[0]);
        assert forall|i: int| 0 <= i < tail.len() implies (#[trigger] tail[i]).len() <= u32::MAX by {
            assert(tail[i] == caveats[i + 1]);
        }
        lemma_decode_encoded_caveats(tail, rest);
        assert(bytes =~= prefix + head + (encode_caveats(tail) + rest));
        assert(bytes.take(PREFIX_LEN as int) =~= prefix);
        assert(spec_u32_from_le_bytes(prefix) == head.len());
        assert(bytes.subrange(PREFIX_LEN as int, PREFIX_LEN + head.len()) =~= head);
        assert(bytes.skip(PREFIX_LEN + head.len()) =~= encode_caveats(tail) + rest);
        assert(seq![head] + tail =~= caveats);
    }
}

/// What is read from the front of a buffer is there: the caveats are as many
/// as were asked for, each length fits in four bytes, and the buffer is the
/// caveats' encoding followed by what was left over.
pub proof fn lemma_decoded_caveats_encode(bytes: Seq<u8>, count: nat)
    requires
        decode_caveats(bytes, count) is Some,
    ensures
        ({
            let (caveats, rest) = decode_caveats(bytes, count)->Some_0;
            &&& caveats.len() == count
            &&& forall|i: int| 0 <= i < caveats.len() ==> (#[trigger] caveats[i]).len() <= u32::MAX
            &&& bytes == encode_caveats(caveats) + rest
        }),
    decreases count,
{
    lemma_auto_spec_u32_to_from_le_bytes();
    let (caveats, rest) = decode_caveats(bytes, count)->Some_0;
    if count == 0 {
        assert(bytes =~= encode_caveats(caveats) + rest);
    } else {
        let prefix = bytes.take(PREFIX_LEN as int);
        let len = spec_u32_from_le_bytes(prefix) as int;
        let head = bytes.subrange(PREFIX_LEN as int, PREFIX_LEN + len);
        let behind = bytes.skip(PREFIX_LEN + len);
        lemma_decoded_caveats_encode(behind, (count - 1) as nat);
        let (tail, tail_rest) = decode_caveats(behind, (count - 1) as nat)->Some_0;
        assert(caveats == seq![head] + tail);
        assert(rest == tail_rest);
        assert(caveats.first() == head);
        assert(caveats.drop_first() =~= tail);
        assert(spec_u32_to_le_bytes(head.len() as u32) == prefix);
        assert forall|i: int| 0 <= i < caveats.len() implies (#[trigger] caveats[i]).len() <= u32::MAX by {
            if i > 0 {
                assert(caveats[i] == tail[i - 1]);
            }
        }
        assert(bytes =~= prefix + head + (encode_caveats(tail) + rest));
        assert(bytes =~= encode_caveats(caveats) + rest);
    }
}

/// A token that has a transport form is read back from it unchanged.
pub proof fn lemma_decoding_of_encoding(token: TokenView)
    requires
        encodable(token),
    ensures
        decoding(encoding(token)) == Some(token),
{
    lemma_auto_spec_u32_to_from_le_bytes();
    let count = spec_u32_to_le_bytes(token.caveats.len() as u32);
    let bytes = encoding(token);
    lemma_decode_encoded_caveats(token.caveats, token.signature);
    assert(bytes.subrange(IDENTIFIER_LEN as int, IDENTIFIER_LEN + PREFIX_LEN) =~= count);
    assert(bytes.skip(IDENTIFIER_LEN + PREFIX_LEN) =~= encode_caveats(token.caveats)
        + token.signature);
    assert(bytes.take(IDENTIFIER_LEN as int) =~= token.identifier);
}

/// Bytes from which a token is read are that token's transport form, and no
/// other token's: reading never accepts more than one spelling of a token,
/// nor one token under two spellings.
pub proof fn lemma_encoding_of_decoding(bytes: Seq<u8>)
    requires
        decoding(bytes) is Some,
    ensures
        encoding(decoding(bytes)->Some_0) == bytes,
        bytes.len() <= usize::MAX ==> encodable(decoding(bytes)->Some_0),
{
    lemma_auto_spec_u32_to_from_le_bytes();
    let token = decoding(bytes)->Some_0;
    let count_bytes = bytes.subrange(IDENTIFIER_LEN as int, IDENTIFIER_LEN + PREFIX_LEN);
    let count = spec_u32_from_le_bytes(count_bytes);
    let body = bytes.skip(IDENTIFIER_LEN + PREFIX_LEN);
    lemma_decoded_caveats_encode(body, count as nat);
    assert(spec_u32_to_le_bytes(token.caveats.len() as u32) == count_bytes);
    assert(bytes =~= token.identifier + count_bytes + (encode_caveats(token.caveats)
        + token.signature));
    assert(encoding(token) =~= bytes);
}

} // verus!
