//! Verification: a token passes where its signature is the one its key
//! gives it and every one of its caveats meets a rule of the verifier.

use vstd::prelude::*;
use vstd::string::StringSliceAdditionalSpecFns;
use crate::caveat::{predicates, Caveat};
use crate::error::AuthError;
use crate::key::Key;
use crate::token::{Token, TokenView};

verus! {

/// A rule that a verifier holds: its kind, and what the kind needs.
#[derive(Debug, PartialEq, Eq)]
pub enum Matcher {
    /// Accepts the caveat whose predicate is exactly these bytes.
    Exact(Vec<u8>),
}

/// A rule in mathematical terms.
pub enum Rule {
    Exact(Seq<u8>),
}

impl View for Matcher {
    type V = Rule;

    open spec fn view(&self) -> Rule {
        match self {
            Matcher::Exact(predicate) => Rule::Exact(predicate@),
        }
    }
}

impl Matcher {
    /// Whether the rule accepts a caveat.
    pub open spec fn accepts(&self, caveat: Seq<u8>) -> bool {
        match self {
            Matcher::Exact(predicate) => predicate@ == caveat,
        }
    }

    /// The rule that accepts exactly the predicate `text`.
    pub fn exact(text: &str) -> (rule: Matcher)
        ensures
            rule@ == Rule::Exact(text.spec_bytes()),
    {
        Matcher::Exact(vstd::slice::slice_to_vec(text.as_bytes()))
    }

    /// Whether the rule accepts `caveat`.
    pub fn matches(&self, caveat: &[u8]) -> (accepted: bool)
        ensures
            accepted == self.accepts(caveat@),
    {
        match self {
            Matcher::Exact(predicate) => same_bytes(predicate.as_slice(), caveat),
        }
    }
}

/// Whether two byte strings are equal.
pub fn same_bytes(left: &[u8], right: &[u8]) -> (same: bool)
    ensures
        same == (left@ == right@),
{
    if left.len() != right.len() {
        return false;
    }
    let mut i: usize = 0;
    while i < left.len()
        invariant
            i <= left.len(),
            left.len() == right.len(),
            forall|j: int| 0 <= j < i ==> left@[j] == right@[j],
        decreases left.len() - i,
    {
        if left[i] != right[i] {
            return false;
        }
        i = i + 1;
    }
    proof {
        assert(left@ =~= right@);
    }
    true
}

/// How a verification ended.
#[derive(Debug, PartialEq, Eq)]
pub enum VerificationResult {
    /// The signature is right and every caveat met a rule.
    Valid,
    /// The signature is not the one the key gives the token.
    InvalidSignature,
    /// The signature is right, and this caveat, the first such in the
    /// token, met no rule.
    CaveatRejected(Caveat),
}

/// How a verification ended, in mathematical terms.
pub enum Verdict {
    Valid,
    InvalidSignature,
    CaveatRejected(Seq<u8>),
}

impl View for VerificationResult {
    type V = Verdict;

    open spec fn view(&self) -> Verdict {
        match self {
            VerificationResult::Valid => Verdict::Valid,
            VerificationResult::InvalidSignature => Verdict::InvalidSignature,
            VerificationResult::CaveatRejected(caveat) => Verdict::CaveatRejected(caveat@),
        }
    }
}

impl VerificationResult {
    /// Whether access is to be allowed: on `Valid`, and on nothing else.
    pub fn allows(&self) -> (allowed: bool)
        ensures
            allowed == (self@ == Verdict::Valid),
    {
        match self {
            VerificationResult::Valid => true,
            _ => false,
        }
    }
}

/// The rules against which caveats are checked. A caveat is accepted where
/// at least one rule accepts it; the order of the rules does not matter.
#[derive(Debug)]
pub struct Verifier {
    pub matchers: Vec<Matcher>,
}

impl Verifier {
    /// Whether some rule accepts a caveat.
    pub open spec fn accepts(&self, caveat: Seq<u8>) -> bool {
        exists|i: int| 0 <= i < self.matchers@.len() && (#[trigger] self.matchers@[i]).accepts(caveat)
    }

    /// The first of `caveats` that no rule accepts, if there is one.
    pub open spec fn first_rejected(&self, caveats: Seq<Seq<u8>>) -> Option<Seq<u8>>
        decreases caveats.len(),
    {
        if caveats.len() == 0 {
            None
        } else if !self.accepts(caveats.first()) {
            Some(caveats.first())
        } else {
            self.first_rejected(caveats.drop_first())
        }
    }

    /// The verdict on a token, given whether its signature is authentic. The
    /// caveats count only where it is: what a forged token says is not
    /// looked at.
    pub open spec fn verdict(&self, authentic: bool, token: TokenView) -> Verdict {
        if !authentic {
            Verdict::InvalidSignature
        } else {
            match self.first_rejected(token.caveats) {
                Some(caveat) => Verdict::CaveatRejected(caveat),
                None => Verdict::Valid,
            }
        }
    }

    /// A verifier without rules: it accepts no caveat.
    pub fn new() -> (verifier: Verifier)
        ensures
            verifier.matchers@ == Seq::<Matcher>::empty(),
    {
        Verifier { matchers: Vec::new() }
    }

    /// A verifier with the rules given.
    pub fn build(matchers: Vec<Matcher>) -> (verifier: Verifier)
        ensures
            verifier.matchers == matchers,
    {
        Verifier { matchers }
    }

    /// This verifier with one more rule.
    pub fn add_matcher(self, matcher: Matcher) -> (verifier: Verifier)
        ensures
            verifier.matchers@ == self.matchers@.push(matcher),
    {
        let mut matchers = self.matchers;
        matchers.push(matcher);
        Verifier { matchers }
    }

    /// Whether some rule accepts `caveat`.
    pub fn satisfies(&self, caveat: &[u8]) -> (accepted: bool)
        ensures
            accepted == self.accepts(caveat@),
    {
        let mut i: usize = 0;
        while i < self.matchers.len()
            invariant
                i <= self.matchers.len(),
                forall|j: int| 0 <= j < i ==> !(#[trigger] self.matchers@[j]).accepts(caveat@),
            decreases self.matchers.len() - i,
        {
            if self.matchers[i].matches(caveat) {
                return true;
            }
            i = i + 1;
        }
        false
    }

    /// The verdict on `token`, given whether its signature is authentic.
    pub fn judge(&self, authentic: bool, token: &Token) -> (result: VerificationResult)
        ensures
            result@ == self.verdict(authentic, token@),
    {
        if !authentic {
            return VerificationResult::InvalidSignature;
        }
        let ghost all = token@.caveats;
        let mut i: usize = 0;
        proof {
            assert(all.skip(0) =~= all);
        }
        while i < token.caveats.len()
            invariant
                i <= token.caveats.len(),
                authentic,
                all == predicates(token.caveats@),
                self.first_rejected(all) == self.first_rejected(all.skip(i as int)),
            decreases token.caveats.len() - i,
        {
            proof {
                assert(all.skip(i as int).first() == token.caveats@[i as int]@);
                assert(all.skip(i as int).drop_first() =~= all.skip(i + 1));
            }
            if !self.satisfies(token.caveats[i].predicate.as_slice()) {
                let rejected = token.caveats[i].clone();
                return VerificationResult::CaveatRejected(rejected);
            }
            i = i + 1;
        }
        VerificationResult::Valid
    }

    /// The verdict on `token` under `key`, or `KeyUnavailable` where the key
    /// has been released.
    pub fn verify(&self, key: &Key, token: &Token) -> (result: Result<VerificationResult, AuthError>)
        ensures
            match result {
                Ok(verdict) => !key.released() && verdict@ == self.verdict(
                    token@.signed_by(key.bytes()),
                    token@,
                ),
                Err(e) => key.released() && e == AuthError::KeyUnavailable,
            },
    {
        match key.as_slice() {
            Ok(bytes) => Ok(self.judge(token.authenticate(bytes), token)),
            Err(e) => Err(e),
        }
    }
}

/// What the first rejected caveat is: it stands in the token, no rule
/// accepts it, and every caveat before it is accepted. There is none exactly
/// where every caveat is accepted.
pub proof fn lemma_first_rejected(verifier: Verifier, caveats: Seq<Seq<u8>>)
    ensures
        match verifier.first_rejected(caveats) {
            Some(caveat) => exists|i: int|
                {
                    &&& 0 <= i < caveats.len()
                    &&& #[trigger] caveats[i] == caveat
                    &&& !verifier.accepts(caveat)
                    &&& forall|j: int| 0 <= j < i ==> verifier.accepts(#[trigger] caveats[j])
                },
            None => forall|i: int| 0 <= i < caveats.len() ==> verifier.accepts(#[trigger] caveats[i]),
        },
    decreases caveats.len(),
{
    if caveats.len() == 0 {
    } else if !verifier.accepts(caveats.first()) {
        assert(caveats[0] == caveats.first());
    } else {
        let tail = caveats.drop_first();
        lemma_first_rejected(verifier, tail);
        match verifier.first_rejected(tail) {
            Some(caveat) => {
                let i = choose|i: int|
                    {
                        &&& 0 <= i < tail.len()
                        &&& #[trigger] tail[i] == caveat
                        &&& !verifier.accepts(caveat)
                        &&& forall|j: int| 0 <= j < i ==> verifier.accepts(#[trigger] tail[j])
                    };
                assert(caveats[i + 1] == caveat);
                assert forall|j: int| 0 <= j < i + 1 implies verifier.accepts(
                    #[trigger] caveats[j],
                ) by {
                    if j > 0 {
                        assert(caveats[j] == tail[j - 1]);
                    }
                }
            },
            None => {
                assert forall|i: int| 0 <= i < caveats.len() implies verifier.accepts(
                    #[trigger] caveats[i],
                ) by {
                    if i > 0 {
                        assert(caveats[i] == tail[i - 1]);
                    }
                }
            },
        }
    }
}

} // verus!
