//! Caveats: the restrictions that a token carries.

use vstd::prelude::*;
use vstd::slice::slice_to_vec;

verus! {

/// A restriction embedded in a token: an opaque byte string such as
/// `service = TestService`.
#[derive(Debug, PartialEq, Eq)]
pub struct Caveat {
    pub predicate: Vec<u8>,
}

impl View for Caveat {
    type V = Seq<u8>;

    open spec fn view(&self) -> Seq<u8> {
        self.predicate@
    }
}

/// The predicates of a sequence of caveats, in order.
pub open spec fn predicates(caveats: Seq<Caveat>) -> Seq<Seq<u8>> {
    Seq::new(caveats.len(), |i: int| caveats[i]@)
}

impl Caveat {
    /// A caveat that the verifier checks by itself.
    pub fn first_party(predicate: Vec<u8>) -> (caveat: Caveat)
        ensures
            caveat@ == predicate@,
    {
        Caveat { predicate }
    }

    /// The caveat `name = value`.
    pub fn key_value(name: &[u8], value: &[u8]) -> (caveat: Caveat)
        ensures
            caveat@ == key_value_predicate(name@, value@),
    {
        let mut predicate: Vec<u8> = slice_to_vec(name);
        predicate.push(0x20u8);
        predicate.push(0x3du8);
        predicate.push(0x20u8);
        let mut tail = slice_to_vec(value);
        predicate.append(&mut tail);
        proof {
            assert(predicate@ =~= key_value_predicate(name@, value@));
        }
        Caveat { predicate }
    }
}

impl Clone for Caveat {
    fn clone(&self) -> (copy: Caveat)
        ensures
            copy@ == self@,
    {
        Caveat { predicate: slice_to_vec(self.predicate.as_slice()) }
    }
}

/// The bytes of `name = value`: the name, a space, an equals sign, a space,
/// the value.
pub open spec fn key_value_predicate(name: Seq<u8>, value: Seq<u8>) -> Seq<u8> {
    name + seq![0x20u8, 0x3du8, 0x20u8] + value
}

} // verus!
