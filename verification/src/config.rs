//! What a deployment chooses: the caveats that name the service, and with
//! them the rules by which its verifier accepts them.

use vstd::prelude::*;
use vstd::slice::slice_to_vec;
use vstd::string::StringSliceAdditionalSpecFns;
use crate::caveat::{key_value_predicate, predicates, Caveat};
use crate::verification::{Matcher, Rule};

verus! {

/// The options that the engine knows. Each one that is set gives one caveat:
/// `service = ..`, `ip = ..` for the source constraint, `user = ..` for the
/// principal, in this order.
#[derive(Debug, PartialEq, Eq)]
pub struct ServiceConfig {
    pub service: Option<Vec<u8>>,
    pub source_constraint: Option<Vec<u8>>,
    pub principal: Option<Vec<u8>>,
}

/// The options as mathematical values.
pub struct ServiceConfigView {
    pub service: Option<Seq<u8>>,
    pub source_constraint: Option<Seq<u8>>,
    pub principal: Option<Seq<u8>>,
}

/// The bytes of an option, where it is set.
pub open spec fn option_bytes(option: Option<Vec<u8>>) -> Option<Seq<u8>> {
    match option {
        Some(value) => Some(value@),
        None => None,
    }
}

impl View for ServiceConfig {
    type V = ServiceConfigView;

    open spec fn view(&self) -> ServiceConfigView {
        ServiceConfigView {
            service: option_bytes(self.service),
            source_constraint: option_bytes(self.source_constraint),
            principal: option_bytes(self.principal),
        }
    }
}

/// The caveat of one option: `name = value` where it is set, none where it
/// is not.
pub open spec fn option_caveat(name: Seq<u8>, value: Option<Seq<u8>>) -> Seq<Seq<u8>> {
    match value {
        Some(v) => seq![key_value_predicate(name, v)],
        None => Seq::empty(),
    }
}

impl ServiceConfigView {
    /// The caveats of the options that are set, in their order.
    pub open spec fn caveats(self) -> Seq<Seq<u8>> {
        option_caveat("service".spec_bytes(), self.service) + option_caveat(
            "ip".spec_bytes(),
            self.source_constraint,
        ) + option_caveat("user".spec_bytes(), self.principal)
    }
}

/// The options of the test service.
pub open spec fn default_config() -> ServiceConfigView {
    ServiceConfigView {
        service: Some("TestService".spec_bytes()),
        source_constraint: Some("67.205.61.180".spec_bytes()),
        principal: Some("test_user".spec_bytes()),
    }
}

impl ServiceConfig {
    /// The options of the test service.
    pub fn defaults() -> (config: ServiceConfig)
        ensures
            config@ == default_config(),
    {
        ServiceConfig {
            service: Some(slice_to_vec("TestService".as_bytes())),
            source_constraint: Some(slice_to_vec("67.205.61.180".as_bytes())),
            principal: Some(slice_to_vec("test_user".as_bytes())),
        }
    }

    /// The caveats of the options that are set, in their order.
    pub fn caveats(&self) -> (caveats: Vec<Caveat>)
        ensures
            predicates(caveats@) == self@.caveats(),
    {
        let mut caveats: Vec<Caveat> = Vec::new();
        if let Some(value) = &self.service {
            caveats.push(Caveat::key_value("service".as_bytes(), value.as_slice()));
        }
        if let Some(value) = &self.source_constraint {
            caveats.push(Caveat::key_value("ip".as_bytes(), value.as_slice()));
        }
        if let Some(value) = &self.principal {
            caveats.push(Caveat::key_value("user".as_bytes(), value.as_slice()));
        }
        proof {
            assert(predicates(caveats@) =~= self@.caveats());
        }
        caveats
    }

    /// One rule for each caveat of the options that are set: the rule that
    /// accepts exactly that caveat.
    pub fn matchers(&self) -> (rules: Vec<Matcher>)
        ensures
            rules@.len() == self@.caveats().len(),
            forall|i: int|
                0 <= i < rules@.len() ==> (#[trigger] rules@[i])@ == Rule::Exact(self@.caveats()[i]),
    {
        let caveats = self.caveats();
        let mut rules: Vec<Matcher> = Vec::new();
        let mut i: usize = 0;
        while i < caveats.len()
            invariant
                i <= caveats.len(),
                rules@.len() == i,
                predicates(caveats@) == self@.caveats(),
                forall|j: int|
                    0 <= j < i ==> (#[trigger] rules@[j])@ == Rule::Exact(self@.caveats()[j]),
            decreases caveats.len() - i,
        {
            proof {
                assert(predicates(caveats@)[i as int] == caveats@[i as int]@);
            }
            rules.push(Matcher::Exact(slice_to_vec(caveats[i].predicate.as_slice())));
            i = i + 1;
        }
        rules
    }
}

/// The caveats of the test service, spelled out.
pub proof fn lemma_default_caveats()
    ensures
        default_config().caveats() == seq![
            "service = TestService".spec_bytes(),
            "ip = 67.205.61.180".spec_bytes(),
            "user = test_user".spec_bytes(),
        ],
{
    reveal_strlit("service");
    reveal_strlit("ip");
    reveal_strlit("user");
    reveal_strlit("TestService");
    reveal_strlit("67.205.61.180");
    reveal_strlit("test_user");
    reveal_strlit("service = TestService");
    reveal_strlit("ip = 67.205.61.180");
    reveal_strlit("user = test_user");
    vstd::string::is_ascii_spec_bytes("service");
    vstd::string::is_ascii_spec_bytes("ip");
    vstd::string::is_ascii_spec_bytes("user");
    vstd::string::is_ascii_spec_bytes("TestService");
    vstd::string::is_ascii_spec_bytes("67.205.61.180");
    vstd::string::is_ascii_spec_bytes("test_user");
    vstd::string::is_ascii_spec_bytes("service = TestService");
    vstd::string::is_ascii_spec_bytes("ip = 67.205.61.180");
    vstd::string::is_ascii_spec_bytes("user = test_user");
    assert(key_value_predicate("service".spec_bytes(), "TestService".spec_bytes())
        =~= "service = TestService".spec_bytes());
    assert(key_value_predicate("ip".spec_bytes(), "67.205.61.180".spec_bytes())
        =~= "ip = 67.205.61.180".spec_bytes());
    assert(key_value_predicate("user".spec_bytes(), "test_user".spec_bytes())
        =~= "user = test_user".spec_bytes());
    assert(default_config().caveats() =~= seq![
        "service = TestService".spec_bytes(),
        "ip = 67.205.61.180".spec_bytes(),
        "user = test_user".spec_bytes(),
    ]);
}

} // verus!
