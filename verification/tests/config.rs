use macaroon_auth::{Caveat, Key, Macaroon_Mint, Matcher, RandomSource, ServiceConfig, VerificationResult, Verifier};

fn caveat(text: &str) -> Caveat {
    Caveat::first_party(text.as_bytes().to_vec())
}

#[test]
fn default_options() {
    let config = ServiceConfig::defaults();
    assert_eq!(config.service, Some(b"TestService".to_vec()));
    assert_eq!(config.source_constraint, Some(b"67.205.61.180".to_vec()));
    assert_eq!(config.principal, Some(b"test_user".to_vec()));
    assert_eq!(config.caveats(), Macaroon_Mint::service_caveats());
}

#[test]
fn each_option_gives_one_caveat() {
    let config = ServiceConfig {
        service: Some(b"Billing".to_vec()),
        source_constraint: Some(b"10.0.0.1".to_vec()),
        principal: Some(b"alice".to_vec()),
    };
    assert_eq!(
        config.caveats(),
        vec![caveat("service = Billing"), caveat("ip = 10.0.0.1"), caveat("user = alice")]
    );
    assert_eq!(
        config.matchers(),
        vec![
            Matcher::Exact(b"service = Billing".to_vec()),
            Matcher::Exact(b"ip = 10.0.0.1".to_vec()),
            Matcher::Exact(b"user = alice".to_vec()),
        ]
    );
}

#[test]
fn unset_options_give_no_caveat() {
    let none = ServiceConfig { service: None, source_constraint: None, principal: None };
    assert!(none.caveats().is_empty());
    assert!(none.matchers().is_empty());
    let only_ip = ServiceConfig { service: None, source_constraint: Some(b"::1".to_vec()), principal: None };
    assert_eq!(only_ip.caveats(), vec![caveat("ip = ::1")]);
    let outer = ServiceConfig { service: Some(b"s".to_vec()), source_constraint: None, principal: Some(Vec::new()) };
    assert_eq!(outer.caveats(), vec![caveat("service = s"), caveat("user = ")]);
    assert_eq!(outer.matchers().len(), 2);
}

#[test]
fn configured_mint_and_verifier_agree() {
    let config = ServiceConfig {
        service: Some(b"Billing".to_vec()),
        source_constraint: None,
        principal: Some(b"alice".to_vec()),
    };
    let key = Key::from_material(&[3u8; 512]).unwrap();
    let mut mint = Macaroon_Mint::with_stream(RandomSource::new().unwrap(), config.caveats(), 0);
    let token = mint.mint_service_token(&key).unwrap();
    let verifier = Verifier::build(config.matchers());
    assert_eq!(verifier.verify(&key, &token), Ok(VerificationResult::Valid));
    let default_rules = Verifier::build(ServiceConfig::defaults().matchers());
    assert_eq!(
        default_rules.verify(&key, &token),
        Ok(VerificationResult::CaveatRejected(caveat("service = Billing")))
    );
}
