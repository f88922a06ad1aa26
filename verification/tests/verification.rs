use macaroon_auth::{
    AuthError, Caveat, Key, Macaroon_Auth, Macaroon_Mint, Matcher, RandomSource, Token,
    VerificationResult, Verifier,
};

fn caveat(text: &str) -> Caveat {
    Caveat::first_party(text.as_bytes().to_vec())
}

fn service() -> Vec<Caveat> {
    vec![caveat("service = TestService"), caveat("ip = 67.205.61.180"), caveat("user = test_user")]
}

fn full_verifier() -> Verifier {
    Verifier::new()
        .add_matcher(Matcher::exact("service = TestService"))
        .add_matcher(Matcher::exact("ip = 67.205.61.180"))
        .add_matcher(Matcher::exact("user = test_user"))
}

fn test_mint() -> Macaroon_Mint {
    Macaroon_Mint::with_stream(RandomSource::new().unwrap(), service(), 0)
}

#[test]
fn mint_verify_round_trip() {
    let key = Key::new().unwrap();
    let mut mint = Macaroon_Mint::new().unwrap();
    let sets: Vec<Vec<Caveat>> = vec![
        Vec::new(),
        vec![caveat("service = TestService")],
        service(),
        vec![caveat("user = test_user"), caveat("user = test_user"), caveat("ip = 67.205.61.180")],
    ];
    for caveats in sets {
        let token = mint.mint(&key, &caveats).unwrap();
        assert_eq!(token.caveats, caveats);
        assert_eq!(full_verifier().verify(&key, &token), Ok(VerificationResult::Valid));
    }
}

#[test]
fn round_trip_with_given_key() {
    let key = Key::from_material(&[7u8; 512]).unwrap();
    let token = test_mint().mint(&key, &service()).unwrap();
    assert_eq!(full_verifier().verify(&key, &token), Ok(VerificationResult::Valid));
    assert!(full_verifier().verify(&key, &token).unwrap().allows());
}

#[test]
fn token_without_caveats_is_valid_for_verifier_without_rules() {
    let key = Key::from_material(&[7u8; 512]).unwrap();
    let token = test_mint().mint(&key, &Vec::new()).unwrap();
    assert_eq!(Verifier::new().verify(&key, &token), Ok(VerificationResult::Valid));
}

#[test]
fn other_key_gives_invalid_signature() {
    let k1 = Key::from_material(&[7u8; 512]).unwrap();
    let mut differs_at_end = [7u8; 512];
    differs_at_end[511] = 8;
    let k2 = Key::from_material(&differs_at_end).unwrap();
    let k3 = Key::new().unwrap();
    let token = test_mint().mint(&k1, &service()).unwrap();
    assert_eq!(full_verifier().verify(&k2, &token), Ok(VerificationResult::InvalidSignature));
    assert_eq!(full_verifier().verify(&k3, &token), Ok(VerificationResult::InvalidSignature));
    assert!(!full_verifier().verify(&k2, &token).unwrap().allows());
    assert_eq!(full_verifier().verify(&k1, &token), Ok(VerificationResult::Valid));
}

#[test]
fn two_fresh_keys_do_not_verify_each_other() {
    let k1 = Key::new().unwrap();
    let k2 = Key::new().unwrap();
    let mut mint = Macaroon_Mint::new().unwrap();
    let t1 = mint.mint(&k1, &service()).unwrap();
    let t2 = mint.mint(&k2, &service()).unwrap();
    assert_eq!(full_verifier().verify(&k2, &t1), Ok(VerificationResult::InvalidSignature));
    assert_eq!(full_verifier().verify(&k1, &t2), Ok(VerificationResult::InvalidSignature));
}

#[test]
fn reordered_caveats_sign_differently() {
    let key = Key::from_material(&[7u8; 512]).unwrap();
    let a = caveat("service = TestService");
    let b = caveat("user = test_user");
    let mut mint = test_mint();
    let ab = mint.mint(&key, &vec![a.clone(), b.clone()]).unwrap();
    let ba = mint.mint(&key, &vec![b.clone(), a.clone()]).unwrap();
    assert_ne!(ab.signature, ba.signature);
    // the same identifier, so that the order alone differs
    let ba_same_id = Token { identifier: ab.identifier.clone(), caveats: vec![b, a], signature: ab.signature };
    assert_eq!(full_verifier().verify(&key, &ba_same_id), Ok(VerificationResult::InvalidSignature));
}

#[test]
fn any_changed_identifier_byte_gives_invalid_signature() {
    let key = Key::from_material(&[7u8; 512]).unwrap();
    let token = test_mint().mint(&key, &service()).unwrap();
    for i in 0..token.identifier.len() {
        let mut tampered = token.clone();
        tampered.identifier[i] ^= 0x80;
        assert_eq!(
            full_verifier().verify(&key, &tampered),
            Ok(VerificationResult::InvalidSignature),
            "identifier byte {}",
            i
        );
    }
}

#[test]
fn any_changed_caveat_byte_gives_invalid_signature() {
    let key = Key::from_material(&[7u8; 512]).unwrap();
    let token = test_mint().mint(&key, &service()).unwrap();
    for c in 0..token.caveats.len() {
        for i in 0..token.caveats[c].predicate.len() {
            let mut tampered = token.clone();
            tampered.caveats[c].predicate[i] ^= 0x01;
            assert_eq!(
                full_verifier().verify(&key, &tampered),
                Ok(VerificationResult::InvalidSignature),
                "caveat {} byte {}",
                c,
                i
            );
        }
    }
}

#[test]
fn dropped_or_added_caveat_gives_invalid_signature() {
    let key = Key::from_material(&[7u8; 512]).unwrap();
    let token = test_mint().mint(&key, &service()).unwrap();
    let mut fewer = token.clone();
    fewer.caveats.pop();
    assert_eq!(full_verifier().verify(&key, &fewer), Ok(VerificationResult::InvalidSignature));
    let mut more = token.clone();
    more.caveats.push(caveat("user = test_user"));
    assert_eq!(full_verifier().verify(&key, &more), Ok(VerificationResult::InvalidSignature));
}

#[test]
fn forged_token_is_not_judged_by_its_caveats() {
    // the caveat would be rejected, but the signature is looked at first
    let key = Key::from_material(&[7u8; 512]).unwrap();
    let token = test_mint().mint(&key, &service()).unwrap();
    let mut forged = token.clone();
    forged.caveats[0] = caveat("service = Admin");
    assert_eq!(full_verifier().verify(&key, &forged), Ok(VerificationResult::InvalidSignature));
    assert_eq!(
        full_verifier().judge(false, &token),
        VerificationResult::InvalidSignature
    );
}

#[test]
fn verifier_with_three_rules_accepts_and_each_removal_rejects() {
    let key = Key::new().unwrap();
    let token = Macaroon_Mint::new().unwrap().mint(&key, &service()).unwrap();
    assert_eq!(full_verifier().verify(&key, &token), Ok(VerificationResult::Valid));
    let rules = ["service = TestService", "ip = 67.205.61.180", "user = test_user"];
    for removed in 0..3 {
        let mut verifier = Verifier::new();
        for (i, rule) in rules.iter().enumerate() {
            if i != removed {
                verifier = verifier.add_matcher(Matcher::exact(rule));
            }
        }
        assert_eq!(
            verifier.verify(&key, &token),
            Ok(VerificationResult::CaveatRejected(caveat(rules[removed])))
        );
        assert!(!verifier.verify(&key, &token).unwrap().allows());
    }
}

#[test]
fn service_token_scenario() {
    let key = Key::new().unwrap();
    let mut mint = Macaroon_Mint::new().unwrap();
    let token = mint.mint(&key, &service()).unwrap();
    let exact = Verifier::build(vec![
        Matcher::exact("service = TestService"),
        Matcher::exact("ip = 67.205.61.180"),
        Matcher::exact("user = test_user"),
    ]);
    assert_eq!(exact.verify(&key, &token), Ok(VerificationResult::Valid));
    let without_ip = Verifier::build(vec![
        Matcher::exact("service = TestService"),
        Matcher::exact("user = test_user"),
    ]);
    assert_eq!(
        without_ip.verify(&key, &token),
        Ok(VerificationResult::CaveatRejected(caveat("ip = 67.205.61.180")))
    );
}

#[test]
fn first_unmatched_caveat_is_reported() {
    let key = Key::from_material(&[7u8; 512]).unwrap();
    let token = test_mint()
        .mint(&key, &vec![caveat("user = test_user"), caveat("b"), caveat("a"), caveat("b")])
        .unwrap();
    let verifier = Verifier::new().add_matcher(Matcher::exact("user = test_user"));
    assert_eq!(verifier.verify(&key, &token), Ok(VerificationResult::CaveatRejected(caveat("b"))));
    assert_eq!(Verifier::new().judge(true, &token), VerificationResult::CaveatRejected(caveat("user = test_user")));
}

#[test]
fn judge_takes_authenticity_as_given() {
    let token = Token { identifier: vec![0u8; 512], caveats: vec![caveat("a")], signature: [0u8; 32] };
    let accepts_a = Verifier::new().add_matcher(Matcher::Exact(b"a".to_vec()));
    assert_eq!(accepts_a.judge(true, &token), VerificationResult::Valid);
    assert_eq!(accepts_a.judge(false, &token), VerificationResult::InvalidSignature);
    assert_eq!(Verifier::new().judge(true, &token), VerificationResult::CaveatRejected(caveat("a")));
    assert_eq!(Verifier::new().judge(false, &token), VerificationResult::InvalidSignature);
}

#[test]
fn order_of_rules_does_not_matter() {
    let key = Key::from_material(&[7u8; 512]).unwrap();
    let token = test_mint().mint(&key, &service()).unwrap();
    let reversed = Verifier::new()
        .add_matcher(Matcher::exact("user = test_user"))
        .add_matcher(Matcher::exact("user = test_user"))
        .add_matcher(Matcher::exact("ip = 67.205.61.180"))
        .add_matcher(Matcher::exact("service = TestService"));
    assert_eq!(reversed.verify(&key, &token), Ok(VerificationResult::Valid));
}

#[test]
fn exact_rule_matches_whole_predicate_only() {
    let rule = Matcher::exact("ip = 67.205.61.180");
    assert_eq!(rule, Matcher::Exact(b"ip = 67.205.61.180".to_vec()));
    assert!(rule.matches(b"ip = 67.205.61.180"));
    assert!(!rule.matches(b"ip = 67.205.61.18"));
    assert!(!rule.matches(b"ip = 67.205.61.1800"));
    assert!(!rule.matches(b"IP = 67.205.61.180"));
    assert!(!rule.matches(b""));
    assert!(Matcher::exact("").matches(b""));
    let verifier = Verifier::new().add_matcher(Matcher::exact("a")).add_matcher(Matcher::exact("b"));
    assert!(verifier.satisfies(b"a"));
    assert!(verifier.satisfies(b"b"));
    assert!(!verifier.satisfies(b"ab"));
    assert!(!Verifier::new().satisfies(b"a"));
}

#[test]
fn narrowed_token_still_verifies() {
    let key = Key::from_material(&[7u8; 512]).unwrap();
    let token = test_mint().mint(&key, &vec![caveat("service = TestService")]).unwrap();
    let narrowed = token.add_caveat(&caveat("user = test_user"));
    assert_eq!(full_verifier().verify(&key, &narrowed), Ok(VerificationResult::Valid));
}

#[test]
fn released_key_is_unavailable() {
    let mut key = Key::from_material(&[7u8; 512]).unwrap();
    let mut mint = test_mint();
    let token = mint.mint(&key, &service()).unwrap();
    assert_eq!(mint.tokens_issued(), 1);
    key.release();
    assert!(key.is_released());
    assert_eq!(key.len(), 512);
    assert_eq!(mint.mint(&key, &service()), Err(AuthError::KeyUnavailable));
    assert_eq!(mint.mint_service_token(&key), Err(AuthError::KeyUnavailable));
    // no identifier was used up
    assert_eq!(mint.tokens_issued(), 1);
    assert_eq!(full_verifier().verify(&key, &token), Err(AuthError::KeyUnavailable));
    assert!(!Macaroon_Auth::verify(&key, &token));
    key.release();
    assert!(key.is_released());
}

#[test]
fn empty_key_cannot_be_allocated() {
    assert!(matches!(Key::from_material(&[]), Err(AuthError::AllocationFailed)));
}

#[test]
fn service_engine_end_to_end() {
    let key = Key::new().unwrap();
    assert_eq!(key.len(), 512);
    let mut mint = Macaroon_Mint::new().unwrap();
    let auth = Macaroon_Auth::new();
    assert!(!auth.trusted);
    assert!(auth.untrusted_token.is_none());
    assert!(auth.new_token.is_none());
    let token = Macaroon_Auth::gen_service_token(&mut mint, &key).unwrap();
    assert_eq!(token.caveats, service());
    assert_eq!(token.identifier.len(), 512);
    assert!(Macaroon_Auth::verify(&key, &token));
    let verifier = Macaroon_Auth::build_verifier();
    assert_eq!(verifier.verify(&key, &token), Ok(VerificationResult::Valid));
    assert!(!Macaroon_Auth::verify(&Key::new().unwrap(), &token));
    let narrowed = token.add_caveat(&caveat("time < tomorrow"));
    assert!(!Macaroon_Auth::verify(&key, &narrowed));
    assert_eq!(
        verifier.verify(&key, &narrowed),
        Ok(VerificationResult::CaveatRejected(caveat("time < tomorrow")))
    );
}

#[test]
fn default_verifier_rules() {
    let verifier = Macaroon_Auth::build_verifier();
    assert!(verifier.satisfies(b"service = TestService"));
    assert!(verifier.satisfies(b"ip = 67.205.61.180"));
    assert!(verifier.satisfies(b"user = test_user"));
    assert!(!verifier.satisfies(b"user = root"));
    assert_eq!(verifier.matchers.len(), 3);
    assert_eq!(
        verifier.matchers,
        vec![
            Matcher::Exact(b"service = TestService".to_vec()),
            Matcher::Exact(b"ip = 67.205.61.180".to_vec()),
            Matcher::Exact(b"user = test_user".to_vec()),
        ]
    );
}

#[test]
fn successive_service_tokens_have_distinct_identifiers() {
    let key = Key::new().unwrap();
    let mut mint = Macaroon_Mint::new().unwrap();
    let first = Macaroon_Auth::gen_service_token(&mut mint, &key).unwrap();
    let second = Macaroon_Auth::gen_service_token(&mut mint, &key).unwrap();
    assert_ne!(first.identifier, second.identifier);
    assert_eq!(&first.identifier[..8], &0u64.to_le_bytes());
    assert_eq!(&second.identifier[..8], &1u64.to_le_bytes());
    assert_ne!(first.identifier[8..], second.identifier[8..]);
    assert_eq!(mint.tokens_issued(), 2);
}

#[test]
fn engine_and_api_start_empty() {
    let engine = macaroon_auth::Macaroon::new().unwrap();
    assert!(!engine.macaroon_auth.trusted);
    assert_eq!(engine.macaroon_mint.tokens_issued(), 0);
    let api = macaroon_auth::Api::new().unwrap();
    assert!(api.auth.macaroon_auth.new_token.is_none());
    assert!(api.auth.macaroon_auth.untrusted_token.is_none());
    assert_eq!(api.auth.macaroon_mint.tokens_issued(), 0);
}

#[test]
fn error_descriptions() {
    assert_eq!(AuthError::EntropyUnavailable.describe(), "entropy source unavailable");
    assert_eq!(AuthError::AllocationFailed.describe(), "key memory could not be allocated");
    assert_eq!(AuthError::KeyUnavailable.describe(), "key already released");
    assert_eq!(AuthError::MalformedToken.describe(), "malformed token");
}
