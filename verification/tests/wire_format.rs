use macaroon_auth::{AuthError, Caveat, Token};

fn caveat(text: &str) -> Caveat {
    Caveat::first_party(text.as_bytes().to_vec())
}

fn sample(caveats: Vec<Caveat>) -> Token {
    let mut identifier = Vec::new();
    for i in 0..512u32 {
        identifier.push((i % 251) as u8);
    }
    let mut signature = [0u8; 32];
    for i in 0..32 {
        signature[i] = 0xa0 + i as u8;
    }
    Token { identifier, caveats, signature }
}

#[test]
fn exact_bytes_of_a_token_without_caveats() {
    let token = sample(Vec::new());
    let bytes = token.serialize().unwrap();
    assert_eq!(bytes.len(), 512 + 4 + 32);
    assert_eq!(&bytes[..512], &token.identifier[..]);
    assert_eq!(&bytes[512..516], &[0u8, 0, 0, 0]);
    assert_eq!(&bytes[516..], &token.signature[..]);
}

#[test]
fn exact_bytes_of_a_token_with_caveats() {
    let token = sample(vec![caveat("ab"), caveat(""), caveat("xyz")]);
    let bytes = token.serialize().unwrap();
    let mut expected = token.identifier.clone();
    expected.extend_from_slice(&[3, 0, 0, 0]);
    expected.extend_from_slice(&[2, 0, 0, 0]);
    expected.extend_from_slice(b"ab");
    expected.extend_from_slice(&[0, 0, 0, 0]);
    expected.extend_from_slice(&[3, 0, 0, 0]);
    expected.extend_from_slice(b"xyz");
    expected.extend_from_slice(&token.signature);
    assert_eq!(bytes, expected);
}

#[test]
fn length_prefix_is_least_significant_byte_first() {
    let long = Caveat::first_party(vec![0x55u8; 0x0102]);
    let token = sample(vec![long]);
    let bytes = token.serialize().unwrap();
    assert_eq!(&bytes[516..520], &[0x02u8, 0x01, 0, 0]);
    assert_eq!(bytes.len(), 512 + 4 + 4 + 0x0102 + 32);
}

#[test]
fn serialize_then_deserialize_is_identity() {
    let tokens = vec![
        sample(Vec::new()),
        sample(vec![caveat("service = TestService")]),
        sample(vec![caveat("service = TestService"), caveat("ip = 67.205.61.180"), caveat("user = test_user")]),
        sample(vec![caveat(""), caveat(""), Caveat::first_party(vec![0u8; 1000])]),
    ];
    for token in tokens {
        let bytes = token.serialize().unwrap();
        assert_eq!(Token::deserialize(&bytes), Ok(token));
    }
}

#[test]
fn deserialize_then_serialize_is_identity() {
    let bytes = sample(vec![caveat("a = b"), caveat("c")]).serialize().unwrap();
    let token = Token::deserialize(&bytes).unwrap();
    assert_eq!(token.serialize().unwrap(), bytes);
}

#[test]
fn serialize_rejects_wrong_identifier_length() {
    let mut token = sample(vec![caveat("a")]);
    token.identifier.pop();
    assert_eq!(token.serialize(), Err(AuthError::MalformedToken));
    let mut token = sample(Vec::new());
    token.identifier.push(0);
    assert_eq!(token.serialize(), Err(AuthError::MalformedToken));
    let mut token = sample(Vec::new());
    token.identifier.clear();
    assert_eq!(token.serialize(), Err(AuthError::MalformedToken));
}

#[test]
fn deserialize_rejects_short_buffers() {
    assert_eq!(Token::deserialize(&[]), Err(AuthError::MalformedToken));
    assert_eq!(Token::deserialize(&[0u8; 515]), Err(AuthError::MalformedToken));
    // an identifier and a count of zero, but no signature
    assert_eq!(Token::deserialize(&[0u8; 516]), Err(AuthError::MalformedToken));
    assert_eq!(Token::deserialize(&[0u8; 547]), Err(AuthError::MalformedToken));
    assert!(Token::deserialize(&[0u8; 548]).is_ok());
}

#[test]
fn deserialize_rejects_trailing_bytes() {
    let mut bytes = sample(vec![caveat("a")]).serialize().unwrap();
    bytes.push(0);
    assert_eq!(Token::deserialize(&bytes), Err(AuthError::MalformedToken));
    assert_eq!(Token::deserialize(&[0u8; 549]), Err(AuthError::MalformedToken));
}

#[test]
fn deserialize_rejects_every_truncation() {
    let bytes = sample(vec![caveat("service = TestService"), caveat("x")]).serialize().unwrap();
    for cut in 0..bytes.len() {
        assert_eq!(
            Token::deserialize(&bytes[..cut]),
            Err(AuthError::MalformedToken),
            "cut at {}",
            cut
        );
    }
}

#[test]
fn deserialize_rejects_length_past_the_end() {
    let mut bytes = sample(vec![caveat("abc")]).serialize().unwrap();
    // the caveat now claims more bytes than the buffer holds
    bytes[516] = 0xff;
    bytes[517] = 0xff;
    assert_eq!(Token::deserialize(&bytes), Err(AuthError::MalformedToken));
    let mut bytes = sample(vec![caveat("abc")]).serialize().unwrap();
    bytes[516..520].copy_from_slice(&[0xff, 0xff, 0xff, 0xff]);
    assert_eq!(Token::deserialize(&bytes), Err(AuthError::MalformedToken));
}

#[test]
fn deserialize_rejects_count_past_the_end() {
    let mut bytes = sample(vec![caveat("abc")]).serialize().unwrap();
    bytes[512] = 2;
    assert_eq!(Token::deserialize(&bytes), Err(AuthError::MalformedToken));
    let mut bytes = sample(Vec::new()).serialize().unwrap();
    bytes[512..516].copy_from_slice(&[0xff, 0xff, 0xff, 0xff]);
    assert_eq!(Token::deserialize(&bytes), Err(AuthError::MalformedToken));
}

#[test]
fn deserialize_reads_caveat_that_takes_signature_bytes() {
    // one caveat of length 1 followed by 32 bytes reads as such even if the
    // bytes were meant otherwise: the lengths alone decide
    let mut bytes = vec![1u8; 512];
    bytes.extend_from_slice(&[1, 0, 0, 0]);
    bytes.extend_from_slice(&[1, 0, 0, 0]);
    bytes.push(b'z');
    bytes.extend_from_slice(&[9u8; 32]);
    let token = Token::deserialize(&bytes).unwrap();
    assert_eq!(token.identifier, vec![1u8; 512]);
    assert_eq!(token.caveats, vec![caveat("z")]);
    assert_eq!(token.signature, [9u8; 32]);
}
