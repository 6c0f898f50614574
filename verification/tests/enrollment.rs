use watch_watch::registry::{
    agent_at, enrollment_token_at, redeem_step,
    check_token, create_enrollment_token, decode_public_key, encode_public_key,
    enrollment_token_row, generate_key_pair, hex_token_hashes, new_agent, redeem_token,
    token_check_outcome, token_hash, PublicKeyError, TokenError, TokenRecord,
};

fn record(expires_at: i64, revoked: i64, uses: i64, max_uses: Option<i64>) -> TokenRecord {
    TokenRecord { profile_id: "production".to_string(), expires_at, revoked, uses, max_uses }
}

#[test]
fn token_digest_is_sha256() {
    let digest = token_hash("abc");
    assert_eq!(
        hex_token_hashes(&vec![digest])[0],
        "ba7816bf8f01cfea414140de5dae2223b00361a396177a9cb410ff61f20015ad"
    );
}

#[test]
fn hex_of_hashes() {
    let out = hex_token_hashes(&vec![vec![0x00, 0xff, 0x1a], vec![]]);
    assert_eq!(out, vec!["00ff1a".to_string(), String::new()]);
}

#[test]
fn token_checks_in_order() {
    assert!(matches!(check_token(None, 100), Err(TokenError::NotFound)));
    assert!(matches!(check_token(Some(record(99, 1, 5, Some(1))), 100), Err(TokenError::Expired)));
    assert!(matches!(check_token(Some(record(100, 1, 5, Some(1))), 100), Err(TokenError::Revoked)));
    assert!(matches!(
        check_token(Some(record(100, 0, 5, Some(5))), 100),
        Err(TokenError::UsageExceeded)
    ));
    match check_token(Some(record(100, 0, 4, Some(5))), 100) {
        Ok(p) => assert_eq!(p, "production"),
        Err(e) => panic!("refused: {e:?}"),
    }
    assert!(check_token(Some(record(100, 0, 1000, None)), 100).is_ok());
}

#[test]
fn redeeming_uses_the_clock() {
    let (answer, next) = redeem_token(Some(record(0, 0, 0, None)));
    assert!(matches!(answer, Err(TokenError::Expired)));
    assert_eq!(next, Some(record(0, 0, 0, None)));
    let (answer, next) = redeem_token(Some(record(i64::MAX, 0, 0, None)));
    assert!(answer.is_ok());
    assert_eq!(next, Some(record(i64::MAX, 0, 1, None)));
    let (answer, next) = redeem_token(None);
    assert!(matches!(answer, Err(TokenError::NotFound)));
    assert_eq!(next, None);
}

#[test]
fn uses_are_counted_up_to_the_limit() {
    let mut current = Some(record(100, 0, 1, Some(3)));
    let mut admitted = Vec::new();
    for now in [10, 20, 30, 40] {
        let (answer, next) = redeem_step(current, now);
        admitted.push(match answer {
            Ok(_) => "ok",
            Err(TokenError::UsageExceeded) => "used up",
            Err(_) => "other",
        });
        current = next;
    }
    assert_eq!(admitted, vec!["ok", "ok", "used up", "used up"]);
    assert_eq!(current.unwrap().uses, 3);
}

#[test]
fn counting_stops_at_the_largest_count() {
    let (answer, next) = redeem_step(Some(record(100, 0, i64::MAX, None)), 0);
    assert!(answer.is_ok());
    assert_eq!(next.unwrap().uses, i64::MAX);
}

#[test]
fn issued_token_is_redeemed_once() {
    let t = enrollment_token_at("production".to_string(), 500, 1, 400);
    assert_eq!(t.created_at, 400);
    let row = enrollment_token_row(&t);
    let stored = TokenRecord {
        profile_id: row.profile_id.clone(),
        expires_at: row.expires_at,
        revoked: row.revoked,
        uses: row.uses,
        max_uses: Some(row.max_uses),
    };
    let (answer, next) = redeem_step(Some(stored), 450);
    assert_eq!(answer.unwrap(), "production");
    let (again, _) = redeem_step(next, 460);
    assert!(matches!(again, Err(TokenError::UsageExceeded)));
}

#[test]
fn agents_at_an_instant() {
    let agent = agent_at("aGk_", "agent-9", "production", 1_700_000_000, 123).unwrap();
    assert_eq!(agent.registered_at, 1_700_000_000);
    assert_eq!(agent.registered_at_nanos, 123);
    assert_eq!(agent.id, "agent-9");
}

#[test]
fn validation_outcome() {
    assert_eq!(token_check_outcome(Ok("p".to_string())), (true, "p".to_string()));
    assert_eq!(token_check_outcome(Err(TokenError::Revoked)), (false, String::new()));
}

#[test]
fn issued_tokens() {
    let t = create_enrollment_token("production".to_string(), 2_000_000_000, 10);
    assert_eq!(t.token.chars().count(), 32);
    assert_eq!(t.id.chars().count(), 16);
    let safe = |c: char| c.is_ascii_alphanumeric() || c == '_' || c == '-';
    assert!(t.token.chars().all(safe));
    assert!(t.id.chars().all(safe));
    assert_eq!(t.uses, 0);
    assert!(!t.revoked);
    assert_eq!(t.max_uses, 10);
    assert_eq!(t.expires_at, 2_000_000_000);
    let row = enrollment_token_row(&t);
    assert_eq!(row.token_hash, token_hash(&t.token));
    assert_ne!(row.token_hash, t.token.as_bytes().to_vec());
    assert_eq!(row.id_bytes, t.id.as_bytes().to_vec());
    assert_eq!(row.revoked, 0);
    assert_eq!(row.created_at, t.created_at);
}

#[test]
fn public_key_codecs() {
    assert_eq!(encode_public_key(b"hi?"), "aGk/");
    assert_eq!(encode_public_key(&[0xfb, 0xff]), "+/8=");
    assert_eq!(decode_public_key("aGk_").unwrap(), b"hi?".to_vec());
    assert_eq!(decode_public_key("-_8").unwrap(), vec![0xfb, 0xff]);
    assert_eq!(decode_public_key("-_8=").unwrap(), vec![0xfb, 0xff]);
    assert!(matches!(decode_public_key("+/8="), Err(PublicKeyError::InvalidBase64(_))));
}

#[test]
fn collector_keys_decode_on_the_server() {
    let key = generate_key_pair("agent-1");
    let bytes = decode_public_key(&key).unwrap();
    assert_eq!(bytes.len(), 32);
    assert_eq!(key.len(), 43);
    assert!(key.chars().all(|c| c.is_ascii_alphanumeric() || c == '-' || c == '_'));
    assert_ne!(generate_key_pair("agent-1"), key);
}

#[test]
fn agents_from_enrollment() {
    let agent = new_agent("aGk_", "3f0c2a9e-agent", "production").unwrap();
    assert_eq!(agent.id, "3f0c2a9e-agent");
    assert!(agent.registered_at > 0);
    assert!(agent.registered_at_nanos < 1_000_000_000);
    assert_eq!(agent.profile_id, "production");
    assert_eq!(agent.public_key, b"hi?".to_vec());
    assert!(!agent.revoked);
    assert!(new_agent("not base64!", "3f0c2a9e-agent", "production").is_err());
}

#[test]
fn verifying_key_of_known_secret() {
    // RFC 8032, section 7.1, test 1.
    let secret: [u8; 32] = [
        0x9d, 0x61, 0xb1, 0x9d, 0xef, 0xfd, 0x5a, 0x60, 0xba, 0x84, 0x4a, 0xf4, 0x92, 0xec, 0x2c,
        0xc4, 0x44, 0x49, 0xc5, 0x69, 0x7b, 0x32, 0x69, 0x19, 0x70, 0x3b, 0xac, 0x03, 0x1c, 0xae,
        0x7f, 0x60,
    ];
    let text = watch_watch::registry::encode_verifying_key(&secret);
    let bytes = decode_public_key(&text).unwrap();
    assert_eq!(
        watch_watch::registry::hex_token_hashes(&vec![bytes])[0],
        "d75a980182b10ab7d54bfed3c964073a0ee172f3daa62325af021a68f707511a"
    );
    assert!(!text.contains('='));
}
