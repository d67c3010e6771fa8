use raderbot::signing::{append_signature, build_query, sign_query_str, signed_query};

#[test]
fn hmac_sha256_known_vector() {
    assert_eq!(
        sign_query_str("Jefe", "what do ya want for nothing?"),
        "5bdcc146bf60754e6a042426089575c75a003f089d2739839dec58b964ec3843"
    );
}

#[test]
fn signature_is_lowercase_hex_of_32_bytes() {
    let s = sign_query_str("secret", "timestamp=1");
    assert_eq!(s.len(), 64);
    assert!(s.chars().all(|c| c.is_ascii_digit() || ('a'..='f').contains(&c)));
}

#[test]
fn query_pairs_are_joined() {
    let pairs = vec![
        ("symbol".to_string(), "BTC-USDT".to_string()),
        ("side".to_string(), "BUY".to_string()),
        ("timestamp".to_string(), "1700000000000".to_string()),
    ];
    assert_eq!(build_query(&pairs), "symbol=BTC-USDT&side=BUY&timestamp=1700000000000");
    assert_eq!(build_query(&vec![]), "");
}

#[test]
fn signed_query_appends_signature() {
    assert_eq!(append_signature("a=1", "ff"), "a=1&signature=ff");
    let q = signed_query("Jefe", "what do ya want for nothing?");
    assert_eq!(
        q,
        "what do ya want for nothing?&signature=5bdcc146bf60754e6a042426089575c75a003f089d2739839dec58b964ec3843"
    );
}
