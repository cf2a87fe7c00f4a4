use beatcollector::spotify::{
    generate_authorization_url, generate_code_challenge, generate_code_verifier, is_token_expired,
};

#[test]
fn test_code_verifier_generation() {
    let verifier = generate_code_verifier();
    assert!(verifier.len() >= 43 && verifier.len() <= 128);
}

#[test]
fn test_code_challenge_generation() {
    let verifier = "test_verifier_1234567890_abcdefghijklmnop";
    let challenge = generate_code_challenge(verifier);
    assert!(!challenge.is_empty());
}

#[test]
fn code_challenge_matches_the_published_s256_example() {
    // the worked S256 example of the PKCE specification (RFC 7636, appendix B)
    let verifier = "dBjftJeZ4CVP-mB92K27uhbUJU1p1r_wW1gFWFOEjXk";
    assert_eq!(
        generate_code_challenge(verifier),
        "E9Melhoa2OwvFrEMTJguCHaoeK1t8URWbuGJSstw-cM"
    );
}

#[test]
fn authorization_url_carries_client_and_state() {
    let auth = generate_authorization_url("client-1", "http://localhost:3000/cb");
    assert!(auth.url.starts_with("?client_id=client-1&response_type=code&redirect_uri="));
    assert!(auth.url.contains("&code_challenge_method=S256&code_challenge="));
    assert!(auth.url.contains("&scope=user-library-read%20playlist-read-private"));
    assert!(auth.url.ends_with(&format!("&state={}", auth.state)));
    assert_eq!(auth.code_verifier.len(), 43);
}

#[test]
fn token_expiry_includes_a_five_minute_margin() {
    // expires well in the future: not expired
    assert!(!is_token_expired(1_000_000, 2_000_000));
    // expires within five minutes: treated as expired
    assert!(is_token_expired(1_000_000, 1_200_000));
    // already expired
    assert!(is_token_expired(1_000_000, 500_000));
    // exactly at the margin boundary counts as expired
    assert!(is_token_expired(1_000_000, 1_300_000));
}
