use nexus_agent::auth::{
    base64_error_message, base64_url_decode, check_header, check_jwks_status, decode_token,
    expected_issuer, find_jwks_key, jwks_url, start_validation, validate_claims, AccessClaims,
    AuthError, Base64Error, JwksKey, JwtHeader,
};

fn claims(iss: &str, email: &str, exp: u64) -> AccessClaims {
    AccessClaims {
        sub: "s".to_string(),
        email: email.to_string(),
        iss: iss.to_string(),
        aud: vec!["other-app".to_string(), "app-aud".to_string()],
        exp,
        iat: 0,
    }
}

fn key(kid: &str) -> JwksKey {
    JwksKey { kid: kid.to_string(), kty: "RSA".to_string(), n: format!("n-{}", kid), e: "AQAB".to_string() }
}

#[test]
fn base64_edge_cases() {
    assert_eq!(base64_url_decode("").unwrap(), Vec::<u8>::new());
    assert_eq!(base64_url_decode("aGk").unwrap(), b"hi".to_vec());
    assert_eq!(base64_url_decode("_-8").unwrap(), vec![0xff, 0xef]);
    assert!(matches!(base64_url_decode("aGk="), Err(AuthError::Base64Decode(_))));
    assert!(matches!(base64_url_decode("a"), Err(AuthError::Base64Decode(_))));
    assert!(matches!(base64_url_decode("a+b/"), Err(AuthError::Base64Decode(_))));
}

#[test]
fn token_must_have_three_parts() {
    assert!(matches!(decode_token("a.b"), Err(AuthError::InvalidFormat)));
    assert!(matches!(decode_token("a.b.c.d"), Err(AuthError::InvalidFormat)));
    assert!(matches!(decode_token("!!.e30.sig"), Err(AuthError::Base64Decode(_))));
    assert!(matches!(decode_token("e30.!!.sig"), Err(AuthError::Base64Decode(_))));
    assert!(matches!(decode_token("e30.e30.s"), Err(AuthError::Base64Decode(_))));
    let d = decode_token("eyJhbGciOiJSUzI1NiIsImtpZCI6InRlc3QifQ.e30.").unwrap();
    assert_eq!(d.header, br#"{"alg":"RS256","kid":"test"}"#.to_vec());
    assert_eq!(d.payload, b"{}".to_vec());
    assert!(d.signature.is_empty());
    assert_eq!(d.signing_input, "eyJhbGciOiJSUzI1NiIsImtpZCI6InRlc3QifQ.e30");
    let d = decode_token("e30.e30.c2ln").unwrap();
    assert_eq!(d.signature, b"sig".to_vec());
    assert_eq!(d.signing_input, "e30.e30");
}

#[test]
fn header_needs_kid_and_rs256() {
    let h = JwtHeader { kid: Some("k1".to_string()), alg: None };
    assert_eq!(check_header(&h).unwrap(), "k1");
    let h = JwtHeader { kid: Some("k1".to_string()), alg: Some("RS256".to_string()) };
    assert_eq!(check_header(&h).unwrap(), "k1");
    let h = JwtHeader { kid: None, alg: Some("HS256".to_string()) };
    assert!(matches!(check_header(&h), Err(AuthError::MissingKid)));
    let h = JwtHeader { kid: Some("k1".to_string()), alg: Some("HS256".to_string()) };
    match check_header(&h) {
        Err(AuthError::UnsupportedAlgorithm(a)) => assert_eq!(a, "HS256"),
        other => panic!("unexpected {:?}", other),
    }
}

#[test]
fn jwks_lookup() {
    assert_eq!(jwks_url("team.cloudflareaccess.com"), "https://team.cloudflareaccess.com/cdn-cgi/access/certs");
    assert!(check_jwks_status(200).is_ok());
    assert!(matches!(check_jwks_status(404), Err(AuthError::JwksFetchFailed(404))));
    let keys = vec![key("a"), key("b"), key("b")];
    assert_eq!(find_jwks_key(&keys, &"b".to_string()).unwrap(), 1);
    match find_jwks_key(&keys, &"z".to_string()) {
        Err(AuthError::NoMatchingKey(k)) => assert_eq!(k, "z"),
        other => panic!("unexpected {:?}", other),
    }
}

#[test]
fn claims_checks_in_order() {
    assert_eq!(expected_issuer("t.com"), "https://t.com");
    assert!(validate_claims(&claims("https://t.com", "admin@x", 100), "t.com", "app-aud", "admin@x", 100).is_ok());
    match validate_claims(&claims("https://evil", "someone", 1), "t.com", "nobody", "admin@x", 100) {
        Err(AuthError::InvalidIssuer { expected, got }) => {
            assert_eq!(expected, "https://t.com");
            assert_eq!(got, "https://evil");
        }
        other => panic!("unexpected {:?}", other),
    }
    match validate_claims(&claims("https://t.com", "someone", 1), "t.com", "nobody", "admin@x", 100) {
        Err(AuthError::InvalidAudience(a)) => assert_eq!(a, "nobody"),
        other => panic!("unexpected {:?}", other),
    }
    let mut no_aud = claims("https://t.com", "admin@x", 100);
    no_aud.aud = vec![];
    assert!(matches!(
        validate_claims(&no_aud, "t.com", "app-aud", "admin@x", 100),
        Err(AuthError::InvalidAudience(_))
    ));
    assert!(matches!(
        validate_claims(&claims("https://t.com", "someone", 99), "t.com", "app-aud", "admin@x", 100),
        Err(AuthError::Expired { exp: 99, now: 100 })
    ));
    match validate_claims(&claims("https://t.com", "someone", 100), "t.com", "app-aud", "admin@x", 100) {
        Err(AuthError::Unauthorized(who)) => assert_eq!(who, "someone"),
        other => panic!("unexpected {:?}", other),
    }
}

#[test]
fn error_messages() {
    assert_eq!(AuthError::InvalidFormat.message(), "Invalid JWT format: expected 3 parts");
    assert_eq!(AuthError::MissingKid.message(), "JWT header missing 'kid'");
    assert_eq!(
        AuthError::UnsupportedAlgorithm("HS256".to_string()).message(),
        "Unsupported algorithm: HS256. Only RS256 is supported."
    );
    assert_eq!(AuthError::JwksFetchFailed(503).message(), "JWKS fetch failed with status: 503");
    assert_eq!(AuthError::NoMatchingKey("k".to_string()).message(), "No JWKS key found for kid: k");
    assert_eq!(AuthError::HeaderParse("bad".to_string()).message(), "Failed to parse JWT header: bad");
    assert_eq!(AuthError::ClaimsParse("bad".to_string()).message(), "Failed to parse JWT claims: bad");
    assert_eq!(
        AuthError::InvalidIssuer { expected: "https://a".to_string(), got: "https://b".to_string() }.message(),
        "Invalid issuer: expected 'https://a', got 'https://b'"
    );
    assert_eq!(
        AuthError::Expired { exp: 5, now: 12 }.message(),
        "Token expired at 5, current time is 12"
    );
    assert_eq!(
        AuthError::Unauthorized("x@y".to_string()).message(),
        "Unauthorized: x@y is not authorized. Admin only."
    );
    assert_eq!(AuthError::InvalidSignature.message(), "Invalid JWT signature");
    assert_eq!(
        AuthError::InvalidAudience("app".to_string()).message(),
        "Invalid audience: token is not for 'app'"
    );
    assert_eq!(
        AuthError::Base64Decode(Base64Error::InvalidByte { offset: 3, byte: 61 }).message(),
        "Base64 decode error: Invalid symbol 61, offset 3."
    );
    assert_eq!(base64_error_message(Base64Error::InvalidLength(5)), "Invalid input length: 5");
    assert_eq!(
        base64_error_message(Base64Error::InvalidLastSymbol { offset: 2, byte: 98 }),
        "Invalid last symbol 98, offset 2."
    );
    assert_eq!(base64_error_message(Base64Error::InvalidPadding), "Invalid padding");
    match base64_url_decode("a") {
        Err(e) => assert_eq!(e.message(), "Base64 decode error: Invalid input length: 1"),
        Ok(_) => panic!("decoded"),
    }
    match base64_url_decode("!!") {
        Err(e) => assert_eq!(e.message(), "Base64 decode error: Invalid symbol 33, offset 0."),
        Ok(_) => panic!("decoded"),
    }
}

#[test]
fn staged_validation_accepts_the_admin() {
    // {"alg":"RS256","kid":"k1"} . {} . sig
    let p = start_validation("eyJhbGciOiJSUzI1NiIsImtpZCI6ImsxIn0.e30.c2ln", "t.com", "app-aud", "admin@x").unwrap();
    assert_eq!(p.payload, b"{}".to_vec());
    assert_eq!(p.signature, b"sig".to_vec());
    assert_eq!(p.signing_input, "eyJhbGciOiJSUzI1NiIsImtpZCI6ImsxIn0.e30");
    let header = JwtHeader { kid: Some("k1".to_string()), alg: Some("RS256".to_string()) };
    let k = p.on_header(&header).unwrap();
    assert_eq!(k.url, "https://t.com/cdn-cgi/access/certs");
    assert_eq!(k.kid, "k1");
    assert!(matches!(k.check_status(500), Err(AuthError::JwksFetchFailed(500))));
    assert!(k.check_status(200).is_ok());
    let sp = k.on_keys(&vec![key("k0"), key("k1")]).unwrap();
    assert_eq!(sp.key.kid, "k1");
    assert_eq!(sp.key.n, "n-k1");
    assert_eq!(sp.signing_input, "eyJhbGciOiJSUzI1NiIsImtpZCI6ImsxIn0.e30");
    assert_eq!(sp.signature, b"sig".to_vec());
    let c = sp.on_signature(true).unwrap();
    let ok = c.on_claims(claims("https://t.com", "admin@x", 50), 10).unwrap();
    assert_eq!(ok.email, "admin@x");
}

#[test]
fn staged_validation_refusals() {
    assert!(matches!(start_validation("x", "t", "aud", "a"), Err(AuthError::InvalidFormat)));
    assert!(matches!(start_validation("e30.e30.s", "t", "aud", "a"), Err(AuthError::Base64Decode(_))));
    let p = start_validation("e30.e30.c2ln", "t.com", "app-aud", "admin@x").unwrap();
    assert!(matches!(p.on_header(&JwtHeader { kid: None, alg: None }), Err(AuthError::MissingKid)));
    let p = start_validation("e30.e30.c2ln", "t.com", "app-aud", "admin@x").unwrap();
    let k = p.on_header(&JwtHeader { kid: Some("k".to_string()), alg: None }).unwrap();
    assert!(matches!(k.on_keys(&vec![]), Err(AuthError::NoMatchingKey(_))));
    let p = start_validation("e30.e30.c2ln", "t.com", "app-aud", "admin@x").unwrap();
    let k = p.on_header(&JwtHeader { kid: Some("k".to_string()), alg: None }).unwrap();
    let sp = k.on_keys(&vec![key("k")]).unwrap();
    assert!(matches!(sp.on_signature(false), Err(AuthError::InvalidSignature)));
    let p = start_validation("e30.e30.c2ln", "t.com", "app-aud", "admin@x").unwrap();
    let k = p.on_header(&JwtHeader { kid: Some("k".to_string()), alg: None }).unwrap();
    let c = k.on_keys(&vec![key("k")]).unwrap().on_signature(true).unwrap();
    assert!(matches!(
        c.on_claims(claims("https://t.com", "intruder@x", 50), 10),
        Err(AuthError::Unauthorized(_))
    ));
    let p = start_validation("e30.e30.c2ln", "t.com", "another-app", "admin@x").unwrap();
    let k = p.on_header(&JwtHeader { kid: Some("k".to_string()), alg: None }).unwrap();
    let c = k.on_keys(&vec![key("k")]).unwrap().on_signature(true).unwrap();
    assert!(matches!(
        c.on_claims(claims("https://t.com", "admin@x", 50), 10),
        Err(AuthError::InvalidAudience(_))
    ));
}
