//! Who may use the admin surface.

use sutra_engine::admin::{
    admin_gate, answer_decision, bearer_token, classify_jwks, constant_time_equals, deploy_mode,
    fetched_jwks, judge_header, strip_bearer_prefix, AdminDecision, AdminGate, DeployMode,
    GateAnswer, JwksSource, OidcVerifier, RoleClaim, SigningKey, TokenProblem, TokenStep,
};
use sutra_engine::base64::base64;
use sutra_engine::config::AdminAuthConfig;
use sutra_engine::keyed::TextMap;

use p256::elliptic_curve::sec1::ToEncodedPoint;
use rsa::pkcs8::EncodePrivateKey;
use rsa::traits::PublicKeyParts;

const TEST_KID: &str = "tp33-test-key-1";
const TEST_ISSUER: &str = "https://idp.test.local/";
const TEST_AUDIENCE: &str = "sutra-admin";
const TEST_ADMIN_KEY: &str = "tier3-admin-secret-9f3a";

fn b64url(bytes: &[u8]) -> String {
    let text = base64(&bytes.to_vec());
    text.replace('+', "-").replace('/', "_").trim_end_matches('=').to_string()
}

/// A throwaway signing key.
fn test_key() -> rsa::RsaPrivateKey {
    rsa::RsaPrivateKey::new(&mut rand::rngs::OsRng, 1024).expect("a key is generated")
}

/// The public key document of `key`.
fn jwks_of(key: &rsa::RsaPrivateKey) -> String {
    format!(
        "{{\"keys\":[{{\"kty\":\"RSA\",\"use\":\"sig\",\"alg\":\"RS256\",\"kid\":\"{}\",\"n\":\"{}\",\"e\":\"{}\"}}]}}",
        TEST_KID,
        b64url(&key.n().to_bytes_be()),
        b64url(&key.e().to_bytes_be()),
    )
}

fn default_config() -> AdminAuthConfig {
    AdminAuthConfig::default()
}

fn oidc_config(key: &rsa::RsaPrivateKey) -> AdminAuthConfig {
    AdminAuthConfig {
        issuer: Some(TEST_ISSUER.to_string()),
        audience: Some(TEST_AUDIENCE.to_string()),
        jwks: Some(jwks_of(key)),
        role_claim: "roles".to_string(),
        required_role: "sutra-admin".to_string(),
        ..default_config()
    }
}

fn plain(raw: &str) -> Result<String, String> {
    Ok(raw.to_string())
}

fn gate_of(cfg: &AdminAuthConfig) -> AdminGate {
    match AdminGate::from_config(cfg, &plain) {
        Ok(gate) => gate,
        Err(e) => panic!("{e}"),
    }
}

fn now() -> i64 {
    std::time::SystemTime::now().duration_since(std::time::UNIX_EPOCH).unwrap().as_secs() as i64
}

/// A token under an algorithm, signed with `signing`.
fn sign_with(
    alg: jsonwebtoken::Algorithm,
    signing: &jsonwebtoken::EncodingKey,
    claims: &str,
) -> String {
    let claims: serde_json::Value = serde_json::from_str(claims).unwrap();
    let mut header = jsonwebtoken::Header::new(alg);
    header.kid = Some(TEST_KID.to_string());
    jsonwebtoken::encode(&header, &claims, signing).expect("token signs")
}

/// A token signed by `key` with the given claims.
fn sign(key: &rsa::RsaPrivateKey, claims: &str) -> String {
    let pem = key.to_pkcs8_pem(rsa::pkcs8::LineEnding::LF).expect("the key is written");
    let signing =
        jsonwebtoken::EncodingKey::from_rsa_pem(pem.as_bytes()).expect("the key is read");
    sign_with(jsonwebtoken::Algorithm::RS256, &signing, claims)
}

/// The claims of an administrator.
fn admin_claims() -> String {
    let exp = now() + 3600;
    format!(
        "{{\"iss\":\"{TEST_ISSUER}\",\"aud\":\"{TEST_AUDIENCE}\",\"exp\":{exp},\"roles\":[\"sutra-admin\"]}}"
    )
}

/// A signed token with the given roles and an expiry `exp_offset_secs` from now.
fn mint_token(key: &rsa::RsaPrivateKey, roles: &str, exp_offset_secs: i64) -> String {
    let exp = now() + exp_offset_secs;
    sign(
        key,
        &format!(
            "{{\"iss\":\"{TEST_ISSUER}\",\"aud\":\"{TEST_AUDIENCE}\",\"sub\":\"alice@test.local\",\"exp\":{exp},\"roles\":{roles}}}"
        ),
    )
}

fn status(answer: GateAnswer) -> u16 {
    match answer {
        GateAnswer::Pass => 200,
        GateAnswer::Deny(status, _) => status,
        GateAnswer::Verify(_) => panic!("undecided"),
    }
}

/// What a request with one header is answered.
fn get_admin_with(gate: &AdminGate, header: Option<(&str, &str)>) -> u16 {
    let value_of = |name: &str| match header {
        Some((n, v)) if n.eq_ignore_ascii_case(name) => Some(v.to_string()),
        _ => None,
    };
    let key_header = match gate {
        AdminGate::ApiKey(k) => value_of(&k.header),
        _ => None,
    };
    match admin_gate(gate, &key_header, &value_of("authorization")) {
        GateAnswer::Verify(token) => match gate {
            AdminGate::Oidc(oidc) => match oidc.begin(&token, None) {
                TokenStep::Decided(d) => status(answer_decision(&d)),
                TokenStep::Fetch(url) => panic!("nothing to fetch from {url}"),
            },
            _ => panic!("no token is asked for"),
        },
        other => status(other),
    }
}

fn get_admin(gate: &AdminGate, auth: Option<&str>) -> u16 {
    get_admin_with(gate, auth.map(|a| ("authorization", a)))
}

#[test]
fn oidc_rejects_missing_token_with_401() {
    let gate = gate_of(&oidc_config(&test_key()));
    assert_eq!(get_admin(&gate, None), 401);
}

#[test]
fn oidc_rejects_garbage_and_unsigned_tokens_with_401() {
    let key = test_key();
    let gate = gate_of(&oidc_config(&key));
    assert_eq!(get_admin(&gate, Some("Bearer not-a-jwt")), 401);
    // A well-formed but expired token is fail-closed too.
    let expired = mint_token(&key, "[\"sutra-admin\"]", -3600);
    assert_eq!(
        get_admin(&gate, Some(&format!("Bearer {expired}"))),
        401,
        "an expired admin token is rejected"
    );
}

#[test]
fn oidc_rejects_valid_token_without_admin_scope_with_403() {
    let key = test_key();
    let gate = gate_of(&oidc_config(&key));
    let token = mint_token(&key, "[\"tenant-read:acme\"]", 3600);
    assert_eq!(get_admin(&gate, Some(&format!("Bearer {token}"))), 403);
}

#[test]
fn oidc_accepts_valid_admin_token_with_200() {
    let key = test_key();
    let gate = gate_of(&oidc_config(&key));
    let token = mint_token(&key, "[\"ops\",\"sutra-admin\"]", 3600);
    assert_eq!(get_admin(&gate, Some(&format!("Bearer {token}"))), 200);
    // A text claim is a list of words.
    let token = mint_token(&key, "\"ops sutra-admin\"", 3600);
    assert_eq!(get_admin(&gate, Some(&format!("Bearer {token}"))), 200);
    // A claim of another shape grants nothing.
    let token = mint_token(&key, "{\"sutra-admin\":true}", 3600);
    assert_eq!(get_admin(&gate, Some(&format!("Bearer {token}"))), 403);
}

#[test]
fn oidc_rejects_wrong_audience_with_401() {
    // A token issued for a different audience must not open this surface.
    let key = test_key();
    let exp = now() + 3600;
    let token = sign(
        &key,
        &format!(
            "{{\"iss\":\"{TEST_ISSUER}\",\"aud\":\"some-other-api\",\"sub\":\"mallory\",\"exp\":{exp},\"roles\":[\"sutra-admin\"]}}"
        ),
    );
    let gate = gate_of(&oidc_config(&key));
    assert_eq!(get_admin(&gate, Some(&format!("Bearer {token}"))), 401);
}

#[test]
fn a_token_that_names_no_issuer_or_no_audience_is_rejected() {
    let key = test_key();
    let gate = gate_of(&oidc_config(&key));
    let exp = now() + 3600;
    let iss = format!("\"iss\":\"{TEST_ISSUER}\",");
    let aud = format!("\"aud\":\"{TEST_AUDIENCE}\",");
    let minted = |iss: &str, aud: &str| {
        sign(&key, &format!("{{{iss}{aud}\"exp\":{exp},\"roles\":[\"sutra-admin\"]}}"))
    };
    assert_eq!(get_admin(&gate, Some(&format!("Bearer {}", minted(&iss, &aud)))), 200);
    assert_eq!(get_admin(&gate, Some(&format!("Bearer {}", minted("", &aud)))), 401);
    assert_eq!(get_admin(&gate, Some(&format!("Bearer {}", minted(&iss, "")))), 401);
    assert_eq!(get_admin(&gate, Some(&format!("Bearer {}", minted("", "")))), 401);
}

#[test]
fn a_token_of_another_key_is_rejected() {
    let gate = gate_of(&oidc_config(&test_key()));
    let token = mint_token(&test_key(), "[\"sutra-admin\"]", 3600);
    assert_eq!(get_admin(&gate, Some(&format!("Bearer {token}"))), 401);
}

#[test]
fn a_shared_secret_token_is_rejected() {
    let gate = gate_of(&oidc_config(&test_key()));
    let exp = now() + 3600;
    let claims: serde_json::Value = serde_json::from_str(&format!(
        "{{\"iss\":\"{TEST_ISSUER}\",\"aud\":\"{TEST_AUDIENCE}\",\"exp\":{exp},\"roles\":[\"sutra-admin\"]}}"
    ))
    .unwrap();
    let token = jsonwebtoken::encode(
        &jsonwebtoken::Header::new(jsonwebtoken::Algorithm::HS256),
        &claims,
        &jsonwebtoken::EncodingKey::from_secret(b"guess"),
    )
    .unwrap();
    assert_eq!(get_admin(&gate, Some(&format!("Bearer {token}"))), 401);
    assert!(judge_header(Some(("HS256".to_string(), None))).is_err());
    assert!(judge_header(Some(("RS256".to_string(), None))).is_ok());
    assert!(judge_header(None).is_err());
}

#[test]
fn dev_disabled_serves_admin_without_auth() {
    let cfg = AdminAuthConfig { dev_disabled: true, ..default_config() };
    let gate = gate_of(&cfg);
    assert!(matches!(gate, AdminGate::DevOpen));
    assert_eq!(get_admin(&gate, None), 200);
}

#[test]
fn unconfigured_surface_is_closed_with_503() {
    // Authentication is required (dev flag off) and nothing is configured: closed, never open.
    let gate = gate_of(&default_config());
    assert!(matches!(gate, AdminGate::Unconfigured));
    assert_eq!(get_admin(&gate, None), 503);
}

fn apikey_config() -> AdminAuthConfig {
    AdminAuthConfig {
        auth_scheme: Some("apikey".to_string()),
        auth_key_ref: Some(TEST_ADMIN_KEY.to_string()),
        ..default_config()
    }
}

#[test]
fn apikey_gate_accepts_the_matching_key_with_200() {
    let gate = gate_of(&apikey_config());
    assert!(matches!(gate, AdminGate::ApiKey(_)));
    assert_eq!(get_admin_with(&gate, Some(("X-API-Key", TEST_ADMIN_KEY))), 200);
}

#[test]
fn apikey_gate_rejects_missing_and_wrong_key_with_401() {
    let gate = gate_of(&apikey_config());
    assert_eq!(get_admin(&gate, None), 401);
    assert_eq!(get_admin_with(&gate, Some(("X-API-Key", "wrong-key"))), 401);
}

#[test]
fn apikey_bearer_scheme_strips_prefix_and_wins_over_oidc() {
    let cfg = AdminAuthConfig {
        auth_scheme: Some("bearer".to_string()),
        auth_key_ref: Some(TEST_ADMIN_KEY.to_string()),
        issuer: Some(TEST_ISSUER.to_string()),
        audience: Some(TEST_AUDIENCE.to_string()),
        jwks: Some(jwks_of(&test_key())),
        ..default_config()
    };
    let gate = gate_of(&cfg);
    assert!(
        matches!(gate, AdminGate::ApiKey(_)),
        "the static secret wins over OIDC when both are configured"
    );
    assert_eq!(get_admin(&gate, Some(&format!("Bearer {TEST_ADMIN_KEY}"))), 200);
}

#[test]
fn apikey_scheme_without_key_ref_refuses_boot() {
    let cfg = AdminAuthConfig {
        auth_scheme: Some("apikey".to_string()),
        auth_key_ref: None,
        ..default_config()
    };
    assert!(AdminGate::from_config(&cfg, &plain).is_err());
}

#[test]
fn a_broken_inline_jwks_refuses_boot() {
    let cfg = AdminAuthConfig {
        issuer: Some(TEST_ISSUER.to_string()),
        audience: Some(TEST_AUDIENCE.to_string()),
        jwks: Some("{not-json".to_string()),
        ..default_config()
    };
    assert!(AdminGate::from_config(&cfg, &plain).is_err());
}

#[test]
fn an_unresolvable_or_blank_key_refuses_boot() {
    let unresolvable = |_: &str| Err("no such secret".to_string());
    assert!(AdminGate::from_config(&apikey_config(), &unresolvable).is_err());
    let blank = |_: &str| Ok("  ".to_string());
    assert!(AdminGate::from_config(&apikey_config(), &blank).is_err());
    let mut odd = apikey_config();
    odd.auth_scheme = Some("digest".to_string());
    assert!(AdminGate::from_config(&odd, &plain).is_err());
}

#[test]
fn keys_at_an_endpoint_are_fetched_before_a_token_is_decided() {
    let key = test_key();
    let mut cfg = oidc_config(&key);
    cfg.jwks = Some("https://idp.test.local/jwks.json".to_string());
    let gate = gate_of(&cfg);
    let oidc: &OidcVerifier = match &gate {
        AdminGate::Oidc(v) => v,
        _ => panic!("bearer tokens are configured"),
    };
    let token = mint_token(&key, "[\"sutra-admin\"]", 3600);
    match oidc.begin(&token, None) {
        TokenStep::Fetch(url) => assert_eq!(url, "https://idp.test.local/jwks.json"),
        TokenStep::Decided(_) => panic!("the keys are not known yet"),
    }
    let keys = match fetched_jwks("u", true, "200 OK", &jwks_of(&key)) {
        Ok(keys) => keys,
        Err(e) => panic!("{e}"),
    };
    assert_eq!(keys.len(), 1);
    assert_eq!(keys[0].kid.as_deref(), Some(TEST_KID));
    // Keys that are known decide at once.
    match oidc.begin(&token, Some(&keys)) {
        TokenStep::Decided(d) => assert_eq!(d, AdminDecision::Authorized),
        TokenStep::Fetch(_) => panic!("the key is known"),
    }
    assert_eq!(oidc.authorize(&token, Some(&keys)), AdminDecision::Authorized);
    assert!(matches!(oidc.authorize(&token, None), AdminDecision::Unauthenticated(_)));
    // A failed fetch gives no keys.
    match fetched_jwks("u", false, "500 Internal Server Error", "") {
        Ok(_) => panic!("the endpoint failed"),
        Err(e) => assert!(e.contains("500"), "{e}"),
    }
    assert_eq!(
        fetched_jwks("u", true, "200 OK", "[]"),
        Err("JWKS from 'u' is not a valid JWKS document: error decoding response body".to_string())
    );
}

#[test]
fn a_key_that_cannot_be_used_is_told_from_a_token_that_is_rejected() {
    let key = test_key();
    let gate = gate_of(&oidc_config(&key));
    let oidc: &OidcVerifier = match &gate {
        AdminGate::Oidc(v) => v,
        _ => panic!("bearer tokens are configured"),
    };
    let token = mint_token(&key, "[\"sutra-admin\"]", 3600);
    let unusable = vec![SigningKey {
        kid: Some(TEST_KID.to_string()),
        jwk: "{\"kty\":\"EC\",\"crv\":\"P-256\",\"x\":\"*\",\"y\":\"*\"}".to_string(),
    }];
    assert_eq!(
        oidc.authorize(&token, Some(&unusable)),
        AdminDecision::Unauthenticated("unusable JWKS key")
    );
    let expired = mint_token(&key, "[\"sutra-admin\"]", -3600);
    let keys = match fetched_jwks("u", true, "200 OK", &jwks_of(&key)) {
        Ok(keys) => keys,
        Err(e) => panic!("{e}"),
    };
    assert_eq!(
        oidc.authorize(&expired, Some(&keys)),
        AdminDecision::Unauthenticated("token rejected (signature / issuer / audience / expiry)")
    );
}

/// The answer to an administrator's token under a set with this one key.
fn decided(jwk: &str, token: &str) -> AdminDecision {
    let config = AdminAuthConfig {
        issuer: Some(TEST_ISSUER.to_string()),
        audience: Some(TEST_AUDIENCE.to_string()),
        jwks: Some("https://idp.test.local/jwks".to_string()),
        role_claim: "roles".to_string(),
        required_role: "sutra-admin".to_string(),
        ..default_config()
    };
    let keys = vec![SigningKey { kid: Some(TEST_KID.to_string()), jwk: jwk.to_string() }];
    match &gate_of(&config) {
        AdminGate::Oidc(v) => v.authorize(token, Some(&keys)),
        _ => panic!("bearer tokens are configured"),
    }
}

#[test]
fn a_token_of_an_elliptic_curve_key_is_accepted() {
    let key = p256::SecretKey::random(&mut rand::rngs::OsRng);
    let point = key.public_key().to_encoded_point(false);
    let jwk = format!(
        "{{\"kty\":\"EC\",\"crv\":\"P-256\",\"x\":\"{}\",\"y\":\"{}\"}}",
        b64url(point.x().unwrap()),
        b64url(point.y().unwrap()),
    );
    let der = key.to_pkcs8_der().unwrap();
    let signing = jsonwebtoken::EncodingKey::from_ec_der(der.as_bytes());
    let token = sign_with(jsonwebtoken::Algorithm::ES256, &signing, &admin_claims());
    assert_eq!(decided(&jwk, &token), AdminDecision::Authorized);
}

#[test]
fn an_edwards_key_has_to_be_long_enough() {
    let key = ed25519_dalek::SigningKey::generate(&mut rand::rngs::OsRng);
    let public = key.verifying_key().to_bytes();
    let der = key.to_pkcs8_der().unwrap();
    let signing = jsonwebtoken::EncodingKey::from_ed_der(der.as_bytes());
    let token = sign_with(jsonwebtoken::Algorithm::EdDSA, &signing, &admin_claims());
    let jwk = |bytes: &[u8]| {
        format!("{{\"kty\":\"OKP\",\"crv\":\"Ed25519\",\"x\":\"{}\"}}", b64url(bytes))
    };
    let unusable = AdminDecision::Unauthenticated("unusable JWKS key");
    assert_eq!(decided(&jwk(&public), &token), AdminDecision::Authorized);
    assert_eq!(decided(&jwk(&public[..31]), &token), unusable);
    assert_eq!(decided(&jwk(&public[..1]), &token), unusable);
    assert_eq!(decided(&jwk(&[]), &token), unusable);
    // Under another algorithm the length does not matter: the key is of the wrong family.
    let key = test_key();
    let other = sign(&key, &admin_claims());
    assert_eq!(
        decided(&jwk(&public[..1]), &other),
        AdminDecision::Unauthenticated("token rejected (signature / issuer / audience / expiry)")
    );
}

#[test]
fn a_reference_to_keys_is_an_endpoint_or_a_document() {
    match classify_jwks("https://idp/jwks") {
        Ok(JwksSource::Remote(url)) => assert_eq!(url, "https://idp/jwks"),
        _ => panic!("an endpoint"),
    }
    match classify_jwks(&jwks_of(&test_key())) {
        Ok(JwksSource::Static(keys)) => assert_eq!(keys.len(), 1),
        _ => panic!("a document"),
    }
    assert!(classify_jwks("{\"keys\":[]}").is_err(), "no key could ever match");
    assert!(classify_jwks("nonsense").is_err());
}

#[test]
fn claims_are_judged_by_the_required_role() {
    let gate = gate_of(&oidc_config(&test_key()));
    let oidc = match &gate {
        AdminGate::Oidc(v) => v,
        _ => panic!("bearer tokens are configured"),
    };
    assert!(oidc.has_required_role(&RoleClaim::List(vec![None, Some("sutra-admin".to_string())])));
    assert!(!oidc.has_required_role(&RoleClaim::Text("sutra-administrator".to_string())));
    assert!(!oidc.has_required_role(&RoleClaim::Other));
    assert_eq!(oidc.judge(&Ok(RoleClaim::Other)), AdminDecision::Forbidden);
    assert!(matches!(
        oidc.judge(&Err(TokenProblem::Rejected)),
        AdminDecision::Unauthenticated(_)
    ));
}

#[test]
fn bearer_prefixes_are_stripped() {
    assert_eq!(strip_bearer_prefix("Bearer abc"), "abc");
    assert_eq!(strip_bearer_prefix("bearer abc"), "abc");
    assert_eq!(strip_bearer_prefix("abc"), "abc");
    assert_eq!(bearer_token(&Some("Bearer abc".to_string())).as_deref(), Some("abc"));
    assert_eq!(bearer_token(&None), None);
    assert!(constant_time_equals("abc", "abc"));
    assert!(!constant_time_equals("abc", "abd"));
    assert!(!constant_time_equals("abc", "ab"));
}

#[test]
fn the_posture_names_the_guard() {
    // Only the open surface is worth a warning.
    assert!(!gate_of(&apikey_config()).posture().0);
    assert!(!gate_of(&default_config()).posture().0);
    let dev = AdminAuthConfig { dev_disabled: true, ..default_config() };
    assert!(gate_of(&dev).posture().0);
}

#[test]
fn a_deployment_is_deferred_on_request() {
    assert!(matches!(deploy_mode(&TextMap::new()), DeployMode::Sync));
    let mut params = TextMap::new();
    params.insert("mode".to_string(), "async".to_string());
    params.insert("callback".to_string(), "https://a".to_string());
    params.insert("notify".to_string(), "kafka://b".to_string());
    match deploy_mode(&params) {
        DeployMode::Async(sinks) => assert_eq!(sinks, vec!["https://a", "kafka://b"]),
        DeployMode::Sync => panic!("asked for deferred"),
    }
}
