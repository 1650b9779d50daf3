use jsonwebtoken::{Algorithm as JoseAlgorithm, EncodingKey, Header};
use zonemail::auth::guard::{guard, rejection, Passage};
use zonemail::auth::keys::{Jwk, KeyMaterial};
use zonemail::auth::policy::{route_target, AuthPolicy};
use zonemail::auth::{
    build_algorithms, build_key_material, collect_roles, extract_bearer, field_str,
    inline_material, parse_algorithm, resolve_secret_bytes, secret_with, walk, Algorithm,
    AuthBuildError, AuthError, AuthService, Decision, EnforceStep, TokenHeader, VerifiedClaims,
    VerifyStep,
};
use zonemail::config::{AuthConfig, KeyConfig, KeysKind, RoleConfig};
use zonemail::json::read_json;

const ISS: &str = "https://janux.example/auth";
const AUD: &str = "zonemail-api";

fn texts(list: &[&str]) -> Vec<String> {
    list.iter().map(|s| s.to_string()).collect()
}

fn permissive_config() -> AuthConfig {
    let mut cfg = AuthConfig::default();
    cfg.enabled = true;
    cfg.issuer = Some(ISS.to_string());
    cfg.audience = texts(&[AUD]);
    cfg.clock_skew_secs = 30;
    cfg.subject_claim = "sub".to_string();
    cfg.role_claims = texts(&["role", "roles"]);
    cfg.public = texts(&["health", "doc"]);
    cfg.keys.kind = KeysKind::Secret;
    cfg.roles.push(("admin".to_string(), RoleConfig { grants: texts(&["*"]), extends: vec![] }));
    cfg.roles.push((
        "read".to_string(),
        RoleConfig { grants: texts(&["mailboxes:read"]), extends: vec![] },
    ));
    cfg
}

fn service(secret: &str) -> AuthService {
    let mut cfg = permissive_config();
    cfg.keys.secret = Some(secret.to_string());
    AuthService::build(&cfg, None, 0).unwrap()
}

fn hs256(secret: &[u8], claims: &str, iss: Option<&str>, aud: Option<&str>) -> String {
    let header = Header::new(JoseAlgorithm::HS256);
    let mut map: serde_json::Map<String, serde_json::Value> = serde_json::from_str(claims).unwrap();
    if let Some(iss) = iss {
        map.insert("iss".into(), serde_json::Value::String(iss.into()));
    }
    if let Some(aud) = aud {
        map.insert("aud".into(), serde_json::Value::String(aud.into()));
    }
    jsonwebtoken::encode(&header, &map, &EncodingKey::from_secret(secret)).unwrap()
}

fn verify(svc: &AuthService, token: &str) -> Result<VerifiedClaims, AuthError> {
    match svc.verify(token, 0) {
        VerifyStep::Done(outcome) => outcome,
        VerifyStep::Fetch => panic!("nothing has to be fetched"),
    }
}

fn enforce(svc: &AuthService, path: &str, token: Option<&str>) -> Decision {
    let header = token.map(|t| format!("Bearer {t}"));
    match svc.enforce(path, "GET", header.as_deref(), 0) {
        EnforceStep::Done(decision) => decision,
        EnforceStep::Fetch => panic!("nothing has to be fetched"),
    }
}

#[test]
fn parse_algorithm_is_case_insensitive_including_eddsa() {
    assert_eq!(parse_algorithm("hs256"), Some(Algorithm::HS256));
    assert_eq!(parse_algorithm("RS256"), Some(Algorithm::RS256));
    assert_eq!(parse_algorithm("eddsa"), Some(Algorithm::EdDSA));
    assert_eq!(parse_algorithm("EDDSA"), Some(Algorithm::EdDSA));
    assert_eq!(parse_algorithm("nonsense"), None);
}

#[test]
fn verification_roundtrip_with_subject_and_roles() {
    let svc = service("0123456789abcdefsecretstuff!");
    let claims = r#"{"sub":"alice","role":"admin","roles":["ops"],"exp":9999999999}"#;
    let token = hs256(b"0123456789abcdefsecretstuff!", claims, Some(ISS), Some(AUD));
    let verified = verify(&svc, &token).expect("verify must succeed");
    assert_eq!(verified.subject.as_deref(), Some("alice"));
    assert_eq!(verified.roles, vec!["admin", "ops"]);
}

#[test]
fn wrong_alg_is_rejected() {
    let mut cfg = permissive_config();
    cfg.keys.secret = Some("secret-value!!".to_string());
    cfg.keys.algorithms = texts(&["HS512"]);
    let svc = AuthService::build(&cfg, None, 0).unwrap();
    let token = hs256(b"secret-value!!", r#"{"sub":"x"}"#, None, None);
    let err = verify(&svc, &token).unwrap_err();
    assert!(matches!(err, AuthError::AlgorithmDisallowed(ref name) if name == "HS256"), "got {err:?}");
}

#[test]
fn mismatched_secret_is_rejected() {
    let svc = service("right-secret-value");
    let token = hs256(b"wrong-secret-value!!", r#"{"sub":"x"}"#, None, None);
    let err = verify(&svc, &token).unwrap_err();
    assert!(matches!(err, AuthError::Verify(_)), "got {err:?}");
}

#[test]
fn expired_token_is_rejected() {
    let svc = service("s3cr3t-value!!");
    let token = hs256(b"s3cr3t-value!!", r#"{"sub":"x","role":"admin","exp":0}"#, None, None);
    assert!(verify(&svc, &token).is_err());
}

#[test]
fn role_policy_denies_unauthorized_target() {
    let svc = service("secret-value!!");
    let ok_target = route_target("/mailboxes", "GET").unwrap();
    assert!(svc.authorize(&texts(&["read"]), &ok_target));
    let denied_target = route_target("/mail", "GET").unwrap();
    assert!(!svc.authorize(&texts(&["read"]), &denied_target));
}

#[test]
fn bearer_extraction_and_disabled_pass_through() {
    let svc = AuthService::disabled();
    assert!(!svc.is_enabled());
    let _ = AuthPolicy::build(&vec![], &vec![]);
    assert_eq!(extract_bearer(None), None);
    assert_eq!(extract_bearer(Some("Bearer abc")).as_deref(), Some("abc"));
    assert_eq!(extract_bearer(Some("  bEARER   abc ")).as_deref(), Some("abc"));
    assert_eq!(extract_bearer(Some("Basic abc")), None);
    assert_eq!(extract_bearer(Some("Bearer")), None);
    assert_eq!(extract_bearer(Some("Bearer a b")), None);
}

#[test]
fn enforce_decision_matrix() {
    let svc = service("s3cr3t-value!!");

    let d = enforce(&svc, "/domains", None);
    assert!(matches!(d, Decision::Unauthenticated(_)), "no token must 401");

    let d = enforce(&svc, "/health", None);
    assert!(matches!(d, Decision::Continue(None)), "public must bypass");

    let claims = r#"{"sub":"a","role":"admin","exp":32503680000}"#;
    let token = hs256(b"s3cr3t-value!!", claims, Some(ISS), Some(AUD));
    let d = enforce(&svc, "/domains", Some(&token));
    assert!(matches!(d, Decision::Continue(Some(_))), "admin must pass");

    let claims = r#"{"sub":"r","role":"read","exp":32503680000}"#;
    let token = hs256(b"s3cr3t-value!!", claims, Some(ISS), Some(AUD));
    let d = enforce(&svc, "/domains", Some(&token));
    assert!(matches!(d, Decision::Forbidden(_)), "reader must 403 on /domains");
    let d = enforce(&svc, "/mailboxes", Some(&token));
    assert!(matches!(d, Decision::Continue(_)), "reader may read mailboxes");

    let claims = r#"{"sub":"x","role":"admin","exp":1}"#;
    let token = hs256(b"s3cr3t-value!!", claims, Some(ISS), Some(AUD));
    let d = enforce(&svc, "/domains", Some(&token));
    assert!(matches!(d, Decision::Unauthenticated(_)), "expired must 401");

    let d = enforce(&AuthService::disabled(), "/domains", None);
    assert!(matches!(d, Decision::Continue(_)), "disabled must pass-through");

    let claims = r#"{"sub":"x","role":"admin","exp":32503680000}"#;
    let token = hs256(b"some-other-secret-value!!", claims, Some(ISS), Some(AUD));
    let d = enforce(&svc, "/domains", Some(&token));
    assert!(matches!(d, Decision::Unauthenticated(_)), "bad sig must 401");
}

#[test]
fn other_issuers_and_audiences_are_rejected() {
    let svc = service("s3cr3t-value!!");
    let claims = r#"{"sub":"a","role":"admin","exp":32503680000}"#;
    let token = hs256(b"s3cr3t-value!!", claims, Some("https://evil.example"), Some(AUD));
    assert!(matches!(verify(&svc, &token), Err(AuthError::Verify(_))));
    let token = hs256(b"s3cr3t-value!!", claims, Some(ISS), Some("other-api"));
    assert!(matches!(verify(&svc, &token), Err(AuthError::Verify(_))));
    let token = hs256(b"s3cr3t-value!!", r#"{"sub":"a"}"#, Some(ISS), Some(AUD));
    assert!(matches!(verify(&svc, &token), Err(AuthError::Verify(_))), "an expiry is needed");
    assert!(matches!(verify(&svc, "nonsense"), Err(AuthError::Verify(_))));
}

#[test]
fn any_of_several_audiences_is_accepted_and_none_means_none() {
    let mut cfg = permissive_config();
    cfg.keys.secret = Some("s3cr3t-value!!".to_string());
    cfg.audience = texts(&["one", "two"]);
    let svc = AuthService::build(&cfg, None, 0).unwrap();
    let claims = r#"{"sub":"a","exp":32503680000}"#;
    let token = hs256(b"s3cr3t-value!!", claims, Some(ISS), Some("two"));
    assert!(verify(&svc, &token).is_ok());
    cfg.audience = vec![];
    let svc = AuthService::build(&cfg, None, 0).unwrap();
    assert!(verify(&svc, &token).is_err());
    let token = hs256(b"s3cr3t-value!!", claims, Some(ISS), None);
    assert!(verify(&svc, &token).is_ok());
}

fn jwk_set(secret: &[u8], kid: &str) -> String {
    let mut jwk = jsonwebtoken::jwk::Jwk::from_encoding_key(
        &EncodingKey::from_secret(secret),
        JoseAlgorithm::HS256,
    )
    .unwrap();
    jwk.common.key_id = Some(kid.to_string());
    serde_json::to_string(&jsonwebtoken::jwk::JwkSet { keys: vec![jwk] }).unwrap()
}

#[test]
fn key_sets_verify_tokens() {
    let mut cfg = permissive_config();
    cfg.keys.kind = KeysKind::Jwks;
    cfg.keys.algorithms = texts(&["HS256", "RS256"]);
    cfg.keys.jwks = Some(jwk_set(b"0123456789abcdef", "k1"));
    let svc = AuthService::build(&cfg, None, 0).unwrap();
    let mut header = Header::new(JoseAlgorithm::HS256);
    header.kid = Some("k1".to_string());
    let text = format!(r#"{{"sub":"a","role":"admin","exp":32503680000,"iss":"{ISS}","aud":"{AUD}"}}"#);
    let claims: serde_json::Value = serde_json::from_str(&text).unwrap();
    let key = EncodingKey::from_secret(b"0123456789abcdef");
    let token = jsonwebtoken::encode(&header, &claims, &key).unwrap();
    assert_eq!(verify(&svc, &token).unwrap().subject.as_deref(), Some("a"));
    header.kid = Some("k2".to_string());
    let token = jsonwebtoken::encode(&header, &claims, &key).unwrap();
    assert!(matches!(verify(&svc, &token), Err(AuthError::UnknownKid)));
}

#[test]
fn remote_keys_are_fetched_first() {
    let mut cfg = permissive_config();
    cfg.keys.kind = KeysKind::JwksRemote;
    cfg.keys.algorithms = texts(&["HS256"]);
    cfg.keys.jwks_url = Some("https://j.example.com/jwks.json".to_string());
    let mut svc = AuthService::build(&cfg, None, 0).unwrap();
    let claims = r#"{"sub":"a","role":"admin","exp":32503680000}"#;
    let mut header = Header::new(JoseAlgorithm::HS256);
    header.kid = Some("k1".to_string());
    let mut map: serde_json::Map<String, serde_json::Value> = serde_json::from_str(claims).unwrap();
    map.insert("iss".into(), serde_json::Value::String(ISS.into()));
    map.insert("aud".into(), serde_json::Value::String(AUD.into()));
    let token =
        jsonwebtoken::encode(&header, &map, &EncodingKey::from_secret(b"0123456789abcdef")).unwrap();
    let bearer = format!("Bearer {token}");
    assert!(matches!(svc.verify(&token, 0), VerifyStep::Fetch));
    assert!(matches!(svc.enforce("/domains", "GET", Some(&bearer), 0), EnforceStep::Fetch));

    svc.store_keys(0, Err("down".to_string()));
    assert!(matches!(svc.verify_fetched(&token), Err(AuthError::SourceUnavailable)));
    match svc.enforce_fetched("/domains", "GET", Some(&bearer)) {
        Decision::Unauthenticated(detail) => {
            assert_eq!(detail, "verification key source is unavailable")
        }
        other => panic!("got {other:?}"),
    }
    svc.fail_closed = false;
    assert!(matches!(
        svc.enforce_fetched("/domains", "GET", Some(&bearer)),
        Decision::Continue(None)
    ));

    let keys = zonemail::auth::keys::read_jwks(&jwk_set(b"0123456789abcdef", "k1"));
    svc.store_keys(0, keys);
    assert!(svc.verify_fetched(&token).is_ok());
    assert!(matches!(
        svc.enforce_fetched("/domains", "GET", Some(&bearer)),
        Decision::Continue(Some(_))
    ));
}

#[test]
fn decisions_follow_the_outcome() {
    let svc = service("s3cr3t-value!!");
    let target = route_target("/mailboxes", "GET").unwrap();
    let caller = |roles: &[&str]| VerifiedClaims { subject: None, roles: texts(roles) };
    assert!(matches!(svc.decide(&target, Ok(caller(&["read"]))), Decision::Continue(Some(_))));
    match svc.decide(&target, Ok(caller(&[]))) {
        Decision::Forbidden(d) => assert_eq!(d, "authenticated roles do not permit this route"),
        other => panic!("got {other:?}"),
    }
    match svc.decide(&target, Err(AuthError::UnknownKid)) {
        Decision::Unauthenticated(d) => assert_eq!(d, "invalid or expired token"),
        other => panic!("got {other:?}"),
    }
    let header = TokenHeader { alg: "none".to_string(), kid: None };
    assert!(matches!(
        svc.check_algorithm(header),
        Err(AuthError::AlgorithmDisallowed(ref name)) if name == "none"
    ));
    let header = TokenHeader { alg: "HS256".to_string(), kid: None };
    assert!(svc.check_algorithm(header).is_ok());
}

#[test]
fn the_guard_answers_refusals() {
    match guard(Decision::Unauthenticated("who")) {
        Passage::Refused(f) => {
            assert_eq!((f.status, f.problem.status), (401, 401));
            assert_eq!(f.problem.kind, "authentication_error");
            assert_eq!(f.problem.detail.as_deref(), Some("who"));
        }
        other => panic!("got {other:?}"),
    }
    match guard(Decision::Forbidden("no")) {
        Passage::Refused(f) => assert_eq!(f.status, 403),
        other => panic!("got {other:?}"),
    }
    let caller = VerifiedClaims { subject: Some("a".to_string()), roles: vec![] };
    assert!(matches!(guard(Decision::Continue(Some(caller))), Passage::Through(Some(_))));
    assert_eq!(rejection(401, "x").problem.detail.as_deref(), Some("x"));
}

#[test]
fn claims_are_read_at_dotted_paths() {
    let claims =
        read_json(r#"{"sub":"u","meta":{"roles":["b","a","a",7]},"role":"c","n":3}"#).unwrap();
    assert_eq!(field_str(&claims, "sub").as_deref(), Some("u"));
    assert_eq!(field_str(&claims, "n"), None);
    assert!(walk(&claims, "meta.roles").is_some());
    assert!(walk(&claims, "meta.none").is_none());
    assert!(walk(&claims, "sub.x").is_none());
    let mut roles = vec![];
    collect_roles(&claims, "meta.roles", &mut roles);
    assert_eq!(roles, texts(&["a", "b"]));
    let caller = VerifiedClaims::extract(&claims, "sub", &texts(&["role", "meta.roles", "gone"]));
    assert_eq!(caller.roles, texts(&["a", "b", "c"]));
    assert_eq!(caller.subject.as_deref(), Some("u"));
    assert!(VerifiedClaims::default().subject.is_none());
}

#[test]
fn secrets_are_resolved_in_order() {
    let mut keys = KeyConfig::default();
    assert!(matches!(resolve_secret_bytes(&keys, None), Err(AuthBuildError::NoSecret)));
    keys.secret = Some("plain".to_string());
    assert_eq!(resolve_secret_bytes(&keys, None).unwrap(), b"plain".to_vec());
    keys.secret_b64 = Some(" aGk= ".to_string());
    assert_eq!(resolve_secret_bytes(&keys, None).unwrap(), b"hi".to_vec());
    keys.secret_b64 = Some("-_8=".to_string());
    assert_eq!(resolve_secret_bytes(&keys, None).unwrap(), vec![0xfb, 0xff]);
    keys.secret_b64 = Some("!!!".to_string());
    assert!(matches!(resolve_secret_bytes(&keys, None), Err(AuthBuildError::NoSecret)));
    keys.secret_env = Some("NAME".to_string());
    assert_eq!(
        resolve_secret_bytes(&keys, Some(" value ".to_string())).unwrap(),
        b"value".to_vec()
    );
    assert_eq!(resolve_secret_bytes(&keys, None).unwrap(), b"NAME".to_vec());
    assert_eq!(secret_with(&keys, None, Some(vec![1])).unwrap(), b"NAME".to_vec());

    let mut keys = KeyConfig::default();
    keys.secret_b64 = Some(String::new());
    keys.secret = Some("abc".to_string());
    assert_eq!(resolve_secret_bytes(&keys, None).unwrap(), b"abc".to_vec());
    keys.secret_b64 = Some("  ".to_string());
    keys.secret_env = Some(" ".to_string());
    assert_eq!(resolve_secret_bytes(&keys, None).unwrap(), b"abc".to_vec());
    keys.secret = Some(String::new());
    assert!(matches!(resolve_secret_bytes(&keys, None), Err(AuthBuildError::NoSecret)));
}

#[test]
fn a_configuration_without_keys_guards_nothing() {
    let mut cfg = AuthConfig::default();
    let svc = AuthService::build(&cfg, None, 0).unwrap();
    assert!(!svc.is_enabled());
    assert!(matches!(enforce(&svc, "/domains", None), Decision::Continue(None)));
    for kind in [KeysKind::Jwks, KeysKind::JwksRemote, KeysKind::Issuer] {
        cfg.keys.kind = kind;
        assert!(!AuthService::build(&cfg, None, 0).unwrap().is_enabled());
    }
    cfg.keys.kind = KeysKind::Jwks;
    cfg.keys.jwks = Some("[1]".to_string());
    assert!(matches!(AuthService::build(&cfg, None, 0), Err(AuthBuildError::JwksParse(_))));
    cfg.keys.algorithms = texts(&["XX1"]);
    assert!(matches!(
        AuthService::build(&cfg, None, 0),
        Err(AuthBuildError::UnknownAlgorithm(_))
    ));
    let mut cfg = AuthConfig::default();
    cfg.keys.secret_b64 = Some("!!!".to_string());
    assert!(matches!(AuthService::build(&cfg, None, 0), Err(AuthBuildError::NoSecret)));
    cfg.keys.secret_b64 = None;
    cfg.enabled = true;
    assert!(matches!(AuthService::build(&cfg, None, 0), Err(AuthBuildError::NoSecret)));
}

#[test]
fn tokens_are_held_against_the_rules_of_the_service() {
    let mut cfg = permissive_config();
    cfg.keys.secret = Some("s3cr3t-value!!".to_string());
    cfg.clock_skew_secs = 300;
    let svc = AuthService::build(&cfg, None, 0).unwrap();
    let rules = svc.rules("HS256");
    assert_eq!((rules.alg.as_str(), rules.leeway), ("HS256", 300));
    assert_eq!(rules.issuer.as_deref(), Some(ISS));
    assert_eq!(rules.audience, Some(texts(&[AUD])));

    let now = std::time::SystemTime::now()
        .duration_since(std::time::SystemTime::UNIX_EPOCH)
        .unwrap()
        .as_secs();
    let claims = format!(r#"{{"sub":"a","exp":{}}}"#, now - 120);
    let token = hs256(b"s3cr3t-value!!", &claims, Some(ISS), Some(AUD));
    assert!(verify(&svc, &token).is_ok(), "within the leeway");
    cfg.clock_skew_secs = 30;
    cfg.issuer = None;
    cfg.audience = vec![];
    let svc = AuthService::build(&cfg, None, 0).unwrap();
    let rules = svc.rules("HS512");
    assert_eq!((rules.alg.as_str(), rules.leeway), ("HS512", 30));
    assert!(rules.issuer.is_none() && rules.audience.is_none());
    let token = hs256(b"s3cr3t-value!!", &claims, None, None);
    assert!(matches!(verify(&svc, &token), Err(AuthError::Verify(_))), "past the leeway");
}

#[test]
fn outcomes_follow_what_was_decoded() {
    let svc = service("s3cr3t-value!!");
    let caller = svc.outcome_of(Ok(r#"{"sub":"a","role":"b","roles":["c"]}"#.to_string())).unwrap();
    assert_eq!(caller.subject.as_deref(), Some("a"));
    assert_eq!(caller.roles, texts(&["b", "c"]));
    assert!(svc.outcome_of(Ok("7".to_string())).unwrap().subject.is_none());
    let refused = jsonwebtoken::decode_header("nonsense").unwrap_err();
    assert!(matches!(svc.outcome_of(Err(refused)), Err(AuthError::Verify(_))));
}

#[test]
fn keys_too_short_for_their_curve_are_not_used() {
    let mut cfg = permissive_config();
    cfg.keys.kind = KeysKind::Jwks;
    cfg.keys.algorithms = texts(&["EdDSA"]);
    let set = |x: &str| {
        format!(r#"{{"keys":[{{"kty":"OKP","crv":"Ed25519","x":"{x}","kid":"e"}}]}}"#)
    };
    // {"alg":"EdDSA","kid":"e"} with the claims {}
    let token = "eyJhbGciOiJFZERTQSIsImtpZCI6ImUifQ.e30.AA";
    cfg.keys.jwks = Some(set("AA"));
    let svc = AuthService::build(&cfg, None, 0).unwrap();
    assert!(matches!(verify(&svc, token), Err(AuthError::UnknownKid)));
    cfg.keys.jwks = Some(set("11qYAYKxCrfVS_7TyWQHOg7hcvPapiMlrwIaaPcHURo"));
    let svc = AuthService::build(&cfg, None, 0).unwrap();
    assert!(matches!(verify(&svc, token), Err(AuthError::Verify(_))));
}

#[test]
fn lists_of_issuers_and_audiences_are_searched() {
    let svc = service("s3cr3t-value!!");
    let list = |iss: &str, aud: &str| {
        let claims = format!(
            r#"{{"sub":"a","exp":32503680000,"iss":["x","{iss}"],"aud":["{aud}","y"]}}"#
        );
        verify(&svc, &hs256(b"s3cr3t-value!!", &claims, None, None))
    };
    assert!(list(ISS, AUD).is_ok());
    assert!(matches!(list("other", AUD), Err(AuthError::Verify(_))));
    assert!(matches!(list(ISS, "other"), Err(AuthError::Verify(_))));
}

#[test]
fn unknown_paths_are_left_to_the_router() {
    let svc = service("s3cr3t-value!!");
    assert!(matches!(enforce(&svc, "/does-not-exist", None), Decision::Continue(None)));
    assert!(matches!(enforce(&svc, "/DOMAINS/x", None), Decision::Unauthenticated(_)));
}

#[test]
fn fetched_keys_are_stamped() {
    let mut cfg = permissive_config();
    cfg.keys.kind = KeysKind::JwksRemote;
    cfg.keys.jwks_url = Some("https://j.example.com/jwks.json".to_string());
    let mut svc = AuthService::build(&cfg, None, 0).unwrap();
    let keys = zonemail::auth::keys::read_jwks(&jwk_set(b"0123456789abcdef", "k1"));
    svc.store_keys(77, keys);
    svc.store_keys(99, Err("down".to_string()));
    match &svc.key_material {
        KeyMaterial::Keys(set) => assert_eq!(set.cache.as_ref().unwrap().fetched_at, 77),
        other => panic!("got {other:?}"),
    }
}

#[test]
fn configurations_that_cannot_verify_are_refused() {
    let mut cfg = permissive_config();
    assert!(matches!(AuthService::build(&cfg, None, 0), Err(AuthBuildError::NoSecret)));
    cfg.keys.algorithms = texts(&["XX1"]);
    let e = AuthService::build(&cfg, None, 0).unwrap_err();
    assert_eq!(
        e.message(),
        "a configured algorithm `XX1` is unknown (expected e.g. `HS256`, `RS256`, `ES256`)"
    );
    cfg.keys.algorithms = vec![];
    assert_eq!(build_algorithms(&cfg.keys).unwrap(), vec![Algorithm::HS256]);
    cfg.keys.kind = KeysKind::Jwks;
    assert!(matches!(build_key_material(&cfg, None, 0), Err(AuthBuildError::NoKeyMaterial)));
    cfg.keys.jwks = Some("{\"keys\":[]}".to_string());
    let e = build_key_material(&cfg, None, 0).unwrap_err();
    assert_eq!(
        e.message(),
        "`auth.enabled = true` but no verification key material is configured"
    );
    cfg.keys.jwks = Some("[1]".to_string());
    let e = build_key_material(&cfg, None, 0).unwrap_err();
    assert!(e.message().starts_with("could not parse the inline JWKS set: "));
    cfg.keys.kind = KeysKind::JwksRemote;
    assert!(matches!(build_key_material(&cfg, None, 0), Err(AuthBuildError::NoKeyMaterial)));
    cfg.keys.kind = KeysKind::Issuer;
    assert!(matches!(build_key_material(&cfg, None, 0), Err(AuthBuildError::NoKeyMaterial)));
    cfg.keys.issuer = Some("https://j.example.com".to_string());
    assert!(matches!(build_key_material(&cfg, None, 0), Ok(KeyMaterial::Keys(_))));
    let key = Jwk { kid: None, json: "{}".to_string() };
    assert!(matches!(inline_material(Ok(vec![key]), 0), Ok(KeyMaterial::Keys(_))));
    assert!(AuthBuildError::NoSecret.message().starts_with("the `secret` source"));
    assert_eq!(Algorithm::EdDSA.name(), "EdDSA");
}
