use jsonwebtoken::jwk::{Jwk as JoseKey, JwkSet};
use jsonwebtoken::{Algorithm, EncodingKey, Header};
use zonemail::auth::keys::{
    accept_set, choose_key, credential_text, credential_with, janux_credential, join_url, pick_key,
    read_jwks, HttpKeysFetcher, Jwk, JwksLocation, KeySet, Resolution, VerificationKey,
};
use zonemail::json::{read_json, Json};
use zonemail::time::Duration;

const SECRET: &[u8] = b"0123456789abcdef0123456789abcdef";

fn jwks_text(kid: &str) -> String {
    let mut jwk =
        JoseKey::from_encoding_key(&EncodingKey::from_secret(SECRET), Algorithm::HS256).unwrap();
    jwk.common.key_id = Some(kid.to_string());
    serde_json::to_string(&JwkSet { keys: vec![jwk] }).unwrap()
}

fn in_memory_jwks(kid: &str) -> Vec<Jwk> {
    read_jwks(&jwks_text(kid)).unwrap()
}

fn kid_of(kid: Option<&str>) -> Option<String> {
    let mut header = Header::new(Algorithm::HS256);
    header.kid = kid.map(str::to_string);
    let claims: serde_json::Map<String, serde_json::Value> = serde_json::Map::new();
    let token =
        jsonwebtoken::encode(&header, &claims, &EncodingKey::from_secret(SECRET)).unwrap();
    jsonwebtoken::decode_header(&token).unwrap().kid
}

fn fetcher() -> HttpKeysFetcher {
    HttpKeysFetcher::jwks("https://j.example.com/jwks.json".to_string(), None, None, true)
}

#[test]
fn inline_set_resolves_by_kid() {
    let ks = KeySet::static_set(in_memory_jwks("test-key"), 0);
    match ks.resolve(&kid_of(Some("test-key")), 0) {
        Resolution::Key(VerificationKey::Jwk(json)) => {
            let jwk: JoseKey = serde_json::from_str(&json).unwrap();
            let key = jsonwebtoken::DecodingKey::from_jwk(&jwk).unwrap();
            let mut claims = serde_json::Map::new();
            claims.insert("sub".to_string(), serde_json::Value::from("u"));
            claims.insert("exp".to_string(), serde_json::Value::from(9_999_999_999_i64));
            let token = jsonwebtoken::encode(
                &Header::new(Algorithm::HS256),
                &claims,
                &EncodingKey::from_secret(SECRET),
            )
            .unwrap();
            let data = jsonwebtoken::decode::<serde_json::Value>(
                &token,
                &key,
                &jsonwebtoken::Validation::new(Algorithm::HS256),
            )
            .expect("verify");
            assert_eq!(data.claims.get("sub").and_then(|v| v.as_str()), Some("u"));
        }
        other => panic!("expected a key, got {other:?}"),
    }
}

#[test]
fn unknown_and_kidless_kinds_fail_at_resolution() {
    let ks = KeySet::static_set(in_memory_jwks("test-key"), 0);
    assert!(matches!(ks.resolve(&kid_of(Some("test-key")), 0), Resolution::Key(_)));
    assert!(matches!(ks.resolve(&kid_of(Some("nope")), 0), Resolution::UnknownKid));
    assert!(matches!(ks.resolve(&kid_of(None), 0), Resolution::UnknownKid));
}

#[test]
fn remote_set_serves_on_demand() {
    let mut ks = KeySet::remote(fetcher(), Duration::from_secs(3600));
    assert!(ks.is_remote());
    let kid = kid_of(Some("test-key"));
    assert!(matches!(ks.resolve(&kid, 0), Resolution::Fetch));
    let found = ks.resolve_fetched(&kid, 0, Ok(in_memory_jwks("test-key")));
    assert!(matches!(found, Resolution::Key(_)));
    assert!(matches!(ks.resolve(&kid, 1), Resolution::Key(_)));
}

#[test]
fn remote_set_reports_source_unavailable_when_unreachable() {
    let mut ks = KeySet::remote(fetcher(), Duration::from_secs(3600));
    let found = ks.resolve_fetched(&kid_of(Some("test-key")), 0, Err("down".to_string()));
    assert!(matches!(found, Resolution::SourceUnavailable));
}

#[test]
fn join_url_semantics() {
    assert_eq!(
        join_url("https://j.example.com/", "/.well-known/jwks.json"),
        "https://j.example.com/.well-known/jwks.json"
    );
    assert_eq!(
        join_url("https://j.example.com", ".well-known/jwks.json"),
        "https://j.example.com/.well-known/jwks.json"
    );
    assert_eq!(
        join_url("https://j.example.com", "https://o.example/jwks"),
        "https://o.example/jwks"
    );
    assert_eq!(join_url("https://j.example.com/", ""), "https://j.example.com");
}

#[test]
fn janux_credential_bearer_and_named() {
    assert!(janux_credential(Some("abc"), None, true).is_some());
    let (name, v) = janux_credential(Some("abc"), Some("X-Token"), false).unwrap();
    assert_eq!(v, "abc");
    assert_eq!(name, "x-token");
    assert!(janux_credential(Some("    "), None, true).is_none());
    assert!(janux_credential(None, None, true).is_none());
}

#[test]
fn credentials_fall_back_to_the_standard_header() {
    assert_eq!(
        janux_credential(Some(" abc "), Some("  "), true),
        Some(("authorization".to_string(), "Bearer abc".to_string()))
    );
    assert_eq!(
        janux_credential(Some("abc"), Some("no header"), false),
        Some(("authorization".to_string(), "abc".to_string()))
    );
    assert!(janux_credential(Some("a\u{1}b"), None, false).is_none());
    assert_eq!(credential_text(Some("abc"), true).as_deref(), Some("Bearer abc"));
    assert_eq!(credential_text(None, true), None);
    assert_eq!(credential_with(Some("v".to_string()), None, false), None);
    assert_eq!(
        credential_with(Some("v".to_string()), Some("x-a".to_string()), true),
        Some(("x-a".to_string(), "v".to_string()))
    );
}

#[test]
fn stale_sets_are_fetched_again_and_serve_through_an_outage() {
    let second: u64 = 1_000_000_000;
    let mut ks = KeySet::remote(fetcher(), Duration::from_secs(10));
    ks.store(second, Ok(in_memory_jwks("old")));
    assert!(!ks.should_refetch(5 * second));
    assert!(ks.should_refetch(11 * second));
    let kid = kid_of(Some("new"));
    assert!(matches!(ks.resolve(&kid, 5 * second), Resolution::UnknownKid));
    assert!(matches!(ks.resolve(&kid, 11 * second), Resolution::Fetch));
    assert!(matches!(ks.resolve(&kid_of(Some("old")), 11 * second), Resolution::Key(_)));
    let found = ks.resolve_fetched(&kid_of(Some("old")), 11 * second, Err("down".to_string()));
    assert!(matches!(found, Resolution::Key(_)));
    let found = ks.resolve_fetched(&kid, 12 * second, Ok(in_memory_jwks("new")));
    assert!(matches!(found, Resolution::Key(_)));
}

#[test]
fn keys_are_chosen_and_never_guessed() {
    let bare = |json: &str| Jwk { kid: None, json: json.to_string() };
    let named = |kid: &str| Jwk { kid: Some(kid.to_string()), json: "{}".to_string() };
    let keys = vec![named("a"), bare("x"), named("b")];
    assert_eq!(choose_key(&keys, &Some("b".to_string())), Some(2));
    assert_eq!(choose_key(&keys, &None), Some(1));
    assert_eq!(choose_key(&vec![bare("x"), bare("y")], &None), None);
    assert_eq!(choose_key(&keys, &Some("c".to_string())), None);
    assert!(pick_key(&keys, &Some("a".to_string())).is_none());
    assert!(pick_key(&in_memory_jwks("k"), &Some("k".to_string())).is_some());
}

#[test]
fn fetched_sets_are_read() {
    let keys = in_memory_jwks("k");
    assert_eq!(keys.len(), 1);
    assert_eq!(keys[0].kid.as_deref(), Some("k"));
    assert_eq!(read_jwks("{\"keys\":[]}").unwrap_err(), "empty JWKS");
    assert!(read_jwks("nonsense").unwrap_err().starts_with("jwks parse: "));
    assert_eq!(accept_set(Ok(vec![])).unwrap_err(), "empty JWKS");
    assert_eq!(accept_set(Err("e".to_string())).unwrap_err(), "jwks parse: e");
}

#[test]
fn key_set_is_located() {
    let known = |l: JwksLocation| match l {
        JwksLocation::Known(url) => url,
        JwksLocation::Discover(url) => format!("discover {url}"),
    };
    assert_eq!(known(fetcher().jwks_location()), "https://j.example.com/jwks.json");
    let overridden = HttpKeysFetcher::issuer(
        "https://j.example.com".to_string(),
        None,
        Some("/keys"),
        None,
        None,
        true,
    );
    assert_eq!(known(overridden.jwks_location()), "https://j.example.com/keys");
    let mut issuer =
        HttpKeysFetcher::issuer("https://j.example.com/".to_string(), None, None, None, None, true);
    assert_eq!(
        known(issuer.jwks_location()),
        "discover https://j.example.com/.well-known/openid-configuration"
    );
    assert!(issuer.discovered("{").unwrap_err().starts_with("discovery parse: "));
    assert_eq!(
        issuer.discovered("{\"a\": 1}").unwrap_err(),
        "discovery document missing `jwks_uri`"
    );
    assert!(issuer.resolved.is_none());
    assert_eq!(
        issuer.discovered("{\"jwks_uri\": \"/keys\"}").unwrap(),
        "https://j.example.com/keys"
    );
    assert_eq!(known(issuer.jwks_location()), "https://j.example.com/keys");
    let document = Json::Object(vec![(
        "jwks_uri".to_string(),
        Json::Text("https://o.example/k".to_string()),
    )]);
    assert_eq!(issuer.discovered_in(&document).unwrap(), "https://o.example/k");
}

#[test]
fn json_is_read() {
    let value = read_json(r#"{"a": {"b": ["x", 1, null]}, "c": "d"}"#).unwrap();
    assert_eq!(value.member("c").and_then(|v| v.text()).as_deref(), Some("d"));
    assert!(value.member("z").is_none());
    match value.member("a").and_then(|a| a.member("b")) {
        Some(Json::List(items)) => {
            assert_eq!(items.len(), 3);
            assert_eq!(items[0].text().as_deref(), Some("x"));
            assert!(matches!(items[1], Json::Other));
            assert!(matches!(items[2], Json::Other));
        }
        other => panic!("expected a list, got {other:?}"),
    }
    assert!(read_json("{").is_err());
    assert!(Json::Other.member("a").is_none());
}
