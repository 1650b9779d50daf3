//! Authentication and authorization of API requests.
//!
//! A bearer token is verified by its signature, its algorithm, its expiry and
//! the issuer and audience that it names. The roles that it carries are then
//! held against the policy of the configuration.
pub mod guard;
pub mod keys;
pub mod policy;

use vstd::prelude::*;
use base64::Engine;
use base64::engine::general_purpose::{STANDARD, URL_SAFE};
use jsonwebtoken::errors::Error as TokenError;
use jsonwebtoken::{DecodingKey, Validation};
use crate::config;
use crate::config::{AuthConfig, KeyConfig, KeysKind, RoleConfig};
use crate::json;
use crate::json::{read_json, Json};
use crate::text;
use crate::text::{
    copy_text, copy_texts, insert_ordered, joined, same_text, split_once, split_words,
    to_ascii_lower, trim,
};
use crate::time::Duration;
use self::keys::{
    parse_jwk_value, CachedSet, HttpKeysFetcher, Jwk, KeyMaterial, KeySet, Resolution, VerificationKey,
};
use self::policy::{route_target, AuthPolicy, RouteTarget};

verus! {

// ---------------------------------------------------------------------------
// Errors
// ---------------------------------------------------------------------------

/// `jsonwebtoken::errors::Error`, why a token was not accepted.
#[verifier::external_type_specification]
#[verifier::external_body]
pub struct ExTokenError(TokenError);

/// Why a caller is not authenticated.
#[derive(Debug)]
pub enum AuthError {
    /// The algorithm of the token is not allowed.
    AlgorithmDisallowed(String),
    /// No key is for the token.
    UnknownKid,
    /// The keys could not be fetched, and none are kept.
    SourceUnavailable,
    /// The token was not accepted.
    Verify(TokenError),
}

/// Why no service can be built from a configuration.
#[derive(Debug, Clone)]
pub enum AuthBuildError {
    /// There is nothing to verify with.
    NoKeyMaterial,
    /// An algorithm is not known.
    UnknownAlgorithm(String),
    /// The key set of the configuration cannot be read.
    JwksParse(String),
    /// There is no secret.
    NoSecret,
}

/// What an [`AuthBuildError`] says.
pub enum BuildErrorView {
    NoKeyMaterial,
    UnknownAlgorithm(Seq<char>),
    JwksParse(Seq<char>),
    NoSecret,
}

impl View for AuthBuildError {
    type V = BuildErrorView;

    open spec fn view(&self) -> BuildErrorView {
        match self {
            AuthBuildError::NoKeyMaterial => BuildErrorView::NoKeyMaterial,
            AuthBuildError::UnknownAlgorithm(name) => BuildErrorView::UnknownAlgorithm(name@),
            AuthBuildError::JwksParse(e) => BuildErrorView::JwksParse(e@),
            AuthBuildError::NoSecret => BuildErrorView::NoSecret,
        }
    }
}

impl AuthBuildError {
    /// What to tell a person.
    pub fn message(&self) -> (out: String)
        ensures
            out@ == (match self@ {
                BuildErrorView::NoKeyMaterial =>
                    "`auth.enabled = true` but no verification key material is configured"@,
                BuildErrorView::UnknownAlgorithm(name) => "a configured algorithm `"@ + name
                    + "` is unknown (expected e.g. `HS256`, `RS256`, `ES256`)"@,
                BuildErrorView::JwksParse(e) => "could not parse the inline JWKS set: "@ + e,
                BuildErrorView::NoSecret =>
                    "the `secret` source did not resolve to bytes (check `secret`/`secret_b64`/`secret_env` and the environment)"@,
            }),
    {
        match self {
            AuthBuildError::NoKeyMaterial =>
                "`auth.enabled = true` but no verification key material is configured".to_owned(),
            AuthBuildError::UnknownAlgorithm(name) => {
                let head = joined("a configured algorithm `", name.as_str());
                joined(
                    head.as_str(),
                    "` is unknown (expected e.g. `HS256`, `RS256`, `ES256`)",
                )
            },
            AuthBuildError::JwksParse(e) => joined(
                "could not parse the inline JWKS set: ",
                e.as_str(),
            ),
            AuthBuildError::NoSecret =>
                "the `secret` source did not resolve to bytes (check `secret`/`secret_b64`/`secret_env` and the environment)".to_owned(),
        }
    }
}

// ---------------------------------------------------------------------------
// Algorithms
// ---------------------------------------------------------------------------

/// An algorithm that tokens are signed with.
#[derive(Debug, Clone, Copy, PartialEq, Eq, Structural)]
pub enum Algorithm {
    HS256,
    HS384,
    HS512,
    ES256,
    ES384,
    RS256,
    RS384,
    RS512,
    PS256,
    PS384,
    PS512,
    EdDSA,
}

impl Algorithm {
    /// The name of the algorithm in a token.
    pub open spec fn name_view(self) -> Seq<char> {
        match self {
            Algorithm::HS256 => "HS256"@,
            Algorithm::HS384 => "HS384"@,
            Algorithm::HS512 => "HS512"@,
            Algorithm::ES256 => "ES256"@,
            Algorithm::ES384 => "ES384"@,
            Algorithm::RS256 => "RS256"@,
            Algorithm::RS384 => "RS384"@,
            Algorithm::RS512 => "RS512"@,
            Algorithm::PS256 => "PS256"@,
            Algorithm::PS384 => "PS384"@,
            Algorithm::PS512 => "PS512"@,
            Algorithm::EdDSA => "EdDSA"@,
        }
    }

    /// The name of the algorithm in a token.
    pub fn name(self) -> (out: &'static str)
        ensures
            out@ == self.name_view(),
    {
        match self {
            Algorithm::HS256 => "HS256",
            Algorithm::HS384 => "HS384",
            Algorithm::HS512 => "HS512",
            Algorithm::ES256 => "ES256",
            Algorithm::ES384 => "ES384",
            Algorithm::RS256 => "RS256",
            Algorithm::RS384 => "RS384",
            Algorithm::RS512 => "RS512",
            Algorithm::PS256 => "PS256",
            Algorithm::PS384 => "PS384",
            Algorithm::PS512 => "PS512",
            Algorithm::EdDSA => "EdDSA",
        }
    }
}

/// The algorithm that a name of the configuration stands for; its letter case
/// makes no difference.
pub open spec fn algorithm_of(name: Seq<char>) -> Option<Algorithm> {
    let word = text::ascii_lower(name);
    if word == "hs256"@ {
        Some(Algorithm::HS256)
    } else if word == "hs384"@ {
        Some(Algorithm::HS384)
    } else if word == "hs512"@ {
        Some(Algorithm::HS512)
    } else if word == "es256"@ {
        Some(Algorithm::ES256)
    } else if word == "es384"@ {
        Some(Algorithm::ES384)
    } else if word == "rs256"@ {
        Some(Algorithm::RS256)
    } else if word == "rs384"@ {
        Some(Algorithm::RS384)
    } else if word == "rs512"@ {
        Some(Algorithm::RS512)
    } else if word == "ps256"@ {
        Some(Algorithm::PS256)
    } else if word == "ps384"@ {
        Some(Algorithm::PS384)
    } else if word == "ps512"@ {
        Some(Algorithm::PS512)
    } else if word == "eddsa"@ {
        Some(Algorithm::EdDSA)
    } else {
        None
    }
}

/// Read the name of an algorithm, such as `"HS256"`, in any letter case.
pub fn parse_algorithm(name: &str) -> (out: Option<Algorithm>)
    ensures
        out == algorithm_of(name@),
{
    let lowered = to_ascii_lower(name);
    let word = lowered.as_str();
    if same_text(word, "hs256") {
        Some(Algorithm::HS256)
    } else if same_text(word, "hs384") {
        Some(Algorithm::HS384)
    } else if same_text(word, "hs512") {
        Some(Algorithm::HS512)
    } else if same_text(word, "es256") {
        Some(Algorithm::ES256)
    } else if same_text(word, "es384") {
        Some(Algorithm::ES384)
    } else if same_text(word, "rs256") {
        Some(Algorithm::RS256)
    } else if same_text(word, "rs384") {
        Some(Algorithm::RS384)
    } else if same_text(word, "rs512") {
        Some(Algorithm::RS512)
    } else if same_text(word, "ps256") {
        Some(Algorithm::PS256)
    } else if same_text(word, "ps384") {
        Some(Algorithm::PS384)
    } else if same_text(word, "ps512") {
        Some(Algorithm::PS512)
    } else if same_text(word, "eddsa") {
        Some(Algorithm::EdDSA)
    } else {
        None
    }
}

/// `i` is the first name that no algorithm has.
pub open spec fn first_unknown(names: Seq<Seq<char>>, i: int) -> bool {
    &&& 0 <= i < names.len()
    &&& algorithm_of(names[i]) is None
    &&& forall|k: int| 0 <= k < i ==> algorithm_of(#[trigger] names[k]) is Some
}

/// `out` are the algorithms of `names`, or the error for the first name that
/// no algorithm has.
pub open spec fn algorithms_for(
    names: Seq<Seq<char>>,
    out: Result<Vec<Algorithm>, AuthBuildError>,
) -> bool {
    match out {
        Ok(list) => list@.len() == names.len() && forall|i: int|
            0 <= i < names.len() ==> algorithm_of(#[trigger] names[i]) == Some(list@[i]),
        Err(e) => exists|i: int| #[trigger]
            first_unknown(names, i) && e@ == BuildErrorView::UnknownAlgorithm(names[i]),
    }
}

/// The names of the algorithms that a configuration allows: those of the
/// source where it names none.
pub open spec fn allowed_names(keys: KeyConfig) -> Seq<Seq<char>> {
    if keys.algorithms@.len() == 0 {
        config::default_algorithm_names(keys.kind)
    } else {
        text::views(keys.algorithms@)
    }
}

fn read_algorithms(names: &Vec<String>) -> (out: Result<Vec<Algorithm>, AuthBuildError>)
    ensures
        algorithms_for(text::views(names@), out),
{
    let ghost all = text::views(names@);
    let mut list: Vec<Algorithm> = Vec::new();
    let mut i: usize = 0;
    while i < names.len()
        invariant
            i <= names.len(),
            all == text::views(names@),
            list@.len() == i,
            forall|k: int| 0 <= k < i ==> algorithm_of(#[trigger] all[k]) == Some(list@[k]),
        decreases names.len() - i,
    {
        assert(all[i as int] == names@[i as int]@);
        match parse_algorithm(names[i].as_str()) {
            Some(alg) => {
                list.push(alg);
            },
            None => {
                assert(first_unknown(all, i as int));
                return Err(AuthBuildError::UnknownAlgorithm(names[i].clone()));
            },
        }
        i += 1;
    }
    Ok(list)
}

/// The algorithms that a configuration allows.
pub fn build_algorithms(keys: &KeyConfig) -> (out: Result<Vec<Algorithm>, AuthBuildError>)
    ensures
        algorithms_for(allowed_names(*keys), out),
{
    if keys.algorithms.len() == 0 {
        let names = keys.default_algorithms();
        read_algorithms(&names)
    } else {
        read_algorithms(&keys.algorithms)
    }
}

// ---------------------------------------------------------------------------
// Secrets and key material
// ---------------------------------------------------------------------------

/// The bytes that `s` encodes in the standard alphabet of Base64, if it does.
pub uninterp spec fn base64_bytes(s: Seq<char>) -> Option<Seq<u8>>;

/// The bytes that `s` encodes in the URL-safe alphabet of Base64, if it does.
pub uninterp spec fn base64_url_bytes(s: Seq<char>) -> Option<Seq<u8>>;

/// `base64`'s `STANDARD.decode`.
#[verifier::external_body]
fn decode_base64(s: &str) -> (out: Option<Vec<u8>>)
    ensures
        (match out {
            Some(bytes) => base64_bytes(s@) == Some(bytes@),
            None => base64_bytes(s@) is None,
        }),
{
    STANDARD.decode(s).ok()
}

/// `base64`'s `URL_SAFE.decode`.
#[verifier::external_body]
fn decode_base64_url(s: &str) -> (out: Option<Vec<u8>>)
    ensures
        (match out {
            Some(bytes) => base64_url_bytes(s@) == Some(bytes@),
            None => base64_url_bytes(s@) is None,
        }),
{
    URL_SAFE.decode(s).ok()
}

/// The bytes of `s` in UTF-8.
pub open spec fn utf8(s: Seq<char>) -> Seq<u8> {
    vstd::utf8::encode_utf8(s)
}

/// The value that `secret_env` stands for: that of the environment variable of
/// this name, or itself where there is no such variable.
pub open spec fn env_secret(name: Seq<char>, variable: Option<Seq<char>>) -> Seq<char> {
    text::trimmed(
        match variable {
            Some(value) => value,
            None => name,
        },
    )
}

/// The Base64 secret of a configuration, without the white space around it,
/// where it is not blank.
pub open spec fn b64_text(keys: KeyConfig) -> Option<Seq<char>> {
    match keys.secret_b64 {
        Some(s) => if text::trimmed(s@).len() > 0 {
            Some(text::trimmed(s@))
        } else {
            None
        },
        None => None,
    }
}

/// The secret of a configuration, which is the first of three that is not
/// empty: `secret_env` or `secret_b64` where it is not blank, else `secret`.
/// `decoded` says what `secret_b64` encodes.
pub open spec fn secret_of(
    keys: KeyConfig,
    variable: Option<Seq<char>>,
    decoded: Option<Seq<u8>>,
) -> Option<Seq<u8>> {
    if keys.secret_env is Some && env_secret(keys.secret_env->0@, variable).len() > 0 {
        Some(utf8(env_secret(keys.secret_env->0@, variable)))
    } else if b64_text(keys) is Some {
        decoded
    } else {
        match keys.secret {
            Some(s) => if s@.len() > 0 {
                Some(utf8(s@))
            } else {
                None
            },
            None => None,
        }
    }
}

/// What the Base64 secret of a configuration encodes: in the standard
/// alphabet, else in the URL-safe one.
pub open spec fn decoded_secret(keys: KeyConfig) -> Option<Seq<u8>> {
    match b64_text(keys) {
        Some(s) => match base64_bytes(s) {
            Some(bytes) => Some(bytes),
            None => base64_url_bytes(s),
        },
        None => None,
    }
}

/// The configuration names no key at all, where `variable` is the value of the
/// environment variable that its secret names.
pub open spec fn names_no_key(keys: KeyConfig, variable: Option<Seq<char>>) -> bool {
    match keys.kind {
        KeysKind::Secret => {
            &&& keys.secret_env matches Some(name) ==> env_secret(name@, variable).len() == 0
            &&& b64_text(keys) is None
            &&& keys.secret matches Some(s) ==> s@.len() == 0
        },
        KeysKind::Jwks => keys.jwks is None,
        KeysKind::JwksRemote => keys.jwks_url is None,
        KeysKind::Issuer => keys.issuer is None,
    }
}

/// The bytes of a secret, if there is one.
pub open spec fn bytes_view(bytes: Option<Vec<u8>>) -> Option<Seq<u8>> {
    match bytes {
        Some(b) => Some(b@),
        None => None,
    }
}

fn bytes_of(s: &str) -> (out: Vec<u8>)
    ensures
        out@ == utf8(s@),
{
    vstd::slice::slice_to_vec(s.as_bytes())
}

/// The Base64 secret of a configuration, where it is not blank.
fn b64_of(keys: &KeyConfig) -> (out: Option<String>)
    ensures
        text::view_of(out) == b64_text(*keys),
{
    match &keys.secret_b64 {
        Some(s) => {
            let bare = trim(s.as_str());
            if bare.as_str().is_empty() {
                None
            } else {
                Some(bare)
            }
        },
        None => None,
    }
}

/// The value that `secret_env` stands for, where it is not blank.
fn env_of(keys: &KeyConfig, variable: &Option<String>) -> (out: Option<String>)
    ensures
        text::view_of(out) == (match keys.secret_env {
            Some(name) => if env_secret(name@, text::view_of(*variable)).len() > 0 {
                Some(env_secret(name@, text::view_of(*variable)))
            } else {
                None
            },
            None => None,
        }),
{
    let name = match &keys.secret_env {
        Some(name) => name,
        None => return None,
    };
    let value = match variable {
        Some(value) => trim(value.as_str()),
        None => trim(name.as_str()),
    };
    if value.as_str().is_empty() {
        None
    } else {
        Some(value)
    }
}

/// The secret of a configuration, where `decoded` is what its Base64 secret
/// encodes and `variable` is the value of the environment variable that it
/// names.
pub fn secret_with(
    keys: &KeyConfig,
    variable: Option<String>,
    decoded: Option<Vec<u8>>,
) -> (out: Result<Vec<u8>, AuthBuildError>)
    ensures
        (match out {
            Ok(bytes) => secret_of(*keys, text::view_of(variable), bytes_view(decoded)) == Some(
                bytes@,
            ),
            Err(e) => secret_of(*keys, text::view_of(variable), bytes_view(decoded)) is None && e@
                == BuildErrorView::NoSecret,
        }),
{
    if let Some(value) = env_of(keys, &variable) {
        return Ok(bytes_of(value.as_str()));
    }
    if b64_of(keys).is_some() {
        return match decoded {
            Some(bytes) => Ok(bytes),
            None => Err(AuthBuildError::NoSecret),
        };
    }
    match &keys.secret {
        Some(s) => if s.as_str().is_empty() {
            Err(AuthBuildError::NoSecret)
        } else {
            Ok(bytes_of(s.as_str()))
        },
        None => Err(AuthBuildError::NoSecret),
    }
}

/// The secret of a configuration, where `variable` is the value of the
/// environment variable that it names.
pub fn resolve_secret_bytes(keys: &KeyConfig, variable: Option<String>) -> (out: Result<
    Vec<u8>,
    AuthBuildError,
>)
    ensures
        (match out {
            Ok(bytes) => secret_of(*keys, text::view_of(variable), decoded_secret(*keys)) == Some(
                bytes@,
            ),
            Err(e) => secret_of(*keys, text::view_of(variable), decoded_secret(*keys)) is None
                && e@ == BuildErrorView::NoSecret,
        }),
{
    let decoded = match b64_of(keys) {
        Some(bare) => match decode_base64(bare.as_str()) {
            Some(bytes) => Some(bytes),
            None => decode_base64_url(bare.as_str()),
        },
        None => None,
    };
    secret_with(keys, variable, decoded)
}

/// Whether the configuration names no key at all.
fn is_keyless(keys: &KeyConfig, variable: &Option<String>) -> (out: bool)
    ensures
        out == names_no_key(*keys, text::view_of(*variable)),
{
    match keys.kind {
        KeysKind::Secret => {
            let plain = match &keys.secret {
                Some(s) => !s.as_str().is_empty(),
                None => false,
            };
            env_of(keys, variable).is_none() && b64_of(keys).is_none() && !plain
        },
        KeysKind::Jwks => keys.jwks.is_none(),
        KeysKind::JwksRemote => keys.jwks_url.is_none(),
        KeysKind::Issuer => keys.issuer.is_none(),
    }
}

/// A fetcher that asks for the key set of the configuration.
pub open spec fn fetches_configured(fetcher: HttpKeysFetcher, keys: KeyConfig) -> bool {
    &&& keys::pair_view(fetcher.auth_header) == keys::credential_of(
        text::view_of(keys.janux_token),
        text::view_of(keys.janux_auth_header),
        keys.janux_bearer,
    )
    &&& fetcher.resolved is None
    &&& if keys.kind == KeysKind::JwksRemote {
        &&& text::view_of(keys.jwks_url) == Some(fetcher.base@)
        &&& !fetcher.discovery
        &&& fetcher.jwks_path_override is None
    } else {
        &&& text::view_of(keys.issuer) == Some(fetcher.base@)
        &&& fetcher.discovery == (keys.jwks_path is None)
        &&& text::view_of(fetcher.jwks_path_override) == text::view_of(keys.jwks_path)
        &&& fetcher.discovery_path@ == (match keys.discovery_path {
            Some(p) => p@,
            None => keys::standard_discovery_path(),
        })
    }
}

/// `out` is the key material of a configuration, where `secret` is its secret
/// and `inline` what its own key set came to.
pub open spec fn material_for(
    keys: KeyConfig,
    secret: Option<Seq<u8>>,
    inline: Result<Seq<keys::JwkView>, Seq<char>>,
    now: u64,
    out: Result<KeyMaterial, AuthBuildError>,
) -> bool {
    match keys.kind {
        KeysKind::Secret => match out {
            Ok(KeyMaterial::Secret(bytes)) => secret == Some(bytes@),
            Ok(_) => false,
            Err(e) => secret is None && e@ == BuildErrorView::NoSecret,
        },
        KeysKind::Jwks => match out {
            Ok(KeyMaterial::Keys(set)) => {
                &&& keys.jwks is Some
                &&& inline matches Ok(list) && list.len() > 0 && set.kept() == Some(list)
                &&& set.cache matches Some(cached) && cached.fetched_at == now
                &&& set.fetcher is None
            },
            Ok(_) => false,
            Err(e) => {
                ||| keys.jwks is None && e@ == BuildErrorView::NoKeyMaterial
                ||| keys.jwks is Some && (inline matches Err(text) && e@
                    == BuildErrorView::JwksParse(text))
                ||| keys.jwks is Some && (inline matches Ok(list) && list.len() == 0 && e@
                    == BuildErrorView::NoKeyMaterial)
            },
        },
        KeysKind::JwksRemote => match out {
            Ok(KeyMaterial::Keys(set)) => keys.jwks_url is Some && is_remote_set(set, keys),
            Ok(_) => false,
            Err(e) => keys.jwks_url is None && e@ == BuildErrorView::NoKeyMaterial,
        },
        KeysKind::Issuer => match out {
            Ok(KeyMaterial::Keys(set)) => keys.issuer is Some && is_remote_set(set, keys),
            Ok(_) => false,
            Err(e) => keys.issuer is None && e@ == BuildErrorView::NoKeyMaterial,
        },
    }
}

/// An empty key set that is fetched as the configuration says.
pub open spec fn is_remote_set(set: KeySet, keys: KeyConfig) -> bool {
    &&& set.cache is None
    &&& set.ttl.secs == keys.cache_ttl_secs
    &&& set.fetcher matches Some(fetcher) && fetches_configured(fetcher, keys)
}

/// What the key set of a configuration came to.
pub open spec fn inline_set(keys: KeyConfig) -> Result<Seq<keys::JwkView>, Seq<char>> {
    match keys.jwks {
        Some(t) => keys::jwk_set_in(t@),
        None => Ok(Seq::empty()),
    }
}

fn text_of(s: &Option<String>) -> (out: Option<&str>)
    ensures
        keys::str_view(out) == text::view_of(*s),
{
    match s {
        Some(s) => Some(s.as_str()),
        None => None,
    }
}

/// The key material of a configuration with a key set of its own, where `parsed`
/// is what reading that set came to. An empty set is none.
pub fn inline_material(parsed: Result<Vec<Jwk>, String>, now: u64) -> (out: Result<
    KeyMaterial,
    AuthBuildError,
>)
    ensures
        (match (parsed, out) {
            (Ok(list), Ok(KeyMaterial::Keys(set))) => {
                &&& list@.len() > 0
                &&& set.cache == Some(CachedSet { keys: list, fetched_at: now })
                &&& set.fetcher is None
            },
            (Ok(list), Err(e)) => list@.len() == 0 && e@ == BuildErrorView::NoKeyMaterial,
            (Err(text), Err(e)) => e@ == BuildErrorView::JwksParse(text@),
            _ => false,
        }),
{
    match parsed {
        Ok(list) => {
            assert(keys::jwk_views(list@).len() == list@.len());
            if list.len() == 0 {
                return Err(AuthBuildError::NoKeyMaterial);
            }
            Ok(KeyMaterial::Keys(KeySet::static_set(list, now)))
        },
        Err(e) => Err(AuthBuildError::JwksParse(e)),
    }
}

/// The key material of a configuration, where `variable` is the value of the
/// environment variable that it names.
pub fn build_key_material(cfg: &AuthConfig, variable: Option<String>, now: u64) -> (out: Result<
    KeyMaterial,
    AuthBuildError,
>)
    ensures
        material_for(
            cfg.keys,
            secret_of(cfg.keys, text::view_of(variable), decoded_secret(cfg.keys)),
            inline_set(cfg.keys),
            now,
            out,
        ),
{
    let tc = &cfg.keys;
    match tc.kind {
        KeysKind::Secret => match resolve_secret_bytes(tc, variable) {
            Ok(bytes) => Ok(KeyMaterial::Secret(bytes)),
            Err(e) => Err(e),
        },
        KeysKind::Jwks => {
            let value = match &tc.jwks {
                Some(t) => t,
                None => return Err(AuthBuildError::NoKeyMaterial),
            };
            inline_material(parse_jwk_value(value.as_str()), now)
        },
        KeysKind::JwksRemote => {
            let url = match &tc.jwks_url {
                Some(url) => url.clone(),
                None => return Err(AuthBuildError::NoKeyMaterial),
            };
            let fetcher = HttpKeysFetcher::jwks(
                url,
                text_of(&tc.janux_token),
                text_of(&tc.janux_auth_header),
                tc.janux_bearer,
            );
            Ok(KeyMaterial::Keys(KeySet::remote(fetcher, Duration::from_secs(tc.cache_ttl_secs))))
        },
        KeysKind::Issuer => {
            let issuer = match &tc.issuer {
                Some(issuer) => issuer.clone(),
                None => return Err(AuthBuildError::NoKeyMaterial),
            };
            let fetcher = HttpKeysFetcher::issuer(
                issuer,
                text_of(&tc.discovery_path),
                text_of(&tc.jwks_path),
                text_of(&tc.janux_token),
                text_of(&tc.janux_auth_header),
                tc.janux_bearer,
            );
            Ok(KeyMaterial::Keys(KeySet::remote(fetcher, Duration::from_secs(tc.cache_ttl_secs))))
        },
    }
}

// ---------------------------------------------------------------------------
// Claims
// ---------------------------------------------------------------------------

/// The value at a dotted path through the objects of `value`.
pub open spec fn walked(value: Json, path: Seq<char>) -> Option<Json>
    decreases path.len(),
{
    match text::cut(path, '.') {
        Some((segment, rest)) => match value.member_view(segment) {
            Some(inner) => if rest.len() < path.len() {
                walked(inner, rest)
            } else {
                None
            },
            None => None,
        },
        None => value.member_view(path),
    }
}

/// Walk a dotted path, such as `a.b.c`, through the objects of a value; `None`
/// at the first member that is missing.
pub fn walk<'a>(root: &'a Json, path: &str) -> (out: Option<&'a Json>)
    ensures
        (match out {
            Some(value) => walked(*root, path@) == Some(*value),
            None => walked(*root, path@) is None,
        }),
    decreases path@.len(),
{
    match split_once(path, '.') {
        Some((segment, rest)) => {
            proof {
                let i = choose|i: int| text::first_at(path@, '.', i);
                text::lemma_cut_at(path@, '.', i);
            }
            match root.member(segment.as_str()) {
                Some(inner) => walk(inner, rest.as_str()),
                None => None,
            }
        },
        None => root.member(path),
    }
}

/// The string at a dotted path.
pub open spec fn string_at(value: Json, path: Seq<char>) -> Option<Seq<char>> {
    match walked(value, path) {
        Some(inner) => inner.text_view(),
        None => None,
    }
}

/// The string at a dotted path, if there is one.
pub fn field_str(value: &Json, path: &str) -> (out: Option<String>)
    ensures
        text::view_of(out) == string_at(*value, path@),
{
    match walk(value, path) {
        Some(inner) => inner.text(),
        None => None,
    }
}

/// The value names the role: it is that string, or a list that holds it.
pub open spec fn names_role(value: Json, role: Seq<char>) -> bool {
    match value {
        Json::Text(s) => s@ == role,
        Json::List(list) => exists|i: int|
            0 <= i < list@.len() && (#[trigger] list@[i]).text_view() == Some(role),
        _ => false,
    }
}

/// The value at a dotted path names the role.
pub open spec fn path_names_role(value: Json, path: Seq<char>, role: Seq<char>) -> bool {
    walked(value, path) matches Some(inner) && names_role(inner, role)
}

/// Some claim among those at `paths` names the role.
pub open spec fn claims_name_role(claims: Json, paths: Seq<String>, role: Seq<char>) -> bool {
    exists|i: int| 0 <= i < paths.len() && path_names_role(claims, (#[trigger] paths[i])@, role)
}

/// Put every role that the value at a dotted path names into `out`.
pub fn collect_roles(value: &Json, path: &str, out: &mut Vec<String>)
    requires
        text::ascending(old(out)@),
    ensures
        text::ascending(final(out)@),
        forall|r: Seq<char>| #[trigger]
            text::has_text(final(out)@, r) <==> text::has_text(old(out)@, r) || path_names_role(
                *value,
                path@,
                r,
            ),
{
    let inner = match walk(value, path) {
        Some(inner) => inner,
        None => return,
    };
    let ghost start = out@;
    match inner {
        Json::Text(s) => {
            insert_ordered(out, s.clone());
        },
        Json::List(list) => {
            let mut i: usize = 0;
            while i < list.len()
                invariant
                    i <= list.len(),
                    text::ascending(out@),
                    forall|r: Seq<char>| #[trigger]
                        text::has_text(out@, r) <==> text::has_text(start, r) || exists|k: int|
                            0 <= k < i && (#[trigger] list@[k]).text_view() == Some(r),
                decreases list.len() - i,
            {
                let ghost was = out@;
                if let Some(s) = list[i].text() {
                    insert_ordered(out, s);
                }
                proof {
                    assert forall|r: Seq<char>| #[trigger]
                        text::has_text(out@, r) <==> text::has_text(start, r) || exists|k: int|
                            0 <= k < i + 1 && (#[trigger] list@[k]).text_view() == Some(r) by {
                        assert(text::has_text(out@, r) <==> text::has_text(was, r)
                            || list@[i as int].text_view() == Some(r));
                    }
                }
                i += 1;
            }
        },
        _ => {},
    }
}

/// Who the caller is: what a token says that was verified.
#[derive(Debug, Clone)]
pub struct VerifiedClaims {
    /// The caller, if the token names one.
    pub subject: Option<String>,
    /// The roles of the caller, each once and in order.
    pub roles: Vec<String>,
}

impl VerifiedClaims {
    /// These are the caller and the roles that `claims` name.
    pub open spec fn tell(
        self,
        claims: Json,
        subject_claim: Seq<char>,
        role_claims: Seq<String>,
    ) -> bool {
        &&& text::view_of(self.subject) == string_at(claims, subject_claim)
        &&& text::ascending(self.roles@)
        &&& forall|r: Seq<char>| #[trigger]
            text::has_text(self.roles@, r) <==> claims_name_role(claims, role_claims, r)
    }

    /// Read the caller and the roles from claims, each at a dotted path.
    pub fn extract(claims: &Json, subject_claim: &str, role_claims: &Vec<String>) -> (out:
        VerifiedClaims)
        ensures
            out.tell(*claims, subject_claim@, role_claims@),
    {
        let subject = field_str(claims, subject_claim);
        let mut roles: Vec<String> = Vec::new();
        let mut i: usize = 0;
        while i < role_claims.len()
            invariant
                i <= role_claims.len(),
                text::ascending(roles@),
                forall|r: Seq<char>| #[trigger]
                    text::has_text(roles@, r) <==> exists|k: int|
                        0 <= k < i && path_names_role(*claims, (#[trigger] role_claims@[k])@, r),
            decreases role_claims.len() - i,
        {
            let ghost was = roles@;
            collect_roles(claims, role_claims[i].as_str(), &mut roles);
            proof {
                assert forall|r: Seq<char>| #[trigger] text::has_text(roles@, r) <==> exists|
                    k: int,
                |
                    0 <= k < i + 1 && path_names_role(
                        *claims,
                        (#[trigger] role_claims@[k])@,
                        r,
                    ) by {
                    assert(text::has_text(roles@, r) <==> text::has_text(was, r)
                        || path_names_role(*claims, role_claims@[i as int]@, r));
                }
            }
            i += 1;
        }
        VerifiedClaims { subject, roles }
    }
}

impl Default for VerifiedClaims {
    fn default() -> (out: VerifiedClaims)
        ensures
            out.subject is None,
            out.roles@.len() == 0,
    {
        VerifiedClaims { subject: None, roles: Vec::new() }
    }
}

// ---------------------------------------------------------------------------
// Tokens
// ---------------------------------------------------------------------------

/// The header of a token, as far as it is read before the key is chosen.
#[derive(Debug, Clone)]
pub struct TokenHeader {
    /// The name of the algorithm.
    pub alg: String,
    /// The id of the key.
    pub kid: Option<String>,
}

/// The algorithm and the key id in the header of a token, if `jsonwebtoken` can
/// read it.
pub uninterp spec fn token_header(token: Seq<char>) -> Option<(Seq<char>, Option<Seq<char>>)>;

/// What a token is held against when it is decoded.
#[derive(Debug, Clone)]
pub struct TokenRules {
    /// The only algorithm that it may be signed with.
    pub alg: String,
    /// The seconds by which clocks may differ.
    pub leeway: u64,
    /// The issuer that it has to name.
    pub issuer: Option<String>,
    /// The audiences of which it has to name one; without any it names none.
    pub audience: Option<Vec<String>>,
}

/// What [`TokenRules`] hold.
#[verifier::ext_equal]
pub struct RulesView {
    pub alg: Seq<char>,
    pub leeway: u64,
    pub issuer: Option<Seq<char>>,
    pub audience: Option<Seq<Seq<char>>>,
}

/// The audiences, if there are any.
pub open spec fn audience_view(audience: Option<Vec<String>>) -> Option<Seq<Seq<char>>> {
    match audience {
        Some(list) => Some(text::views(list@)),
        None => None,
    }
}

impl View for TokenRules {
    type V = RulesView;

    open spec fn view(&self) -> RulesView {
        RulesView {
            alg: self.alg@,
            leeway: self.leeway,
            issuer: text::view_of(self.issuer),
            audience: audience_view(self.audience),
        }
    }
}

/// The claims of a token, as text, where `jsonwebtoken` decodes it with that
/// key and by those rules at `time`, in seconds from the Unix epoch.
pub uninterp spec fn token_claims(
    token: Seq<char>,
    key: keys::KeyView,
    rules: RulesView,
    time: u64,
) -> Option<Seq<char>>;

/// `jsonwebtoken::decode_header`: the algorithm and the key id of a token. The
/// contents of the error are left unsaid.
#[verifier::external_body]
fn read_header(token: &str) -> (out: Result<TokenHeader, TokenError>)
    ensures
        (match out {
            Ok(h) => token_header(token@) == Some((h.alg@, text::view_of(h.kid))),
            Err(_) => token_header(token@) is None,
        }),
{
    let header = jsonwebtoken::decode_header(token)?;
    Ok(TokenHeader { alg: format!("{:?}", header.alg), kid: header.kid })
}

/// `read` is the value of claims of that text.
pub open spec fn reads_claims(claims: Seq<char>, read: Json) -> bool {
    if json::json_error(claims) is None {
        json::is_read(read, claims, json::DEPTH as nat)
    } else {
        read is Other
    }
}

/// The greatest difference between clocks, in seconds, that can be allowed. It is
/// the time from 1970 to 2001, which every clock that is set has behind it.
pub const MAX_LEEWAY: u64 = 1_000_000_000;

/// The claims, where they are an object, have an expiry.
pub open spec fn expires(claims: Seq<char>) -> bool {
    json::json_members(claims) is Some ==> json::json_member(claims, "exp"@) is Some
}

/// Every item is a string.
pub open spec fn all_strings(items: Seq<Seq<char>>) -> bool {
    forall|i: int| 0 <= i < items.len() ==> json::json_string(#[trigger] items[i]) is Some
}

/// One of the items is a string that is among those expected.
pub open spec fn names_one(items: Seq<Seq<char>>, expected: Seq<Seq<char>>) -> bool {
    exists|i: int|
        0 <= i < items.len() && (json::json_string(#[trigger] items[i]) matches Some(named)
            && expected.contains(named))
}

/// What a member of the claims names, a string or a list of strings, is or holds
/// one of those expected.
pub open spec fn member_holds(member: Seq<char>, expected: Seq<Seq<char>>) -> bool {
    &&& json::json_string(member) matches Some(named) ==> expected.contains(named)
    &&& json::json_items(member) matches Some(items) ==> (all_strings(items) ==> names_one(
        items,
        expected,
    ))
}

/// The issuer that the claims name, as a string or in a list of strings, is the
/// expected one.
pub open spec fn issuer_holds(claims: Seq<char>, issuer: Option<Seq<char>>) -> bool {
    match (issuer, json::json_member(claims, "iss"@)) {
        (Some(expected), Some(member)) => member_holds(member, seq![expected]),
        _ => true,
    }
}

/// The audience that the claims name, as a string or in a list of strings, is
/// one of the expected ones; where none is expected they name none.
pub open spec fn audience_holds(claims: Seq<char>, audience: Option<Seq<Seq<char>>>) -> bool {
    match json::json_member(claims, "aud"@) {
        Some(member) => member_holds(
            member,
            match audience {
                Some(list) => list,
                None => Seq::empty(),
            },
        ),
        None => true,
    }
}

/// What was decoded, if anything was.
pub open spec fn decoded_view(decoded: Result<String, TokenError>) -> Option<Seq<char>> {
    match decoded {
        Ok(claims) => Some(claims@),
        Err(_) => None,
    }
}

/// `decoded` is what decoding comes to at some time.
pub open spec fn decodes_to(
    token: Seq<char>,
    key: keys::KeyView,
    rules: RulesView,
    decoded: Option<Seq<char>>,
) -> bool {
    exists|time: u64| #[trigger] token_claims(token, key, rules, time) == decoded
}

/// `jsonwebtoken::decode` with the key, and with a `Validation` of the algorithm,
/// the leeway, the issuer and the audience of the rules. What comes of it depends
/// on these and on the time at which it is called: it is what
/// [`token_claims`] says for some time. An accepted token has an expiry where its
/// claims are an object, and the expected issuer and audience where it names them
/// as strings or lists of strings. The leeway is taken off the time since 1970,
/// so it must not exceed that, and an Ed25519 key is cut to its first 32 bytes, so
/// it must have those. Which time it is, and what the error holds, is left unsaid.
#[verifier::external_body]
fn decode_token(token: &str, key: &VerificationKey, rules: &TokenRules) -> (out: Result<
    String,
    TokenError,
>)
    requires
        rules.leeway <= MAX_LEEWAY,
        key@.fits(),
    ensures
        exists|time: u64| #[trigger]
            token_claims(token@, key@, rules@, time) == decoded_view(out),
        out matches Ok(claims) ==> {
            &&& expires(claims@)
            &&& issuer_holds(claims@, rules@.issuer)
            &&& audience_holds(claims@, rules@.audience)
        },
{
    let key = match key {
        VerificationKey::Secret(bytes) => DecodingKey::from_secret(bytes),
        VerificationKey::Jwk(text) => DecodingKey::from_jwk(&serde_json::from_str(text)?)?,
    };
    let mut validation = Validation::new(rules.alg.parse()?);
    validation.leeway = rules.leeway;
    validation.iss = rules.issuer.as_ref().map(|iss| [iss.clone()].into());
    validation.aud = rules.audience.as_ref().map(|list| list.iter().cloned().collect());
    let data = jsonwebtoken::decode::<serde_json::Value>(token, &key, &validation)?;
    Ok(data.claims.to_string())
}

// ---------------------------------------------------------------------------
// The service
// ---------------------------------------------------------------------------

/// What the guard does with a request.
#[derive(Debug)]
pub enum Decision {
    /// Go on; with the caller, where the request was authenticated.
    Continue(Option<VerifiedClaims>),
    /// Refuse: the caller is not authenticated.
    Unauthenticated(&'static str),
    /// Refuse: the roles of the caller do not permit the request.
    Forbidden(&'static str),
}

/// How far the verification of a token has come.
#[derive(Debug)]
pub enum VerifyStep {
    Done(Result<VerifiedClaims, AuthError>),
    /// The key set has to be fetched first; see [`AuthService::verify_fetched`].
    Fetch,
}

/// How far the decision on a request has come.
#[derive(Debug)]
pub enum EnforceStep {
    Done(Decision),
    /// The key set has to be fetched first; see [`AuthService::enforce_fetched`].
    Fetch,
}

/// The authenticator and authorizer.
#[derive(Debug, Clone)]
pub struct AuthService {
    pub enabled: bool,
    /// The issuer that tokens have to name.
    pub issuer: Option<String>,
    /// The audiences of which tokens have to name one.
    pub audience: Vec<String>,
    /// The seconds by which clocks may differ.
    pub leeway: u64,
    /// The allowed algorithms.
    pub algorithms: Vec<Algorithm>,
    /// Where the caller stands in the claims.
    pub subject_claim: String,
    /// Where the roles stand in the claims.
    pub role_claims: Vec<String>,
    pub policy: AuthPolicy,
    pub key_material: KeyMaterial,
    /// Whether requests are denied while there are no keys.
    pub fail_closed: bool,
}

/// What comes of the header of a token.
pub enum HeaderCheck {
    /// It cannot be read.
    Unreadable,
    /// Its algorithm is not allowed.
    Disallowed(Seq<char>),
    /// It names an allowed algorithm, and maybe a key.
    Allowed(Seq<char>, Option<Seq<char>>),
}

/// What a request asks for.
pub enum Gate {
    /// Nothing that is guarded.
    Open,
    /// Something guarded, without a token.
    NoToken,
    /// Something guarded: the resource, the verb and the token.
    Token(Seq<char>, policy::Verb, Seq<char>),
}

/// The token of an `Authorization` header: the second of exactly two words, of
/// which the first is `bearer` in any letter case.
pub open spec fn bearer_token(header: Seq<char>) -> Option<Seq<char>> {
    let parts = text::words(header);
    if parts.len() == 2 && text::ascii_lower(parts[0]) == "bearer"@ {
        Some(parts[1])
    } else {
        None
    }
}

/// The bearer token of the `Authorization` header, if there is one.
pub fn extract_bearer(header: Option<&str>) -> (out: Option<String>)
    ensures
        text::view_of(out) == (match header {
            Some(h) => bearer_token(h@),
            None => None,
        }),
{
    let value = match header {
        Some(h) => h,
        None => return None,
    };
    let parts = split_words(value);
    assert(text::views(parts@).len() == parts@.len());
    if parts.len() == 2 {
        assert(text::views(parts@)[0] == parts@[0]@);
        assert(text::views(parts@)[1] == parts@[1]@);
        let scheme = to_ascii_lower(parts[0].as_str());
        if same_text(scheme.as_str(), "bearer") {
            return Some(parts[1].clone());
        }
    }
    None
}

impl AuthService {
    /// A service that lets every request through.
    pub fn disabled() -> (out: AuthService)
        ensures
            !out.enabled,
            out.issuer is None,
            out.audience@.len() == 0,
            out.leeway == 60,
            out.algorithms@ == seq![Algorithm::HS256],
            out.subject_claim@ == "sub"@,
            text::views(out.role_claims@) == seq!["role"@],
            out.key_material matches KeyMaterial::Secret(bytes) && bytes@ == utf8("z"@),
            out.fail_closed,
            forall|resource: Seq<char>| #[trigger]
                out.policy.opens(resource) <==> resource == text::ascii_lower("health"@) || resource
                    == text::ascii_lower("doc"@),
            forall|key: Seq<char>, g: policy::GrantView| !#[trigger] out.policy.grants(key, g),
    {
        let roles: Vec<(String, RoleConfig)> = Vec::new();
        let public = AuthConfig::default_public();
        let mut role_claims: Vec<String> = Vec::new();
        role_claims.push("role".to_owned());
        let mut algorithms: Vec<Algorithm> = Vec::new();
        algorithms.push(Algorithm::HS256);
        assert(text::views(role_claims@) == seq!["role"@]);
        assert(text::views(public@).len() == public@.len());
        assert(text::views(public@)[0] == public@[0]@);
        assert(text::views(public@)[1] == public@[1]@);
        AuthService {
            enabled: false,
            issuer: None,
            audience: Vec::new(),
            leeway: 60,
            algorithms,
            subject_claim: "sub".to_owned(),
            role_claims,
            policy: AuthPolicy::build(&roles, &public),
            key_material: KeyMaterial::Secret(bytes_of("z")),
            fail_closed: true,
        }
    }

    /// The service is the one that the configuration describes, apart from its
    /// algorithms and keys.
    pub open spec fn configured(self, cfg: AuthConfig) -> bool {
        &&& self.enabled == cfg.enabled
        &&& text::view_of(self.issuer) == text::view_of(cfg.issuer)
        &&& text::views(self.audience@) == text::views(cfg.audience@)
        &&& self.leeway == cfg.clock_skew_secs
        &&& self.subject_claim@ == cfg.subject_claim@
        &&& text::views(self.role_claims@) == text::views(cfg.role_claims@)
        &&& self.fail_closed == cfg.keys.fail_closed
        &&& forall|key: Seq<char>, g: policy::GrantView| #[trigger]
            self.policy.grants(key, g) <==> policy::has_effective(cfg.roles@, key, g)
        &&& forall|resource: Seq<char>| #[trigger]
            self.policy.opens(resource) <==> exists|i: int|
                0 <= i < cfg.public@.len() && text::ascii_lower((#[trigger] cfg.public@[i])@)
                    == resource
    }

    /// `out` is what the configuration builds: a service, or the error for its
    /// algorithms, else the one for its keys. Where requests are not checked, a
    /// configuration that names no key builds a service too, which has a key
    /// that it never uses.
    pub open spec fn is_built(
        cfg: AuthConfig,
        variable: Option<Seq<char>>,
        now: u64,
        out: Result<AuthService, AuthBuildError>,
    ) -> bool {
        let names = allowed_names(cfg.keys);
        let secret = secret_of(cfg.keys, variable, decoded_secret(cfg.keys));
        let idle = !cfg.enabled && names_no_key(cfg.keys, variable);
        match out {
            Ok(service) => {
                &&& service.configured(cfg)
                &&& algorithms_for(names, Ok(service.algorithms))
                &&& if idle {
                    service.key_material matches KeyMaterial::Secret(bytes) && bytes@ == utf8("z"@)
                } else {
                    material_for(
                        cfg.keys,
                        secret,
                        inline_set(cfg.keys),
                        now,
                        Ok(service.key_material),
                    )
                }
            },
            Err(e) => {
                ||| algorithms_for(names, Err(e))
                ||| !idle && (exists|list: Vec<Algorithm>| #[trigger]
                    algorithms_for(names, Ok(list))) && material_for(
                    cfg.keys,
                    secret,
                    inline_set(cfg.keys),
                    now,
                    Err(e),
                )
            },
        }
    }

    /// Build the service of a configuration, where `variable` is the value of
    /// the environment variable that its secret names.
    pub fn build(cfg: &AuthConfig, variable: Option<String>, now: u64) -> (out: Result<
        AuthService,
        AuthBuildError,
    >)
        ensures
            AuthService::is_built(*cfg, text::view_of(variable), now, out),
    {
        let algorithms = match build_algorithms(&cfg.keys) {
            Ok(list) => list,
            Err(e) => return Err(e),
        };
        assert(algorithms_for(allowed_names(cfg.keys), Ok(algorithms)));
        let idle = !cfg.enabled && is_keyless(&cfg.keys, &variable);
        let key_material = if idle {
            KeyMaterial::Secret(bytes_of("z"))
        } else {
            match build_key_material(cfg, variable, now) {
                Ok(material) => material,
                Err(e) => return Err(e),
            }
        };
        Ok(
            AuthService {
                enabled: cfg.enabled,
                issuer: copy_text(&cfg.issuer),
                audience: copy_texts(&cfg.audience),
                leeway: cfg.clock_skew_secs,
                algorithms,
                subject_claim: cfg.subject_claim.clone(),
                role_claims: copy_texts(&cfg.role_claims),
                policy: AuthPolicy::build(&cfg.roles, &cfg.public),
                key_material,
                fail_closed: cfg.keys.fail_closed,
            },
        )
    }

    /// Whether requests are checked.
    pub fn is_enabled(&self) -> (out: bool)
        ensures
            out == self.enabled,
    {
        self.enabled
    }

    /// An algorithm of that name is allowed.
    pub open spec fn allows_algorithm(self, name: Seq<char>) -> bool {
        exists|i: int|
            0 <= i < self.algorithms@.len() && (#[trigger] self.algorithms@[i]).name_view() == name
    }

    fn is_allowed(&self, name: &str) -> (out: bool)
        ensures
            out == self.allows_algorithm(name@),
    {
        let mut i: usize = 0;
        while i < self.algorithms.len()
            invariant
                i <= self.algorithms.len(),
                forall|k: int|
                    0 <= k < i ==> (#[trigger] self.algorithms@[k]).name_view() != name@,
            decreases self.algorithms.len() - i,
        {
            let alg = self.algorithms[i];
            if same_text(alg.name(), name) {
                assert(self.algorithms@[i as int].name_view() == name@);
                return true;
            }
            i += 1;
        }
        false
    }

    /// What comes of the header of a token.
    pub open spec fn header_check(self, token: Seq<char>) -> HeaderCheck {
        match token_header(token) {
            Some((alg, kid)) => if self.allows_algorithm(alg) {
                HeaderCheck::Allowed(alg, kid)
            } else {
                HeaderCheck::Disallowed(alg)
            },
            None => HeaderCheck::Unreadable,
        }
    }

    /// What to do to get the key for a token with that key id.
    pub open spec fn key_for(self, kid: Option<Seq<char>>, now: u64) -> keys::ResolutionView {
        match self.key_material {
            KeyMaterial::Secret(bytes) => keys::ResolutionView::Key(
                keys::KeyView::Secret(bytes@),
            ),
            KeyMaterial::Keys(set) => set.resolution(kid, now),
        }
    }

    /// What a token of that algorithm is held against.
    pub open spec fn rules_view(self, alg: Seq<char>) -> RulesView {
        RulesView {
            alg,
            leeway: self.leeway,
            issuer: text::view_of(self.issuer),
            audience: if self.audience@.len() == 0 {
                None
            } else {
                Some(text::views(self.audience@))
            },
        }
    }

    /// `out` is the outcome for a token that was decoded, or not: the caller
    /// that the claims name, or that the token is not accepted.
    pub open spec fn follows(
        self,
        decoded: Option<Seq<char>>,
        out: Result<VerifiedClaims, AuthError>,
    ) -> bool {
        match (decoded, out) {
            (Some(claims), Ok(caller)) => self.told_by(claims, caller),
            (None, Err(e)) => e is Verify,
            _ => false,
        }
    }

    /// The claims have an expiry, and the issuer and audience that are expected.
    pub open spec fn expects(self, claims: Seq<char>, alg: Seq<char>) -> bool {
        &&& expires(claims)
        &&& issuer_holds(claims, self.rules_view(alg).issuer)
        &&& audience_holds(claims, self.rules_view(alg).audience)
    }

    /// `out` is what the verification by `key` comes to at some time: the caller
    /// that the decoded claims name, or that the token is not accepted.
    pub open spec fn accepts(
        self,
        token: Seq<char>,
        key: keys::KeyView,
        alg: Seq<char>,
        out: Result<VerifiedClaims, AuthError>,
    ) -> bool {
        exists|decoded: Option<Seq<char>>| #[trigger]
            decodes_to(token, key, self.rules_view(alg), decoded) && self.follows(decoded, out) && (
            decoded matches Some(claims) ==> self.expects(claims, alg))
    }

    /// `caller` is whom claims of that text name. Text that is no JSON names
    /// nobody.
    pub open spec fn told_by(self, claims: Seq<char>, caller: VerifiedClaims) -> bool {
        exists|read: Json| #[trigger]
            reads_claims(claims, read) && caller.tell(
                read,
                self.subject_claim@,
                self.role_claims@,
            )
    }

    /// `out` is what the verification may come to once it is known how the key
    /// was found.
    pub open spec fn concludes(
        self,
        token: Seq<char>,
        alg: Seq<char>,
        found: keys::ResolutionView,
        out: Result<VerifiedClaims, AuthError>,
    ) -> bool {
        match found {
            keys::ResolutionView::Key(key) => self.accepts(token, key, alg, out),
            keys::ResolutionView::UnknownKid => out matches Err(e) && e is UnknownKid,
            keys::ResolutionView::SourceUnavailable => out matches Err(e) && e
                is SourceUnavailable,
            keys::ResolutionView::Fetch => false,
        }
    }

    /// `out` is what comes of a header that was not accepted.
    pub open spec fn refuses_header(
        self,
        token: Seq<char>,
        out: Result<VerifiedClaims, AuthError>,
    ) -> bool {
        match self.header_check(token) {
            HeaderCheck::Unreadable => out matches Err(e) && e is Verify,
            HeaderCheck::Disallowed(alg) => out matches Err(AuthError::AlgorithmDisallowed(name))
                && name@ == alg,
            HeaderCheck::Allowed(_, _) => false,
        }
    }

    /// `step` is what the verification of a token may come to.
    pub open spec fn verifies(self, token: Seq<char>, now: u64, step: VerifyStep) -> bool {
        match self.header_check(token) {
            HeaderCheck::Allowed(alg, kid) => match self.key_for(kid, now) {
                keys::ResolutionView::Fetch => step is Fetch,
                found => step matches VerifyStep::Done(out) && self.concludes(
                    token,
                    alg,
                    found,
                    out,
                ),
            },
            _ => step matches VerifyStep::Done(out) && self.refuses_header(token, out),
        }
    }

    /// Refuse a header whose algorithm is not allowed.
    pub fn check_algorithm(&self, header: TokenHeader) -> (out: Result<TokenHeader, AuthError>)
        ensures
            (match out {
                Ok(h) => self.allows_algorithm(header.alg@) && h == header,
                Err(e) => !self.allows_algorithm(header.alg@) && (
                e matches AuthError::AlgorithmDisallowed(name) && name == header.alg),
            }),
    {
        if self.is_allowed(header.alg.as_str()) {
            Ok(header)
        } else {
            Err(AuthError::AlgorithmDisallowed(header.alg))
        }
    }

    fn check_header(&self, token: &str) -> (out: Result<TokenHeader, AuthError>)
        ensures
            (match out {
                Ok(h) => self.header_check(token@) == HeaderCheck::Allowed(
                    h.alg@,
                    text::view_of(h.kid),
                ),
                Err(e) => self.refuses_header(token@, Err(e)),
            }),
    {
        match read_header(token) {
            Ok(header) => self.check_algorithm(header),
            Err(e) => Err(AuthError::Verify(e)),
        }
    }

    /// What a token of that algorithm is held against.
    pub fn rules(&self, alg: &str) -> (out: TokenRules)
        ensures
            out@ == self.rules_view(alg@),
            out.alg@ == alg@,
            out.leeway == self.leeway,
            text::view_of(out.issuer) == text::view_of(self.issuer),
            out.audience is None <==> self.audience@.len() == 0,
            out.audience matches Some(list) ==> text::views(list@) == text::views(self.audience@),
    {
        let audience = if self.audience.len() > 0 {
            Some(copy_texts(&self.audience))
        } else {
            None
        };
        TokenRules {
            alg: alg.to_owned(),
            leeway: self.leeway,
            issuer: copy_text(&self.issuer),
            audience,
        }
    }

    /// The outcome for a token that was decoded, or not: the caller that its
    /// claims name, or the error.
    pub fn outcome_of(&self, decoded: Result<String, TokenError>) -> (out: Result<
        VerifiedClaims,
        AuthError,
    >)
        ensures
            self.follows(decoded_view(decoded), out),
            decoded matches Err(e) ==> out == Err::<VerifiedClaims, AuthError>(
                AuthError::Verify(e),
            ),
    {
        match decoded {
            Ok(claims) => {
                let read = match read_json(claims.as_str()) {
                    Ok(value) => value,
                    Err(_) => Json::Other,
                };
                assert(reads_claims(claims@, read));
                Ok(
                    VerifiedClaims::extract(
                        &read,
                        self.subject_claim.as_str(),
                        &self.role_claims,
                    ),
                )
            },
            Err(e) => Err(AuthError::Verify(e)),
        }
    }

    fn conclude(&self, token: &str, alg: &str, found: Resolution) -> (out: Result<
        VerifiedClaims,
        AuthError,
    >)
        requires
            self.leeway <= MAX_LEEWAY,
            found@ !is Fetch,
            found@ matches keys::ResolutionView::Key(key) ==> key.fits(),
        ensures
            self.concludes(token@, alg@, found@, out),
    {
        match found {
            Resolution::Key(key) => {
                let rules = self.rules(alg);
                let decoded = decode_token(token, &key, &rules);
                assert(decodes_to(token@, key@, self.rules_view(alg@), decoded_view(decoded)));
                self.outcome_of(decoded)
            },
            Resolution::SourceUnavailable => Err(AuthError::SourceUnavailable),
            _ => Err(AuthError::UnknownKid),
        }
    }

    /// Verify a token: an algorithm that is not allowed is refused before any
    /// key is touched; then the token is decoded with the key that is found for
    /// it, by its own algorithm alone.
    pub fn verify(&self, token: &str, now: u64) -> (step: VerifyStep)
        requires
            self.leeway <= MAX_LEEWAY,
        ensures
            self.verifies(token@, now, step),
    {
        let header = match self.check_header(token) {
            Ok(header) => header,
            Err(e) => return VerifyStep::Done(Err(e)),
        };
        let found = match &self.key_material {
            KeyMaterial::Secret(bytes) => Resolution::Key(
                VerificationKey::Secret(vstd::slice::slice_to_vec(bytes.as_slice())),
            ),
            KeyMaterial::Keys(set) => set.resolve(&header.kid, now),
        };
        match found {
            Resolution::Fetch => VerifyStep::Fetch,
            other => VerifyStep::Done(self.conclude(token, header.alg.as_str(), other)),
        }
    }

    /// Keep a key set that was fetched; where fetching failed, keep what there
    /// was.
    pub fn store_keys(&mut self, now: u64, fetched: Result<Vec<Jwk>, String>)
        ensures
            *final(self) == (AuthService { key_material: final(self).key_material, ..*old(self) }),
            (match (old(self).key_material, final(self).key_material) {
                (KeyMaterial::Keys(before), KeyMaterial::Keys(after)) => {
                    &&& after.kept() == before.after_fetch(keys::set_view(fetched))
                    &&& fetched is Ok ==> (after.cache matches Some(c) && c.fetched_at == now)
                    &&& fetched is Err ==> after == before
                    &&& after.fetcher == before.fetcher
                    &&& after.ttl == before.ttl
                },
                (KeyMaterial::Secret(_), _) => *final(self) == *old(self),
                _ => false,
            }),
    {
        match &mut self.key_material {
            KeyMaterial::Keys(set) => {
                set.store(now, fetched);
            },
            KeyMaterial::Secret(_) => {},
        }
    }

    /// How the key for a token is found in what is kept.
    pub open spec fn key_kept(self, kid: Option<Seq<char>>) -> keys::ResolutionView {
        match self.key_material {
            KeyMaterial::Secret(bytes) => keys::ResolutionView::Key(
                keys::KeyView::Secret(bytes@),
            ),
            KeyMaterial::Keys(set) => set.from_kept(kid),
        }
    }

    /// Verify a token with the keys that are kept, after a fetch was tried.
    pub fn verify_fetched(&self, token: &str) -> (out: Result<VerifiedClaims, AuthError>)
        requires
            self.leeway <= MAX_LEEWAY,
        ensures
            (match self.header_check(token@) {
                HeaderCheck::Allowed(alg, kid) => self.concludes(
                    token@,
                    alg,
                    self.key_kept(kid),
                    out,
                ),
                _ => self.refuses_header(token@, out),
            }),
    {
        let header = match self.check_header(token) {
            Ok(header) => header,
            Err(e) => return Err(e),
        };
        let found = match &self.key_material {
            KeyMaterial::Secret(bytes) => Resolution::Key(
                VerificationKey::Secret(vstd::slice::slice_to_vec(bytes.as_slice())),
            ),
            KeyMaterial::Keys(set) => set.from_cache(&header.kid),
        };
        self.conclude(token, header.alg.as_str(), found)
    }

    /// Whether the roles permit the target.
    pub fn authorize(&self, roles: &Vec<String>, target: &RouteTarget) -> (out: bool)
        ensures
            out == self.policy.permits(roles@, target.resource@, target.verb),
    {
        self.policy.allows(roles, target)
    }

    /// What a request asks for. A path that belongs to no resource and a
    /// resource that is open are not guarded, nor is anything while requests
    /// are not checked.
    pub open spec fn gate(
        self,
        path: Seq<char>,
        method: Seq<char>,
        authorization: Option<Seq<char>>,
    ) -> Gate {
        match policy::path_resource(path) {
            Some(resource) => if !self.enabled || self.policy.opens(text::ascii_lower(resource)) {
                Gate::Open
            } else {
                match authorization {
                    Some(header) => match bearer_token(header) {
                        Some(token) => Gate::Token(resource, policy::method_verb(method), token),
                        None => Gate::NoToken,
                    },
                    None => Gate::NoToken,
                }
            },
            None => Gate::Open,
        }
    }

    /// `decision` is the one on a request for `(resource, verb)` whose token was
    /// verified with `outcome`.
    pub open spec fn decides(
        self,
        resource: Seq<char>,
        verb: policy::Verb,
        outcome: Result<VerifiedClaims, AuthError>,
        decision: Decision,
    ) -> bool {
        match outcome {
            Ok(caller) => if self.policy.permits(caller.roles@, resource, verb) {
                decision == Decision::Continue(Some(caller))
            } else {
                decision matches Decision::Forbidden(detail) && detail@
                    == "authenticated roles do not permit this route"@
            },
            Err(AuthError::SourceUnavailable) => if self.fail_closed {
                decision matches Decision::Unauthenticated(detail) && detail@
                    == "verification key source is unavailable"@
            } else {
                decision == Decision::Continue(None)
            },
            Err(_) => decision matches Decision::Unauthenticated(detail) && detail@
                == "invalid or expired token"@,
        }
    }

    /// The decision on a request whose token was verified with `outcome`.
    pub fn decide(
        &self,
        target: &RouteTarget,
        outcome: Result<VerifiedClaims, AuthError>,
    ) -> (out: Decision)
        ensures
            self.decides(target.resource@, target.verb, outcome, out),
    {
        match outcome {
            Ok(caller) => if self.policy.allows(&caller.roles, target) {
                Decision::Continue(Some(caller))
            } else {
                Decision::Forbidden("authenticated roles do not permit this route")
            },
            Err(AuthError::SourceUnavailable) => if self.fail_closed {
                Decision::Unauthenticated("verification key source is unavailable")
            } else {
                Decision::Continue(None)
            },
            Err(_) => Decision::Unauthenticated("invalid or expired token"),
        }
    }

    /// The target and the token of a guarded request, or the decision where
    /// none of them is needed.
    fn guarded(&self, path: &str, method: &str, authorization: Option<&str>) -> (out: Result<
        (RouteTarget, String),
        Decision,
    >)
        ensures
            (match (self.gate(path@, method@, keys::str_view(authorization)), out) {
                (Gate::Open, Err(d)) => d == Decision::Continue(None),
                (Gate::NoToken, Err(d)) => d matches Decision::Unauthenticated(detail) && detail@
                    == "missing bearer token on `Authorization`"@,
                (Gate::Token(resource, verb, token), Ok((target, t))) => target.resource@ == resource
                    && target.verb == verb && t@ == token,
                _ => false,
            }),
    {
        if !self.enabled {
            return Err(Decision::Continue(None));
        }
        let target = match route_target(path, method) {
            Some(target) => target,
            None => return Err(Decision::Continue(None)),
        };
        if self.policy.is_public(target.resource.as_str()) {
            return Err(Decision::Continue(None));
        }
        match extract_bearer(authorization) {
            Some(token) => Ok((target, token)),
            None => Err(Decision::Unauthenticated("missing bearer token on `Authorization`")),
        }
    }

    /// The decision on a request, given its path, its method and its
    /// `Authorization` header.
    pub fn enforce(&self, path: &str, method: &str, authorization: Option<&str>, now: u64) -> (out:
        EnforceStep)
        requires
            self.leeway <= MAX_LEEWAY,
        ensures
            (match self.gate(path@, method@, keys::str_view(authorization)) {
                Gate::Open => out == EnforceStep::Done(Decision::Continue(None)),
                Gate::NoToken => out matches EnforceStep::Done(Decision::Unauthenticated(detail))
                    && detail@ == "missing bearer token on `Authorization`"@,
                Gate::Token(resource, verb, token) => exists|step: VerifyStep| #[trigger]
                    self.verifies(token, now, step) && match step {
                        VerifyStep::Fetch => out is Fetch,
                        VerifyStep::Done(outcome) => out matches EnforceStep::Done(decision)
                            && self.decides(resource, verb, outcome, decision),
                    },
            }),
    {
        let (target, token) = match self.guarded(path, method, authorization) {
            Ok(pair) => pair,
            Err(decision) => return EnforceStep::Done(decision),
        };
        let step = self.verify(token.as_str(), now);
        assert(self.verifies(token@, now, step));
        match step {
            VerifyStep::Fetch => EnforceStep::Fetch,
            VerifyStep::Done(outcome) => EnforceStep::Done(self.decide(&target, outcome)),
        }
    }

    /// The decision on a request with the keys that are kept, after a fetch was
    /// tried.
    pub fn enforce_fetched(&self, path: &str, method: &str, authorization: Option<&str>) -> (out:
        Decision)
        requires
            self.leeway <= MAX_LEEWAY,
        ensures
            (match self.gate(path@, method@, keys::str_view(authorization)) {
                Gate::Open => out == Decision::Continue(None),
                Gate::NoToken => out matches Decision::Unauthenticated(detail) && detail@
                    == "missing bearer token on `Authorization`"@,
                Gate::Token(resource, verb, token) => exists|
                    outcome: Result<VerifiedClaims, AuthError>,
                | #[trigger]
                    self.decides(resource, verb, outcome, out) && match self.header_check(token) {
                        HeaderCheck::Allowed(alg, kid) => self.concludes(
                            token,
                            alg,
                            self.key_kept(kid),
                            outcome,
                        ),
                        _ => self.refuses_header(token, outcome),
                    },
            }),
    {
        let (target, token) = match self.guarded(path, method, authorization) {
            Ok(pair) => pair,
            Err(decision) => return decision,
        };
        let outcome = self.verify_fetched(token.as_str());
        let ghost seen = outcome;
        let decision = self.decide(&target, outcome);
        assert(self.decides(target.resource@, target.verb, seen, decision));
        decision
    }
}

// ---------------------------------------------------------------------------
// Laws
// ---------------------------------------------------------------------------

/// A service that is not enabled guards nothing.
pub proof fn law_disabled_guards_nothing(
    service: AuthService,
    path: Seq<char>,
    method: Seq<char>,
    authorization: Option<Seq<char>>,
)
    requires
        !service.enabled,
    ensures
        service.gate(path, method, authorization) == Gate::Open,
{
}

/// A path of an open resource is not guarded, whatever token it comes with; nor
/// is a path that belongs to no resource.
pub proof fn law_open_paths_pass(
    service: AuthService,
    path: Seq<char>,
    method: Seq<char>,
    authorization: Option<Seq<char>>,
)
    requires
        policy::path_resource(path) matches Some(resource) ==> service.policy.opens(
            text::ascii_lower(resource),
        ),
    ensures
        service.gate(path, method, authorization) == Gate::Open,
{
}

/// On an enabled service a request for anything that is not open needs a bearer
/// token.
pub proof fn law_guarded_paths_need_a_token(
    service: AuthService,
    path: Seq<char>,
    method: Seq<char>,
    authorization: Option<Seq<char>>,
    resource: Seq<char>,
)
    requires
        service.enabled,
        policy::path_resource(path) == Some(resource),
        !service.policy.opens(text::ascii_lower(resource)),
        authorization matches Some(header) ==> bearer_token(header) is None,
    ensures
        service.gate(path, method, authorization) == Gate::NoToken,
{
}

/// A request goes on with a caller only if that caller is the verified one and
/// has a role that permits it.
pub proof fn law_callers_are_permitted(
    service: AuthService,
    resource: Seq<char>,
    verb: policy::Verb,
    outcome: Result<VerifiedClaims, AuthError>,
    caller: VerifiedClaims,
)
    requires
        service.decides(resource, verb, outcome, Decision::Continue(Some(caller))),
    ensures
        outcome == Ok::<VerifiedClaims, AuthError>(caller),
        service.policy.permits(caller.roles@, resource, verb),
{
}

/// A service that denies without keys lets no guarded request go on without a
/// caller.
pub proof fn law_fail_closed_needs_a_caller(
    service: AuthService,
    resource: Seq<char>,
    verb: policy::Verb,
    outcome: Result<VerifiedClaims, AuthError>,
)
    requires
        service.fail_closed,
    ensures
        !service.decides(resource, verb, outcome, Decision::Continue(None)),
{
}

/// A token whose algorithm is not allowed is refused, by its name, before any
/// key is looked for.
pub proof fn law_disallowed_algorithms_are_refused(
    service: AuthService,
    token: Seq<char>,
    now: u64,
    step: VerifyStep,
    alg: Seq<char>,
    kid: Option<Seq<char>>,
)
    requires
        token_header(token) == Some((alg, kid)),
        !service.allows_algorithm(alg),
        service.verifies(token, now, step),
    ensures
        step matches VerifyStep::Done(Err(AuthError::AlgorithmDisallowed(name))) && name@ == alg,
{
}

/// A token that is not decoded at any time with a key, by the algorithm that it
/// names and the rules of the service, is not accepted by that key.
pub proof fn law_undecodable_tokens_are_refused(
    service: AuthService,
    token: Seq<char>,
    key: keys::KeyView,
    alg: Seq<char>,
    out: Result<VerifiedClaims, AuthError>,
)
    requires
        service.accepts(token, key, alg, out),
        forall|time: u64| #[trigger]
            token_claims(token, key, service.rules_view(alg), time) is None,
    ensures
        out matches Err(e) && e is Verify,
{
}

/// A token that is decoded at every time with a key is accepted by that key, and
/// its caller is one whom the decoded claims name.
pub proof fn law_decodable_tokens_are_accepted(
    service: AuthService,
    token: Seq<char>,
    key: keys::KeyView,
    alg: Seq<char>,
    out: Result<VerifiedClaims, AuthError>,
)
    requires
        service.accepts(token, key, alg, out),
        forall|time: u64| #[trigger]
            token_claims(token, key, service.rules_view(alg), time) is Some,
    ensures
        out matches Ok(caller) && exists|time: u64, claims: Seq<char>|
            #![trigger token_claims(token, key, service.rules_view(alg), time), service.told_by(claims, caller)]
            token_claims(token, key, service.rules_view(alg), time) == Some(claims)
                && service.told_by(claims, caller),
{
    let decoded = choose|decoded: Option<Seq<char>>| #[trigger]
        decodes_to(token, key, service.rules_view(alg), decoded) && service.follows(decoded, out)
            && (decoded matches Some(claims) ==> service.expects(claims, alg));
    let time = choose|time: u64| #[trigger]
        token_claims(token, key, service.rules_view(alg), time) == decoded;
    assert(token_claims(token, key, service.rules_view(alg), time) is Some);
    assert(service.told_by(decoded->0, out->Ok_0));
}

/// Whoever is accepted is told by claims that have an expiry, and no issuer or
/// audience, as a string, but an expected one.
pub proof fn law_unexpected_claims_are_refused(
    service: AuthService,
    token: Seq<char>,
    key: keys::KeyView,
    alg: Seq<char>,
    caller: VerifiedClaims,
)
    requires
        service.accepts(token, key, alg, Ok(caller)),
    ensures
        exists|claims: Seq<char>| #[trigger]
            service.told_by(claims, caller) && service.expects(claims, alg),
{
    let decoded = choose|decoded: Option<Seq<char>>| #[trigger]
        decodes_to(token, key, service.rules_view(alg), decoded) && service.follows(
            decoded,
            Ok(caller),
        ) && (decoded matches Some(claims) ==> service.expects(claims, alg));
    assert(service.told_by(decoded->0, caller));
}

/// A configuration without any settings builds a service that guards nothing.
pub proof fn law_default_configuration_builds(
    cfg: AuthConfig,
    variable: Option<Seq<char>>,
    now: u64,
    out: Result<AuthService, AuthBuildError>,
)
    requires
        cfg.is_default(),
        AuthService::is_built(cfg, variable, now, out),
    ensures
        out matches Ok(service) && !service.enabled,
{
    let names = allowed_names(cfg.keys);
    reveal_strlit("HS256");
    reveal_strlit("hs256");
    assert(text::ascii_lower("HS256"@) == "hs256"@);
    assert(names[0] == "HS256"@);
    assert forall|i: int| !#[trigger] first_unknown(names, i) by {
        if i == 0 {
            assert(algorithm_of(names[0]) is Some);
        }
    }
}

/// The scheme of the `Authorization` header may be in any letter case.
pub proof fn law_bearer_ignores_letter_case(one: Seq<char>, other: Seq<char>)
    requires
        text::words(one).len() == 2,
        text::words(other).len() == 2,
        text::ascii_lower(text::words(one)[0]) == text::ascii_lower(text::words(other)[0]),
        text::words(one)[1] == text::words(other)[1],
    ensures
        bearer_token(one) == bearer_token(other),
{
}

/// The bearer token of a header is its second word where it has two and the
/// first of them is `bearer`, in whatever letter case and with whatever white
/// space around the two; other headers have none.
pub proof fn law_bearer_tokens_are_read(
    front: Seq<char>,
    scheme: Seq<char>,
    gap: Seq<char>,
    token: Seq<char>,
    back: Seq<char>,
)
    requires
        text::is_blank(front),
        text::is_blank(gap),
        text::is_blank(back),
        gap.len() > 0,
        text::is_solid(scheme),
        text::is_solid(token),
        scheme.len() > 0,
        token.len() > 0,
    ensures
        bearer_token(front + scheme + gap + token + back) == (if text::ascii_lower(scheme)
            == "bearer"@ {
            Some(token)
        } else {
            None
        }),
        bearer_token(scheme) is None,
        forall|more: Seq<char>|
            (#[trigger] text::words(more)).len() > 0 ==> bearer_token(
                front + scheme + gap + token + back + " "@ + more,
            ) is None,
{
    let header = front + scheme + gap + token + back;
    text::law_two_words_are_told_apart(front, scheme, gap, token, back);
    text::law_solid_text_is_a_word(scheme);
    reveal_strlit(" ");
    assert(" "@ == seq![' ']);
    assert(text::is_space(' '));
    assert forall|more: Seq<char>| (#[trigger] text::words(more)).len() > 0 implies bearer_token(
        header + " "@ + more,
    ) is None by {
        text::law_white_space_parts_words(header, ' ', more);
    }
}

/// An algorithm is read from its own name in whatever letter case, and from no
/// other name.
pub proof fn law_algorithms_are_read_by_name(name: Seq<char>, algorithm: Algorithm)
    ensures
        algorithm_of(name) == Some(algorithm) <==> text::ascii_lower(name) == text::ascii_lower(
            algorithm.name_view(),
        ),
{
    lemma_small_names();
    lemma_small_names_differ();
}

proof fn lemma_small_names()
    ensures
        text::ascii_lower("HS256"@) == "hs256"@,
        text::ascii_lower("HS384"@) == "hs384"@,
        text::ascii_lower("HS512"@) == "hs512"@,
        text::ascii_lower("ES256"@) == "es256"@,
        text::ascii_lower("ES384"@) == "es384"@,
        text::ascii_lower("RS256"@) == "rs256"@,
        text::ascii_lower("RS384"@) == "rs384"@,
        text::ascii_lower("RS512"@) == "rs512"@,
        text::ascii_lower("PS256"@) == "ps256"@,
        text::ascii_lower("PS384"@) == "ps384"@,
        text::ascii_lower("PS512"@) == "ps512"@,
        text::ascii_lower("EdDSA"@) == "eddsa"@,
{
    reveal_strlit("HS256");
    reveal_strlit("HS384");
    reveal_strlit("HS512");
    reveal_strlit("ES256");
    reveal_strlit("ES384");
    reveal_strlit("RS256");
    reveal_strlit("RS384");
    reveal_strlit("RS512");
    reveal_strlit("PS256");
    reveal_strlit("PS384");
    reveal_strlit("PS512");
    reveal_strlit("EdDSA");
    reveal_strlit("hs256");
    reveal_strlit("hs384");
    reveal_strlit("hs512");
    reveal_strlit("es256");
    reveal_strlit("es384");
    reveal_strlit("rs256");
    reveal_strlit("rs384");
    reveal_strlit("rs512");
    reveal_strlit("ps256");
    reveal_strlit("ps384");
    reveal_strlit("ps512");
    reveal_strlit("eddsa");
    assert(text::ascii_lower("HS256"@) =~= "hs256"@);
    assert(text::ascii_lower("HS384"@) =~= "hs384"@);
    assert(text::ascii_lower("HS512"@) =~= "hs512"@);
    assert(text::ascii_lower("ES256"@) =~= "es256"@);
    assert(text::ascii_lower("ES384"@) =~= "es384"@);
    assert(text::ascii_lower("RS256"@) =~= "rs256"@);
    assert(text::ascii_lower("RS384"@) =~= "rs384"@);
    assert(text::ascii_lower("RS512"@) =~= "rs512"@);
    assert(text::ascii_lower("PS256"@) =~= "ps256"@);
    assert(text::ascii_lower("PS384"@) =~= "ps384"@);
    assert(text::ascii_lower("PS512"@) =~= "ps512"@);
    assert(text::ascii_lower("EdDSA"@) =~= "eddsa"@);
}

/// A text by its first and third characters.
spec fn mark(s: Seq<char>) -> (char, char) {
    (s[0], s[2])
}

proof fn lemma_small_names_differ()
    ensures
        mark("hs256"@) == ('h', '2'),
        mark("hs384"@) == ('h', '3'),
        mark("hs512"@) == ('h', '5'),
        mark("es256"@) == ('e', '2'),
        mark("es384"@) == ('e', '3'),
        mark("rs256"@) == ('r', '2'),
        mark("rs384"@) == ('r', '3'),
        mark("rs512"@) == ('r', '5'),
        mark("ps256"@) == ('p', '2'),
        mark("ps384"@) == ('p', '3'),
        mark("ps512"@) == ('p', '5'),
        mark("eddsa"@) == ('e', 'd'),
{
    reveal_strlit("hs256");
    reveal_strlit("hs384");
    reveal_strlit("hs512");
    reveal_strlit("es256");
    reveal_strlit("es384");
    reveal_strlit("rs256");
    reveal_strlit("rs384");
    reveal_strlit("rs512");
    reveal_strlit("ps256");
    reveal_strlit("ps384");
    reveal_strlit("ps512");
    reveal_strlit("eddsa");
}

/// Where a configuration names algorithms, those are allowed and no others;
/// where it names none, those of its source are.
pub proof fn law_named_algorithms_are_allowed(
    keys: KeyConfig,
    list: Vec<Algorithm>,
    i: int,
)
    requires
        algorithms_for(allowed_names(keys), Ok(list)),
        0 <= i < list@.len(),
    ensures
        keys.algorithms@.len() > 0 ==> list@.len() == keys.algorithms@.len()
            && text::ascii_lower(keys.algorithms@[i]@) == text::ascii_lower(list@[i].name_view()),
        keys.algorithms@.len() == 0 && keys.kind == KeysKind::Secret ==> list@ == seq![
            Algorithm::HS256,
        ],
        keys.algorithms@.len() == 0 && keys.kind != KeysKind::Secret ==> list@ == seq![
            Algorithm::RS256,
            Algorithm::ES256,
        ],
{
    let names = allowed_names(keys);
    assert(algorithm_of(names[i]) == Some(list@[i]));
    law_algorithms_are_read_by_name(names[i], list@[i]);
    if keys.algorithms@.len() > 0 {
        assert(names[i] == keys.algorithms@[i]@);
    } else if keys.kind == KeysKind::Secret {
        assert(names[0] == "HS256"@);
        law_algorithms_are_read_by_name("HS256"@, Algorithm::HS256);
        assert(list@[0] == Algorithm::HS256);
        assert(list@ == seq![Algorithm::HS256]);
    } else {
        assert(names[0] == "RS256"@ && names[1] == "ES256"@);
        law_algorithms_are_read_by_name("RS256"@, Algorithm::RS256);
        law_algorithms_are_read_by_name("ES256"@, Algorithm::ES256);
        assert(algorithm_of(names[0]) == Some(list@[0]));
        assert(algorithm_of(names[1]) == Some(list@[1]));
        assert(list@ == seq![Algorithm::RS256, Algorithm::ES256]);
    }
}

/// The secret is taken from the environment variable where one is named: from
/// its value, or from the name itself where there is no such variable, without
/// the white space around it.
pub proof fn law_environment_comes_first(
    keys: KeyConfig,
    variable: Option<Seq<char>>,
    decoded: Option<Seq<u8>>,
    front: Seq<char>,
    value: Seq<char>,
    back: Seq<char>,
)
    requires
        text::is_blank(front),
        text::is_blank(back),
        text::is_bare(value),
        value.len() > 0,
        keys.secret_env is Some,
        variable == Some(front + value + back) || (variable is None && keys.secret_env->0@ == front
            + value + back),
    ensures
        secret_of(keys, variable, decoded) == Some(vstd::utf8::encode_utf8(value)),
{
    text::law_trimming_leaves_the_inside(front, value, back);
}

/// Without a variable the secret is what the Base64 secret encodes, and where
/// that is not given or blank, the plain secret letter for letter; an empty one
/// is none.
pub proof fn law_plain_secret_comes_last(keys: KeyConfig, decoded: Option<Seq<u8>>)
    requires
        keys.secret_env is None,
    ensures
        (keys.secret_b64 matches Some(s) && !text::is_blank(s@)) ==> secret_of(keys, None, decoded)
            == decoded,
        (keys.secret_b64 matches Some(s) ==> text::is_blank(s@)) ==> secret_of(keys, None, decoded)
            == (match keys.secret {
            Some(plain) => if plain@.len() > 0 {
                Some(vstd::utf8::encode_utf8(plain@))
            } else {
                None
            },
            None => None,
        }),
{
    if let Some(s) = keys.secret_b64 {
        text::law_trimming_takes_white_space_only(s@);
    }
}

/// A dotted path leads through one member after the other; a path without a dot
/// is the name of a member.
pub proof fn law_paths_lead_through_members(value: Json, segment: Seq<char>, rest: Seq<char>)
    requires
        !segment.contains('.'),
    ensures
        walked(value, segment) == value.member_view(segment),
        walked(value, segment + "."@ + rest) == (match value.member_view(segment) {
            Some(inner) => walked(inner, rest),
            None => None,
        }),
        string_at(value, segment) == (match value.member_view(segment) {
            Some(inner) => inner.text_view(),
            None => None,
        }),
{
    reveal_strlit(".");
    assert("."@ == seq!['.']);
    text::law_cut_is_at_the_first_separator(segment, '.', rest);
}

/// A claim names a role by being that text or by listing it; a number, a truth
/// value or an object names none.
pub proof fn law_claims_name_roles(value: Json, role: Seq<char>)
    ensures
        value matches Json::Text(s) ==> (names_role(value, role) <==> s@ == role),
        value matches Json::List(list) ==> (names_role(value, role) <==> exists|i: int|
            0 <= i < list@.len() && (#[trigger] list@[i] matches Json::Text(s) && s@ == role)),
        value is Object || value is Other ==> !names_role(value, role),
{
    if let Json::List(list) = value {
        if names_role(value, role) {
            let i = choose|i: int|
                0 <= i < list@.len() && (#[trigger] list@[i]).text_view() == Some(role);
            assert(list@[i] matches Json::Text(s) && s@ == role);
        }
        if exists|i: int|
            0 <= i < list@.len() && (#[trigger] list@[i] matches Json::Text(s) && s@ == role) {
            let i = choose|i: int|
                0 <= i < list@.len() && (#[trigger] list@[i] matches Json::Text(s) && s@ == role);
            assert(list@[i].text_view() == Some(role));
        }
    }
}

/// A caller has the subject and exactly the roles that the claims name at the
/// configured places.
pub proof fn law_callers_are_told_by_their_claims(
    caller: VerifiedClaims,
    claims: Json,
    subject_claim: Seq<char>,
    role_claims: Seq<String>,
    role: Seq<char>,
)
    requires
        caller.tell(claims, subject_claim, role_claims),
    ensures
        text::view_of(caller.subject) == string_at(claims, subject_claim),
        (exists|k: int| 0 <= k < caller.roles@.len() && (#[trigger] caller.roles@[k])@ == role)
            <==> exists|i: int|
            0 <= i < role_claims.len() && (walked(
                claims,
                (#[trigger] role_claims[i])@,
            ) matches Some(inner) && names_role(inner, role)),
{
    assert(text::has_text(caller.roles@, role) <==> claims_name_role(claims, role_claims, role));
    if exists|i: int|
        0 <= i < role_claims.len() && (walked(claims, (#[trigger] role_claims[i])@) matches Some(
            inner,
        ) && names_role(inner, role)) {
        let i = choose|i: int|
            0 <= i < role_claims.len() && (walked(
                claims,
                (#[trigger] role_claims[i])@,
            ) matches Some(inner) && names_role(inner, role));
        assert(path_names_role(claims, role_claims[i]@, role));
    }
}

/// A token is held against the issuer, the audience and the leeway of the
/// service; without an audience none is asked for.
pub proof fn law_rules_are_those_of_the_service(service: AuthService, alg: Seq<char>)
    ensures
        ({
            let rules = service.rules_view(alg);
            &&& rules.alg == alg
            &&& rules.leeway == service.leeway
            &&& rules.issuer == text::view_of(service.issuer)
            &&& rules.audience is None <==> service.audience@.len() == 0
            &&& rules.audience matches Some(list) ==> list == text::views(service.audience@)
        }),
{
}

/// The token of a guarded request is looked at for the resource of its path and
/// the verb of its method.
pub proof fn law_guarded_requests_are_checked(
    service: AuthService,
    slashes: Seq<char>,
    segment: Seq<char>,
    method: Seq<char>,
    scheme: Seq<char>,
    token: Seq<char>,
)
    requires
        service.enabled,
        forall|i: int| 0 <= i < slashes.len() ==> #[trigger] slashes[i] == '/',
        segment.len() > 0,
        !segment.contains('/'),
        policy::is_resource(text::ascii_lower(segment)),
        !service.policy.opens(text::ascii_lower(text::ascii_lower(segment))),
        text::is_solid(scheme),
        text::is_solid(token),
        token.len() > 0,
        text::ascii_lower(scheme) == "bearer"@,
    ensures
        service.gate(slashes + segment, method, Some(scheme + " "@ + token)) == Gate::Token(
            text::ascii_lower(segment),
            policy::method_verb(method),
            token,
        ),
        service.gate(slashes + segment, method, None) == Gate::NoToken,
{
    policy::law_paths_belong_to_their_first_segment(slashes, segment, Seq::empty());
    reveal_strlit("bearer");
    assert("bearer"@.len() == 6);
    assert(scheme.len() == text::ascii_lower(scheme).len());
    reveal_strlit(" ");
    assert(" "@[0] == ' ');
    assert(text::is_blank(" "@));
    let none = Seq::<char>::empty();
    law_bearer_tokens_are_read(none, scheme, " "@, token, none);
    assert(none + scheme + " "@ + token + none == scheme + " "@ + token);
}

/// A caller who is permitted goes on, and one who is not is forbidden. Without
/// keys a request goes on without a caller, unless the service denies then.
/// Every other error is answered as a token that is not valid.
pub proof fn law_outcomes_decide(
    service: AuthService,
    resource: Seq<char>,
    verb: policy::Verb,
    outcome: Result<VerifiedClaims, AuthError>,
    decision: Decision,
)
    requires
        service.decides(resource, verb, outcome, decision),
    ensures
        outcome matches Ok(caller) ==> (if service.policy.permits(caller.roles@, resource, verb) {
            decision == Decision::Continue(Some(caller))
        } else {
            decision matches Decision::Forbidden(detail) && detail@
                == "authenticated roles do not permit this route"@
        }),
        outcome matches Err(AuthError::SourceUnavailable) ==> (if service.fail_closed {
            decision matches Decision::Unauthenticated(detail) && detail@
                == "verification key source is unavailable"@
        } else {
            decision == Decision::Continue(None)
        }),
        (outcome matches Err(e) && e !is SourceUnavailable) ==> (decision matches
            Decision::Unauthenticated(detail) && detail@ == "invalid or expired token"@),
{
}

/// A service is built as its configuration says: enabled or not, with its
/// issuer, audiences, leeway, claims and open resources.
pub proof fn law_services_are_built_as_configured(
    cfg: AuthConfig,
    variable: Option<Seq<char>>,
    now: u64,
    service: AuthService,
)
    requires
        AuthService::is_built(cfg, variable, now, Ok(service)),
    ensures
        service.enabled == cfg.enabled,
        text::view_of(service.issuer) == text::view_of(cfg.issuer),
        text::views(service.audience@) == text::views(cfg.audience@),
        service.leeway == cfg.clock_skew_secs,
        service.subject_claim@ == cfg.subject_claim@,
        text::views(service.role_claims@) == text::views(cfg.role_claims@),
        service.fail_closed == cfg.keys.fail_closed,
        forall|i: int|
            0 <= i < cfg.public@.len() ==> service.policy.opens(
                text::ascii_lower((#[trigger] cfg.public@[i])@),
            ),
        forall|resource: Seq<char>| #[trigger]
            service.policy.opens(resource) ==> exists|i: int|
                0 <= i < cfg.public@.len() && text::ascii_lower((#[trigger] cfg.public@[i])@)
                    == resource,
        cfg.enabled && cfg.keys.kind == KeysKind::Secret ==> (service.key_material matches
            KeyMaterial::Secret(bytes) && secret_of(cfg.keys, variable, decoded_secret(cfg.keys))
            == Some(bytes@)),
        cfg.enabled && cfg.keys.kind == KeysKind::JwksRemote ==> (service.key_material matches
            KeyMaterial::Keys(set) && set.cache is None && set.ttl.secs == cfg.keys.cache_ttl_secs
            && (set.fetcher matches Some(fetcher) && text::view_of(cfg.keys.jwks_url) == Some(
            fetcher.base@,
        ) && fetcher.location() == keys::LocationView::Known(fetcher.base@))),
        cfg.enabled && cfg.keys.kind == KeysKind::Issuer ==> (service.key_material matches
            KeyMaterial::Keys(set) && set.cache is None && set.ttl.secs == cfg.keys.cache_ttl_secs
            && (set.fetcher matches Some(fetcher) && text::view_of(cfg.keys.issuer) == Some(
            fetcher.base@,
        ))),
{
    assert(service.configured(cfg));
    assert forall|i: int| 0 <= i < cfg.public@.len() implies service.policy.opens(
        text::ascii_lower((#[trigger] cfg.public@[i])@),
    ) by {
        let resource = text::ascii_lower(cfg.public@[i]@);
        assert(service.policy.opens(resource));
    }
}

/// A token that no key is for, and one for which there is no key set, are told
/// apart; neither is accepted.
pub proof fn law_missing_keys_are_told_apart(
    service: AuthService,
    token: Seq<char>,
    alg: Seq<char>,
    out: Result<VerifiedClaims, AuthError>,
)
    ensures
        service.concludes(token, alg, keys::ResolutionView::UnknownKid, out) ==> (out matches Err(e)
            && e is UnknownKid),
        service.concludes(token, alg, keys::ResolutionView::SourceUnavailable, out) ==> (
        out matches Err(e) && e is SourceUnavailable),
        !service.concludes(token, alg, keys::ResolutionView::Fetch, out),
{
}

/// A shared secret is the key for every token and is never fetched; of a key set
/// the set decides.
pub proof fn law_secrets_are_never_fetched(
    service: AuthService,
    kid: Option<Seq<char>>,
    now: u64,
)
    ensures
        service.key_material matches KeyMaterial::Secret(bytes) ==> service.key_for(kid, now)
            == keys::ResolutionView::Key(keys::KeyView::Secret(bytes@)) && service.key_kept(kid)
            == keys::ResolutionView::Key(keys::KeyView::Secret(bytes@)),
        service.key_material matches KeyMaterial::Keys(set) ==> service.key_for(kid, now)
            == set.resolution(kid, now) && service.key_kept(kid) == set.from_kept(kid),
{
}

/// A token whose header cannot be read is not accepted. One of an allowed
/// algorithm waits for a fetch exactly where its key has to be fetched, and is
/// otherwise decided by the key that was found for the id that it names.
pub proof fn law_headers_decide_the_key(
    service: AuthService,
    token: Seq<char>,
    now: u64,
    step: VerifyStep,
    alg: Seq<char>,
    kid: Option<Seq<char>>,
)
    requires
        service.verifies(token, now, step),
        token_header(token) is Some ==> token_header(token) == Some((alg, kid)),
    ensures
        token_header(token) is None ==> (step matches VerifyStep::Done(Err(e)) && e is Verify),
        token_header(token) is Some && (exists|i: int|
            0 <= i < service.algorithms@.len() && (#[trigger] service.algorithms@[i]).name_view()
                == alg) ==> (match service.key_for(kid, now) {
            keys::ResolutionView::Fetch => step is Fetch,
            keys::ResolutionView::Key(key) => step matches VerifyStep::Done(out)
                && service.accepts(token, key, alg, out),
            keys::ResolutionView::UnknownKid => step matches VerifyStep::Done(Err(e)) && e
                is UnknownKid,
            keys::ResolutionView::SourceUnavailable => step matches VerifyStep::Done(Err(e)) && e
                is SourceUnavailable,
        }),
        token_header(token) is Some && (forall|i: int|
            0 <= i < service.algorithms@.len() ==> (#[trigger] service.algorithms@[i]).name_view()
                != alg) ==> (step matches VerifyStep::Done(Err(AuthError::AlgorithmDisallowed(
            name,
        ))) && name@ == alg),
{
}

/// A decoded token is accepted with the caller whom its claims name, and one
/// that was not decoded is not accepted.
pub proof fn law_decoding_decides(
    service: AuthService,
    decoded: Option<Seq<char>>,
    out: Result<VerifiedClaims, AuthError>,
)
    requires
        service.follows(decoded, out),
    ensures
        out is Ok <==> decoded is Some,
        decoded is None ==> (out matches Err(e) && e is Verify),
        (decoded matches Some(claims) && json::json_error(claims) is Some) ==> (out matches Ok(
            caller,
        ) && caller.subject is None && caller.roles@.len() == 0),
{
    if decoded is Some && json::json_error(decoded->0) is Some {
        let claims = decoded->0;
        let caller = out->Ok_0;
        let read = choose|read: Json| #[trigger]
            reads_claims(claims, read) && caller.tell(
                read,
                service.subject_claim@,
                service.role_claims@,
            );
        lemma_nothing_is_walked(read, service.subject_claim@);
        if caller.roles@.len() > 0 {
            let role = caller.roles@[0]@;
            assert(text::has_text(caller.roles@, role));
            let i = choose|i: int|
                0 <= i < service.role_claims@.len() && path_names_role(
                    read,
                    (#[trigger] service.role_claims@[i])@,
                    role,
                );
            lemma_nothing_is_walked(read, service.role_claims@[i]@);
        }
    }
}

proof fn lemma_nothing_is_walked(value: Json, path: Seq<char>)
    requires
        value is Other,
    ensures
        walked(value, path) is None,
{
}

/// Claims with an issuer, as a string, name the one that the service expects,
/// and with an audience, as a string, one of those that it expects; claims that
/// are an object have an expiry.
pub proof fn law_accepted_claims_are_expected(
    service: AuthService,
    claims: Seq<char>,
    alg: Seq<char>,
)
    requires
        service.expects(claims, alg),
    ensures
        json::json_members(claims) is Some ==> json::json_member(claims, "exp"@) is Some,
        (json::json_text(claims, "iss"@) matches Some(named) && service.issuer is Some)
            ==> json::json_text(claims, "iss"@) == text::view_of(service.issuer),
        json::json_text(claims, "aud"@) matches Some(named) ==> text::views(
            service.audience@,
        ).contains(named),
{
    let wanted = text::view_of(service.issuer);
    if wanted is Some && json::json_text(claims, "iss"@) is Some {
        let list = seq![wanted->0];
        let named = json::json_text(claims, "iss"@)->0;
        assert(list.contains(named));
        assert(list[0] == named);
    }
    if json::json_text(claims, "aud"@) is Some && service.audience@.len() == 0 {
        let none = Seq::<Seq<char>>::empty();
        assert(!none.contains(json::json_text(claims, "aud"@)->0));
    }
}

/// The first name that no algorithm has is the one that the error names; there
/// is an error only where there is such a name.
pub proof fn law_unknown_algorithms_are_named(
    names: Seq<Seq<char>>,
    out: Result<Vec<Algorithm>, AuthBuildError>,
    i: int,
)
    requires
        algorithms_for(names, out),
        0 <= i < names.len(),
        algorithm_of(names[i]) is None,
        forall|k: int| 0 <= k < i ==> algorithm_of(#[trigger] names[k]) is Some,
    ensures
        out matches Err(AuthBuildError::UnknownAlgorithm(name)) && name@ == names[i],
{
    if let Ok(list) = out {
        assert(algorithm_of(names[i]) == Some(list@[i]));
    } else {
        let e = out->Err_0;
        let k = choose|k: int| #[trigger]
            first_unknown(names, k) && e@ == BuildErrorView::UnknownAlgorithm(names[k]);
        assert(k == i);
    }
}

/// A Base64 secret is decoded without the white space around it, in the standard
/// alphabet or else in the URL-safe one.
pub proof fn law_encoded_secrets_are_decoded(
    keys: KeyConfig,
    front: Seq<char>,
    secret: Seq<char>,
    back: Seq<char>,
)
    requires
        text::is_blank(front),
        text::is_blank(back),
        text::is_bare(secret),
        secret.len() > 0,
        keys.secret_b64 matches Some(s) && s@ == front + secret + back,
    ensures
        decoded_secret(keys) == (match base64_bytes(secret) {
            Some(bytes) => Some(bytes),
            None => base64_url_bytes(secret),
        }),
{
    text::law_trimming_leaves_the_inside(front, secret, back);
}

/// A configuration names no key where none of what its source needs is given:
/// of a secret neither the variable nor the Base64 nor the plain secret, of the
/// others the key set, its URL or the issuer.
pub proof fn law_keyless_configurations(keys: KeyConfig)
    requires
        keys.secret_env is None,
    ensures
        keys.kind == KeysKind::Secret ==> (names_no_key(keys, None) <==> (keys.secret_b64 matches
            Some(s) ==> text::is_blank(s@)) && (keys.secret matches Some(s) ==> s@.len() == 0)),
        keys.kind == KeysKind::Jwks ==> (names_no_key(keys, None) <==> keys.jwks is None),
        keys.kind == KeysKind::JwksRemote ==> (names_no_key(keys, None) <==> keys.jwks_url is None),
        keys.kind == KeysKind::Issuer ==> (names_no_key(keys, None) <==> keys.issuer is None),
{
    if let Some(s) = keys.secret_b64 {
        text::law_trimming_takes_white_space_only(s@);
    }
}

/// The keys of a configuration are those that it writes out; an empty set is no
/// key material, and one that cannot be read is an error that says why.
pub proof fn law_written_keys_are_used(
    keys: KeyConfig,
    secret: Option<Seq<u8>>,
    now: u64,
    out: Result<KeyMaterial, AuthBuildError>,
)
    requires
        keys.kind == KeysKind::Jwks,
        keys.jwks is Some,
        material_for(keys, secret, inline_set(keys), now, out),
    ensures
        (match keys::jwk_set_in(keys.jwks->0@) {
            Ok(list) => if list.len() > 0 {
                out matches Ok(KeyMaterial::Keys(set)) && set.kept() == Some(list)
                    && set.fetcher is None
            } else {
                out matches Err(AuthBuildError::NoKeyMaterial)
            },
            Err(e) => out matches Err(AuthBuildError::JwksParse(told)) && told@ == e,
        }),
{
}

/// A secret is used as it is, and without one there is an error that says so; a
/// source that is fetched needs to be named.
pub proof fn law_sources_have_to_be_named(
    keys: KeyConfig,
    secret: Option<Seq<u8>>,
    inline: Result<Seq<keys::JwkView>, Seq<char>>,
    now: u64,
    out: Result<KeyMaterial, AuthBuildError>,
)
    requires
        material_for(keys, secret, inline, now, out),
    ensures
        keys.kind == KeysKind::Secret ==> (match secret {
            Some(bytes) => out matches Ok(KeyMaterial::Secret(kept)) && kept@ == bytes,
            None => out matches Err(AuthBuildError::NoSecret),
        }),
        keys.kind == KeysKind::JwksRemote ==> (out is Ok <==> keys.jwks_url is Some),
        keys.kind == KeysKind::Issuer ==> (out is Ok <==> keys.issuer is Some),
        keys.kind == KeysKind::Jwks && keys.jwks is None ==> out is Err,
{
}

} // verus!
