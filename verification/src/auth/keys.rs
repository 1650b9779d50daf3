//! The keys that tokens are verified with, and where they come from.
//!
//! A key is a shared secret or a member of a key set (JWK set). A key set is
//! written in the configuration or is fetched from an auth server, is then kept
//! and is fetched again when a key is missing and the set is no longer fresh.
use vstd::prelude::*;
use reqwest::header::{HeaderName, HeaderValue};
use crate::json;
use crate::json::{read_json, read_text, Json};
use crate::send::err;
use crate::text;
use crate::text::{joined, same_text, starts_with, trim, trim_leading, trim_trailing};
use crate::time::Duration;

verus! {

// ---------------------------------------------------------------------------
// Key sets
// ---------------------------------------------------------------------------

/// One key of a key set, as the text of its JSON.
#[derive(Debug, Clone)]
pub struct Jwk {
    /// The id of the key, if it has one.
    pub kid: Option<String>,
    pub json: String,
}

/// What a [`Jwk`] holds.
#[verifier::ext_equal]
pub struct JwkView {
    pub kid: Option<Seq<char>>,
    pub json: Seq<char>,
}

impl View for Jwk {
    type V = JwkView;

    open spec fn view(&self) -> JwkView {
        JwkView { kid: text::view_of(self.kid), json: self.json@ }
    }
}

/// What each key holds.
pub open spec fn jwk_views(keys: Seq<Jwk>) -> Seq<JwkView> {
    Seq::new(keys.len(), |i: int| keys[i]@)
}

/// The key that the signature of a token is checked with.
#[derive(Debug, Clone)]
pub enum VerificationKey {
    /// A shared secret.
    Secret(Vec<u8>),
    /// A key of a key set, as the text of its JSON.
    Jwk(String),
}

/// What a [`VerificationKey`] holds.
#[verifier::ext_equal]
pub enum KeyView {
    Secret(Seq<u8>),
    Jwk(Seq<char>),
}

impl View for VerificationKey {
    type V = KeyView;

    open spec fn view(&self) -> KeyView {
        match self {
            VerificationKey::Secret(bytes) => KeyView::Secret(bytes@),
            VerificationKey::Jwk(json) => KeyView::Jwk(json@),
        }
    }
}

/// The keys of a key set, or why `text` is none, by `jsonwebtoken`.
pub uninterp spec fn jwk_set_of(text: Seq<char>) -> Result<Seq<JwkView>, Seq<char>>;

/// The keys of the key set that a JSON value holds, or why it holds none, by
/// `jsonwebtoken`.
pub uninterp spec fn jwk_set_in(text: Seq<char>) -> Result<Seq<JwkView>, Seq<char>>;

/// Whether `jsonwebtoken` can verify with the key that `json` writes.
pub uninterp spec fn is_usable_jwk(json: Seq<char>) -> bool;

/// The fewest characters in which Base64 writes 32 bytes, which is what a curve's
/// shortest coordinate takes.
pub const COORDINATE_CHARS: usize = 43;

/// The coordinate `x` of the key that `json` writes, where it has one, is long
/// enough for its curve.
pub open spec fn jwk_fits(json: Seq<char>) -> bool {
    json::json_text(json, "x"@) matches Some(x) ==> x.len() >= COORDINATE_CHARS
}

/// Whether tokens can be verified with the key that `json` writes.
pub open spec fn can_verify(json: Seq<char>) -> bool {
    is_usable_jwk(json) && jwk_fits(json)
}

impl KeyView {
    /// The key is a secret, or is long enough for its curve.
    pub open spec fn fits(self) -> bool {
        self matches KeyView::Jwk(json) ==> jwk_fits(json)
    }
}

/// What the reading of a key set came to.
pub open spec fn set_view(set: Result<Vec<Jwk>, String>) -> Result<Seq<JwkView>, Seq<char>> {
    match set {
        Ok(keys) => Ok(jwk_views(keys@)),
        Err(e) => Err(e@),
    }
}

/// `serde_json::from_str` of a `jsonwebtoken::jwk::JwkSet`: its keys with their
/// ids, in order, or the text of the error.
#[verifier::external_body]
fn parse_jwk_set(text: &str) -> (out: Result<Vec<Jwk>, String>)
    ensures
        set_view(out) == jwk_set_of(text@),
{
    let set: jsonwebtoken::jwk::JwkSet = serde_json::from_str(text).map_err(|e| e.to_string())?;
    set.keys.iter().map(|k| Ok(Jwk {
        kid: k.common.key_id.clone(),
        json: serde_json::to_string(k).map_err(|e| e.to_string())?,
    })).collect()
}

/// `serde_json::from_value` of a `jsonwebtoken::jwk::JwkSet` from the value that
/// `text` writes: its keys with their ids, in order, or the text of the error.
#[verifier::external_body]
pub(crate) fn parse_jwk_value(text: &str) -> (out: Result<Vec<Jwk>, String>)
    ensures
        set_view(out) == jwk_set_in(text@),
{
    let value: serde_json::Value = serde_json::from_str(text).map_err(|e| e.to_string())?;
    let set: jsonwebtoken::jwk::JwkSet =
        serde_json::from_value(value).map_err(|e| e.to_string())?;
    set.keys.iter().map(|k| Ok(Jwk {
        kid: k.common.key_id.clone(),
        json: serde_json::to_string(k).map_err(|e| e.to_string())?,
    })).collect()
}

/// Whether `jsonwebtoken::DecodingKey::from_jwk` takes the key that `json`
/// writes.
#[verifier::external_body]
fn check_jwk(json: &str) -> (out: bool)
    ensures
        out == is_usable_jwk(json@),
{
    match serde_json::from_str::<jsonwebtoken::jwk::Jwk>(json) {
        Ok(jwk) => jsonwebtoken::DecodingKey::from_jwk(&jwk).is_ok(),
        Err(_) => false,
    }
}

/// Whether tokens can be verified with the key that `json` writes.
fn is_fit(json: &str) -> (out: bool)
    ensures
        out == can_verify(json@),
{
    if !check_jwk(json) {
        return false;
    }
    match read_text(json, "x") {
        Some(x) => x.as_str().unicode_len() >= COORDINATE_CHARS,
        None => true,
    }
}

/// `i` is the first key of `keys` with the id `kid`.
pub open spec fn first_with_kid(keys: Seq<JwkView>, kid: Seq<char>, i: int) -> bool {
    &&& 0 <= i < keys.len()
    &&& keys[i].kid == Some(kid)
    &&& forall|k: int| 0 <= k < i ==> (#[trigger] keys[k]).kid != Some(kid)
}

/// `i` is the only key of `keys` without an id.
pub open spec fn only_kidless(keys: Seq<JwkView>, i: int) -> bool {
    &&& 0 <= i < keys.len()
    &&& keys[i].kid is None
    &&& forall|k: int| 0 <= k < keys.len() && k != i ==> (#[trigger] keys[k]).kid is Some
}

/// `i` is the key for a token with the id `kid`: the first key with that id, or
/// for a token without one the only key without one.
pub open spec fn chosen(keys: Seq<JwkView>, kid: Option<Seq<char>>, i: int) -> bool {
    match kid {
        Some(kid) => first_with_kid(keys, kid, i),
        None => only_kidless(keys, i),
    }
}

/// The key for a token with the id `kid`, where it can be used.
pub open spec fn picked(keys: Seq<JwkView>, kid: Option<Seq<char>>) -> Option<KeyView> {
    if exists|i: int| chosen(keys, kid, i) && can_verify(keys[i].json) {
        let i = choose|i: int| chosen(keys, kid, i) && can_verify(keys[i].json);
        Some(KeyView::Jwk(keys[i].json))
    } else {
        None
    }
}

/// The index of the key for a token with the id `kid`, if there is one.
pub fn choose_key(keys: &Vec<Jwk>, kid: &Option<String>) -> (out: Option<usize>)
    ensures
        (match out {
            Some(i) => chosen(jwk_views(keys@), text::view_of(*kid), i as int),
            None => forall|i: int| !#[trigger] chosen(jwk_views(keys@), text::view_of(*kid), i),
        }),
{
    let ghost views = jwk_views(keys@);
    match kid {
        Some(wanted) => {
            let mut i: usize = 0;
            while i < keys.len()
                invariant
                    i <= keys.len(),
                    views == jwk_views(keys@),
                    text::view_of(*kid) == Some(wanted@),
                    forall|k: int| 0 <= k < i ==> (#[trigger] views[k]).kid != Some(wanted@),
                decreases keys.len() - i,
            {
                assert(views[i as int] == keys@[i as int]@);
                if let Some(id) = &keys[i].kid {
                    if same_text(id.as_str(), wanted.as_str()) {
                        return Some(i);
                    }
                }
                i += 1;
            }
            None
        },
        None => {
            let mut found: Option<usize> = None;
            let mut i: usize = 0;
            while i < keys.len()
                invariant
                    i <= keys.len(),
                    views == jwk_views(keys@),
                    kid is None,
                    match found {
                        Some(f) => f < i && views[f as int].kid is None && forall|k: int|
                            0 <= k < i && k != f ==> (#[trigger] views[k]).kid is Some,
                        None => forall|k: int| 0 <= k < i ==> (#[trigger] views[k]).kid is Some,
                    },
                decreases keys.len() - i,
            {
                assert(views[i as int] == keys@[i as int]@);
                if keys[i].kid.is_none() {
                    if let Some(f) = found {
                        proof {
                            assert forall|j: int| !#[trigger] chosen(views, None, j) by {
                                if j == f {
                                    assert(views[i as int].kid is None);
                                } else {
                                    assert(views[f as int].kid is None);
                                }
                            }
                        }
                        return None;
                    }
                    found = Some(i);
                }
                i += 1;
            }
            found
        },
    }
}

proof fn lemma_chosen_is_unique(keys: Seq<JwkView>, kid: Option<Seq<char>>, i: int, j: int)
    requires
        chosen(keys, kid, i),
        chosen(keys, kid, j),
    ensures
        i == j,
{
}

/// The key for a token with the id `kid`, where it can be used. A key is never
/// guessed: of several keys without an id none is taken.
pub fn pick_key(keys: &Vec<Jwk>, kid: &Option<String>) -> (out: Option<VerificationKey>)
    ensures
        (match out {
            Some(key) => picked(jwk_views(keys@), text::view_of(*kid)) == Some(key@),
            None => picked(jwk_views(keys@), text::view_of(*kid)) is None,
        }),
        out matches Some(key) ==> key@.fits(),
{
    let ghost views = jwk_views(keys@);
    let ghost id = text::view_of(*kid);
    match choose_key(keys, kid) {
        Some(i) => {
            assert(views[i as int] == keys@[i as int]@);
            let usable = is_fit(keys[i].json.as_str());
            proof {
                assert forall|j: int| chosen(views, id, j) implies j == i by {
                    lemma_chosen_is_unique(views, id, i as int, j);
                }
            }
            if usable {
                proof {
                    assert(chosen(views, id, i as int) && can_verify(views[i as int].json));
                }
                Some(VerificationKey::Jwk(keys[i].json.clone()))
            } else {
                None
            }
        },
        None => None,
    }
}

/// A key set as it was last fetched.
#[derive(Debug, Clone)]
pub struct CachedSet {
    pub keys: Vec<Jwk>,
    /// When it was fetched, in nanoseconds of a clock that never goes back.
    pub fetched_at: u64,
}

/// What keys there are to verify with.
#[derive(Debug, Clone)]
pub enum KeyMaterial {
    /// A shared secret.
    Secret(Vec<u8>),
    /// A key set.
    Keys(KeySet),
}

/// A key set, kept and fetched again as needed.
#[derive(Debug, Clone)]
pub struct KeySet {
    /// The set as it was last fetched; `None` until the first fetch.
    pub cache: Option<CachedSet>,
    /// How to fetch the set; `None` for a set of the configuration.
    pub fetcher: Option<HttpKeysFetcher>,
    /// How long the set is fresh.
    pub ttl: Duration,
}

/// What to do to get the key for a token.
#[derive(Debug, Clone)]
pub enum Resolution {
    /// Use this key.
    Key(VerificationKey),
    /// Fetch the set, and then ask [`KeySet::resolve_fetched`].
    Fetch,
    /// No key of the set is for the token.
    UnknownKid,
    /// There is no set.
    SourceUnavailable,
}

/// What a [`Resolution`] says.
pub enum ResolutionView {
    Key(KeyView),
    Fetch,
    UnknownKid,
    SourceUnavailable,
}

impl View for Resolution {
    type V = ResolutionView;

    open spec fn view(&self) -> ResolutionView {
        match self {
            Resolution::Key(key) => ResolutionView::Key(key@),
            Resolution::Fetch => ResolutionView::Fetch,
            Resolution::UnknownKid => ResolutionView::UnknownKid,
            Resolution::SourceUnavailable => ResolutionView::SourceUnavailable,
        }
    }
}

impl KeySet {
    /// The keys that are kept, if any.
    pub open spec fn kept(self) -> Option<Seq<JwkView>> {
        match self.cache {
            Some(c) => Some(jwk_views(c.keys@)),
            None => None,
        }
    }

    /// The set is empty or as old as it may get.
    pub open spec fn is_stale(self, now: u64) -> bool {
        match self.cache {
            Some(c) => {
                let age = if now >= c.fetched_at {
                    now - c.fetched_at
                } else {
                    0
                };
                age >= self.ttl.secs * 1_000_000_000
            },
            None => true,
        }
    }

    /// The key for the token from what is kept.
    pub open spec fn from_kept(self, kid: Option<Seq<char>>) -> ResolutionView {
        match self.kept() {
            Some(keys) => match picked(keys, kid) {
                Some(key) => ResolutionView::Key(key),
                None => ResolutionView::UnknownKid,
            },
            None => ResolutionView::SourceUnavailable,
        }
    }

    /// What to do for a token with the id `kid`: a kept key answers at once;
    /// else the set is fetched where it can be and is no longer fresh.
    pub open spec fn resolution(self, kid: Option<Seq<char>>, now: u64) -> ResolutionView {
        match self.from_kept(kid) {
            ResolutionView::Key(key) => ResolutionView::Key(key),
            other => if self.fetcher is Some && self.is_stale(now) {
                ResolutionView::Fetch
            } else {
                other
            },
        }
    }

    /// The set after a fetch: the new keys, or what was kept where it failed.
    pub open spec fn after_fetch(self, fetched: Result<Seq<JwkView>, Seq<char>>) -> Option<
        Seq<JwkView>,
    > {
        match fetched {
            Ok(keys) => Some(keys),
            Err(_) => self.kept(),
        }
    }

    /// A set of the configuration, which is never fetched.
    pub fn static_set(keys: Vec<Jwk>, now: u64) -> (out: KeySet)
        ensures
            out.cache == Some(CachedSet { keys, fetched_at: now }),
            out.fetcher is None,
            out.ttl.secs == 0,
    {
        KeySet {
            cache: Some(CachedSet { keys, fetched_at: now }),
            fetcher: None,
            ttl: Duration::from_secs(0),
        }
    }

    /// A set that is fetched, and is empty until then.
    pub fn remote(fetcher: HttpKeysFetcher, ttl: Duration) -> (out: KeySet)
        ensures
            out.cache is None,
            out.fetcher == Some(fetcher),
            out.ttl == ttl,
    {
        KeySet { cache: None, fetcher: Some(fetcher), ttl }
    }

    /// Whether the set is fetched.
    pub fn is_remote(&self) -> (out: bool)
        ensures
            out == (self.fetcher is Some),
    {
        self.fetcher.is_some()
    }

    /// Whether the set is empty or as old as it may get.
    pub fn should_refetch(&self, now: u64) -> (out: bool)
        ensures
            out == self.is_stale(now),
    {
        match &self.cache {
            Some(c) => {
                let age: u128 = if now >= c.fetched_at {
                    (now - c.fetched_at) as u128
                } else {
                    0
                };
                age >= self.ttl.as_secs() as u128 * 1_000_000_000
            },
            None => true,
        }
    }

    pub(crate) fn from_cache(&self, kid: &Option<String>) -> (out: Resolution)
        ensures
            out@ == self.from_kept(text::view_of(*kid)),
            out@ matches ResolutionView::Key(key) ==> key.fits(),
    {
        match &self.cache {
            Some(c) => match pick_key(&c.keys, kid) {
                Some(key) => Resolution::Key(key),
                None => Resolution::UnknownKid,
            },
            None => Resolution::SourceUnavailable,
        }
    }

    /// What to do to get the key for a token with the id `kid`.
    pub fn resolve(&self, kid: &Option<String>, now: u64) -> (out: Resolution)
        ensures
            out@ == self.resolution(text::view_of(*kid), now),
            out@ matches ResolutionView::Key(key) ==> key.fits(),
    {
        match self.from_cache(kid) {
            Resolution::Key(key) => Resolution::Key(key),
            other => if self.is_remote() && self.should_refetch(now) {
                Resolution::Fetch
            } else {
                other
            },
        }
    }

    /// Keep what was fetched. Where fetching failed, what was kept stays.
    pub fn store(&mut self, now: u64, fetched: Result<Vec<Jwk>, String>)
        ensures
            final(self).kept() == old(self).after_fetch(set_view(fetched)),
            fetched is Ok ==> (final(self).cache matches Some(c) && c.fetched_at == now),
            fetched is Err ==> *final(self) == *old(self),
            final(self).fetcher == old(self).fetcher,
            final(self).ttl == old(self).ttl,
    {
        if let Ok(keys) = fetched {
            self.cache = Some(CachedSet { keys, fetched_at: now });
        }
    }

    /// The key for a token with the id `kid` after the set was fetched. Where
    /// fetching failed, an older set still serves.
    pub fn resolve_fetched(
        &mut self,
        kid: &Option<String>,
        now: u64,
        fetched: Result<Vec<Jwk>, String>,
    ) -> (out: Resolution)
        ensures
            final(self).kept() == old(self).after_fetch(set_view(fetched)),
            fetched is Ok ==> (final(self).cache matches Some(c) && c.fetched_at == now),
            fetched is Err ==> *final(self) == *old(self),
            final(self).fetcher == old(self).fetcher,
            final(self).ttl == old(self).ttl,
            out@ == final(self).from_kept(text::view_of(*kid)),
            out@ matches ResolutionView::Key(key) ==> key.fits(),
            out@ !is Fetch,
    {
        self.store(now, fetched);
        self.from_cache(kid)
    }
}

// ---------------------------------------------------------------------------
// Fetching
// ---------------------------------------------------------------------------

/// `base` and `path` as one URL; `path` itself where it is one.
pub open spec fn joined_url(base: Seq<char>, path: Seq<char>) -> Seq<char> {
    if "http://"@.is_prefix_of(path) || "https://"@.is_prefix_of(path) {
        path
    } else {
        let head = text::drop_trailing(base, seq!['/']);
        let rest = text::drop_leading(path, seq!['/']);
        if rest.len() == 0 {
            head
        } else {
            head + "/"@ + rest
        }
    }
}

/// Join a base and a path, or a URL that needs no base, into one URL.
pub fn join_url(base: &str, path: &str) -> (out: String)
    ensures
        out@ == joined_url(base@, path@),
{
    if starts_with(path, "http://") || starts_with(path, "https://") {
        return path.to_owned();
    }
    let slash: Vec<char> = vec!['/'];
    assert(slash@ == seq!['/']);
    let head = trim_trailing(base, &slash);
    let rest = trim_leading(path, &slash);
    if rest.as_str().is_empty() {
        head
    } else {
        let start = joined(head.as_str(), "/");
        joined(start.as_str(), rest.as_str())
    }
}

/// A character that may stand in the name of an HTTP header.
pub open spec fn is_header_char(c: char) -> bool {
    ||| 'a' <= c <= 'z'
    ||| 'A' <= c <= 'Z'
    ||| '0' <= c <= '9'
    ||| c == '!' || c == '#' || c == '$' || c == '%' || c == '&' || c == '\'' || c == '*'
    ||| c == '+' || c == '-' || c == '.' || c == '^' || c == '_' || c == '`' || c == '|' || c == '~'
}

/// The name of an HTTP header in small letters, where `name` is one.
pub open spec fn header_name_of(name: Seq<char>) -> Option<Seq<char>> {
    if 0 < name.len() <= 65_535 && forall|i: int|
        0 <= i < name.len() ==> is_header_char(#[trigger] name[i]) {
        Some(text::ascii_lower(name))
    } else {
        None
    }
}

/// A text that may stand as the value of an HTTP header.
pub open spec fn is_header_value(value: Seq<char>) -> bool {
    forall|i: int|
        0 <= i < value.len() ==> #[trigger] value[i] as u32 == 9 || (value[i] as u32 >= 32
            && value[i] as u32 != 127)
}

/// `reqwest::header::HeaderName::try_from`: the name in small letters where it
/// is made of the characters of a token and is neither empty nor too long.
#[verifier::external_body]
fn header_name(name: &str) -> (out: Option<String>)
    ensures
        (match out {
            Some(n) => header_name_of(name@) == Some(n@),
            None => header_name_of(name@) is None,
        }),
{
    HeaderName::try_from(name).ok().map(|n| n.as_str().to_string())
}

/// `reqwest::header::HeaderValue::from_str`: whether the text holds no control
/// character but the tab.
#[verifier::external_body]
fn check_header_value(value: &str) -> (out: bool)
    ensures
        out == is_header_value(value@),
{
    HeaderValue::from_str(value).is_ok()
}

/// The name of the header that is configured for a credential: none where it is
/// missing or blank, or where it is no header name.
pub open spec fn configured_header(name: Option<Seq<char>>) -> Option<Seq<char>> {
    match name {
        Some(n) => if text::trimmed(n).len() == 0 {
            None
        } else {
            header_name_of(text::trimmed(n))
        },
        None => None,
    }
}

/// The text that shows a credential: none where the token is missing or blank.
pub open spec fn credential_value(token: Option<Seq<char>>, bearer: bool) -> Option<Seq<char>> {
    match token {
        Some(t) => if text::trimmed(t).len() == 0 {
            None
        } else if bearer {
            Some("Bearer "@ + text::trimmed(t))
        } else {
            Some(text::trimmed(t))
        },
        None => None,
    }
}

/// The header that shows a credential, given the name of a header and whether
/// the text can stand in one. Without a name it is `authorization`.
pub open spec fn credential_in(
    value: Option<Seq<char>>,
    header: Option<Seq<char>>,
    valid: bool,
) -> Option<(Seq<char>, Seq<char>)> {
    match value {
        Some(value) if valid => Some(
            (
                match header {
                    Some(header) => header,
                    None => "authorization"@,
                },
                value,
            ),
        ),
        _ => None,
    }
}

/// The header that shows `token` to the auth server: none where the token is
/// missing or blank, or where it cannot stand in a header.
pub open spec fn credential_of(
    token: Option<Seq<char>>,
    name: Option<Seq<char>>,
    bearer: bool,
) -> Option<(Seq<char>, Seq<char>)> {
    let value = credential_value(token, bearer);
    credential_in(
        value,
        configured_header(name),
        match value {
            Some(value) => is_header_value(value),
            None => false,
        },
    )
}

/// The characters of the text, if there is one.
pub open spec fn str_view(s: Option<&str>) -> Option<Seq<char>> {
    match s {
        Some(s) => Some(s@),
        None => None,
    }
}

/// What a header holds, if there is one.
pub open spec fn pair_view(pair: Option<(String, String)>) -> Option<(Seq<char>, Seq<char>)> {
    match pair {
        Some((a, b)) => Some((a@, b@)),
        None => None,
    }
}

/// The text that shows a credential, if there is one.
pub fn credential_text(token: Option<&str>, bearer: bool) -> (out: Option<String>)
    ensures
        text::view_of(out) == credential_value(str_view(token), bearer),
{
    let token = match token {
        Some(t) => trim(t),
        None => return None,
    };
    if token.as_str().is_empty() {
        return None;
    }
    if bearer {
        Some(joined("Bearer ", token.as_str()))
    } else {
        Some(token)
    }
}

/// The header that shows a credential, given the name of a header and whether
/// the text can stand in one.
pub fn credential_with(value: Option<String>, header: Option<String>, valid: bool) -> (out: Option<
    (String, String),
>)
    ensures
        pair_view(out) == credential_in(text::view_of(value), text::view_of(header), valid),
{
    match value {
        Some(value) => if valid {
            let header = match header {
                Some(header) => header,
                None => "authorization".to_owned(),
            };
            Some((header, value))
        } else {
            None
        },
        None => None,
    }
}

/// The header that shows `token` to the auth server.
pub fn janux_credential(token: Option<&str>, name: Option<&str>, bearer: bool) -> (out: Option<
    (String, String),
>)
    ensures
        pair_view(out) == credential_of(str_view(token), str_view(name), bearer),
{
    let value = credential_text(token, bearer);
    let valid = match &value {
        Some(value) => check_header_value(value.as_str()),
        None => false,
    };
    let header = match name {
        Some(n) => {
            let bare = trim(n);
            if bare.as_str().is_empty() {
                None
            } else {
                header_name(bare.as_str())
            }
        },
        None => None,
    };
    credential_with(value, header, valid)
}

/// How a key set is fetched from an auth server.
#[derive(Debug, Clone)]
pub struct HttpKeysFetcher {
    /// The URL of the key set, or the base URL of the server.
    pub base: String,
    /// Whether the URL of the key set is discovered first.
    pub discovery: bool,
    pub discovery_path: String,
    /// The path of the key set on the server, which makes discovery needless.
    pub jwks_path_override: Option<String>,
    /// The header that shows the credential for the server.
    pub auth_header: Option<(String, String)>,
    /// The URL of the key set as it was discovered.
    pub resolved: Option<String>,
}

/// Where the key set is.
#[derive(Debug, Clone)]
pub enum JwksLocation {
    /// At this URL.
    Known(String),
    /// To be read from the discovery document at this URL.
    Discover(String),
}

/// What a [`JwksLocation`] says.
pub enum LocationView {
    Known(Seq<char>),
    Discover(Seq<char>),
}

impl View for JwksLocation {
    type V = LocationView;

    open spec fn view(&self) -> LocationView {
        match self {
            JwksLocation::Known(url) => LocationView::Known(url@),
            JwksLocation::Discover(url) => LocationView::Discover(url@),
        }
    }
}

/// The path of the standard discovery document.
pub open spec fn standard_discovery_path() -> Seq<char> {
    "/.well-known/openid-configuration"@
}

/// The URL of the key set by the `jwks_uri` of a discovery document, which may
/// be relative to the server.
pub open spec fn discovered_url(base: Seq<char>, jwks_uri: Seq<char>) -> Seq<char> {
    if "http"@.is_prefix_of(jwks_uri) {
        jwks_uri
    } else {
        joined_url(base, jwks_uri)
    }
}

/// The URL of the key set by the value that a discovery document writes, or why
/// there is none.
pub open spec fn discovery(base: Seq<char>, document: Json) -> Result<Seq<char>, Seq<char>> {
    match document.member_view("jwks_uri"@) {
        Some(member) => match member.text_view() {
            Some(uri) => Ok(discovered_url(base, uri)),
            None => Err("discovery document missing `jwks_uri`"@),
        },
        None => Err("discovery document missing `jwks_uri`"@),
    }
}

/// The document was read as JSON, or why it was not.
pub open spec fn reads_document(document: Seq<char>, read: Result<Json, Seq<char>>) -> bool {
    match read {
        Ok(value) => json::json_error(document) is None && json::is_read(
            value,
            document,
            json::DEPTH as nat,
        ),
        Err(e) => json::json_error(document) == Some(e),
    }
}

/// What a text or an error holds.
pub open spec fn text_result(r: Result<String, String>) -> Result<Seq<char>, Seq<char>> {
    match r {
        Ok(s) => Ok(s@),
        Err(e) => Err(e@),
    }
}

/// The key set in what was fetched: an empty one is refused.
pub open spec fn fetched_set(
    parsed: Result<Seq<JwkView>, Seq<char>>,
) -> Result<Seq<JwkView>, Seq<char>> {
    match parsed {
        Ok(keys) => if keys.len() == 0 {
            Err("empty JWKS"@)
        } else {
            Ok(keys)
        },
        Err(e) => Err("jwks parse"@ + ": "@ + e),
    }
}

impl HttpKeysFetcher {
    /// Fetch the key set at `url`.
    pub fn jwks(
        url: String,
        janux_token: Option<&str>,
        janux_auth_header: Option<&str>,
        janux_bearer: bool,
    ) -> (out: HttpKeysFetcher)
        ensures
            out.base == url,
            !out.discovery,
            out.discovery_path@ == standard_discovery_path(),
            out.jwks_path_override is None,
            pair_view(out.auth_header) == credential_of(
                str_view(janux_token),
                str_view(janux_auth_header),
                janux_bearer,
            ),
            out.resolved is None,
    {
        HttpKeysFetcher {
            base: url,
            discovery: false,
            discovery_path: "/.well-known/openid-configuration".to_owned(),
            jwks_path_override: None,
            auth_header: janux_credential(janux_token, janux_auth_header, janux_bearer),
            resolved: None,
        }
    }

    /// Fetch the key set of the auth server `issuer`. Its URL is read from the
    /// discovery document, unless `jwks_path_override` gives its path.
    pub fn issuer(
        issuer: String,
        discovery_path: Option<&str>,
        jwks_path_override: Option<&str>,
        janux_token: Option<&str>,
        janux_auth_header: Option<&str>,
        janux_bearer: bool,
    ) -> (out: HttpKeysFetcher)
        ensures
            out.base == issuer,
            out.discovery == (jwks_path_override is None),
            out.discovery_path@ == (match discovery_path {
                Some(p) => p@,
                None => standard_discovery_path(),
            }),
            text::view_of(out.jwks_path_override) == str_view(jwks_path_override),
            pair_view(out.auth_header) == credential_of(
                str_view(janux_token),
                str_view(janux_auth_header),
                janux_bearer,
            ),
            out.resolved is None,
    {
        HttpKeysFetcher {
            base: issuer,
            discovery: jwks_path_override.is_none(),
            discovery_path: match discovery_path {
                Some(p) => p.to_owned(),
                None => "/.well-known/openid-configuration".to_owned(),
            },
            jwks_path_override: match jwks_path_override {
                Some(p) => Some(p.to_owned()),
                None => None,
            },
            auth_header: janux_credential(janux_token, janux_auth_header, janux_bearer),
            resolved: None,
        }
    }

    /// Where the key set is: at the path that overrides discovery, at the base
    /// itself where nothing is discovered, at the URL that was discovered
    /// before, or still to be discovered.
    pub open spec fn location(self) -> LocationView {
        match self.jwks_path_override {
            Some(path) => LocationView::Known(joined_url(self.base@, path@)),
            None => if !self.discovery {
                LocationView::Known(self.base@)
            } else {
                match self.resolved {
                    Some(url) => LocationView::Known(url@),
                    None => LocationView::Discover(
                        joined_url(self.base@, self.discovery_path@),
                    ),
                }
            },
        }
    }

    /// Where the key set is, or where to discover that.
    pub fn jwks_location(&self) -> (out: JwksLocation)
        ensures
            out@ == self.location(),
    {
        if let Some(path) = &self.jwks_path_override {
            return JwksLocation::Known(join_url(self.base.as_str(), path.as_str()));
        }
        if !self.discovery {
            return JwksLocation::Known(self.base.clone());
        }
        if let Some(url) = &self.resolved {
            return JwksLocation::Known(url.clone());
        }
        JwksLocation::Discover(join_url(self.base.as_str(), self.discovery_path.as_str()))
    }

    /// Nothing but the discovered URL differs from `before`.
    pub open spec fn same_but_resolved(self, before: HttpKeysFetcher) -> bool {
        &&& self.base == before.base
        &&& self.discovery == before.discovery
        &&& self.discovery_path == before.discovery_path
        &&& self.jwks_path_override == before.jwks_path_override
        &&& self.auth_header == before.auth_header
    }

    /// The URL of the key set by the value that a discovery document writes. It
    /// is kept, so that discovery succeeds once at most.
    pub fn discovered_in(&mut self, document: &Json) -> (out: Result<String, String>)
        ensures
            text_result(out) == discovery(old(self).base@, *document),
            (match out {
                Ok(url) => text::view_of(final(self).resolved) == Some(url@),
                Err(_) => final(self).resolved == old(self).resolved,
            }),
            final(self).same_but_resolved(*old(self)),
    {
        let uri = match document.member("jwks_uri") {
            Some(member) => match member.text() {
                Some(uri) => uri,
                None => return Err("discovery document missing `jwks_uri`".to_owned()),
            },
            None => return Err("discovery document missing `jwks_uri`".to_owned()),
        };
        let url = if starts_with(uri.as_str(), "http") {
            uri
        } else {
            join_url(self.base.as_str(), uri.as_str())
        };
        self.resolved = Some(url.clone());
        Ok(url)
    }

    /// The URL of the key set by the text of the discovery document; see
    /// [`HttpKeysFetcher::discovered_in`].
    pub fn discovered(&mut self, document: &str) -> (out: Result<String, String>)
        ensures
            exists|read: Result<Json, Seq<char>>| #[trigger]
                reads_document(document@, read) && text_result(out) == (match read {
                    Ok(value) => discovery(old(self).base@, value),
                    Err(e) => Err("discovery parse"@ + ": "@ + e),
                }),
            (match out {
                Ok(url) => text::view_of(final(self).resolved) == Some(url@),
                Err(_) => final(self).resolved == old(self).resolved,
            }),
            final(self).same_but_resolved(*old(self)),
    {
        match read_json(document) {
            Ok(value) => {
                assert(reads_document(document@, Ok(value)));
                self.discovered_in(&value)
            },
            Err(e) => {
                assert(reads_document(document@, Err(e@)));
                Err(err("discovery parse", e.as_str()))
            },
        }
    }
}

/// The keys of a set that was read, or why it is refused.
pub fn accept_set(parsed: Result<Vec<Jwk>, String>) -> (out: Result<Vec<Jwk>, String>)
    ensures
        set_view(out) == fetched_set(set_view(parsed)),
{
    match parsed {
        Ok(keys) => {
            assert(jwk_views(keys@).len() == keys@.len());
            if keys.len() == 0 {
                Err("empty JWKS".to_owned())
            } else {
                Ok(keys)
            }
        },
        Err(e) => Err(err("jwks parse", e.as_str())),
    }
}

/// The key set in the text that was fetched.
pub fn read_jwks(body: &str) -> (out: Result<Vec<Jwk>, String>)
    ensures
        set_view(out) == fetched_set(jwk_set_of(body@)),
{
    accept_set(parse_jwk_set(body))
}

// ---------------------------------------------------------------------------
// Laws
// ---------------------------------------------------------------------------

/// A token without a key id gets no key from a set with several keys that have
/// none either.
pub proof fn law_no_guessing(keys: Seq<JwkView>, a: int, b: int)
    requires
        0 <= a < b < keys.len(),
        keys[a].kid is None,
        keys[b].kid is None,
    ensures
        picked(keys, None) is None,
{
    assert forall|i: int| !(chosen(keys, None, i) && can_verify(keys[i].json)) by {
        if i == a {
            assert(keys[b].kid is None);
        } else {
            assert(keys[a].kid is None);
        }
    }
}

/// A token with a key id gets only a key with that id.
pub proof fn law_key_has_the_id(keys: Seq<JwkView>, kid: Seq<char>, key: KeyView)
    requires
        picked(keys, Some(kid)) == Some(key),
    ensures
        exists|i: int|
            0 <= i < keys.len() && (#[trigger] keys[i]).kid == Some(kid) && key == KeyView::Jwk(
                keys[i].json,
            ),
{
    let i = choose|i: int| chosen(keys, Some(kid), i) && can_verify(keys[i].json);
    assert(keys[i].kid == Some(kid));
}

/// A set of the configuration is never fetched.
pub proof fn law_static_set_is_never_fetched(set: KeySet, kid: Option<Seq<char>>, now: u64)
    requires
        set.fetcher is None,
    ensures
        set.resolution(kid, now) !is Fetch,
{
}

/// A key that is kept and can be used serves without a fetch, however old.
pub proof fn law_kept_key_needs_no_fetch(
    set: KeySet,
    kid: Option<Seq<char>>,
    now: u64,
    keys: Seq<JwkView>,
    key: KeyView,
)
    requires
        set.kept() == Some(keys),
        picked(keys, kid) == Some(key),
    ensures
        set.resolution(kid, now) == ResolutionView::Key(key),
{
}

/// A fetch that fails loses nothing: what was kept still serves.
pub proof fn law_failed_fetch_keeps_the_set(set: KeySet, e: Seq<char>)
    ensures
        set.after_fetch(Err(e)) == set.kept(),
{
}

/// A URL needs no base.
pub proof fn law_absolute_url_stands(base: Seq<char>, path: Seq<char>)
    requires
        "https://"@.is_prefix_of(path) || "http://"@.is_prefix_of(path),
    ensures
        joined_url(base, path) == path,
{
}

/// The slashes between a base and a path become one; those at the end of the
/// base go where the path has nothing else.
pub proof fn law_urls_are_joined_by_one_slash(
    base: Seq<char>,
    behind: Seq<char>,
    front: Seq<char>,
    rest: Seq<char>,
)
    requires
        forall|i: int| 0 <= i < behind.len() ==> #[trigger] behind[i] == '/',
        forall|i: int| 0 <= i < front.len() ==> #[trigger] front[i] == '/',
        base.len() > 0 ==> base.last() != '/',
        rest.len() > 0 ==> rest[0] != '/',
        !"http://"@.is_prefix_of(front + rest),
        !"https://"@.is_prefix_of(front + rest),
    ensures
        joined_url(base + behind, front + rest) == (if rest.len() == 0 {
            base
        } else {
            base + "/"@ + rest
        }),
{
    let slash = seq!['/'];
    assert(slash[0] == '/');
    assert(text::made_of(behind, slash));
    assert(text::made_of(front, slash));
    text::law_trailing_characters_are_dropped(base, behind, slash);
    text::law_leading_characters_are_dropped(front, rest, slash);
}

/// The header for a credential is the configured one in small letters, without
/// the white space around its name. A blank name, or one with a character that
/// no header name has, is as good as none.
pub proof fn law_configured_header_is_used(front: Seq<char>, name: Seq<char>, back: Seq<char>)
    requires
        text::is_blank(front),
        text::is_blank(back),
        text::is_bare(name),
        name.len() <= 65_535,
    ensures
        configured_header(Some(front + name + back)) == (if name.len() > 0 && forall|i: int|
            0 <= i < name.len() ==> is_header_char(#[trigger] name[i]) {
            Some(text::ascii_lower(name))
        } else {
            None
        }),
        configured_header(None) is None,
{
    text::law_trimming_leaves_the_inside(front, name, back);
}

/// A credential is shown as the token without the white space around it, after
/// the word `Bearer` where it is a bearer token, in the configured header or
/// else in `authorization`. A blank token is none, and one that cannot stand in
/// a header is not shown.
pub proof fn law_credentials_are_shown(
    front: Seq<char>,
    token: Seq<char>,
    back: Seq<char>,
    name: Option<Seq<char>>,
)
    requires
        text::is_blank(front),
        text::is_blank(back),
        text::is_bare(token),
    ensures
        ({
            let given = Some(front + token + back);
            let header = match configured_header(name) {
                Some(header) => header,
                None => "authorization"@,
            };
            &&& token.len() > 0 && is_header_value("Bearer "@ + token) ==> credential_of(
                given,
                name,
                true,
            ) == Some((header, "Bearer "@ + token))
            &&& token.len() > 0 && is_header_value(token) ==> credential_of(given, name, false)
                == Some((header, token))
            &&& !is_header_value("Bearer "@ + token) ==> credential_of(given, name, true) is None
            &&& !is_header_value(token) ==> credential_of(given, name, false) is None
            &&& token.len() == 0 ==> credential_of(given, name, true) is None && credential_of(
                given,
                name,
                false,
            ) is None
        }),
        credential_of(None, name, true) is None,
        credential_of(None, name, false) is None,
{
    text::law_trimming_leaves_the_inside(front, token, back);
}

/// A discovery document names the key set by its member `jwks_uri`: a text that
/// begins with `http` is the URL itself, any other is joined to the base. A
/// document without such a text names none.
pub proof fn law_discovery_reads_the_uri(base: Seq<char>, document: Json)
    ensures
        (match document.member_view("jwks_uri"@) {
            Some(Json::Text(uri)) => discovery(base, document) == Ok::<Seq<char>, Seq<char>>(
                if uri@.len() >= 4 && uri@[0] == 'h' && uri@[1] == 't' && uri@[2] == 't' && uri@[3]
                    == 'p' {
                    uri@
                } else {
                    joined_url(base, uri@)
                },
            ),
            _ => discovery(base, document) == Err::<Seq<char>, Seq<char>>(
                "discovery document missing `jwks_uri`"@,
            ),
        }),
{
    reveal_strlit("http");
    if let Some(Json::Text(uri)) = document.member_view("jwks_uri"@) {
        let http = "http"@;
        assert(http.len() == 4 && http[0] == 'h' && http[1] == 't' && http[2] == 't' && http[3]
            == 'p');
        if uri@.len() >= 4 && uri@[0] == 'h' && uri@[1] == 't' && uri@[2] == 't' && uri@[3] == 'p' {
            assert(uri@.subrange(0, 4) == http);
            assert(http.is_prefix_of(uri@));
        } else if http.is_prefix_of(uri@) {
            let head = uri@.subrange(0, 4);
            assert(head[0] == uri@[0] && head[1] == uri@[1] && head[2] == uri@[2] && head[3]
                == uri@[3]);
        }
    }
}

/// A set is stale from the moment on at which it is as old as it may get, and as
/// long as there is none.
pub proof fn law_sets_get_stale(set: KeySet, now: u64)
    ensures
        set.cache is None ==> set.is_stale(now),
        set.cache matches Some(c) ==> (set.is_stale(now) <==> set.ttl.secs == 0 || now
            >= c.fetched_at + set.ttl.secs * 1_000_000_000),
{
}

/// A key that is kept is used. Where there is none for the token, the set is
/// fetched if that is possible and the set is stale; otherwise the key is
/// unknown, or there is no set to look in.
pub proof fn law_resolution_follows_what_is_kept(set: KeySet, kid: Option<Seq<char>>, now: u64)
    ensures
        (match set.cache {
            Some(c) => match picked(jwk_views(c.keys@), kid) {
                Some(key) => set.resolution(kid, now) == ResolutionView::Key(key)
                    && set.from_kept(kid) == ResolutionView::Key(key),
                None => {
                    &&& set.from_kept(kid) == ResolutionView::UnknownKid
                    &&& set.resolution(kid, now) == (if set.fetcher is Some && set.is_stale(now) {
                        ResolutionView::Fetch
                    } else {
                        ResolutionView::UnknownKid
                    })
                },
            },
            None => {
                &&& set.from_kept(kid) == ResolutionView::SourceUnavailable
                &&& set.resolution(kid, now) == (if set.fetcher is Some {
                    ResolutionView::Fetch
                } else {
                    ResolutionView::SourceUnavailable
                })
            },
        }),
{
}

/// A fetch that succeeds replaces the set by what was fetched.
pub proof fn law_fetched_keys_are_kept(set: KeySet, keys: Seq<JwkView>)
    ensures
        set.after_fetch(Ok(keys)) == Some(keys),
{
}

/// The key for a token with an id is the first one with that id, whatever other
/// keys there are, as long as it can be used.
pub proof fn law_first_key_with_the_id_is_used(
    before: Seq<JwkView>,
    key: JwkView,
    after: Seq<JwkView>,
    kid: Seq<char>,
)
    requires
        key.kid == Some(kid),
        forall|i: int| 0 <= i < before.len() ==> (#[trigger] before[i]).kid != Some(kid),
    ensures
        picked(before + seq![key] + after, Some(kid)) == (if can_verify(key.json) {
            Some(KeyView::Jwk(key.json))
        } else {
            None
        }),
        picked(before, Some(kid)) is None,
{
    let keys = before + seq![key] + after;
    let n = before.len() as int;
    assert(keys[n] == key);
    assert forall|k: int| 0 <= k < n implies (#[trigger] keys[k]).kid != Some(kid) by {
        assert(keys[k] == before[k]);
    }
    assert(chosen(keys, Some(kid), n));
    assert forall|i: int| chosen(keys, Some(kid), i) implies i == n by {
        lemma_chosen_is_unique(keys, Some(kid), i, n);
    }
    if can_verify(key.json) {
        assert(chosen(keys, Some(kid), n) && can_verify(keys[n].json));
    }
}

/// The key for a token without an id is the only key without one, as long as it
/// can be used.
pub proof fn law_only_key_without_an_id_is_used(
    before: Seq<JwkView>,
    key: JwkView,
    after: Seq<JwkView>,
)
    requires
        key.kid is None,
        forall|i: int| 0 <= i < before.len() ==> (#[trigger] before[i]).kid is Some,
        forall|i: int| 0 <= i < after.len() ==> (#[trigger] after[i]).kid is Some,
    ensures
        picked(before + seq![key] + after, None) == (if can_verify(key.json) {
            Some(KeyView::Jwk(key.json))
        } else {
            None
        }),
        picked(before, None) is None,
{
    let keys = before + seq![key] + after;
    let n = before.len() as int;
    assert(keys[n] == key);
    assert forall|k: int| 0 <= k < keys.len() && k != n implies (#[trigger] keys[k]).kid is Some by {
        if k < n {
            assert(keys[k] == before[k]);
        } else {
            assert(keys[k] == after[k - n - 1]);
        }
    }
    assert(chosen(keys, None, n));
    assert forall|i: int| chosen(keys, None, i) implies i == n by {
        lemma_chosen_is_unique(keys, None, i, n);
    }
    if can_verify(key.json) {
        assert(chosen(keys, None, n) && can_verify(keys[n].json));
    }
}

/// A key can be used where `jsonwebtoken` takes it, unless its coordinate `x`
/// has fewer than 43 characters.
pub proof fn law_short_coordinates_are_refused(json: Seq<char>, x: Seq<char>)
    requires
        json::json_text(json, "x"@) == Some(x),
    ensures
        can_verify(json) <==> is_usable_jwk(json) && x.len() >= 43,
{
}

/// A fetched set is taken as it is, but for an empty one and for one that could
/// not be read.
pub proof fn law_empty_sets_are_refused(keys: Seq<JwkView>, e: Seq<char>)
    ensures
        keys.len() > 0 ==> fetched_set(Ok(keys)) == Ok::<Seq<JwkView>, Seq<char>>(keys),
        keys.len() == 0 ==> fetched_set(Ok(keys)) == Err::<Seq<JwkView>, Seq<char>>("empty JWKS"@),
        fetched_set(Err(e)) == Err::<Seq<JwkView>, Seq<char>>("jwks parse: "@ + e),
{
    reveal_strlit("jwks parse");
    reveal_strlit(": ");
    reveal_strlit("jwks parse: ");
    assert("jwks parse"@ + ": "@ == "jwks parse: "@);
}

/// The key set is at the path that overrides discovery, else at the base where
/// nothing is discovered, else where it was discovered; only before that it has
/// to be discovered, at the base and the discovery path.
pub proof fn law_key_sets_are_located(fetcher: HttpKeysFetcher)
    ensures
        fetcher.jwks_path_override matches Some(path) ==> fetcher.location() == LocationView::Known(
            joined_url(fetcher.base@, path@),
        ),
        fetcher.jwks_path_override is None && !fetcher.discovery ==> fetcher.location()
            == LocationView::Known(fetcher.base@),
        fetcher.jwks_path_override is None && fetcher.discovery ==> (match fetcher.resolved {
            Some(url) => fetcher.location() == LocationView::Known(url@),
            None => fetcher.location() == LocationView::Discover(
                joined_url(fetcher.base@, fetcher.discovery_path@),
            ),
        }),
{
}

/// A document is read exactly where it is JSON; otherwise the error is told.
pub proof fn law_documents_have_to_be_json(document: Seq<char>, read: Result<Json, Seq<char>>)
    requires
        reads_document(document, read),
    ensures
        read is Ok <==> json::json_error(document) is None,
        read matches Err(e) ==> json::json_error(document) == Some(e),
{
}

/// What is discovered changes where the key set is, and nothing else of how it
/// is fetched.
pub proof fn law_discovery_changes_the_url_alone(
    before: HttpKeysFetcher,
    after: HttpKeysFetcher,
)
    requires
        after.same_but_resolved(before),
    ensures
        after.base == before.base,
        after.discovery == before.discovery,
        after.discovery_path == before.discovery_path,
        after.jwks_path_override == before.jwks_path_override,
        after.auth_header == before.auth_header,
{
}

} // verus!
