//! Configuration of the service.
use vstd::prelude::*;
use crate::db::RecordDTO;
use crate::services::BootMode;
use crate::text;
use crate::text::{joined, number_text, same_text, to_ascii_lower, trim};

verus! {

/// A mailbox of the configuration: a bare address, or an address with the
/// address that its mail is forwarded to.
#[derive(Debug, Clone)]
pub enum MailboxEntry {
    Simple(String),
    Detailed { id: String, forward_to: Option<String> },
}

impl MailboxEntry {
    /// The address, as characters.
    pub open spec fn address_view(self) -> Seq<char> {
        match self {
            MailboxEntry::Simple(s) => s@,
            MailboxEntry::Detailed { id, .. } => id@,
        }
    }

    /// Where mail is forwarded, as characters.
    pub open spec fn forward_view(self) -> Option<Seq<char>> {
        match self {
            MailboxEntry::Simple(_) => None,
            MailboxEntry::Detailed { forward_to, .. } => text::view_of(forward_to),
        }
    }

    /// The address of this entry.
    pub fn address(&self) -> (out: &str)
        ensures
            out@ == self.address_view(),
    {
        match self {
            MailboxEntry::Simple(s) => s.as_str(),
            MailboxEntry::Detailed { id, .. } => id.as_str(),
        }
    }

    /// Where mail for this entry is forwarded, if it is.
    pub fn forward_to(&self) -> (out: Option<&str>)
        ensures
            (match out {
                Some(to) => self.forward_view() == Some(to@),
                None => self.forward_view() is None,
            }),
    {
        match self {
            MailboxEntry::Simple(_) => None,
            MailboxEntry::Detailed { forward_to, .. } => match forward_to {
                Some(to) => Some(to.as_str()),
                None => None,
            },
        }
    }
}

/// The configuration as a whole.
#[derive(Debug, Clone)]
pub struct Config {
    pub host: String,
    pub dns: u16,
    pub smtp: u16,
    pub api: u16,
    pub database_url: String,
    pub domains: Vec<String>,
    pub records: Vec<RecordDTO>,
    pub mailboxes: Vec<MailboxEntry>,
    /// Which listeners to start; the default mode where it is not said.
    pub mode: Option<BootMode>,
    pub auth: AuthConfig,
}

impl Default for Config {
    fn default() -> (out: Config)
        ensures
            out.host@ == "0.0.0.0"@,
            out.dns == 53,
            out.smtp == 25,
            out.api == 8081,
            out.database_url@ == "turso:zonemail.db"@,
            out.domains@.len() == 0,
            out.records@.len() == 0,
            out.mailboxes@.len() == 0,
            out.mode is None,
            out.auth.is_default(),
    {
        Config {
            host: "0.0.0.0".to_owned(),
            dns: 53,
            smtp: 25,
            api: 8081,
            database_url: "turso:zonemail.db".to_owned(),
            domains: Vec::new(),
            records: Vec::new(),
            mailboxes: Vec::new(),
            mode: None,
            auth: AuthConfig::default(),
        }
    }
}

/// A host and a port as one address.
pub open spec fn host_port(host: Seq<char>, port: u16) -> Seq<char> {
    host + ":"@ + text::digits_of(port as nat)
}

/// What is wrong with a text as a socket address, by the standard library;
/// nothing where it is one.
pub uninterp spec fn socket_addr_error(text: Seq<char>) -> Option<Seq<char>>;

/// The outcome for a host and a port whose address has that error, or none.
pub open spec fn listen_addr(host: Seq<char>, port: u16, error: Option<Seq<char>>) -> Result<
    Seq<char>,
    Seq<char>,
> {
    match error {
        Some(e) => Err(e),
        None => Ok(host_port(host, port)),
    }
}

/// The characters of an address, or of the error in its place.
pub open spec fn addr_view(addr: Result<String, String>) -> Result<Seq<char>, Seq<char>> {
    match addr {
        Ok(a) => Ok(a@),
        Err(e) => Err(e@),
    }
}

/// `str::parse` of a `core::net::SocketAddr`, with the text of its error.
#[verifier::external_body]
fn check_socket_addr(text: &str) -> (out: Result<(), String>)
    ensures
        (match out {
            Ok(_) => socket_addr_error(text@) is None,
            Err(e) => socket_addr_error(text@) == Some(e@),
        }),
{
    match text.parse::<core::net::SocketAddr>() {
        Ok(_) => Ok(()),
        Err(e) => Err(e.to_string()),
    }
}

fn address_of(host: &str, port: u16) -> (out: String)
    ensures
        out@ == host_port(host@, port),
{
    let head = joined(host, ":");
    joined(head.as_str(), number_text(port as u64).as_str())
}

/// The address of a host and a port, where `checked` says whether it is one.
pub fn addr_with(host: &str, port: u16, checked: Result<(), String>) -> (out: Result<
    String,
    String,
>)
    ensures
        addr_view(out) == listen_addr(
            host@,
            port,
            (match checked {
                Ok(_) => None,
                Err(e) => Some(e@),
            }),
        ),
{
    match checked {
        Ok(_) => Ok(address_of(host, port)),
        Err(e) => Err(e),
    }
}

fn checked_addr(host: &str, port: u16) -> (out: Result<String, String>)
    ensures
        addr_view(out) == listen_addr(host@, port, socket_addr_error(host_port(host@, port))),
{
    let checked = check_socket_addr(address_of(host, port).as_str());
    addr_with(host, port, checked)
}

impl Config {
    /// Where the API listens; an error where the host is no IP address.
    pub fn api_addr(&self) -> (out: Result<String, String>)
        ensures
            addr_view(out) == listen_addr(
                self.host@,
                self.api,
                socket_addr_error(host_port(self.host@, self.api)),
            ),
    {
        checked_addr(self.host.as_str(), self.api)
    }

    /// Where the SMTP listener listens; an error where the host is no IP
    /// address.
    pub fn smtp_addr(&self) -> (out: Result<String, String>)
        ensures
            addr_view(out) == listen_addr(
                self.host@,
                self.smtp,
                socket_addr_error(host_port(self.host@, self.smtp)),
            ),
    {
        checked_addr(self.host.as_str(), self.smtp)
    }

    /// Where the DNS listener listens; an error where the host is no IP address.
    pub fn dns_addr(&self) -> (out: Result<String, String>)
        ensures
            addr_view(out) == listen_addr(
                self.host@,
                self.dns,
                socket_addr_error(host_port(self.host@, self.dns)),
            ),
    {
        checked_addr(self.host.as_str(), self.dns)
    }

    /// The mode to start with: the configured one, else all listeners.
    pub fn resolved_mode(&self) -> (out: BootMode)
        ensures
            out == (match self.mode {
                Some(mode) => mode,
                None => BootMode::Full,
            }),
    {
        match self.mode {
            Some(mode) => mode,
            None => BootMode::Full,
        }
    }
}

// ---------------------------------------------------------------------------
// Authentication and authorization
// ---------------------------------------------------------------------------

/// How requests to the API are authenticated and authorized.
#[derive(Debug, Clone)]
pub struct AuthConfig {
    /// Whether requests are checked at all.
    pub enabled: bool,
    /// The issuer that tokens have to name, if one is set.
    pub issuer: Option<String>,
    /// The audiences of which tokens have to name one, if there are any.
    pub audience: Vec<String>,
    /// The seconds by which clocks may differ.
    pub clock_skew_secs: u64,
    /// The claim that names the caller.
    pub subject_claim: String,
    /// The claims that name the roles of the caller.
    pub role_claims: Vec<String>,
    /// The resources that stay open.
    pub public: Vec<String>,
    /// Where the keys come from.
    pub keys: KeyConfig,
    /// The roles and their permissions.
    pub roles: Vec<(String, RoleConfig)>,
}

impl AuthConfig {
    /// The configuration is the one without any settings.
    pub open spec fn is_default(self) -> bool {
        &&& !self.enabled
        &&& self.issuer is None
        &&& self.audience@.len() == 0
        &&& self.clock_skew_secs == 30
        &&& self.subject_claim@ == "sub"@
        &&& text::views(self.role_claims@) == seq!["role"@]
        &&& text::views(self.public@) == seq!["health"@, "doc"@]
        &&& self.keys.is_default()
        &&& self.roles@.len() == 0
    }

    /// The resources that stay open by default.
    pub fn default_public() -> (out: Vec<String>)
        ensures
            text::views(out@) == seq!["health"@, "doc"@],
    {
        let mut out: Vec<String> = Vec::new();
        out.push("health".to_owned());
        out.push("doc".to_owned());
        assert(text::views(out@) == seq!["health"@, "doc"@]);
        out
    }
}

impl Default for AuthConfig {
    fn default() -> (out: AuthConfig)
        ensures
            out.is_default(),
    {
        let mut role_claims: Vec<String> = Vec::new();
        role_claims.push("role".to_owned());
        assert(text::views(role_claims@) == seq!["role"@]);
        AuthConfig {
            enabled: false,
            issuer: None,
            audience: Vec::new(),
            clock_skew_secs: 30,
            subject_claim: "sub".to_owned(),
            role_claims,
            public: AuthConfig::default_public(),
            keys: KeyConfig::default(),
            roles: Vec::new(),
        }
    }
}

/// The grants of one role and the roles whose grants it inherits.
#[derive(Debug, Clone)]
pub struct RoleConfig {
    pub grants: Vec<String>,
    pub extends: Vec<String>,
}

impl Default for RoleConfig {
    fn default() -> (out: RoleConfig)
        ensures
            out.grants@.len() == 0,
            out.extends@.len() == 0,
    {
        RoleConfig { grants: Vec::new(), extends: Vec::new() }
    }
}

/// Where the keys that tokens are verified with come from.
#[derive(Debug, Clone)]
pub struct KeyConfig {
    /// The source; exactly one applies.
    pub kind: KeysKind,
    /// A literal HMAC secret.
    pub secret: Option<String>,
    /// An HMAC secret in Base64.
    pub secret_b64: Option<String>,
    /// The name of the environment variable that holds the HMAC secret.
    pub secret_env: Option<String>,
    /// A key set written out as JSON.
    pub jwks: Option<String>,
    /// The URL of a key set.
    pub jwks_url: Option<String>,
    /// The base URL of an auth server whose key set is discovered.
    pub issuer: Option<String>,
    /// The path of the discovery document.
    pub discovery_path: Option<String>,
    /// The path of the key set, which makes discovery needless.
    pub jwks_path: Option<String>,
    /// The credential that is shown to the auth server.
    pub janux_token: Option<String>,
    /// The header in which the credential is shown.
    pub janux_auth_header: Option<String>,
    /// Whether the credential is a bearer token.
    pub janux_bearer: bool,
    /// How often a remote key set is fetched again, in seconds.
    pub refresh_interval_secs: u64,
    /// How long a fetched key set is fresh, in seconds.
    pub cache_ttl_secs: u64,
    /// Whether requests are denied while no key set is at hand.
    pub fail_closed: bool,
    /// The allowed signature algorithms; those of the source where it is empty.
    pub algorithms: Vec<String>,
}

/// The names of the algorithms that a source allows by default.
pub open spec fn default_algorithm_names(kind: KeysKind) -> Seq<Seq<char>> {
    match kind {
        KeysKind::Secret => seq!["HS256"@],
        _ => seq!["RS256"@, "ES256"@],
    }
}

impl KeyConfig {
    /// The configuration is the one without any settings.
    pub open spec fn is_default(self) -> bool {
        &&& self.kind == KeysKind::Secret
        &&& self.secret is None
        &&& self.secret_b64 is None
        &&& self.secret_env is None
        &&& self.jwks is None
        &&& self.jwks_url is None
        &&& self.issuer is None
        &&& self.discovery_path is None
        &&& self.jwks_path is None
        &&& self.janux_token is None
        &&& self.janux_auth_header is None
        &&& self.janux_bearer
        &&& self.refresh_interval_secs == 300
        &&& self.cache_ttl_secs == 300
        &&& self.fail_closed
        &&& self.algorithms@.len() == 0
    }

    /// The algorithms that the source allows by default.
    pub fn default_algorithms(&self) -> (out: Vec<String>)
        ensures
            text::views(out@) == default_algorithm_names(self.kind),
    {
        let mut out: Vec<String> = Vec::new();
        match self.kind {
            KeysKind::Secret => {
                out.push("HS256".to_owned());
                assert(text::views(out@) == seq!["HS256"@]);
            },
            _ => {
                out.push("RS256".to_owned());
                out.push("ES256".to_owned());
                assert(text::views(out@) == seq!["RS256"@, "ES256"@]);
            },
        }
        out
    }
}

/// Whether the credential for the auth server is a bearer token by default.
pub const DEFAULT_JANUX_BEARER: bool = true;

/// How long a fetched key set is fresh by default.
pub const DEFAULT_CACHE_TTL_SECS: u64 = 300;

/// How often a remote key set is fetched again by default.
pub const DEFAULT_REFRESH_INTERVAL_SECS: u64 = 300;

/// Whether requests are denied without a key set by default.
pub const DEFAULT_FAIL_CLOSED: bool = true;

/// The default of `janux_bearer`.
pub fn default_janux_bearer() -> (out: bool)
    ensures
        out == true,
{
    DEFAULT_JANUX_BEARER
}

/// The default of `cache_ttl_secs`.
pub fn default_cache_ttl_secs() -> (out: u64)
    ensures
        out == 300,
{
    DEFAULT_CACHE_TTL_SECS
}

/// The default of `refresh_interval_secs`.
pub fn default_refresh_interval_secs() -> (out: u64)
    ensures
        out == 300,
{
    DEFAULT_REFRESH_INTERVAL_SECS
}

/// The default of `fail_closed`.
pub fn default_fail_closed() -> (out: bool)
    ensures
        out == true,
{
    DEFAULT_FAIL_CLOSED
}

impl Default for KeyConfig {
    fn default() -> (out: KeyConfig)
        ensures
            out.is_default(),
    {
        KeyConfig {
            kind: KeysKind::Secret,
            secret: None,
            secret_b64: None,
            secret_env: None,
            jwks: None,
            jwks_url: None,
            issuer: None,
            discovery_path: None,
            jwks_path: None,
            janux_token: None,
            janux_auth_header: None,
            janux_bearer: DEFAULT_JANUX_BEARER,
            refresh_interval_secs: DEFAULT_REFRESH_INTERVAL_SECS,
            cache_ttl_secs: DEFAULT_CACHE_TTL_SECS,
            fail_closed: DEFAULT_FAIL_CLOSED,
            algorithms: Vec::new(),
        }
    }
}

/// Which source of keys is used.
#[derive(Debug, Clone, Copy, PartialEq, Eq, Structural)]
pub enum KeysKind {
    /// One symmetric secret.
    Secret,
    /// A key set in the configuration.
    Jwks,
    /// A key set that is fetched from a URL.
    JwksRemote,
    /// A key set that is discovered at an auth server.
    Issuer,
}

impl Default for KeysKind {
    fn default() -> (out: KeysKind)
        ensures
            out == KeysKind::Secret,
    {
        KeysKind::Secret
    }
}

/// The source that a word of the configuration stands for.
pub open spec fn keys_kind_of(s: Seq<char>) -> Option<KeysKind> {
    let word = text::ascii_lower(text::trimmed(s));
    if word == "secret"@ {
        Some(KeysKind::Secret)
    } else if word == "jwks"@ {
        Some(KeysKind::Jwks)
    } else if word == "jwks_remote"@ || word == "remote"@ {
        Some(KeysKind::JwksRemote)
    } else if word == "issuer"@ || word == "oidc"@ {
        Some(KeysKind::Issuer)
    } else {
        None
    }
}

impl KeysKind {
    /// Read the source that a word of the configuration stands for.
    pub fn parse(s: &str) -> (out: Result<KeysKind, String>)
        ensures
            (match out {
                Ok(kind) => keys_kind_of(s@) == Some(kind),
                Err(e) => keys_kind_of(s@) is None && e@ == "unknown auth keys.kind '"@
                    + text::ascii_lower(text::trimmed(s@))
                    + "'; expected one of secret|jwks|jwks_remote|issuer"@,
            }),
    {
        let clean = trim(s);
        let lowered = to_ascii_lower(clean.as_str());
        let word = lowered.as_str();
        if same_text(word, "secret") {
            Ok(KeysKind::Secret)
        } else if same_text(word, "jwks") {
            Ok(KeysKind::Jwks)
        } else if same_text(word, "jwks_remote") || same_text(word, "remote") {
            Ok(KeysKind::JwksRemote)
        } else if same_text(word, "issuer") || same_text(word, "oidc") {
            Ok(KeysKind::Issuer)
        } else {
            let head = joined("unknown auth keys.kind '", word);
            Err(joined(head.as_str(), "'; expected one of secret|jwks|jwks_remote|issuer"))
        }
    }
}

impl std::str::FromStr for KeysKind {
    type Err = String;

    /// Read the source that a word of the configuration stands for.
    fn from_str(s: &str) -> (out: Result<KeysKind, String>)
        ensures
            (match out {
                Ok(kind) => keys_kind_of(s@) == Some(kind),
                Err(e) => keys_kind_of(s@) is None && e@ == "unknown auth keys.kind '"@
                    + text::ascii_lower(text::trimmed(s@))
                    + "'; expected one of secret|jwks|jwks_remote|issuer"@,
            }),
    {
        KeysKind::parse(s)
    }
}

// ---------------------------------------------------------------------------
// Laws
// ---------------------------------------------------------------------------

/// An address is the host, a colon and the port in decimal; where it is no
/// socket address, its error comes in its place.
pub proof fn law_addresses_name_host_and_port(host: Seq<char>, port: u16, e: Seq<char>)
    ensures
        listen_addr(host, port, None) matches Ok(addr) && addr == host + ":"@ + text::digits_of(
            port as nat,
        ) && text::decimal(addr.skip(host.len() as int + 1)) == port,
        listen_addr(host, port, Some(e)) == Err::<Seq<char>, Seq<char>>(e),
{
    reveal_strlit(":");
    assert(":"@.len() == 1);
    let digits = text::digits_of(port as nat);
    assert((host + ":"@ + digits).skip(host.len() as int + 1) == digits);
    text::law_digits_write_the_number(port as nat);
}

/// A bare address is the address of its entry and forwards nowhere; an entry
/// with more to say has the address and the forwarding that it names.
pub proof fn law_entries_say_what_they_hold(address: String, forward_to: Option<String>)
    ensures
        MailboxEntry::Simple(address).address_view() == address@,
        MailboxEntry::Simple(address).forward_view() is None,
        (MailboxEntry::Detailed { id: address, forward_to }).address_view() == address@,
        (MailboxEntry::Detailed { id: address, forward_to }).forward_view() == text::view_of(
            forward_to,
        ),
{
}

/// A source of keys goes by one of its names, in whatever letter case and with
/// whatever white space around it; nothing else names one.
pub proof fn law_key_sources_are_read_by_name(front: Seq<char>, word: Seq<char>, back: Seq<char>)
    requires
        text::is_blank(front),
        text::is_blank(back),
        text::is_bare(word),
    ensures
        ({
            let kind = keys_kind_of(front + word + back);
            let name = text::ascii_lower(word);
            &&& kind == Some(KeysKind::Secret) <==> name == "secret"@
            &&& kind == Some(KeysKind::Jwks) <==> name == "jwks"@
            &&& kind == Some(KeysKind::JwksRemote) <==> name == "jwks_remote"@ || name == "remote"@
            &&& kind == Some(KeysKind::Issuer) <==> name == "issuer"@ || name == "oidc"@
        }),
{
    text::law_trimming_leaves_the_inside(front, word, back);
    reveal_strlit("secret");
    reveal_strlit("jwks");
    reveal_strlit("jwks_remote");
    reveal_strlit("remote");
    reveal_strlit("issuer");
    reveal_strlit("oidc");
    assert("secret"@.len() == 6 && "secret"@[0] == 's');
    assert("jwks"@.len() == 4 && "jwks"@[0] == 'j');
    assert("jwks_remote"@.len() == 11);
    assert("remote"@.len() == 6 && "remote"@[0] == 'r');
    assert("issuer"@.len() == 6 && "issuer"@[0] == 'i');
    assert("oidc"@.len() == 4 && "oidc"@[0] == 'o');
}

/// A secret signs with `HS256` where nothing else is said, and every other
/// source with `RS256` or `ES256`.
pub proof fn law_default_algorithms_fit_the_source(kind: KeysKind)
    ensures
        kind == KeysKind::Secret ==> default_algorithm_names(kind) == seq!["HS256"@],
        kind != KeysKind::Secret ==> default_algorithm_names(kind) == seq!["RS256"@, "ES256"@],
{
}

/// Without any settings nothing is checked, tokens are held against no issuer
/// and no audience, clocks may differ by half a minute, the caller and the role
/// stand in `sub` and `role`, the health probe and the documentation are open,
/// and there are no roles.
pub proof fn law_defaults_of_authorization(cfg: AuthConfig)
    requires
        cfg.is_default(),
    ensures
        !cfg.enabled,
        cfg.issuer is None,
        cfg.audience@.len() == 0,
        cfg.clock_skew_secs == 30,
        cfg.subject_claim@ == "sub"@,
        cfg.role_claims@.len() == 1 && cfg.role_claims@[0]@ == "role"@,
        cfg.public@.len() == 2 && cfg.public@[0]@ == "health"@ && cfg.public@[1]@ == "doc"@,
        cfg.roles@.len() == 0,
        cfg.keys.is_default(),
{
    let claims = text::views(cfg.role_claims@);
    assert(claims.len() == cfg.role_claims@.len());
    assert(claims[0] == cfg.role_claims@[0]@);
    let open = text::views(cfg.public@);
    assert(open.len() == cfg.public@.len());
    assert(open[0] == cfg.public@[0]@);
    assert(open[1] == cfg.public@[1]@);
}

/// Without any settings keys come from a secret that is not given, a credential
/// is a bearer token, a key set is fresh for five minutes, and requests are
/// denied without one.
pub proof fn law_defaults_of_keys(keys: KeyConfig)
    requires
        keys.is_default(),
    ensures
        keys.kind == KeysKind::Secret,
        keys.secret is None && keys.secret_b64 is None && keys.secret_env is None,
        keys.jwks is None && keys.jwks_url is None && keys.issuer is None,
        keys.discovery_path is None && keys.jwks_path is None,
        keys.janux_token is None && keys.janux_auth_header is None,
        keys.janux_bearer,
        keys.refresh_interval_secs == 300,
        keys.cache_ttl_secs == 300,
        keys.fail_closed,
        keys.algorithms@.len() == 0,
{
}

} // verus!
