//! The settings of the server, read from environment variables.

use vstd::prelude::*;

use crate::env::{bool_of, opt_bool, opt_string, opt_string_of, string_or, text_or, Env};
use crate::modes::GiftWrapMode;
use crate::text::{number_of_text, opt_text, parse_number, same, texts};
use crate::urls::{read_urls, urls_or};

verus! {

/// The settings of the server.
#[derive(Debug, Clone, PartialEq)]
pub struct ServerConfig {
    /// An external relay to proxy. Without one the bundled relay is proxied.
    pub proxy_relay_url: Option<String>,
    /// The ContextVM relays that the server listens on.
    pub cvm_relay_urls: Vec<String>,
    /// A private key, hex or nsec. Without one the server makes a new key at
    /// each start.
    pub private_key_hex: Option<String>,
    pub server_name: String,
    pub server_about: Option<String>,
    pub is_announced: bool,
    /// The kind of gift wrap that goes out. Both sides must agree on it.
    pub gift_wrap_mode: GiftWrapMode,
    /// The settings of the bundled relay.
    pub bundled: BundledConfig,
}

/// The settings of the bundled relay, which listens on the loopback address.
#[derive(Debug, Clone, PartialEq)]
pub struct BundledConfig {
    /// `sqlite`, which keeps events in a file, or `memory`, which does not.
    pub backend: String,
    /// The file of the `sqlite` backend.
    pub db_path: String,
    /// The port to listen on; 0 looks for a free one.
    pub port: u16,
}

pub struct ServerConfigView {
    pub proxy_relay_url: Option<Seq<char>>,
    pub cvm_relay_urls: Seq<Seq<char>>,
    pub private_key_hex: Option<Seq<char>>,
    pub server_name: Seq<char>,
    pub server_about: Option<Seq<char>>,
    pub is_announced: bool,
    pub gift_wrap_mode: GiftWrapMode,
    pub bundled: BundledConfigView,
}

pub struct BundledConfigView {
    pub backend: Seq<char>,
    pub db_path: Seq<char>,
    pub port: u16,
}

impl View for BundledConfig {
    type V = BundledConfigView;

    open spec fn view(&self) -> BundledConfigView {
        BundledConfigView { backend: self.backend@, db_path: self.db_path@, port: self.port }
    }
}

impl View for ServerConfig {
    type V = ServerConfigView;

    open spec fn view(&self) -> ServerConfigView {
        ServerConfigView {
            proxy_relay_url: opt_text(self.proxy_relay_url),
            cvm_relay_urls: texts(self.cvm_relay_urls@),
            private_key_hex: opt_text(self.private_key_hex),
            server_name: self.server_name@,
            server_about: opt_text(self.server_about),
            is_announced: self.is_announced,
            gift_wrap_mode: self.gift_wrap_mode,
            bundled: self.bundled@,
        }
    }
}

/// Why the settings were refused.
#[derive(Debug, PartialEq)]
pub enum ConfigError {
    MissingProxyRelayUrl,
    InvalidBoolean(String),
    InvalidGiftWrapMode(String),
}

pub enum ConfigErrorView {
    MissingProxyRelayUrl,
    InvalidBoolean(Seq<char>),
    InvalidGiftWrapMode(Seq<char>),
}

impl View for ConfigError {
    type V = ConfigErrorView;

    open spec fn view(&self) -> ConfigErrorView {
        match self {
            ConfigError::MissingProxyRelayUrl => ConfigErrorView::MissingProxyRelayUrl,
            ConfigError::InvalidBoolean(name) => ConfigErrorView::InvalidBoolean(name@),
            ConfigError::InvalidGiftWrapMode(value) => ConfigErrorView::InvalidGiftWrapMode(value@),
        }
    }
}

impl ConfigError {
    pub open spec fn message_of(e: ConfigErrorView) -> Seq<char> {
        match e {
            ConfigErrorView::MissingProxyRelayUrl =>
                "OUTLAY_PROXY_RELAY_URL is required (no bundled relay compiled in; rebuild with the `bundled-relay` feature, or set an upstream URL)"@,
            ConfigErrorView::InvalidBoolean(name) => "Invalid boolean environment variable: "@
                + name,
            ConfigErrorView::InvalidGiftWrapMode(value) => "invalid OUTLAY_GIFT_WRAP_MODE: "@
                + value + " (expected persistent|ephemeral|optional)"@,
        }
    }

    /// What the user is told.
    pub fn message(&self) -> (r: String)
        ensures
            r@ == Self::message_of(self@),
    {
        match self {
            ConfigError::MissingProxyRelayUrl =>
                "OUTLAY_PROXY_RELAY_URL is required (no bundled relay compiled in; rebuild with the `bundled-relay` feature, or set an upstream URL)".to_owned(),
            ConfigError::InvalidBoolean(name) => "Invalid boolean environment variable: ".to_owned().concat(
            name.as_str()),
            ConfigError::InvalidGiftWrapMode(value) => "invalid OUTLAY_GIFT_WRAP_MODE: ".to_owned().concat(
            value.as_str()).concat(" (expected persistent|ephemeral|optional)"),
        }
    }
}

/// The ContextVM relays of a server that is given none.
pub open spec fn default_cvm_urls() -> Seq<Seq<char>> {
    seq!["wss://nostr.wtf"@]
}

/// The ContextVM relays of a server that is given none.
pub fn default_cvm_relay_urls() -> (r: Vec<String>)
    ensures
        texts(r@) == default_cvm_urls(),
{
    let mut out: Vec<String> = Vec::new();
    out.push("wss://nostr.wtf".to_owned());
    assert(texts(out@) =~= default_cvm_urls());
    out
}

/// The port that a variable names; 0 if it names none.
pub open spec fn port_of(env: Map<Seq<char>, Seq<char>>, name: Seq<char>) -> u16 {
    match opt_string_of(env, name) {
        Some(s) => match number_of_text(s, u16::MAX as nat) {
            Some(n) => n as u16,
            None => 0,
        },
        None => 0,
    }
}

/// The settings of the bundled relay that an environment makes.
pub open spec fn bundled_config_of(env: Map<Seq<char>, Seq<char>>) -> BundledConfigView {
    BundledConfigView {
        backend: text_or(opt_string_of(env, "OUTLAY_BUNDLED_BACKEND"@), "sqlite"@),
        db_path: text_or(opt_string_of(env, "OUTLAY_BUNDLED_DB_PATH"@), "outlay-relay.db"@),
        port: port_of(env, "OUTLAY_BUNDLED_PORT"@),
    }
}

fn read_bundled_config(env: &Env) -> (r: BundledConfig)
    ensures
        r@ == bundled_config_of(env@),
{
    let port: u16 = match opt_string(env, "OUTLAY_BUNDLED_PORT") {
        Some(s) => match parse_number(s.as_str(), 65535) {
            Some(n) => n as u16,
            None => 0,
        },
        None => 0,
    };
    BundledConfig {
        backend: string_or(opt_string(env, "OUTLAY_BUNDLED_BACKEND"), "sqlite"),
        db_path: string_or(opt_string(env, "OUTLAY_BUNDLED_DB_PATH"), "outlay-relay.db"),
        port,
    }
}

/// The kind of gift wrap that an environment asks for; an `Err` holds a value
/// that names none.
pub open spec fn gift_wrap_mode_of(env: Map<Seq<char>, Seq<char>>) -> Result<
    GiftWrapMode,
    Seq<char>,
> {
    match opt_string_of(env, "OUTLAY_GIFT_WRAP_MODE"@) {
        None => Ok(GiftWrapMode::Ephemeral),
        Some(s) => if s == "ephemeral"@ {
            Ok(GiftWrapMode::Ephemeral)
        } else if s == "persistent"@ {
            Ok(GiftWrapMode::Persistent)
        } else if s == "optional"@ {
            Ok(GiftWrapMode::Optional)
        } else {
            Err(s)
        },
    }
}

fn read_gift_wrap_mode(env: &Env) -> (r: Result<GiftWrapMode, String>)
    ensures
        match r {
            Ok(mode) => gift_wrap_mode_of(env@) == Ok::<GiftWrapMode, Seq<char>>(mode),
            Err(value) => gift_wrap_mode_of(env@) == Err::<GiftWrapMode, Seq<char>>(value@),
        },
{
    match opt_string(env, "OUTLAY_GIFT_WRAP_MODE") {
        None => Ok(GiftWrapMode::Ephemeral),
        Some(s) => {
            if same(s.as_str(), "ephemeral") {
                Ok(GiftWrapMode::Ephemeral)
            } else if same(s.as_str(), "persistent") {
                Ok(GiftWrapMode::Persistent)
            } else if same(s.as_str(), "optional") {
                Ok(GiftWrapMode::Optional)
            } else {
                Err(s)
            }
        },
    }
}

/// The settings that an environment makes, for a server that has a bundled
/// relay to fall back to or has none.
pub open spec fn server_config_of(
    env: Map<Seq<char>, Seq<char>>,
    has_bundled_relay: bool,
) -> Result<ServerConfigView, ConfigErrorView> {
    let proxy_relay_url = opt_string_of(env, "OUTLAY_PROXY_RELAY_URL"@);
    if proxy_relay_url is None && !has_bundled_relay {
        Err(ConfigErrorView::MissingProxyRelayUrl)
    } else {
        match (gift_wrap_mode_of(env), bool_of(env, "OUTLAY_ANNOUNCED"@)) {
            (Err(value), _) => Err(ConfigErrorView::InvalidGiftWrapMode(value)),
            (_, Err(name)) => Err(ConfigErrorView::InvalidBoolean(name)),
            (Ok(gift_wrap_mode), Ok(announced)) => Ok(
                ServerConfigView {
                    proxy_relay_url,
                    cvm_relay_urls: urls_or(env, "OUTLAY_RELAY_URLS"@, default_cvm_urls()),
                    private_key_hex: opt_string_of(env, "OUTLAY_SERVER_PRIVATE_KEY"@),
                    server_name: text_or(opt_string_of(env, "OUTLAY_SERVER_NAME"@), "outlay"@),
                    server_about: opt_string_of(env, "OUTLAY_SERVER_ABOUT"@),
                    is_announced: announced == Some(true),
                    gift_wrap_mode,
                    bundled: bundled_config_of(env),
                },
            ),
        }
    }
}

/// Reads the settings of a server with a bundled relay from an environment,
/// with defaults for what is missing.
pub fn read_server_config(env: &Env) -> (r: Result<ServerConfig, ConfigError>)
    ensures
        match r {
            Ok(c) => server_config_of(env@, true) == Ok::<ServerConfigView, ConfigErrorView>(c@),
            Err(e) => server_config_of(env@, true) == Err::<ServerConfigView, ConfigErrorView>(e@),
        },
{
    read_server_config_for(env, true)
}

/// Reads the settings of a server that has a bundled relay or has none.
pub fn read_server_config_for(env: &Env, has_bundled_relay: bool) -> (r: Result<
    ServerConfig,
    ConfigError,
>)
    ensures
        match r {
            Ok(c) => server_config_of(env@, has_bundled_relay) == Ok::<
                ServerConfigView,
                ConfigErrorView,
            >(c@),
            Err(e) => server_config_of(env@, has_bundled_relay) == Err::<
                ServerConfigView,
                ConfigErrorView,
            >(e@),
        },
{
    let bundled: BundledConfig = read_bundled_config(env);
    let proxy_relay_url: Option<String> = opt_string(env, "OUTLAY_PROXY_RELAY_URL");
    if proxy_relay_url.is_none() && !has_bundled_relay {
        return Err(ConfigError::MissingProxyRelayUrl);
    }
    let cvm_relay_urls: Vec<String> = read_urls(
        env,
        "OUTLAY_RELAY_URLS",
        default_cvm_relay_urls(),
    );
    let gift_wrap_mode: GiftWrapMode = match read_gift_wrap_mode(env) {
        Ok(mode) => mode,
        Err(value) => {
            return Err(ConfigError::InvalidGiftWrapMode(value));
        },
    };
    let is_announced: bool = match opt_bool(env, "OUTLAY_ANNOUNCED") {
        Ok(b) => matches!(b, Some(true)),
        Err(name) => {
            return Err(ConfigError::InvalidBoolean(name));
        },
    };
    Ok(
        ServerConfig {
            proxy_relay_url,
            cvm_relay_urls,
            private_key_hex: opt_string(env, "OUTLAY_SERVER_PRIVATE_KEY"),
            server_name: string_or(opt_string(env, "OUTLAY_SERVER_NAME"), "outlay"),
            server_about: opt_string(env, "OUTLAY_SERVER_ABOUT"),
            is_announced,
            gift_wrap_mode,
            bundled,
        },
    )
}

/// With a bundled relay the empty environment is enough: the server starts, and
/// proxies the bundled relay.
pub proof fn law_runs_without_configuration()
    ensures
        server_config_of(Map::empty(), true) matches Ok(c) && c.proxy_relay_url is None,
        !(server_config_of(Map::empty(), false) is Ok),
{
}

/// One variable chooses what is proxied: the relay that it names, or the bundled
/// one if it is unset or blank.
pub proof fn law_proxy_url_chooses_upstream(env: Map<Seq<char>, Seq<char>>)
    ensures
        server_config_of(env, true) matches Ok(c) ==> c.proxy_relay_url == opt_string_of(
            env,
            "OUTLAY_PROXY_RELAY_URL"@,
        ),
{
}

/// A server always listens somewhere.
pub proof fn law_always_some_cvm_relay(env: Map<Seq<char>, Seq<char>>, has_bundled_relay: bool)
    ensures
        server_config_of(env, has_bundled_relay) matches Ok(c) ==> c.cvm_relay_urls.len() > 0,
{
}

/// Every setting is the variable of its name without white space round it, or its
/// default where that is unset or blank. A relay to proxy must be named only where
/// there is no bundled one, the kind of gift wrap must be a known one, and whether the
/// server is announced must be a truth value.
pub proof fn law_settings_are_read(
    env: Env,
    has_bundled_relay: bool,
    r: Result<ServerConfig, ConfigError>,
)
    requires
        call_ensures(read_server_config_for, (&env, has_bundled_relay), r),
    ensures
        match r {
            Ok(c) => {
                &&& opt_text(c.proxy_relay_url) == opt_string_of(env@, "OUTLAY_PROXY_RELAY_URL"@)
                &&& c.proxy_relay_url is Some || has_bundled_relay
                &&& texts(c.cvm_relay_urls@) == urls_or(
                    env@,
                    "OUTLAY_RELAY_URLS"@,
                    seq!["wss://nostr.wtf"@],
                )
                &&& opt_text(c.private_key_hex) == opt_string_of(env@, "OUTLAY_SERVER_PRIVATE_KEY"@)
                &&& c.server_name@ == match opt_string_of(env@, "OUTLAY_SERVER_NAME"@) {
                    Some(name) => name,
                    None => "outlay"@,
                }
                &&& opt_text(c.server_about) == opt_string_of(env@, "OUTLAY_SERVER_ABOUT"@)
                &&& match opt_string_of(env@, "OUTLAY_ANNOUNCED"@) {
                    Some(s) => if c.is_announced {
                        s == "true"@ || s == "1"@
                    } else {
                        s == "false"@ || s == "0"@
                    },
                    None => !c.is_announced,
                }
                &&& match opt_string_of(env@, "OUTLAY_GIFT_WRAP_MODE"@) {
                    Some(s) => match c.gift_wrap_mode {
                        GiftWrapMode::Ephemeral => s == "ephemeral"@,
                        GiftWrapMode::Persistent => s == "persistent"@,
                        GiftWrapMode::Optional => s == "optional"@,
                    },
                    None => c.gift_wrap_mode is Ephemeral,
                }
                &&& c.bundled.backend@ == match opt_string_of(env@, "OUTLAY_BUNDLED_BACKEND"@) {
                    Some(name) => name,
                    None => "sqlite"@,
                }
                &&& c.bundled.db_path@ == match opt_string_of(env@, "OUTLAY_BUNDLED_DB_PATH"@) {
                    Some(path) => path,
                    None => "outlay-relay.db"@,
                }
                &&& match opt_string_of(env@, "OUTLAY_BUNDLED_PORT"@) {
                    Some(s) => match number_of_text(s, 65535) {
                        Some(n) => c.bundled.port == n,
                        None => c.bundled.port == 0,
                    },
                    None => c.bundled.port == 0,
                }
            },
            Err(ConfigError::MissingProxyRelayUrl) => !has_bundled_relay && opt_string_of(
                env@,
                "OUTLAY_PROXY_RELAY_URL"@,
            ) is None,
            Err(ConfigError::InvalidGiftWrapMode(value)) => {
                &&& opt_string_of(env@, "OUTLAY_GIFT_WRAP_MODE"@) == Some(value@)
                &&& value@ != "ephemeral"@ && value@ != "persistent"@ && value@ != "optional"@
                &&& has_bundled_relay || opt_string_of(env@, "OUTLAY_PROXY_RELAY_URL"@) is Some
            },
            Err(ConfigError::InvalidBoolean(name)) => {
                &&& name@ == "OUTLAY_ANNOUNCED"@
                &&& has_bundled_relay || opt_string_of(env@, "OUTLAY_PROXY_RELAY_URL"@) is Some
                &&& match opt_string_of(env@, "OUTLAY_GIFT_WRAP_MODE"@) {
                    Some(s) => s == "ephemeral"@ || s == "persistent"@ || s == "optional"@,
                    None => true,
                }
                &&& opt_string_of(env@, "OUTLAY_ANNOUNCED"@) matches Some(s) && s != "true"@ && s
                    != "1"@ && s != "false"@ && s != "0"@
            },
        },
{
}

/// A server that says nothing else has a bundled relay.
pub proof fn law_bundled_relay_is_the_default(
    env: Env,
    r: Result<ServerConfig, ConfigError>,
    read: Result<ServerConfig, ConfigError>,
)
    requires
        call_ensures(read_server_config, (&env,), r),
        call_ensures(read_server_config_for, (&env, true), read),
    ensures
        match (r, read) {
            (Ok(a), Ok(b)) => {
                &&& opt_text(a.proxy_relay_url) == opt_text(b.proxy_relay_url)
                &&& texts(a.cvm_relay_urls@) == texts(b.cvm_relay_urls@)
                &&& opt_text(a.private_key_hex) == opt_text(b.private_key_hex)
                &&& a.server_name@ == b.server_name@
                &&& opt_text(a.server_about) == opt_text(b.server_about)
                &&& a.is_announced == b.is_announced
                &&& a.gift_wrap_mode == b.gift_wrap_mode
                &&& a.bundled.backend@ == b.bundled.backend@
                &&& a.bundled.db_path@ == b.bundled.db_path@
                &&& a.bundled.port == b.bundled.port
            },
            (Err(ConfigError::InvalidBoolean(a)), Err(ConfigError::InvalidBoolean(b))) => a@ == b@,
            (
                Err(ConfigError::InvalidGiftWrapMode(a)),
                Err(ConfigError::InvalidGiftWrapMode(b)),
            ) => a@ == b@,
            _ => false,
        },
{
}

/// What the user is told names the variable to set, and the default is one relay.
pub proof fn law_errors_name_the_variable(e: ConfigError, r: String, urls: Vec<String>)
    requires
        call_ensures(ConfigError::message, (&e,), r),
        call_ensures(default_cvm_relay_urls, (), urls),
    ensures
        e is MissingProxyRelayUrl ==> r@
            == "OUTLAY_PROXY_RELAY_URL is required (no bundled relay compiled in; rebuild with the `bundled-relay` feature, or set an upstream URL)"@,
        e matches ConfigError::InvalidBoolean(name) ==> r@
            == "Invalid boolean environment variable: "@ + name@,
        e matches ConfigError::InvalidGiftWrapMode(value) ==> r@
            == "invalid OUTLAY_GIFT_WRAP_MODE: "@ + value@
            + " (expected persistent|ephemeral|optional)"@,
        texts(urls@) == seq!["wss://nostr.wtf"@],
{
}

} // verus!
