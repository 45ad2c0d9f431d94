//! The settings of the bridge, read from environment variables.

use vstd::prelude::*;

use crate::env::{opt_string, opt_string_of, string_or, text_or, Env};
use crate::modes::{EncryptionMode, GiftWrapMode};
use crate::text::{copied, number_of_text, opt_str, opt_text, parse_number, same, texts};
use crate::urls::{read_urls, urls_or};

verus! {

/// How many transports a bridge keeps open at once.
pub const MAX_CACHED_OUTLAYS: usize = 64;

/// The settings of the bridge.
#[derive(Debug, Clone, PartialEq)]
pub struct ShimConfig {
    /// The address to listen on.
    pub listen_addr: String,
    /// The ContextVM relays that lead to servers, where an address names none.
    pub relay_urls: Vec<String>,
    /// A private key, hex or nsec. Without one the bridge makes a new key at
    /// each start.
    pub private_key: Option<String>,
    pub encryption_mode: EncryptionMode,
    /// How long a transport may take to connect, in seconds.
    pub connect_timeout_secs: u64,
    /// The kind of gift wrap that goes out. Both sides must agree on it.
    pub gift_wrap_mode: GiftWrapMode,
    /// How many transports are kept open at once; at least one.
    pub max_cached_outlays: usize,
    /// The size limit of a WebSocket message, either way.
    pub max_ws_message_bytes: usize,
    /// Whether the bridge runs a relay of its own at `/`.
    pub enable_relay: bool,
    /// The URLs under which the bridge itself is reached.
    pub public_urls: Vec<String>,
}

pub struct ShimConfigView {
    pub listen_addr: Seq<char>,
    pub relay_urls: Seq<Seq<char>>,
    pub private_key: Option<Seq<char>>,
    pub encryption_mode: EncryptionMode,
    pub connect_timeout_secs: u64,
    pub gift_wrap_mode: GiftWrapMode,
    pub max_cached_outlays: usize,
    pub max_ws_message_bytes: usize,
    pub enable_relay: bool,
    pub public_urls: Seq<Seq<char>>,
}

impl View for ShimConfig {
    type V = ShimConfigView;

    open spec fn view(&self) -> ShimConfigView {
        ShimConfigView {
            listen_addr: self.listen_addr@,
            relay_urls: texts(self.relay_urls@),
            private_key: opt_text(self.private_key),
            encryption_mode: self.encryption_mode,
            connect_timeout_secs: self.connect_timeout_secs,
            gift_wrap_mode: self.gift_wrap_mode,
            max_cached_outlays: self.max_cached_outlays,
            max_ws_message_bytes: self.max_ws_message_bytes,
            enable_relay: self.enable_relay,
            public_urls: texts(self.public_urls@),
        }
    }
}

/// The first of the URLs under which the bridge is reached.
pub open spec fn public_url_of(c: ShimConfigView) -> Option<Seq<char>> {
    if c.public_urls.len() > 0 {
        Some(c.public_urls[0])
    } else {
        None
    }
}

impl ShimConfig {
    /// The first of the URLs under which the bridge is reached.
    pub fn public_url(&self) -> (r: Option<&str>)
        ensures
            opt_str(r) == public_url_of(self@),
    {
        assert(texts(self.public_urls@).len() == self.public_urls@.len());
        if self.public_urls.len() > 0 {
            assert(texts(self.public_urls@)[0] == self.public_urls@[0]@);
            Some(self.public_urls[0].as_str())
        } else {
            None
        }
    }
}

/// Why the settings were refused.
#[derive(Debug, PartialEq)]
pub enum ConfigError {
    InvalidEncryption(String),
}

pub enum ConfigErrorView {
    InvalidEncryption(Seq<char>),
}

impl View for ConfigError {
    type V = ConfigErrorView;

    open spec fn view(&self) -> ConfigErrorView {
        match self {
            ConfigError::InvalidEncryption(value) => ConfigErrorView::InvalidEncryption(value@),
        }
    }
}

impl ConfigError {
    pub open spec fn message_of(e: ConfigErrorView) -> Seq<char> {
        match e {
            ConfigErrorView::InvalidEncryption(value) => "invalid OUTLAY_SHIM_ENCRYPTION_MODE: "@
                + value + " (expected optional|disabled|required)"@,
        }
    }

    /// What the user is told.
    pub fn message(&self) -> (r: String)
        ensures
            r@ == Self::message_of(self@),
    {
        match self {
            ConfigError::InvalidEncryption(value) => "invalid OUTLAY_SHIM_ENCRYPTION_MODE: ".to_owned().concat(
            value.as_str()).concat(" (expected optional|disabled|required)"),
        }
    }
}

/// The ContextVM relays of a bridge that is given none.
pub open spec fn default_urls() -> Seq<Seq<char>> {
    seq!["wss://relay.contextvm.org"@]
}

/// The ContextVM relays of a bridge that is given none.
pub fn default_relay_urls() -> (r: Vec<String>)
    ensures
        texts(r@) == default_urls(),
{
    let mut out: Vec<String> = Vec::new();
    out.push("wss://relay.contextvm.org".to_owned());
    assert(texts(out@) =~= default_urls());
    out
}

/// The encryption that an environment asks for; an `Err` holds a value that
/// names none.
pub open spec fn encryption_mode_of(env: Map<Seq<char>, Seq<char>>) -> Result<
    EncryptionMode,
    Seq<char>,
> {
    match opt_string_of(env, "OUTLAY_SHIM_ENCRYPTION_MODE"@) {
        None => Ok(EncryptionMode::Optional),
        Some(s) => if s == "optional"@ {
            Ok(EncryptionMode::Optional)
        } else if s == "disabled"@ {
            Ok(EncryptionMode::Disabled)
        } else if s == "required"@ {
            Ok(EncryptionMode::Required)
        } else {
            Err(s)
        },
    }
}

fn read_encryption_mode(env: &Env) -> (r: Result<EncryptionMode, String>)
    ensures
        match r {
            Ok(mode) => encryption_mode_of(env@) == Ok::<EncryptionMode, Seq<char>>(mode),
            Err(value) => encryption_mode_of(env@) == Err::<EncryptionMode, Seq<char>>(value@),
        },
{
    match opt_string(env, "OUTLAY_SHIM_ENCRYPTION_MODE") {
        None => Ok(EncryptionMode::Optional),
        Some(s) => {
            if same(s.as_str(), "optional") {
                Ok(EncryptionMode::Optional)
            } else if same(s.as_str(), "disabled") {
                Ok(EncryptionMode::Disabled)
            } else if same(s.as_str(), "required") {
                Ok(EncryptionMode::Required)
            } else {
                Err(s)
            }
        },
    }
}

/// The number up to `max` that a variable writes, or `default`.
pub open spec fn number_or(
    env: Map<Seq<char>, Seq<char>>,
    name: Seq<char>,
    max: nat,
    default: nat,
) -> nat {
    match opt_string_of(env, name) {
        Some(s) => match number_of_text(s, max) {
            Some(n) => n,
            None => default,
        },
        None => default,
    }
}

fn read_number(env: &Env, name: &str, max: u64, default: u64) -> (r: u64)
    requires
        default <= max,
    ensures
        r == number_or(env@, name@, max as nat, default as nat),
        r <= max,
{
    match opt_string(env, name) {
        Some(s) => match parse_number(s.as_str(), max) {
            Some(n) => n,
            None => default,
        },
        None => default,
    }
}

/// The settings that an environment makes.
pub open spec fn shim_config_of(env: Map<Seq<char>, Seq<char>>) -> Result<
    ShimConfigView,
    ConfigErrorView,
> {
    let relay_urls = urls_or(env, "OUTLAY_SHIM_RELAY_URLS"@, default_urls());
    match encryption_mode_of(env) {
        Err(value) => Err(ConfigErrorView::InvalidEncryption(value)),
        Ok(encryption_mode) => Ok(
            ShimConfigView {
                listen_addr: text_or(
                    opt_string_of(env, "OUTLAY_SHIM_LISTEN_ADDR"@),
                    "127.0.0.1:8088"@,
                ),
                relay_urls,
                private_key: opt_string_of(env, "OUTLAY_SHIM_PRIVATE_KEY"@),
                encryption_mode,
                connect_timeout_secs: number_or(
                    env,
                    "OUTLAY_SHIM_CONNECT_TIMEOUT"@,
                    u64::MAX as nat,
                    15,
                ) as u64,
                gift_wrap_mode: GiftWrapMode::Ephemeral,
                max_cached_outlays: MAX_CACHED_OUTLAYS,
                max_ws_message_bytes: number_or(
                    env,
                    "OUTLAY_SHIM_MAX_WS_MESSAGE_BYTES"@,
                    usize::MAX as nat,
                    1_048_576,
                ) as usize,
                enable_relay: opt_string_of(env, "OUTLAY_SHIM_RELAY"@) != Some("false"@),
                public_urls: urls_or(env, "OUTLAY_SHIM_PUBLIC_URLS"@, relay_urls),
            },
        ),
    }
}

/// Reads the settings from an environment, with defaults for what is missing.
pub fn read_shim_config(env: &Env) -> (r: Result<ShimConfig, ConfigError>)
    ensures
        match r {
            Ok(c) => shim_config_of(env@) == Ok::<ShimConfigView, ConfigErrorView>(c@),
            Err(e) => shim_config_of(env@) == Err::<ShimConfigView, ConfigErrorView>(e@),
        },
{
    let listen_addr: String = string_or(
        opt_string(env, "OUTLAY_SHIM_LISTEN_ADDR"),
        "127.0.0.1:8088",
    );
    let relay_urls: Vec<String> = read_urls(env, "OUTLAY_SHIM_RELAY_URLS", default_relay_urls());
    let encryption_mode: EncryptionMode = match read_encryption_mode(env) {
        Ok(mode) => mode,
        Err(value) => {
            return Err(ConfigError::InvalidEncryption(value));
        },
    };
    let enable_relay: bool = match opt_string(env, "OUTLAY_SHIM_RELAY") {
        Some(s) => !same(s.as_str(), "false"),
        None => true,
    };
    let own_urls: Vec<String> = copied(&relay_urls);
    Ok(
        ShimConfig {
            listen_addr,
            relay_urls,
            private_key: opt_string(env, "OUTLAY_SHIM_PRIVATE_KEY"),
            encryption_mode,
            connect_timeout_secs: read_number(env, "OUTLAY_SHIM_CONNECT_TIMEOUT", u64::MAX, 15),
            gift_wrap_mode: GiftWrapMode::Ephemeral,
            max_cached_outlays: MAX_CACHED_OUTLAYS,
            max_ws_message_bytes: read_number(
                env,
                "OUTLAY_SHIM_MAX_WS_MESSAGE_BYTES",
                usize::MAX as u64,
                1_048_576,
            ) as usize,
            enable_relay,
            public_urls: read_urls(env, "OUTLAY_SHIM_PUBLIC_URLS", own_urls),
        },
    )
}

/// A bridge that is told no public URLs takes its ContextVM relays for them.
pub proof fn law_public_urls_default(env: Map<Seq<char>, Seq<char>>)
    requires
        opt_string_of(env, "OUTLAY_SHIM_PUBLIC_URLS"@) is None,
    ensures
        shim_config_of(env) matches Ok(c) ==> c.public_urls == c.relay_urls,
{
}

/// A bridge always has a ContextVM relay, a public URL and room for a transport.
pub proof fn law_settings_are_usable(env: Map<Seq<char>, Seq<char>>)
    ensures
        shim_config_of(env) matches Ok(c) ==> {
            &&& c.relay_urls.len() > 0
            &&& c.public_urls.len() > 0
            &&& c.max_cached_outlays >= 1
        },
{
}

/// Every setting is the variable of its name without white space round it, or its
/// default where that is unset, blank or no number; the bridge's own URLs are by
/// default its relays, its own relay runs unless it is switched off, and only the
/// encryption must be a known one.
pub proof fn law_settings_are_read(env: Env, r: Result<ShimConfig, ConfigError>)
    requires
        call_ensures(read_shim_config, (&env,), r),
    ensures
        match r {
            Ok(c) => {
                &&& c.listen_addr@ == match opt_string_of(env@, "OUTLAY_SHIM_LISTEN_ADDR"@) {
                    Some(addr) => addr,
                    None => "127.0.0.1:8088"@,
                }
                &&& texts(c.relay_urls@) == urls_or(
                    env@,
                    "OUTLAY_SHIM_RELAY_URLS"@,
                    seq!["wss://relay.contextvm.org"@],
                )
                &&& texts(c.public_urls@) == urls_or(
                    env@,
                    "OUTLAY_SHIM_PUBLIC_URLS"@,
                    texts(c.relay_urls@),
                )
                &&& opt_text(c.private_key) == opt_string_of(env@, "OUTLAY_SHIM_PRIVATE_KEY"@)
                &&& match opt_string_of(env@, "OUTLAY_SHIM_ENCRYPTION_MODE"@) {
                    Some(s) => match c.encryption_mode {
                        EncryptionMode::Optional => s == "optional"@,
                        EncryptionMode::Disabled => s == "disabled"@,
                        EncryptionMode::Required => s == "required"@,
                    },
                    None => c.encryption_mode is Optional,
                }
                &&& match opt_string_of(env@, "OUTLAY_SHIM_CONNECT_TIMEOUT"@) {
                    Some(s) => match number_of_text(s, u64::MAX as nat) {
                        Some(n) => c.connect_timeout_secs == n,
                        None => c.connect_timeout_secs == 15,
                    },
                    None => c.connect_timeout_secs == 15,
                }
                &&& match opt_string_of(env@, "OUTLAY_SHIM_MAX_WS_MESSAGE_BYTES"@) {
                    Some(s) => match number_of_text(s, usize::MAX as nat) {
                        Some(n) => c.max_ws_message_bytes == n,
                        None => c.max_ws_message_bytes == 1048576,
                    },
                    None => c.max_ws_message_bytes == 1048576,
                }
                &&& c.enable_relay <==> match opt_string_of(env@, "OUTLAY_SHIM_RELAY"@) {
                    Some(s) => s != "false"@,
                    None => true,
                }
                &&& c.gift_wrap_mode is Ephemeral
                &&& c.max_cached_outlays == 64
            },
            Err(ConfigError::InvalidEncryption(value)) => opt_string_of(
                env@,
                "OUTLAY_SHIM_ENCRYPTION_MODE"@,
            ) == Some(value@) && value@ != "optional"@ && value@ != "disabled"@ && value@
                != "required"@,
        },
{
}

/// The bridge's public URL is the first of its own ones.
pub proof fn law_first_public_url(c: ShimConfig, r: Option<&str>)
    requires
        call_ensures(ShimConfig::public_url, (&c,), r),
    ensures
        c.public_urls@.len() == 0 ==> r is None,
        c.public_urls@.len() > 0 ==> (r matches Some(url) && url@ == c.public_urls@[0]@),
{
    assert(texts(c.public_urls@).len() == c.public_urls@.len());
}

/// What the user is told holds the value that was refused, and the default is one
/// relay.
pub proof fn law_errors_hold_the_value(e: ConfigError, r: String, urls: Vec<String>)
    requires
        call_ensures(ConfigError::message, (&e,), r),
        call_ensures(default_relay_urls, (), urls),
    ensures
        e matches ConfigError::InvalidEncryption(value) ==> r@
            == "invalid OUTLAY_SHIM_ENCRYPTION_MODE: "@ + value@
            + " (expected optional|disabled|required)"@,
        texts(urls@) == seq!["wss://relay.contextvm.org"@],
{
}

} // verus!
