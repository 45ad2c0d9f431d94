//! The settings of a server that always proxies an external relay.

use vstd::prelude::*;

use crate::env::{
    bool_of, env_with_file, load_env_files, opt_bool, opt_string, opt_string_of, string_or, text_or, Env,
};
use crate::text::{opt_str, opt_text, texts};
use crate::urls::{read_urls, urls_or};

verus! {

/// The settings of a server that proxies one external relay.
#[derive(Debug, Clone, PartialEq)]
pub struct ServerConfig {
    /// The relay that is proxied.
    pub proxy_relay_url: String,
    /// The ContextVM relays that the server listens on.
    pub cvm_relay_urls: Vec<String>,
    /// A private key, hex or nsec. Without one the server makes a new key at
    /// each start.
    pub private_key_hex: Option<String>,
    pub server_name: String,
    pub server_about: Option<String>,
    pub is_announced: bool,
}

pub struct ServerConfigView {
    pub proxy_relay_url: Seq<char>,
    pub cvm_relay_urls: Seq<Seq<char>>,
    pub private_key_hex: Option<Seq<char>>,
    pub server_name: Seq<char>,
    pub server_about: Option<Seq<char>>,
    pub is_announced: bool,
}

impl View for ServerConfig {
    type V = ServerConfigView;

    open spec fn view(&self) -> ServerConfigView {
        ServerConfigView {
            proxy_relay_url: self.proxy_relay_url@,
            cvm_relay_urls: texts(self.cvm_relay_urls@),
            private_key_hex: opt_text(self.private_key_hex),
            server_name: self.server_name@,
            server_about: opt_text(self.server_about),
            is_announced: self.is_announced,
        }
    }
}

/// Why the settings were refused.
#[derive(Debug, PartialEq)]
pub enum ConfigError {
    MissingProxyRelayUrl,
    InvalidBoolean(String),
}

pub enum ConfigErrorView {
    MissingProxyRelayUrl,
    InvalidBoolean(Seq<char>),
}

impl View for ConfigError {
    type V = ConfigErrorView;

    open spec fn view(&self) -> ConfigErrorView {
        match self {
            ConfigError::MissingProxyRelayUrl => ConfigErrorView::MissingProxyRelayUrl,
            ConfigError::InvalidBoolean(name) => ConfigErrorView::InvalidBoolean(name@),
        }
    }
}

impl ConfigError {
    pub open spec fn message_of(e: ConfigErrorView) -> Seq<char> {
        match e {
            ConfigErrorView::MissingProxyRelayUrl =>
                "OUTLAY_PROXY_RELAY_URL is required (the upstream relay to proxy)"@,
            ConfigErrorView::InvalidBoolean(name) => "Invalid boolean environment variable: "@
                + name,
        }
    }

    /// What the user is told.
    pub fn message(&self) -> (r: String)
        ensures
            r@ == Self::message_of(self@),
    {
        match self {
            ConfigError::MissingProxyRelayUrl =>
                "OUTLAY_PROXY_RELAY_URL is required (the upstream relay to proxy)".to_owned(),
            ConfigError::InvalidBoolean(name) => "Invalid boolean environment variable: ".to_owned().concat(
            name.as_str()),
        }
    }
}

/// The ContextVM relays of a server that is given none.
pub open spec fn default_cvm_urls() -> Seq<Seq<char>> {
    seq!["wss://relay.contextvm.org"@]
}

/// The ContextVM relays of a server that is given none.
pub fn default_cvm_relay_urls() -> (r: Vec<String>)
    ensures
        texts(r@) == default_cvm_urls(),
{
    let mut out: Vec<String> = Vec::new();
    out.push("wss://relay.contextvm.org".to_owned());
    assert(texts(out@) =~= default_cvm_urls());
    out
}

/// The settings that an environment makes.
pub open spec fn server_config_of(env: Map<Seq<char>, Seq<char>>) -> Result<
    ServerConfigView,
    ConfigErrorView,
> {
    match opt_string_of(env, "OUTLAY_PROXY_RELAY_URL"@) {
        None => Err(ConfigErrorView::MissingProxyRelayUrl),
        Some(proxy_relay_url) => match bool_of(env, "OUTLAY_ANNOUNCED"@) {
            Err(name) => Err(ConfigErrorView::InvalidBoolean(name)),
            Ok(announced) => Ok(
                ServerConfigView {
                    proxy_relay_url,
                    cvm_relay_urls: urls_or(env, "OUTLAY_RELAY_URLS"@, default_cvm_urls()),
                    private_key_hex: opt_string_of(env, "OUTLAY_SERVER_PRIVATE_KEY"@),
                    server_name: text_or(opt_string_of(env, "OUTLAY_SERVER_NAME"@), "outlay"@),
                    server_about: opt_string_of(env, "OUTLAY_SERVER_ABOUT"@),
                    is_announced: announced == Some(true),
                },
            ),
        },
    }
}

/// Reads the settings from an environment, with defaults for what is missing.
pub fn read_server_config(env: &Env) -> (r: Result<ServerConfig, ConfigError>)
    ensures
        match r {
            Ok(c) => server_config_of(env@) == Ok::<ServerConfigView, ConfigErrorView>(c@),
            Err(e) => server_config_of(env@) == Err::<ServerConfigView, ConfigErrorView>(e@),
        },
{
    let proxy_relay_url: String = match opt_string(env, "OUTLAY_PROXY_RELAY_URL") {
        Some(url) => url,
        None => {
            return Err(ConfigError::MissingProxyRelayUrl);
        },
    };
    let cvm_relay_urls: Vec<String> = read_urls(
        env,
        "OUTLAY_RELAY_URLS",
        default_cvm_relay_urls(),
    );
    let is_announced: bool = match opt_bool(env, "OUTLAY_ANNOUNCED") {
        Ok(b) => matches!(b, Some(true)),
        Err(name) => {
            return Err(ConfigError::InvalidBoolean(name));
        },
    };
    Ok(
        ServerConfig {
            proxy_relay_url,
            cvm_relay_urls,
            private_key_hex: opt_string(env, "OUTLAY_SERVER_PRIVATE_KEY"),
            server_name: string_or(opt_string(env, "OUTLAY_SERVER_NAME"), "outlay"),
            server_about: opt_string(env, "OUTLAY_SERVER_ABOUT"),
            is_announced,
        },
    )
}

/// Adds what the environment files assign, then reads the settings.
pub fn load(env: &mut Env, dot_env: Option<&str>, dot_env_local: Option<&str>) -> (r: Result<
    ServerConfig,
    ConfigError,
>)
    ensures
        final(env)@ == env_with_file(
            env_with_file(old(env)@, opt_str(dot_env)),
            opt_str(dot_env_local),
        ),
        match r {
            Ok(c) => server_config_of(final(env)@) == Ok::<ServerConfigView, ConfigErrorView>(c@),
            Err(e) => server_config_of(final(env)@) == Err::<ServerConfigView, ConfigErrorView>(
                e@,
            ),
        },
{
    load_env_files(env, dot_env, dot_env_local);
    read_server_config(env)
}

/// Every setting is the variable of its name without white space round it, or its
/// default where that is unset or blank; only a relay to proxy must be named, and
/// whether the server is announced must be a truth value.
pub proof fn law_settings_are_read(env: Env, r: Result<ServerConfig, ConfigError>)
    requires
        call_ensures(read_server_config, (&env,), r),
    ensures
        match r {
            Ok(c) => {
                &&& opt_string_of(env@, "OUTLAY_PROXY_RELAY_URL"@) == Some(c.proxy_relay_url@)
                &&& texts(c.cvm_relay_urls@) == urls_or(
                    env@,
                    "OUTLAY_RELAY_URLS"@,
                    seq!["wss://relay.contextvm.org"@],
                )
                &&& opt_text(c.private_key_hex) == opt_string_of(env@, "OUTLAY_SERVER_PRIVATE_KEY"@)
                &&& c.server_name@ == match opt_string_of(env@, "OUTLAY_SERVER_NAME"@) {
                    Some(name) => name,
                    None => "outlay"@,
                }
                &&& opt_text(c.server_about) == opt_string_of(env@, "OUTLAY_SERVER_ABOUT"@)
                &&& match opt_string_of(env@, "OUTLAY_ANNOUNCED"@) {
                    Some(s) => if c.is_announced {
                        s == "true"@ || s == "1"@
                    } else {
                        s == "false"@ || s == "0"@
                    },
                    None => !c.is_announced,
                }
            },
            Err(ConfigError::MissingProxyRelayUrl) => opt_string_of(
                env@,
                "OUTLAY_PROXY_RELAY_URL"@,
            ) is None,
            Err(ConfigError::InvalidBoolean(name)) => {
                &&& name@ == "OUTLAY_ANNOUNCED"@
                &&& opt_string_of(env@, "OUTLAY_PROXY_RELAY_URL"@) is Some
                &&& opt_string_of(env@, "OUTLAY_ANNOUNCED"@) matches Some(s) && s != "true"@ && s
                    != "1"@ && s != "false"@ && s != "0"@
            },
        },
{
}

/// Settings are read after the environment files are.
pub proof fn law_files_are_loaded_first(
    env: &mut Env,
    filled: &mut Env,
    dot_env: Option<&str>,
    dot_env_local: Option<&str>,
    r: Result<ServerConfig, ConfigError>,
    read: Result<ServerConfig, ConfigError>,
)
    requires
        call_ensures(load, (env, dot_env, dot_env_local), r),
        call_ensures(load_env_files, (filled, dot_env, dot_env_local), ()),
        old(filled)@ == old(env)@,
        call_ensures(read_server_config, (&*final(filled),), read),
    ensures
        final(env)@ == final(filled)@,
        match (r, read) {
            (Ok(a), Ok(b)) => {
                &&& a.proxy_relay_url@ == b.proxy_relay_url@
                &&& texts(a.cvm_relay_urls@) == texts(b.cvm_relay_urls@)
                &&& opt_text(a.private_key_hex) == opt_text(b.private_key_hex)
                &&& a.server_name@ == b.server_name@
                &&& opt_text(a.server_about) == opt_text(b.server_about)
                &&& a.is_announced == b.is_announced
            },
            (Err(ConfigError::MissingProxyRelayUrl), Err(ConfigError::MissingProxyRelayUrl)) => true,
            (Err(ConfigError::InvalidBoolean(a)), Err(ConfigError::InvalidBoolean(b))) => a@ == b@,
            _ => false,
        },
{
}

/// What the user is told names the variable to set, and the default is one relay.
pub proof fn law_errors_name_the_variable(e: ConfigError, r: String, urls: Vec<String>)
    requires
        call_ensures(ConfigError::message, (&e,), r),
        call_ensures(default_cvm_relay_urls, (), urls),
    ensures
        e is MissingProxyRelayUrl ==> r@
            == "OUTLAY_PROXY_RELAY_URL is required (the upstream relay to proxy)"@,
        e matches ConfigError::InvalidBoolean(name) ==> r@
            == "Invalid boolean environment variable: "@ + name@,
        texts(urls@) == seq!["wss://relay.contextvm.org"@],
{
}

} // verus!
