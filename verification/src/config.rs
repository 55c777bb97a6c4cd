//! The relay's configuration, read from the variables of its environment.

use vstd::prelude::*;
use vstd::string::StringExecFns;
use vstd::utf8::encode_utf8;
use crate::bytes::{parse_bounded, parse_u64};
use crate::protocol::same_text;

verus! {

/// The fewest bytes that the ticket secret may have.
pub const MIN_SECRET_BYTES: usize = 32;

/// One variable of the environment.
#[derive(Debug, Clone)]
pub struct EnvVar {
    pub name: String,
    pub value: String,
}

/// Why the configuration could not be read.
#[derive(Debug)]
pub enum ConfigError {
    /// A variable that must be set is not.
    MissingEnv(String),
    /// A variable holds what it may not: its name, and what is wrong.
    InvalidValue(String, String),
}

/// A `ConfigError` as mathematical values.
pub enum ConfigErrorView {
    MissingEnv(Seq<char>),
    InvalidValue(Seq<char>, Seq<char>),
}

impl View for ConfigError {
    type V = ConfigErrorView;

    open spec fn view(&self) -> ConfigErrorView {
        match self {
            ConfigError::MissingEnv(k) => ConfigErrorView::MissingEnv(k@),
            ConfigError::InvalidValue(k, v) => ConfigErrorView::InvalidValue(k@, v@),
        }
    }
}

impl ConfigError {
    /// A description of the error.
    pub fn message(&self) -> (r: String)
        ensures
            r@ == match self@ {
                ConfigErrorView::MissingEnv(k) => "Missing required environment variable: "@ + k,
                ConfigErrorView::InvalidValue(k, v) => "Invalid value for "@ + k + ": "@ + v,
            },
    {
        match self {
            ConfigError::MissingEnv(k) => {
                let mut s = String::from_str("Missing required environment variable: ");
                s.append(k.as_str());
                s
            },
            ConfigError::InvalidValue(k, v) => {
                let mut s = String::from_str("Invalid value for ");
                s.append(k.as_str());
                s.append(": ");
                s.append(v.as_str());
                s
            },
        }
    }
}

/// The value of the first variable from `i` on that is named `key`.
pub open spec fn env_value(vars: Seq<EnvVar>, key: Seq<char>, i: int) -> Option<Seq<char>>
    decreases vars.len() - i,
{
    if i < 0 || i >= vars.len() {
        None
    } else if vars[i].name@ == key {
        Some(vars[i].value@)
    } else {
        env_value(vars, key, i + 1)
    }
}

/// The value of a variable, if it is set.
pub fn get_env_opt(vars: &Vec<EnvVar>, key: &str) -> (r: Option<String>)
    ensures
        crate::encoding::text_view(r) == env_value(vars@, key@, 0),
{
    let mut i: usize = 0;
    while i < vars.len()
        invariant
            i <= vars.len(),
            env_value(vars@, key@, 0) == env_value(vars@, key@, i as int),
        decreases vars.len() - i,
    {
        if same_text(vars[i].name.as_str(), key) {
            return Some(vars[i].value.clone());
        }
        i += 1;
    }
    None
}

/// The outcome of a lookup as mathematical values.
pub open spec fn text_result(r: Result<String, ConfigError>) -> Result<Seq<char>, ConfigErrorView> {
    match r {
        Ok(s) => Ok(s@),
        Err(e) => Err(e@),
    }
}

/// The value of a variable that must be set.
pub open spec fn required(vars: Seq<EnvVar>, key: Seq<char>) -> Result<
    Seq<char>,
    ConfigErrorView,
> {
    match env_value(vars, key, 0) {
        Some(v) => Ok(v),
        None => Err(ConfigErrorView::MissingEnv(key)),
    }
}

/// The value of a variable that must be set.
pub fn get_env(vars: &Vec<EnvVar>, key: &str) -> (r: Result<String, ConfigError>)
    ensures
        text_result(r) == required(vars@, key@),
{
    match get_env_opt(vars, key) {
        Some(v) => Ok(v),
        None => Err(ConfigError::MissingEnv(key.to_string())),
    }
}

/// The value of a variable, or `default` where it is not set.
pub fn get_env_or(vars: &Vec<EnvVar>, key: &str, default: &str) -> (r: String)
    ensures
        r@ == match env_value(vars@, key@, 0) {
            Some(v) => v,
            None => default@,
        },
{
    match get_env_opt(vars, key) {
        Some(v) => v,
        None => default.to_string(),
    }
}

/// The port that a text names: a decimal number up to 65535, with or without a
/// `+` before it.
pub open spec fn port_of(text: Seq<char>) -> Option<u16> {
    match parse_bounded(encode_utf8(text), 65535) {
        Some(n) => Some(n as u16),
        None => None,
    }
}

fn parse_port(text: &str) -> (r: Option<u16>)
    ensures
        r == port_of(text@),
{
    match parse_u64(text.as_bytes()) {
        Some(n) => if n <= 65535 {
            Some(n as u16)
        } else {
            None
        },
        None => None,
    }
}

/// The port in a variable that must be set.
pub open spec fn required_port(vars: Seq<EnvVar>, key: Seq<char>) -> Result<u16, ConfigErrorView> {
    match env_value(vars, key, 0) {
        None => Err(ConfigErrorView::MissingEnv(key)),
        Some(v) => match port_of(v) {
            Some(p) => Ok(p),
            None => Err(ConfigErrorView::InvalidValue(key, v)),
        },
    }
}

/// The outcome of reading a port as mathematical values.
pub open spec fn port_result(r: Result<u16, ConfigError>) -> Result<u16, ConfigErrorView> {
    match r {
        Ok(p) => Ok(p),
        Err(e) => Err(e@),
    }
}

/// The port in a variable that must be set.
pub fn get_env_parse(vars: &Vec<EnvVar>, key: &str) -> (r: Result<u16, ConfigError>)
    ensures
        port_result(r) == required_port(vars@, key@),
{
    let value = match get_env_opt(vars, key) {
        Some(v) => v,
        None => {
            return Err(ConfigError::MissingEnv(key.to_string()));
        },
    };
    match parse_port(value.as_str()) {
        Some(p) => Ok(p),
        None => Err(ConfigError::InvalidValue(key.to_string(), value)),
    }
}

/// The port in a variable, or `default` where it is not set or holds no port.
pub fn get_env_parse_or(vars: &Vec<EnvVar>, key: &str, default: u16) -> (r: u16)
    ensures
        r == match env_value(vars@, key@, 0) {
            Some(v) => match port_of(v) {
                Some(p) => p,
                None => default,
            },
            None => default,
        },
{
    match get_env_opt(vars, key) {
        Some(v) => match parse_port(v.as_str()) {
            Some(p) => p,
            None => default,
        },
        None => default,
    }
}

/// The configuration of a relay.
#[derive(Debug, Clone)]
pub struct RelayConfig {
    /// The port on which agents connect.
    pub ws_port: u16,
    /// The port on which browsers connect.
    pub http_port: u16,
    /// The domain under which tunnels are served.
    pub base_domain: String,
    /// The secret under which tickets are signed.
    pub ticket_secret: String,
    /// How much is logged.
    pub log_level: String,
    /// Where the metadata service is reached.
    pub backend_url: String,
    /// The secret that the relay shows to the metadata service.
    pub relay_secret: String,
    /// The name of this relay.
    pub relay_id: String,
}

/// A `RelayConfig` as mathematical values.
pub struct RelayConfigView {
    pub ws_port: u16,
    pub http_port: u16,
    pub base_domain: Seq<char>,
    pub ticket_secret: Seq<char>,
    pub log_level: Seq<char>,
    pub backend_url: Seq<char>,
    pub relay_secret: Seq<char>,
    pub relay_id: Seq<char>,
}

impl View for RelayConfig {
    type V = RelayConfigView;

    open spec fn view(&self) -> RelayConfigView {
        RelayConfigView {
            ws_port: self.ws_port,
            http_port: self.http_port,
            base_domain: self.base_domain@,
            ticket_secret: self.ticket_secret@,
            log_level: self.log_level@,
            backend_url: self.backend_url@,
            relay_secret: self.relay_secret@,
            relay_id: self.relay_id@,
        }
    }
}

/// The outcome of loading as mathematical values.
pub open spec fn config_result(r: Result<RelayConfig, ConfigError>) -> Result<
    RelayConfigView,
    ConfigErrorView,
> {
    match r {
        Ok(c) => Ok(c@),
        Err(e) => Err(e@),
    }
}

/// The configuration that the variables `vars` give. `TICKET_SECRET`, `WS_PORT`,
/// `HTTP_PORT`, `BASE_DOMAIN`, `BACKEND_URL`, `RELAY_SECRET` and `RELAY_ID` must be
/// set; the secret must have 32 bytes or more; the ports must be ports.
/// `RUST_LOG` gives the log level, `info` where it is not set. The first fault in
/// this order is the one reported.
pub open spec fn loaded(vars: Seq<EnvVar>) -> Result<RelayConfigView, ConfigErrorView> {
    match required(vars, "TICKET_SECRET"@) {
        Err(e) => Err(e),
        Ok(ticket_secret) => if encode_utf8(ticket_secret).len() < MIN_SECRET_BYTES {
            Err(
                ConfigErrorView::InvalidValue(
                    "TICKET_SECRET"@,
                    "must be at least 32 characters"@,
                ),
            )
        } else {
            match required_port(vars, "WS_PORT"@) {
                Err(e) => Err(e),
                Ok(ws_port) => match required_port(vars, "HTTP_PORT"@) {
                    Err(e) => Err(e),
                    Ok(http_port) => match required(vars, "BASE_DOMAIN"@) {
                        Err(e) => Err(e),
                        Ok(base_domain) => match required(vars, "BACKEND_URL"@) {
                            Err(e) => Err(e),
                            Ok(backend_url) => match required(vars, "RELAY_SECRET"@) {
                                Err(e) => Err(e),
                                Ok(relay_secret) => match required(vars, "RELAY_ID"@) {
                                    Err(e) => Err(e),
                                    Ok(relay_id) => Ok(
                                        RelayConfigView {
                                            ws_port,
                                            http_port,
                                            base_domain,
                                            ticket_secret,
                                            log_level: match env_value(vars, "RUST_LOG"@, 0) {
                                                Some(v) => v,
                                                None => "info"@,
                                            },
                                            backend_url,
                                            relay_secret,
                                            relay_id,
                                        },
                                    ),
                                },
                            },
                        },
                    },
                },
            }
        },
    }
}

impl RelayConfig {
    /// Reads the configuration from the variables of the environment.
    pub fn load(vars: &Vec<EnvVar>) -> (r: Result<Self, ConfigError>)
        ensures
            config_result(r) == loaded(vars@),
    {
        let ticket_secret = match get_env(vars, "TICKET_SECRET") {
            Ok(v) => v,
            Err(e) => {
                return Err(e);
            },
        };
        if ticket_secret.as_str().as_bytes().len() < MIN_SECRET_BYTES {
            return Err(
                ConfigError::InvalidValue(
                    String::from_str("TICKET_SECRET"),
                    String::from_str("must be at least 32 characters"),
                ),
            );
        }
        let ws_port = match get_env_parse(vars, "WS_PORT") {
            Ok(v) => v,
            Err(e) => {
                return Err(e);
            },
        };
        let http_port = match get_env_parse(vars, "HTTP_PORT") {
            Ok(v) => v,
            Err(e) => {
                return Err(e);
            },
        };
        let base_domain = match get_env(vars, "BASE_DOMAIN") {
            Ok(v) => v,
            Err(e) => {
                return Err(e);
            },
        };
        let backend_url = match get_env(vars, "BACKEND_URL") {
            Ok(v) => v,
            Err(e) => {
                return Err(e);
            },
        };
        let relay_secret = match get_env(vars, "RELAY_SECRET") {
            Ok(v) => v,
            Err(e) => {
                return Err(e);
            },
        };
        let relay_id = match get_env(vars, "RELAY_ID") {
            Ok(v) => v,
            Err(e) => {
                return Err(e);
            },
        };
        let log_level = get_env_or(vars, "RUST_LOG", "info");
        Ok(
            RelayConfig {
                ws_port,
                http_port,
                base_domain,
                ticket_secret,
                log_level,
                backend_url,
                relay_secret,
                relay_id,
            },
        )
    }
}

} // verus!
