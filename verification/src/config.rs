//! The server's configuration: where to listen.

use vstd::prelude::*;

verus! {

/// The configuration as the file gives it.
#[derive(Debug, PartialEq, Eq)]
pub struct Config {
    pub network: Network,
}

/// The address to listen on; either part may be left out.
#[derive(Debug, PartialEq, Eq)]
pub struct Network {
    pub ip: Option<String>,
    pub port: Option<u16>,
}

/// Why no configuration could be had.
#[derive(Debug, PartialEq, Eq)]
pub enum ConfigError {
    FileNotFound,
    /// The file is no valid configuration; the parser's complaint is kept.
    MalformedConfig(String),
}

/// The port to listen on where the configuration names none.
pub const DEFAULT_PORT: u16 = 6969;

/// The host to listen on where the configuration names none.
pub open spec fn default_host() -> Seq<char> {
    "127.0.0.1"@
}

/// The host that a configuration, or the lack of one, comes to.
pub open spec fn host_of(config: Result<Config, ConfigError>) -> Seq<char> {
    match config {
        Ok(Config { network: Network { ip: Some(ip), port: _ } }) => ip@,
        _ => default_host(),
    }
}

/// The port that a configuration, or the lack of one, comes to.
pub open spec fn port_of(config: Result<Config, ConfigError>) -> u16 {
    match config {
        Ok(Config { network: Network { ip: _, port: Some(port) } }) => port,
        _ => DEFAULT_PORT,
    }
}

/// The words for a configuration error.
pub open spec fn config_error_text(error: ConfigError) -> Seq<char> {
    match error {
        ConfigError::FileNotFound => "could not found the 'config.toml' config file"@,
        ConfigError::MalformedConfig(complaint) => complaint@,
    }
}

impl ConfigError {
    /// The error in words.
    pub fn message(&self) -> (text: String)
        ensures
            text@ == config_error_text(*self),
    {
        match self {
            ConfigError::FileNotFound => String::from_str(
                "could not found the 'config.toml' config file",
            ),
            ConfigError::MalformedConfig(complaint) => complaint.clone(),
        }
    }
}

/// The host and port to listen on: those of the configuration where it was
/// read and names them, `127.0.0.1` and 6969 otherwise.
pub fn get_ip_port_from_config(config: Result<Config, ConfigError>) -> (address: (String, u16))
    ensures
        address.0@ == host_of(config),
        address.1 == port_of(config),
{
    match config {
        Ok(config) => {
            let host = match config.network.ip {
                Some(ip) => ip,
                None => String::from_str("127.0.0.1"),
            };
            let port = match config.network.port {
                Some(port) => port,
                None => DEFAULT_PORT,
            };
            (host, port)
        },
        Err(_) => (String::from_str("127.0.0.1"), DEFAULT_PORT),
    }
}

} // verus!
