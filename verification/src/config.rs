//! The service configuration: where the vector store is, and where to listen.
use vstd::prelude::*;

use crate::text::{decimal, parse_u16, parse_u16_exec, u64_to_decimal};

verus! {

/// The service configuration.
#[derive(Clone, Debug)]
pub struct Config {
    pub qdrant_url: String,
    pub qdrant_api_key: Option<String>,
    pub server_host: String,
    pub server_port: u16,
}

/// Why a configuration is refused.
#[derive(Clone, Debug)]
pub enum ConfigError {
    /// The port setting, which is not a decimal number from 0 to 65535.
    InvalidPort(String),
}

/// The vector store used when none is set.
pub open spec fn default_qdrant_url() -> Seq<char> {
    "http://localhost:6334"@
}

/// The host listened on when none is set.
pub open spec fn default_server_host() -> Seq<char> {
    "0.0.0.0"@
}

/// The port setting used when none is set.
pub open spec fn default_server_port() -> Seq<char> {
    "3000"@
}

/// A setting, or its default when it is not set.
pub open spec fn or_default(v: Option<String>, default: Seq<char>) -> Seq<char> {
    match v {
        Some(s) => s@,
        None => default,
    }
}

fn value_or(v: Option<String>, default: &str) -> (r: String)
    ensures
        r@ == or_default(v, default@),
{
    match v {
        Some(s) => s,
        None => String::from_str(default),
    }
}

impl Config {
    /// The configuration from the settings that are set: the store URL
    /// (default `http://localhost:6334`), its API key (none by default), the
    /// host (default `0.0.0.0`) and the port (default `3000`). The port must
    /// parse as a `u16`; the refusal carries the port setting.
    pub fn from_vars(
        qdrant_url: Option<String>,
        qdrant_api_key: Option<String>,
        server_host: Option<String>,
        server_port: Option<String>,
    ) -> (r: Result<Config, ConfigError>)
        ensures
            r is Ok <==> parse_u16(or_default(server_port, default_server_port())) is Some,
            r matches Ok(c) ==> {
                &&& c.qdrant_url@ == or_default(qdrant_url, default_qdrant_url())
                &&& c.qdrant_api_key == qdrant_api_key
                &&& c.server_host@ == or_default(server_host, default_server_host())
                &&& Some(c.server_port) == parse_u16(
                    or_default(server_port, default_server_port()),
                )
            },
            r matches Err(ConfigError::InvalidPort(p)) ==> p@ == or_default(
                server_port,
                default_server_port(),
            ),
    {
        let port_text = value_or(server_port, "3000");
        match parse_u16_exec(port_text.as_str()) {
            Some(port) => Ok(
                Config {
                    qdrant_url: value_or(qdrant_url, "http://localhost:6334"),
                    qdrant_api_key,
                    server_host: value_or(server_host, "0.0.0.0"),
                    server_port: port,
                },
            ),
            None => Err(ConfigError::InvalidPort(port_text)),
        }
    }

    /// The address to listen on: `host:port`.
    pub fn server_address(&self) -> (r: String)
        ensures
            r@ == self.server_host@ + ":"@ + decimal(self.server_port as nat),
    {
        let port = u64_to_decimal(self.server_port as u64);
        let a = self.server_host.clone();
        let a = a.concat(":");
        a.concat(port.as_str())
    }
}

/// A port written out in decimal reads back as the same port: the address a
/// configuration listens on names the port that configured it.
pub proof fn lemma_port_roundtrip(port: u16)
    ensures
        parse_u16(decimal(port as nat)) == Some(port),
{
    crate::text::lemma_decimal_digits(port as nat);
}

} // verus!
