//! Server settings, and the cross-origin policy they describe.
use vstd::prelude::*;

verus! {

/// Why the settings could not be loaded.
#[derive(Debug)]
pub enum Error {
    MissingField(String),
    InvalidField(String),
    /// The settings file could not be read; the system's explanation.
    Io(String),
    /// The settings could not be parsed; the parser's explanation.
    Parse(String),
}

/// The server's settings.
pub struct Config {
    pub cors: Option<CorsConfig>,
    pub mongo_uri: String,
    pub db_name: String,
    pub address: Vec<String>,
    pub jwt_secret: String,
}

/// The cross-origin settings as written; an absent entry takes its default.
pub struct CorsConfig {
    pub allow_origins: Option<Vec<String>>,
    pub allow_methods: Option<Vec<String>>,
    pub allow_headers: Option<Vec<String>>,
    pub expose_headers: Option<Vec<String>>,
    pub max_age: Option<usize>,
    pub preflight: Option<bool>,
    pub send_wildcard: Option<bool>,
    pub supports_credentials: Option<bool>,
    pub vary_header: Option<bool>,
    pub block_on_origin_mismatch: Option<bool>,
}

/// Which origins, methods or headers a policy admits.
pub enum Allowed {
    Any,
    Listed(Vec<String>),
}

/// The cross-origin policy to install, with every default settled.
pub struct CorsPolicy {
    pub origins: Allowed,
    pub methods: Allowed,
    pub headers: Allowed,
    pub expose_headers: Option<Vec<String>>,
    pub max_age: Option<usize>,
    pub preflight: bool,
    pub send_wildcard: bool,
    pub supports_credentials: bool,
    pub vary_header: bool,
    pub block_on_origin_mismatch: Option<bool>,
}

/// A list if one was given, else anything.
pub open spec fn allowed_of(v: Option<Vec<String>>) -> Allowed {
    match v {
        Some(list) => Allowed::Listed(list),
        None => Allowed::Any,
    }
}

fn allowed(v: Option<Vec<String>>) -> (a: Allowed)
    ensures
        a == allowed_of(v),
{
    match v {
        Some(list) => Allowed::Listed(list),
        None => Allowed::Any,
    }
}

impl CorsConfig {
    /// Settles the defaults: lists left out admit anything; preflight,
    /// credentials and the `Vary` header stay on unless switched off; a
    /// wildcard answer is sent only when asked for.
    pub fn into_policy(self) -> (p: CorsPolicy)
        ensures
            p.origins == allowed_of(self.allow_origins),
            p.methods == allowed_of(self.allow_methods),
            p.headers == allowed_of(self.allow_headers),
            p.expose_headers == self.expose_headers,
            p.max_age == self.max_age,
            p.preflight == (self.preflight != Some(false)),
            p.send_wildcard == (self.send_wildcard == Some(true)),
            p.supports_credentials == (self.supports_credentials != Some(false)),
            p.vary_header == (self.vary_header != Some(false)),
            p.block_on_origin_mismatch == self.block_on_origin_mismatch,
    {
        let preflight = !matches!(self.preflight, Some(false));
        let send_wildcard = matches!(self.send_wildcard, Some(true));
        let supports_credentials = !matches!(self.supports_credentials, Some(false));
        let vary_header = !matches!(self.vary_header, Some(false));
        CorsPolicy {
            origins: allowed(self.allow_origins),
            methods: allowed(self.allow_methods),
            headers: allowed(self.allow_headers),
            expose_headers: self.expose_headers,
            max_age: self.max_age,
            preflight,
            send_wildcard,
            supports_credentials,
            vary_header,
            block_on_origin_mismatch: self.block_on_origin_mismatch,
        }
    }
}

} // verus!
