//! Server configuration: its defaults, accessors, and the environment
//! overrides applied after the configuration file is read.

use vstd::prelude::*;
use crate::num::{decimal, parse_u16, parse_unsigned, push_decimal};
use crate::text::{chars_of, string_from_chars};

verus! {

broadcast use vstd::string::group_string_axioms;

/// Whole server configuration.
#[derive(Clone, Debug)]
pub struct Config {
    pub server: ServerConfig,
    pub data: DataConfig,
    pub auth: AuthConfig,
}

/// Where the HTTP server listens.
#[derive(Clone, Debug)]
pub struct ServerConfig {
    pub host: String,
    pub port: u16,
}

/// Where the server keeps its data.
#[derive(Clone, Debug)]
pub struct DataConfig {
    pub db_path: String,
    pub thumbnail_dir: String,
    pub download_dir: String,
}

/// Token signing settings.
#[derive(Clone, Debug)]
pub struct AuthConfig {
    pub jwt_secret: String,
    pub jwt_expiry_hours: u32,
}

/// Default listen host.
pub fn default_host() -> (r: String)
    ensures
        r@ == "0.0.0.0"@,
{
    "0.0.0.0".to_string()
}

/// Default listen port.
pub fn default_port() -> (r: u16)
    ensures
        r == 8080,
{
    8080
}

/// Default database file.
pub fn default_db_path() -> (r: String)
    ensures
        r@ == "data/lumina.db"@,
{
    "data/lumina.db".to_string()
}

/// Default thumbnail directory.
pub fn default_thumbnail_dir() -> (r: String)
    ensures
        r@ == "data/thumbnails"@,
{
    "data/thumbnails".to_string()
}

/// Default download directory.
pub fn default_download_dir() -> (r: String)
    ensures
        r@ == "data/downloads"@,
{
    "data/downloads".to_string()
}

/// Default token signing secret.
pub fn default_jwt_secret() -> (r: String)
    ensures
        r@ == "change-me-in-production"@,
{
    "change-me-in-production".to_string()
}

/// Default token lifetime in hours.
pub fn default_jwt_expiry() -> (r: u32)
    ensures
        r == 24,
{
    24
}

impl Default for ServerConfig {
    fn default() -> (r: Self)
        ensures
            r.host@ == "0.0.0.0"@,
            r.port == 8080,
    {
        ServerConfig { host: default_host(), port: default_port() }
    }
}

impl Default for DataConfig {
    fn default() -> (r: Self)
        ensures
            r.db_path@ == "data/lumina.db"@,
            r.thumbnail_dir@ == "data/thumbnails"@,
            r.download_dir@ == "data/downloads"@,
    {
        DataConfig {
            db_path: default_db_path(),
            thumbnail_dir: default_thumbnail_dir(),
            download_dir: default_download_dir(),
        }
    }
}

impl Default for AuthConfig {
    fn default() -> (r: Self)
        ensures
            r.jwt_secret@ == "change-me-in-production"@,
            r.jwt_expiry_hours == 24,
    {
        AuthConfig { jwt_secret: default_jwt_secret(), jwt_expiry_hours: default_jwt_expiry() }
    }
}

impl Default for Config {
    fn default() -> (r: Self)
        ensures
            r.server.host@ == "0.0.0.0"@,
            r.server.port == 8080,
            r.data.db_path@ == "data/lumina.db"@,
            r.data.thumbnail_dir@ == "data/thumbnails"@,
            r.data.download_dir@ == "data/downloads"@,
            r.auth.jwt_secret@ == "change-me-in-production"@,
            r.auth.jwt_expiry_hours == 24,
    {
        Config {
            server: ServerConfig::default(),
            data: DataConfig::default(),
            auth: AuthConfig::default(),
        }
    }
}

impl Config {
    /// `host:port`, the address the server binds.
    pub fn server_addr(&self) -> (r: String)
        ensures
            r@ == self.server.host@ + seq![':'] + decimal(self.server.port as nat),
    {
        let mut v = chars_of(self.server.host.as_str());
        v.push(':');
        push_decimal(&mut v, self.server.port as u64);
        string_from_chars(&v)
    }

    /// The database file.
    pub fn db_path(&self) -> (r: &String)
        ensures
            r == &self.data.db_path,
    {
        &self.data.db_path
    }

    /// The thumbnail directory.
    pub fn thumbnail_dir(&self) -> (r: &String)
        ensures
            r == &self.data.thumbnail_dir,
    {
        &self.data.thumbnail_dir
    }

    /// The download directory.
    pub fn download_dir(&self) -> (r: &String)
        ensures
            r == &self.data.download_dir,
    {
        &self.data.download_dir
    }

    /// The token signing secret.
    pub fn jwt_secret(&self) -> (r: &str)
        ensures
            r@ == self.auth.jwt_secret@,
    {
        self.auth.jwt_secret.as_str()
    }

    /// Token lifetime in hours.
    pub fn jwt_expiry_hours(&self) -> (r: u32)
        ensures
            r == self.auth.jwt_expiry_hours,
    {
        self.auth.jwt_expiry_hours
    }
}

/// The configuration file to read: the `LUMINA_CONFIG` value when it is
/// set, else `config.toml`.
pub fn config_file_name(from_env: Option<String>) -> (r: String)
    ensures
        from_env matches Some(f) ==> r@ == f@,
        from_env is None ==> r@ == "config.toml"@,
{
    match from_env {
        Some(f) => f,
        None => "config.toml".to_string(),
    }
}

/// Applies the environment overrides to a configuration read from file:
/// `LUMINA_HOST`, `LUMINA_PORT` (only when it reads as a port number),
/// `LUMINA_DB_PATH` and `LUMINA_JWT_SECRET`. Each argument is the
/// variable's value when it is set.
pub fn apply_env_overrides(
    config: &mut Config,
    host: Option<String>,
    port: Option<String>,
    db_path: Option<String>,
    jwt_secret: Option<String>,
)
    ensures
        final(config).server.host@ == (match host {
            Some(h) => h@,
            None => old(config).server.host@,
        }),
        final(config).server.port == (match port {
            Some(p) => match parse_unsigned(p@, u16::MAX as nat) {
                Some(n) => n as u16,
                None => old(config).server.port,
            },
            None => old(config).server.port,
        }),
        final(config).data.db_path@ == (match db_path {
            Some(d) => d@,
            None => old(config).data.db_path@,
        }),
        final(config).auth.jwt_secret@ == (match jwt_secret {
            Some(s) => s@,
            None => old(config).auth.jwt_secret@,
        }),
        final(config).data.thumbnail_dir == old(config).data.thumbnail_dir,
        final(config).data.download_dir == old(config).data.download_dir,
        final(config).auth.jwt_expiry_hours == old(config).auth.jwt_expiry_hours,
{
    if let Some(h) = host {
        config.server.host = h;
    }
    if let Some(p) = port {
        let pc = chars_of(p.as_str());
        if let Some(n) = parse_u16(&pc) {
            config.server.port = n;
        }
    }
    if let Some(d) = db_path {
        config.data.db_path = d;
    }
    if let Some(s) = jwt_secret {
        config.auth.jwt_secret = s;
    }
}

} // verus!
