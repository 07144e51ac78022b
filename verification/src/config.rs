//! Configuration: every field has a default, so an empty file works; a
//! loaded configuration is checked before use.
//!
//! Reading the TOML file is the caller's; the defaults, the check and the
//! fallback are here.
use crate::text::owned;
use vstd::prelude::*;

verus! {

#[verifier::external_type_specification]
#[verifier::external_body]
pub struct ExTomlDeError(toml::de::Error);

#[verifier::external_type_specification]
#[verifier::external_body]
pub struct ExTomlSerError(toml::ser::Error);

#[derive(Debug)]
pub enum CoreError {
    Io(std::io::Error),
    TomlDecode(toml::de::Error),
    TomlEncode(toml::ser::Error),
    ConfigNotFound(String),
    InvalidConfig(String),
}

#[derive(Debug, Clone)]
pub struct ServerConfig {
    /// Listen address, such as `0.0.0.0:8787`.
    pub listen: String,
    /// Shown in the panel's "copy connection URL"; not used for routing.
    pub public_url: String,
    /// The address AI clients are told to reach the game server at; empty
    /// means the host part of `listen`.
    pub public_host: String,
    /// Data directory; empty means the platform default.
    pub data_dir: String,
}

#[derive(Debug, Clone)]
pub struct McConfig {
    pub default_version: String,
    pub heap_mb: u32,
    /// Game port, written to `server.properties` at every start.
    pub server_port: u16,
    /// Empty: chosen or downloaded when the server starts.
    pub java_path: String,
    /// Empty: generated at random and written to `server.properties`.
    pub rcon_password: String,
    pub rcon_port: u16,
}

#[derive(Debug, Clone)]
pub struct RuntimeConfig {
    pub auto_install_java: bool,
    pub auto_install_paper: bool,
    /// `default`, `tuna`, `bmclapi` or a base URL.
    pub mirror: String,
}

#[derive(Debug, Clone)]
pub struct SecurityConfig {
    pub session_ttl_secs: i64,
    /// Whether people other than the owner may sign up without an invite.
    pub allow_signup: bool,
    /// Trusted reverse proxies; `X-Forwarded-For` is read only when set.
    pub trusted_proxy: String,
}

#[derive(Debug, Clone)]
pub struct McpConfig {
    pub enabled: bool,
    pub require_api_key: bool,
}

#[derive(Debug, Clone)]
pub struct Config {
    pub server: ServerConfig,
    pub mc: McConfig,
    pub runtime: RuntimeConfig,
    pub security: SecurityConfig,
    pub mcp: McpConfig,
}

pub open spec fn server_default(c: ServerConfig) -> bool {
    &&& c.listen@ == "0.0.0.0:8787"@
    &&& c.public_url@ == Seq::<char>::empty()
    &&& c.public_host@ == Seq::<char>::empty()
    &&& c.data_dir@ == Seq::<char>::empty()
}

pub open spec fn mc_default(c: McConfig) -> bool {
    &&& c.default_version@ == "1.21.11"@
    &&& c.heap_mb == 4096
    &&& c.server_port == 25565
    &&& c.java_path@ == Seq::<char>::empty()
    &&& c.rcon_password@ == Seq::<char>::empty()
    &&& c.rcon_port == 25575
}

pub open spec fn runtime_default(c: RuntimeConfig) -> bool {
    c.auto_install_java && c.auto_install_paper && c.mirror@ == "default"@
}

pub open spec fn security_default(c: SecurityConfig) -> bool {
    c.session_ttl_secs == 30 * 24 * 3600 && !c.allow_signup && c.trusted_proxy@ == Seq::<
        char,
    >::empty()
}

pub open spec fn mcp_default(c: McpConfig) -> bool {
    c.enabled && c.require_api_key
}

pub open spec fn config_default(c: Config) -> bool {
    &&& server_default(c.server)
    &&& mc_default(c.mc)
    &&& runtime_default(c.runtime)
    &&& security_default(c.security)
    &&& mcp_default(c.mcp)
}

fn empty() -> (r: String)
    ensures
        r@ == Seq::<char>::empty(),
{
    String::new()
}

impl Default for ServerConfig {
    fn default() -> (r: Self)
        ensures
            server_default(r),
    {
        ServerConfig {
            listen: owned("0.0.0.0:8787"),
            public_url: empty(),
            public_host: empty(),
            data_dir: empty(),
        }
    }
}

impl Default for McConfig {
    fn default() -> (r: Self)
        ensures
            mc_default(r),
    {
        McConfig {
            default_version: owned("1.21.11"),
            heap_mb: 4096,
            server_port: 25565,
            java_path: empty(),
            rcon_password: empty(),
            rcon_port: 25575,
        }
    }
}

impl Default for RuntimeConfig {
    fn default() -> (r: Self)
        ensures
            runtime_default(r),
    {
        RuntimeConfig { auto_install_java: true, auto_install_paper: true, mirror: owned("default") }
    }
}

impl Default for SecurityConfig {
    fn default() -> (r: Self)
        ensures
            security_default(r),
    {
        SecurityConfig { session_ttl_secs: 30 * 24 * 3600, allow_signup: false, trusted_proxy: empty() }
    }
}

impl Default for McpConfig {
    fn default() -> (r: Self)
        ensures
            mcp_default(r),
    {
        McpConfig { enabled: true, require_api_key: true }
    }
}

impl Default for Config {
    fn default() -> (r: Self)
        ensures
            config_default(r),
    {
        Config {
            server: ServerConfig::default(),
            mc: McConfig::default(),
            runtime: RuntimeConfig::default(),
            security: SecurityConfig::default(),
            mcp: McpConfig::default(),
        }
    }
}

/// A configuration is usable when it has a listen address and at least
/// 256 MB of heap for the game server.
pub open spec fn config_valid(c: Config) -> bool {
    c.server.listen@.len() > 0 && c.mc.heap_mb >= 256
}

impl Config {
    /// The check made on a loaded configuration.
    pub fn validate(&self) -> (r: Result<(), CoreError>)
        ensures
            self.server.listen@.len() == 0 ==> (r matches Err(CoreError::InvalidConfig(m)) && m@
                == "server.listen empty"@),
            self.server.listen@.len() > 0 && self.mc.heap_mb < 256 ==> (r matches Err(
                CoreError::InvalidConfig(m),
            ) && m@ == "mc.heap_mb too small (>=256 required)"@),
            config_valid(*self) ==> r is Ok,
    {
        if self.server.listen.as_str().is_empty() {
            return Err(CoreError::InvalidConfig(owned("server.listen empty")));
        }
        if self.mc.heap_mb < 256 {
            return Err(CoreError::InvalidConfig(owned("mc.heap_mb too small (>=256 required)")));
        }
        Ok(())
    }

    /// What `load_from` returns once the file was read and decoded: the
    /// configuration if it passes the check, else the check's error.
    pub fn accept(cfg: Config) -> (r: Result<Config, CoreError>)
        ensures
            config_valid(cfg) ==> (r matches Ok(c) && c == cfg),
            !config_valid(cfg) ==> r matches Err(CoreError::InvalidConfig(_)),
    {
        match cfg.validate() {
            Ok(()) => Ok(cfg),
            Err(e) => Err(e),
        }
    }

    /// `load_or_default`: a loaded configuration, or the defaults whatever
    /// went wrong.
    pub fn or_default(loaded: Result<Config, CoreError>) -> (r: Config)
        ensures
            loaded matches Ok(c) ==> r == c,
            loaded is Err ==> config_default(r),
    {
        match loaded {
            Ok(c) => c,
            Err(_) => Config::default(),
        }
    }
}

/// The defaults pass the check, so falling back never yields an unusable
/// configuration.
pub proof fn lemma_default_valid(c: Config)
    requires
        config_default(c),
    ensures
        config_valid(c),
{
    reveal_strlit("0.0.0.0:8787");
}

} // verus!
