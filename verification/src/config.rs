//! Deployment configuration: the mode an instance runs in and the settings
//! each subsystem reads. Loading from disk or the environment happens
//! outside the library; the values arrive as plain data.

use vstd::prelude::*;

verus! {

/// Which endpoints this instance exposes.
#[derive(Debug, Clone, Copy, PartialEq, Eq, Structural)]
pub enum ServerMode {
    /// Central auth hub: only registration, login and token validation.
    AuthHub,
    /// Self-hosted community: servers, channels, messages, voice; validates
    /// tokens against the auth hub's public key.
    Community,
    /// Auth and community in one process.
    Standalone,
}

impl Default for ServerMode {
    fn default() -> (r: Self)
        ensures
            r is Standalone,
    {
        ServerMode::Standalone
    }
}

#[derive(Debug, Clone)]
pub struct ServerConfig {
    pub host: String,
    pub port: u16,
    pub public_url: String,
}

#[derive(Debug, Clone)]
pub struct DatabaseConfig {
    pub url: String,
    pub max_connections: u32,
}

#[derive(Debug, Clone)]
pub struct RedisConfig {
    pub url: String,
}

#[derive(Debug, Clone)]
pub struct VoiceConfig {
    pub host: String,
    pub port: u16,
    pub max_sessions: u32,
    pub min_bitrate: u32,
    pub max_bitrate: u32,
}

#[derive(Debug, Clone)]
pub struct TlsConfig {
    pub cert_path: String,
    pub key_path: String,
    pub acme_enabled: bool,
    pub acme_domain: String,
}

#[derive(Debug, Clone)]
pub struct AuthConfig {
    /// Path to the RSA private key PEM (required to sign: auth hub and
    /// standalone).
    pub jwt_private_key_path: Option<String>,
    /// Path to the RSA public key PEM (required in all modes).
    pub jwt_public_key_path: String,
    /// Token lifetime in seconds.
    pub token_expiry: u64,
    pub allow_local_registration: bool,
}

#[derive(Debug, Clone)]
pub struct IdentityConfig {
    pub federation_enabled: bool,
    /// URL of the central auth hub, used in community mode.
    pub auth_hub_url: String,
}

#[derive(Debug, Clone)]
pub struct LoggingConfig {
    pub level: String,
    pub format: String,
}

#[derive(Debug, Clone)]
pub struct AppConfig {
    pub mode: ServerMode,
    pub server: ServerConfig,
    pub database: DatabaseConfig,
    pub redis: RedisConfig,
    pub voice: VoiceConfig,
    pub tls: TlsConfig,
    pub auth: AuthConfig,
    pub identity: IdentityConfig,
    pub logging: LoggingConfig,
}

impl AppConfig {
    /// Whether this instance handles auth (login and registration).
    pub fn is_auth_hub(&self) -> (r: bool)
        ensures
            r == (self.mode is AuthHub || self.mode is Standalone),
    {
        match self.mode {
            ServerMode::AuthHub => true,
            ServerMode::Standalone => true,
            ServerMode::Community => false,
        }
    }

    /// Whether this instance hosts community features (servers, channels,
    /// messages, voice).
    pub fn is_community(&self) -> (r: bool)
        ensures
            r == (self.mode is Community || self.mode is Standalone),
    {
        match self.mode {
            ServerMode::Community => true,
            ServerMode::Standalone => true,
            ServerMode::AuthHub => false,
        }
    }
}

} // verus!
