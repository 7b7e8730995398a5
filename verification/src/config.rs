use vstd::prelude::*;

verus! {

/// Process-wide static configuration, constructed once at startup from the
/// environment and passed by reference into every component that needs it.
#[derive(Debug, Clone)]
pub struct BeConfig {
    /// The log level for the application.
    pub log_level: String,
    /// The port on which the backend listens.
    pub backend_port: u16,
    /// The fixed timezone offset, in hours east of UTC, that timestamps are
    /// normalized to before serialization.
    pub tz_east_offset_in_hours: i32,
    /// The configuration for token issuance.
    pub jwt_config: JwtConfig,
    /// The URL of the record store.
    pub database_url: String,
}

/// Token issuance configuration.
#[derive(Debug, Clone)]
pub struct JwtConfig {
    /// The signing secret.
    pub jwt_secret: String,
    /// The token lifetime, in seconds.
    pub jwt_exp_value: i64,
}

/// The application context handed to request handlers: the configuration,
/// read-only after startup.
#[derive(Debug, Clone)]
pub struct BeContext {
    pub config: BeConfig,
}

} // verus!
