//! Service configuration: refresh cadence, collector toggles and the
//! bind addresses of the exporter endpoints, with startup validation.
use vstd::prelude::*;

verus! {

/// How often the sampling loop runs, in milliseconds.
pub struct Refresh {
    pub interval_ms: u64,
}

/// Which base collectors are enabled.
pub struct Collectors {
    pub cpu: bool,
    pub mem: bool,
    pub load: bool,
}

/// Settings of the metrics text endpoint.
pub struct PromConfig {
    pub bind: String,
}

/// Exporter endpoints; `prometheus_bind` mirrors the bind address of
/// `prometheus` once the configuration has been loaded.
pub struct Exporters {
    pub prometheus: Option<PromConfig>,
    pub prometheus_bind: Option<String>,
}

/// Settings of the HTTP query API.
pub struct Web {
    pub bind: Option<String>,
}

/// The whole service configuration.
pub struct Config {
    pub refresh: Refresh,
    pub collectors: Collectors,
    pub exporters: Exporters,
    pub web: Web,
}

/// A configuration the supervisor refuses to start with. The history
/// capacity is a constant of the service, so only the refresh cadence
/// can be invalid.
#[derive(Debug)]
pub enum ConfigError {
    /// The refresh interval is zero; the loop needs a positive cadence.
    InvalidInterval,
}

impl Config {
    /// A configuration is valid exactly when its refresh interval is positive.
    pub open spec fn is_valid(&self) -> bool {
        self.refresh.interval_ms > 0
    }

    /// Checks the configuration before any tick runs.
    pub fn validate(&self) -> (r: Result<(), ConfigError>)
        ensures
            r is Ok <==> self.is_valid(),
            r is Err ==> r->Err_0 is InvalidInterval,
    {
        if self.refresh.interval_ms > 0 {
            Ok(())
        } else {
            Err(ConfigError::InvalidInterval)
        }
    }
}

} // verus!
