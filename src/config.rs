use vstd::prelude::*;

verus! {

/// Serial link settings.
#[derive(Clone, Debug)]
pub struct SerialConfig {
    pub port_name: String,
    pub baud_rate: u32,
    pub timeout_ms: u64,
    pub max_retry_count: u32,
    pub retry_delay_ms: u64,
}

/// Location of the SMS store.
#[derive(Clone, Debug)]
pub struct DatabaseConfig {
    pub path: String,
}

/// Push notification settings.
#[derive(Clone, Debug)]
pub struct NotificationConfig {
    pub bark_server_url: String,
    pub bark_device_key: String,
    pub enabled: bool,
}

/// The whole configuration.
#[derive(Clone, Debug)]
pub struct Config {
    pub serial: SerialConfig,
    pub database: DatabaseConfig,
    pub notification: NotificationConfig,
}

/// Why a configuration was rejected.
#[derive(Clone, Copy, Debug, PartialEq, Eq, Structural)]
pub enum ConfigError {
    ZeroBaudRate,
    ZeroTimeout,
    ZeroMaxRetryCount,
    ZeroRetryDelay,
    EmptyDatabasePath,
    EmptyBarkServerUrl,
    EmptyBarkDeviceKey,
}

/// The first rule that `c` breaks, checked in a fixed order, or `None`.
pub open spec fn first_config_error(c: Config) -> Option<ConfigError> {
    if c.serial.baud_rate == 0 {
        Some(ConfigError::ZeroBaudRate)
    } else if c.serial.timeout_ms == 0 {
        Some(ConfigError::ZeroTimeout)
    } else if c.serial.max_retry_count == 0 {
        Some(ConfigError::ZeroMaxRetryCount)
    } else if c.serial.retry_delay_ms == 0 {
        Some(ConfigError::ZeroRetryDelay)
    } else if c.database.path@.len() == 0 {
        Some(ConfigError::EmptyDatabasePath)
    } else if c.notification.enabled && c.notification.bark_server_url@.len() == 0 {
        Some(ConfigError::EmptyBarkServerUrl)
    } else if c.notification.enabled && c.notification.bark_device_key@.len() == 0 {
        Some(ConfigError::EmptyBarkDeviceKey)
    } else {
        None
    }
}

impl ConfigError {
    /// The description of each error.
    pub open spec fn message_text(self) -> Seq<char> {
        match self {
            ConfigError::ZeroBaudRate => "Invalid baud_rate: must be greater than 0"@,
            ConfigError::ZeroTimeout => "Invalid timeout_ms: must be greater than 0"@,
            ConfigError::ZeroMaxRetryCount => "Invalid max_retry_count: must be greater than 0"@,
            ConfigError::ZeroRetryDelay => "Invalid retry_delay_ms: must be greater than 0"@,
            ConfigError::EmptyDatabasePath => "Database path cannot be empty"@,
            ConfigError::EmptyBarkServerUrl =>
                "Bark server URL cannot be empty when notifications are enabled"@,
            ConfigError::EmptyBarkDeviceKey =>
                "Bark device key cannot be empty when notifications are enabled"@,
        }
    }

    /// A human-readable description of the error.
    pub fn message(&self) -> (r: String)
        ensures
            r@ == self.message_text(),
    {
        match self {
            ConfigError::ZeroBaudRate => "Invalid baud_rate: must be greater than 0".to_owned(),
            ConfigError::ZeroTimeout => "Invalid timeout_ms: must be greater than 0".to_owned(),
            ConfigError::ZeroMaxRetryCount =>
                "Invalid max_retry_count: must be greater than 0".to_owned(),
            ConfigError::ZeroRetryDelay => "Invalid retry_delay_ms: must be greater than 0".to_owned(),
            ConfigError::EmptyDatabasePath => "Database path cannot be empty".to_owned(),
            ConfigError::EmptyBarkServerUrl =>
                "Bark server URL cannot be empty when notifications are enabled".to_owned(),
            ConfigError::EmptyBarkDeviceKey =>
                "Bark device key cannot be empty when notifications are enabled".to_owned(),
        }
    }
}

impl Config {
    /// Checks every field; a zero or empty required value is an error, and so
    /// is an empty URL or key while notifications are enabled.
    pub fn validate(&self) -> (r: Result<(), ConfigError>)
        ensures
            r == (match first_config_error(*self) {
                None => Ok(()),
                Some(e) => Err(e),
            }),
    {
        if self.serial.baud_rate == 0 {
            return Err(ConfigError::ZeroBaudRate);
        }
        if self.serial.timeout_ms == 0 {
            return Err(ConfigError::ZeroTimeout);
        }
        if self.serial.max_retry_count == 0 {
            return Err(ConfigError::ZeroMaxRetryCount);
        }
        if self.serial.retry_delay_ms == 0 {
            return Err(ConfigError::ZeroRetryDelay);
        }
        if self.database.path.as_str().is_empty() {
            return Err(ConfigError::EmptyDatabasePath);
        }
        if self.notification.enabled {
            if self.notification.bark_server_url.as_str().is_empty() {
                return Err(ConfigError::EmptyBarkServerUrl);
            }
            if self.notification.bark_device_key.as_str().is_empty() {
                return Err(ConfigError::EmptyBarkDeviceKey);
            }
        }
        Ok(())
    }
}

} // verus!
