use uart_bridge::config::{Config, ConfigError, DatabaseConfig, NotificationConfig, SerialConfig};

fn good() -> Config {
    Config {
        serial: SerialConfig {
            port_name: "auto".to_string(),
            baud_rate: 115200,
            timeout_ms: 1000,
            max_retry_count: 3,
            retry_delay_ms: 10,
        },
        database: DatabaseConfig { path: "sms.db".to_string() },
        notification: NotificationConfig {
            bark_server_url: "https://api.day.app".to_string(),
            bark_device_key: "key".to_string(),
            enabled: true,
        },
    }
}

#[test]
fn valid_config_passes() {
    assert_eq!(good().validate(), Ok(()));
}

#[test]
fn each_rule_is_checked() {
    let mut c = good();
    c.serial.baud_rate = 0;
    assert_eq!(c.validate(), Err(ConfigError::ZeroBaudRate));
    let mut c = good();
    c.serial.timeout_ms = 0;
    assert_eq!(c.validate(), Err(ConfigError::ZeroTimeout));
    let mut c = good();
    c.serial.max_retry_count = 0;
    assert_eq!(c.validate(), Err(ConfigError::ZeroMaxRetryCount));
    let mut c = good();
    c.serial.retry_delay_ms = 0;
    assert_eq!(c.validate(), Err(ConfigError::ZeroRetryDelay));
    let mut c = good();
    c.database.path = String::new();
    assert_eq!(c.validate(), Err(ConfigError::EmptyDatabasePath));
    let mut c = good();
    c.notification.bark_server_url = String::new();
    assert_eq!(c.validate(), Err(ConfigError::EmptyBarkServerUrl));
    let mut c = good();
    c.notification.bark_device_key = String::new();
    assert_eq!(c.validate(), Err(ConfigError::EmptyBarkDeviceKey));
}

#[test]
fn first_broken_rule_wins() {
    let mut c = good();
    c.serial.baud_rate = 0;
    c.database.path = String::new();
    assert_eq!(c.validate(), Err(ConfigError::ZeroBaudRate));
}

#[test]
fn disabled_notifications_need_no_url() {
    let mut c = good();
    c.notification.enabled = false;
    c.notification.bark_server_url = String::new();
    c.notification.bark_device_key = String::new();
    assert_eq!(c.validate(), Ok(()));
}

#[test]
fn error_messages() {
    assert_eq!(ConfigError::ZeroBaudRate.message(), "Invalid baud_rate: must be greater than 0");
    assert_eq!(ConfigError::EmptyDatabasePath.message(), "Database path cannot be empty");
}
