use daktronics_allsport_5000::config::{
    default_mqtt_client_id, default_mqtt_host, default_mqtt_port, default_mqtt_retain,
    default_mqtt_topic, default_publish_interval_ms, default_serial_device, serial_device_for_separator,
    AppConfig,
    DEFAULT_CONFIG_PATH,
};
use daktronics_allsport_5000::controllers::{ActiveSport, ControllerType};

#[test]
fn default_configuration() {
    let c = AppConfig::default();
    assert!(c.web_enabled);
    assert_eq!(c.web_bind, "0.0.0.0:8080");
    assert_eq!(c.controller_type, ControllerType::Daktronics);
    assert_eq!(c.active_sport, ActiveSport::Basketball);
    assert_eq!(c.public_status_uuid, "00000000-0000-0000-0000-000000000001");
    assert_eq!(c.admin_username, "admin");
    assert_eq!(c.admin_password_hash, "admin");
    assert_eq!(c.serial_device, platform_serial_device());
    assert!(!c.mqtt_enabled);
    assert_eq!(c.mqtt_host, "mqtt.scorenode.org");
    assert_eq!(c.mqtt_port, 1883);
    assert_eq!(c.mqtt_topic, "scoreboard/status");
    assert!(c.mqtt_retain);
    assert_eq!(c.mqtt_client_id, "hawkbot");
    assert!(c.mqtt_username.is_none() && c.mqtt_password.is_none());
    assert!(!c.mqtt_use_tls);
    assert!(c.mqtt_ca_file.is_none() && c.mqtt_cert_file.is_none() && c.mqtt_key_file.is_none());
    assert_eq!(c.publish_interval_ms, 100);
}

#[test]
fn field_defaults() {
    assert_eq!(default_mqtt_host(), "mqtt.scorenode.org");
    assert_eq!(default_mqtt_port(), 1883);
    assert_eq!(default_mqtt_topic(), "scoreboard/status");
    assert!(default_mqtt_retain());
    assert_eq!(default_mqtt_client_id(), "hawkbot");
    assert_eq!(default_publish_interval_ms(), 100);
    assert_eq!(default_serial_device(), platform_serial_device());
    assert_eq!(serial_device_for_separator('\\'), "COM1");
    assert_eq!(serial_device_for_separator('/'), "/dev/ttyUSB0");
    assert_eq!(DEFAULT_CONFIG_PATH, "hawkbot-web-config.json");
}

fn platform_serial_device() -> &'static str {
    if std::path::MAIN_SEPARATOR == '\\' {
        "COM1"
    } else {
        "/dev/ttyUSB0"
    }
}
