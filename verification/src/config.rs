use vstd::prelude::*;

use crate::controllers::{ActiveSport, ControllerType};
use crate::text::owned;

verus! {

/// The file the gateway reads its configuration from when none is named.
pub const DEFAULT_CONFIG_PATH: &'static str = "hawkbot-web-config.json";

/// The gateway's configuration.
#[derive(Debug, Clone)]
pub struct AppConfig {
    pub web_enabled: bool,
    pub web_bind: String,
    pub controller_type: ControllerType,
    pub active_sport: ActiveSport,
    pub public_status_uuid: String,
    pub admin_username: String,
    pub admin_password_hash: String,
    pub serial_device: String,
    pub mqtt_enabled: bool,
    pub mqtt_host: String,
    pub mqtt_port: u16,
    pub mqtt_topic: String,
    pub mqtt_retain: bool,
    pub mqtt_client_id: String,
    pub mqtt_username: Option<String>,
    pub mqtt_password: Option<String>,
    pub mqtt_use_tls: bool,
    pub mqtt_ca_file: Option<String>,
    pub mqtt_cert_file: Option<String>,
    pub mqtt_key_file: Option<String>,
    pub publish_interval_ms: u64,
}

/// The MQTT broker used when the configuration names none.
pub fn default_mqtt_host() -> (r: String)
    ensures
        r@ == "mqtt.scorenode.org"@,
{
    owned("mqtt.scorenode.org")
}

/// The MQTT port used when the configuration names none.
pub fn default_mqtt_port() -> (r: u16)
    ensures
        r == 1883,
{
    1883
}

/// The MQTT topic used when the configuration names none.
pub fn default_mqtt_topic() -> (r: String)
    ensures
        r@ == "scoreboard/status"@,
{
    owned("scoreboard/status")
}

/// Whether MQTT messages are retained when the configuration does not say.
pub fn default_mqtt_retain() -> (r: bool)
    ensures
        r == true,
{
    true
}

/// The MQTT client id used when the configuration names none.
pub fn default_mqtt_client_id() -> (r: String)
    ensures
        r@ == "hawkbot"@,
{
    owned("hawkbot")
}

/// The publishing interval, in milliseconds, used when the configuration names none.
pub fn default_publish_interval_ms() -> (r: u64)
    ensures
        r == 100,
{
    100
}

/// The separator of path components on this platform (`std::path::MAIN_SEPARATOR`):
/// `'\\'` on Windows and `'/'` on Unix. The contract does not say which platform it is.
#[verifier::external_body]
fn platform_path_separator() -> char {
    std::path::MAIN_SEPARATOR
}

/// The serial device a controller is attached to by default on a platform whose path
/// separator is `sep`: the first COM port on Windows (separator `'\\'`), else the first
/// USB serial adapter of a Unix system.
pub open spec fn default_serial_device_for(sep: char) -> Seq<char> {
    if sep == '\\' {
        "COM1"@
    } else {
        "/dev/ttyUSB0"@
    }
}

/// A serial device that is the default on some platform.
pub open spec fn is_platform_default_serial_device(s: Seq<char>) -> bool {
    s == "COM1"@ || s == "/dev/ttyUSB0"@
}

/// The default serial device on a platform whose path separator is `sep`.
pub fn serial_device_for_separator(sep: char) -> (r: String)
    ensures
        r@ == default_serial_device_for(sep),
{
    if sep == '\\' {
        owned("COM1")
    } else {
        owned("/dev/ttyUSB0")
    }
}

/// The serial device the controller is attached to when the configuration names none,
/// on this platform.
pub fn default_serial_device() -> (r: String)
    ensures
        is_platform_default_serial_device(r@),
{
    serial_device_for_separator(platform_path_separator())
}

/// The configuration written when none exists yet.
pub open spec fn is_default_config(c: AppConfig) -> bool {
    &&& c.web_enabled == true
    &&& c.web_bind@ == "0.0.0.0:8080"@
    &&& c.controller_type == ControllerType::Daktronics
    &&& c.active_sport == ActiveSport::Basketball
    &&& c.public_status_uuid@ == "00000000-0000-0000-0000-000000000001"@
    &&& c.admin_username@ == "admin"@
    &&& c.admin_password_hash@ == "admin"@
    &&& is_platform_default_serial_device(c.serial_device@)
    &&& c.mqtt_enabled == false
    &&& c.mqtt_host@ == "mqtt.scorenode.org"@
    &&& c.mqtt_port == 1883
    &&& c.mqtt_topic@ == "scoreboard/status"@
    &&& c.mqtt_retain == true
    &&& c.mqtt_client_id@ == "hawkbot"@
    &&& c.mqtt_username is None
    &&& c.mqtt_password is None
    &&& c.mqtt_use_tls == false
    &&& c.mqtt_ca_file is None
    &&& c.mqtt_cert_file is None
    &&& c.mqtt_key_file is None
    &&& c.publish_interval_ms == 100
}

impl Default for AppConfig {
    fn default() -> (c: Self)
        ensures
            is_default_config(c),
    {
        AppConfig {
            web_enabled: true,
            web_bind: owned("0.0.0.0:8080"),
            controller_type: ControllerType::Daktronics,
            active_sport: ActiveSport::Basketball,
            public_status_uuid: owned("00000000-0000-0000-0000-000000000001"),
            admin_username: owned("admin"),
            admin_password_hash: owned("admin"),
            serial_device: default_serial_device(),
            mqtt_enabled: false,
            mqtt_host: default_mqtt_host(),
            mqtt_port: default_mqtt_port(),
            mqtt_topic: default_mqtt_topic(),
            mqtt_retain: default_mqtt_retain(),
            mqtt_client_id: default_mqtt_client_id(),
            mqtt_username: None,
            mqtt_password: None,
            mqtt_use_tls: false,
            mqtt_ca_file: None,
            mqtt_cert_file: None,
            mqtt_key_file: None,
            publish_interval_ms: default_publish_interval_ms(),
        }
    }
}

} // verus!
