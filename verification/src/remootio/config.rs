//! Bridge configuration (read from TOML by the application).
use vstd::prelude::*;

verus! {

pub fn default_mqtt_host() -> (r: String)
    ensures
        r@ == "127.0.0.1"@,
{
    String::from_str("127.0.0.1")
}

pub fn default_mqtt_port() -> (r: u16)
    ensures
        r == 1883,
{
    1883
}

pub fn default_ping_interval_secs() -> (r: u64)
    ensures
        r == 60,
{
    60
}

/// MQTT broker connection.
#[derive(Debug, Clone)]
pub struct MqttConfig {
    pub host: String,
    pub port: u16,
    pub user: Option<String>,
    pub password: Option<String>,
}

impl Default for MqttConfig {
    fn default() -> (c: Self)
        ensures
            c.host@ == "127.0.0.1"@,
            c.port == 1883,
            c.user is None,
            c.password is None,
    {
        MqttConfig {
            host: default_mqtt_host(),
            port: default_mqtt_port(),
            user: None,
            password: None,
        }
    }
}

/// A device entry (`[[devices]]`): keys in hexadecimal.
#[derive(Debug, Clone)]
pub struct DeviceConfig {
    pub name: String,
    pub ip: String,
    pub api_secret_key: String,
    pub api_auth_key: String,
    pub ping_interval_secs: u64,
}

#[derive(Debug, Clone)]
pub struct Config {
    pub mqtt: MqttConfig,
    pub devices: Vec<DeviceConfig>,
}

} // verus!
