//! Energy-manager configuration: the sections with their defaults (the TOML
//! reading itself is done by the application).
use vstd::prelude::*;
use crate::text::{chars_of, is_ws, trim, trim_window};

verus! {

/// Lowercase hexadecimal digit.
pub open spec fn is_lower_hex(c: char) -> bool {
    ('0' <= c && c <= '9') || ('a' <= c && c <= 'f')
}

/// Hyphenated lowercase UUID text (`8-4-4-4-12` hexadecimal digits).
pub open spec fn is_hyphenated_uuid(s: Seq<char>) -> bool {
    &&& s.len() == 36
    &&& forall|i: int|
        0 <= i < 36 ==> if i == 8 || i == 13 || i == 18 || i == 23 {
            #[trigger] s[i] == '-'
        } else {
            is_lower_hex(s[i])
        }
}

/// A random version-4 UUID in its hyphenated lowercase text form.
///
/// Calls `uuid::Uuid::new_v4` (random) and renders it with `to_string`
/// (its `Display` impl); only the shape of the text is stated, not its
/// random digits.
#[verifier::external_body]
fn fresh_uuid() -> (r: String)
    ensures
        is_hyphenated_uuid(r@),
{
    uuid::Uuid::new_v4().to_string()
}

/// Optional directory of rule files loaded at start-up.
#[derive(Debug, Clone)]
pub struct RulesConfig {
    pub dir: Option<String>,
}

impl Default for RulesConfig {
    fn default() -> (c: Self)
        ensures
            c.dir is None,
    {
        RulesConfig { dir: None }
    }
}

/// MQTT broker connection.
#[derive(Debug, Clone)]
pub struct MqttConfig {
    pub host: String,
    pub port: u16,
    pub client_id: String,
    pub username: Option<String>,
    pub password: Option<String>,
    pub keep_alive_secs: u64,
    pub reconnect_delay_secs: u64,
}

pub fn default_mqtt_host() -> (r: String)
    ensures
        r@ == "192.168.1.141"@,
{
    String::from_str("192.168.1.141")
}

pub fn default_mqtt_port() -> (r: u16)
    ensures
        r == 1883,
{
    1883
}

pub fn default_client_id() -> (r: String)
    ensures
        r@.len() == 51,
        r@.take(15) == "energy-manager-"@,
        is_hyphenated_uuid(r@.skip(15)),
{
    let mut id = String::from_str("energy-manager-");
    let u = fresh_uuid();
    proof {
        reveal_strlit("energy-manager-");
    }
    id.append(u.as_str());
    proof {
        assert(id@.take(15) =~= "energy-manager-"@);
        assert(id@.skip(15) =~= u@);
    }
    id
}

pub fn default_keep_alive_secs() -> (r: u64)
    ensures
        r == 60,
{
    60
}

pub fn default_reconnect_delay_secs() -> (r: u64)
    ensures
        r == 5,
{
    5
}

impl Default for MqttConfig {
    fn default() -> (c: Self)
        ensures
            c.host@ == "192.168.1.141"@,
            c.port == 1883,
            c.client_id@.take(15) == "energy-manager-"@,
            is_hyphenated_uuid(c.client_id@.skip(15)),
            c.client_id@.len() == 51,
            c.username is None,
            c.password is None,
            c.keep_alive_secs == 60,
            c.reconnect_delay_secs == 5,
    {
        MqttConfig {
            host: default_mqtt_host(),
            port: default_mqtt_port(),
            client_id: default_client_id(),
            username: None,
            password: None,
            keep_alive_secs: default_keep_alive_secs(),
            reconnect_delay_secs: default_reconnect_delay_secs(),
        }
    }
}

/// API / WebSocket server.
#[derive(Debug, Clone)]
pub struct ApiConfig {
    pub bind: String,
}

pub fn default_bind() -> (r: String)
    ensures
        r@ == "0.0.0.0:8081"@,
{
    String::from_str("0.0.0.0:8081")
}

impl Default for ApiConfig {
    fn default() -> (c: Self)
        ensures
            c.bind@ == "0.0.0.0:8081"@,
    {
        ApiConfig { bind: default_bind() }
    }
}

/// Victron / Venus OS identifiers.
#[derive(Debug, Clone)]
pub struct VictronConfig {
    pub portal_id: String,
    pub vebus_instance: u32,
    pub mppt1_instance: u32,
    pub mppt2_instance: u32,
    pub pvinverter_instance: u32,
    pub shelly_deye_id: String,
    pub shelly_deye_channel: u8,
    pub shelly_deye_channels: Vec<u8>,
    pub tasmota_waterheater_id: String,
    pub smartshunt_instance: u32,
}

pub fn default_vebus_instance() -> (r: u32)
    ensures
        r == 275,
{
    275
}

pub fn default_mppt1_instance() -> (r: u32)
    ensures
        r == 273,
{
    273
}

pub fn default_mppt2_instance() -> (r: u32)
    ensures
        r == 289,
{
    289
}

pub fn default_pvinv_instance() -> (r: u32)
    ensures
        r == 32,
{
    32
}

pub fn default_smartshunt_instance() -> (r: u32)
    ensures
        r == 274,
{
    274
}

impl VictronConfig {
    /// The DEYE relay channels: the multi-channel list when given, else the
    /// legacy single channel.
    pub fn deye_channels(&self) -> (r: Vec<u8>)
        ensures
            r@ == if self.shelly_deye_channels@.len() == 0 {
                seq![self.shelly_deye_channel]
            } else {
                self.shelly_deye_channels@
            },
    {
        if self.shelly_deye_channels.len() == 0 {
            let mut v = Vec::new();
            v.push(self.shelly_deye_channel);
            v
        } else {
            let mut v = Vec::new();
            let n = self.shelly_deye_channels.len();
            let mut i: usize = 0;
            while i < n
                invariant
                    n == self.shelly_deye_channels@.len(),
                    i <= n,
                    v@ == self.shelly_deye_channels@.take(i as int),
                decreases n - i,
            {
                v.push(self.shelly_deye_channels[i]);
                i += 1;
                assert(v@ =~= self.shelly_deye_channels@.take(i as int));
            }
            assert(self.shelly_deye_channels@.take(n as int) =~= self.shelly_deye_channels@);
            v
        }
    }
}

pub fn default_meteo_interval_secs() -> (r: u64)
    ensures
        r == 300,
{
    300
}

/// LG ThinQ cloud API of the water heater.
#[derive(Debug, Clone)]
pub struct LgThinqConfig {
    pub enabled: bool,
    pub base_url: String,
    pub device_id: String,
    pub bearer_token: String,
    pub api_key: String,
    pub country: String,
    pub client_id: String,
    pub poll_interval_secs: u64,
    pub vm_url: String,
}

pub fn default_lg_base_url() -> (r: String)
    ensures
        r@ == "https://api-eic.lgthinq.com"@,
{
    String::from_str("https://api-eic.lgthinq.com")
}

pub fn default_lg_country() -> (r: String)
    ensures
        r@ == "FR"@,
{
    String::from_str("FR")
}

pub fn default_lg_client_id() -> (r: String)
    ensures
        r@ == "energy-manager"@,
{
    String::from_str("energy-manager")
}

pub fn default_lg_poll_secs() -> (r: u64)
    ensures
        r == 600,
{
    600
}

pub fn default_lg_vm_url() -> (r: String)
    ensures
        r@ == "http://127.0.0.1:8080"@,
{
    String::from_str("http://127.0.0.1:8080")
}

impl Default for LgThinqConfig {
    fn default() -> (c: Self)
        ensures
            !c.enabled,
            c.base_url@ == "https://api-eic.lgthinq.com"@,
            c.device_id@.len() == 0,
            c.bearer_token@.len() == 0,
            c.api_key@.len() == 0,
            c.country@ == "FR"@,
            c.client_id@ == "energy-manager"@,
            c.poll_interval_secs == 600,
            c.vm_url@ == "http://127.0.0.1:8080"@,
    {
        LgThinqConfig {
            enabled: false,
            base_url: default_lg_base_url(),
            device_id: String::new(),
            bearer_token: String::new(),
            api_key: String::new(),
            country: default_lg_country(),
            client_id: default_lg_client_id(),
            poll_interval_secs: default_lg_poll_secs(),
            vm_url: default_lg_vm_url(),
        }
    }
}

pub fn default_cut_delay_secs() -> (r: u64)
    ensures
        r == 3,
{
    3
}

pub fn default_reenable_delay_secs() -> (r: u64)
    ensures
        r == 45,
{
    45
}

pub fn default_lockout_secs() -> (r: u64)
    ensures
        r == 120,
{
    120
}

pub fn default_relay_resync_secs() -> (r: u64)
    ensures
        r == 60,
{
    60
}

/// MPPT states meaning "battery topping off / full": Absorption, Float, Storage.
pub fn default_mppt_full_states() -> (r: Vec<i64>)
    ensures
        r@ == seq![4i64, 5i64, 6i64],
{
    let mut v = Vec::new();
    v.push(4);
    v.push(5);
    v.push(6);
    v
}

pub fn default_mppt_cut_delay_secs() -> (r: u64)
    ensures
        r == 10,
{
    10
}

pub fn default_input_max_age_secs() -> (r: u64)
    ensures
        r == 90,
{
    90
}

pub fn default_debounce_secs() -> (r: u64)
    ensures
        r == 300,
{
    300
}

pub fn default_mode_change_min_secs() -> (r: u64)
    ensures
        r == 900,
{
    900
}

pub fn default_temp_set_delay_secs() -> (r: u64)
    ensures
        r == 15,
{
    15
}

pub fn default_keepalive_secs() -> (r: u64)
    ensures
        r == 25,
{
    25
}

pub fn default_temp_max_hold_secs() -> (r: u64)
    ensures
        r == 600,
{
    600
}

pub fn default_wh_vm_url() -> (r: String)
    ensures
        r@ == "http://127.0.0.1:8080"@,
{
    String::from_str("http://127.0.0.1:8080")
}

/// Solar production reporting.
#[derive(Debug, Clone)]
pub struct SolarConfig {
    pub bms_server_url: String,
}

pub fn default_bms_server_url() -> (r: String)
    ensures
        r@ == "http://192.168.1.141:8080"@,
{
    String::from_str("http://192.168.1.141:8080")
}

impl Default for SolarConfig {
    fn default() -> (c: Self)
        ensures
            c.bms_server_url@ == "http://192.168.1.141:8080"@,
    {
        SolarConfig { bms_server_url: default_bms_server_url() }
    }
}

/// Platform status publishing.
#[derive(Debug, Clone, Copy)]
pub struct PlatformConfig {
    pub publish_interval_secs: u64,
}

pub fn default_platform_interval_secs() -> (r: u64)
    ensures
        r == 60,
{
    60
}

impl Default for PlatformConfig {
    fn default() -> (c: Self)
        ensures
            c.publish_interval_secs == 60,
    {
        PlatformConfig { publish_interval_secs: default_platform_interval_secs() }
    }
}

pub fn default_true() -> (r: bool)
    ensures
        r,
{
    true
}

/// Name of the rule set reloaded when a reload request names none (all of them).
pub fn default_reload_name() -> (r: String)
    ensures
        r@ == "*"@,
{
    String::from_str("*")
}

/// Configuration file used when `ENERGY_CONFIG` is not set: the first of
/// `./Config.toml` and `/etc/daly-bms/config.toml` that exists, else
/// `./Config.toml`.
pub open spec fn config_path_choice(local_exists: bool, system_exists: bool) -> Seq<char> {
    if !local_exists && system_exists {
        "/etc/daly-bms/config.toml"@
    } else {
        "./Config.toml"@
    }
}

pub fn find_config_path(local_exists: bool, system_exists: bool) -> (r: String)
    ensures
        r@ == config_path_choice(local_exists, system_exists),
{
    if local_exists {
        String::from_str("./Config.toml")
    } else if system_exists {
        String::from_str("/etc/daly-bms/config.toml")
    } else {
        String::from_str("./Config.toml")
    }
}

/// A setting whose value would leave the service unusable (no broker, no
/// API, or a polling loop that never sleeps).
#[derive(Debug, Clone, Copy, PartialEq, Eq)]
pub enum ConfigError {
    EmptyMqttHost,
    ZeroMqttPort,
    EmptyApiBind,
    ZeroMeteoInterval,
    ZeroLgPollInterval,
}

/// Message of each refusal.
pub open spec fn config_error_text(e: ConfigError) -> Seq<char> {
    match e {
        ConfigError::EmptyMqttHost => "config invalide : `energy_manager.mqtt.host` est vide"@,
        ConfigError::ZeroMqttPort => "config invalide : `energy_manager.mqtt.port` doit être > 0"@,
        ConfigError::EmptyApiBind => "config invalide : `energy_manager.api.bind` est vide"@,
        ConfigError::ZeroMeteoInterval =>
            "config invalide : `energy_manager.open_meteo.poll_interval_secs` doit être > 0"@,
        ConfigError::ZeroLgPollInterval =>
            "config invalide : `energy_manager.lg_thinq.poll_interval_secs` doit être > 0"@,
    }
}

impl ConfigError {
    pub fn message(&self) -> (r: &'static str)
        ensures
            r@ == config_error_text(*self),
    {
        match self {
            ConfigError::EmptyMqttHost => "config invalide : `energy_manager.mqtt.host` est vide",
            ConfigError::ZeroMqttPort => "config invalide : `energy_manager.mqtt.port` doit être > 0",
            ConfigError::EmptyApiBind => "config invalide : `energy_manager.api.bind` est vide",
            ConfigError::ZeroMeteoInterval =>
                "config invalide : `energy_manager.open_meteo.poll_interval_secs` doit être > 0",
            ConfigError::ZeroLgPollInterval =>
                "config invalide : `energy_manager.lg_thinq.poll_interval_secs` doit être > 0",
        }
    }
}

/// Text that is empty once trimmed.
pub open spec fn blank(s: Seq<char>) -> bool {
    trim(s).len() == 0
}

fn is_blank(s: &str) -> (r: bool)
    ensures
        r == blank(s@),
{
    let cs = chars_of(s);
    let (a, b) = trim_window(&cs, 0, cs.len());
    proof {
        assert(cs@.subrange(0, cs@.len() as int) =~= s@);
    }
    a == b
}

/// First refused setting, in the order host, port, bind, weather interval
/// (only when the weather poll is enabled), water-heater poll interval (only
/// when the LG client is enabled); `None` when all are usable.
pub open spec fn config_refusal(
    mqtt: MqttConfig,
    api: ApiConfig,
    meteo_enabled: bool,
    meteo_poll_secs: u64,
    lg: LgThinqConfig,
) -> Option<ConfigError> {
    if blank(mqtt.host@) {
        Some(ConfigError::EmptyMqttHost)
    } else if mqtt.port == 0 {
        Some(ConfigError::ZeroMqttPort)
    } else if blank(api.bind@) {
        Some(ConfigError::EmptyApiBind)
    } else if meteo_enabled && meteo_poll_secs == 0 {
        Some(ConfigError::ZeroMeteoInterval)
    } else if lg.enabled && lg.poll_interval_secs == 0 {
        Some(ConfigError::ZeroLgPollInterval)
    } else {
        None
    }
}

/// Checks the settings whose violation makes the service unusable (the
/// weather section is given by its `enabled` flag and poll interval).
pub fn validate(
    mqtt: &MqttConfig,
    api: &ApiConfig,
    meteo_enabled: bool,
    meteo_poll_secs: u64,
    lg: &LgThinqConfig,
) -> (r: Result<(), ConfigError>)
    ensures
        r == match config_refusal(*mqtt, *api, meteo_enabled, meteo_poll_secs, *lg) {
            Some(e) => Err::<(), ConfigError>(e),
            None => Ok::<(), ConfigError>(()),
        },
{
    if is_blank(mqtt.host.as_str()) {
        return Err(ConfigError::EmptyMqttHost);
    }
    if mqtt.port == 0 {
        return Err(ConfigError::ZeroMqttPort);
    }
    if is_blank(api.bind.as_str()) {
        return Err(ConfigError::EmptyApiBind);
    }
    if meteo_enabled && meteo_poll_secs == 0 {
        return Err(ConfigError::ZeroMeteoInterval);
    }
    if lg.enabled && lg.poll_interval_secs == 0 {
        return Err(ConfigError::ZeroLgPollInterval);
    }
    Ok(())
}

} // verus!
