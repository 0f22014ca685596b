//! Conversions between the Toshiba state (MQTT JSON) and the Matter
//! Thermostat cluster, and from a Matter attribute write to an MQTT command.
//! Matter temperatures are centi-degrees Celsius (`int16`).
use vstd::prelude::*;
use crate::text::{int_text, push_char, push_i64, str_eq};

verus! {

/// `int8` value the unit reports for an invalid temperature.
pub const TEMP_INVALID: i8 = 127;

/// Subset of the firmware state used by the Thermostat mapping.
#[derive(Debug, Clone, Default)]
pub struct ToshibaStatePayload {
    pub power: Option<bool>,
    pub mode: Option<String>,
    pub target_temp: Option<u8>,
    pub current_temp: Option<i8>,
}

/// `SystemMode` of the Matter Thermostat cluster.
#[derive(Debug, Clone, Copy, PartialEq, Eq, Structural)]
pub enum MatterSystemMode {
    Off,
    Auto,
    Cool,
    Heat,
    FanOnly,
    Dry,
}

/// Numeric value of each mode in the Matter specification.
pub open spec fn mode_code(m: MatterSystemMode) -> u8 {
    match m {
        MatterSystemMode::Off => 0,
        MatterSystemMode::Auto => 1,
        MatterSystemMode::Cool => 3,
        MatterSystemMode::Heat => 4,
        MatterSystemMode::FanOnly => 7,
        MatterSystemMode::Dry => 8,
    }
}

/// Mode with a given numeric value, if any.
pub open spec fn mode_of_code(v: u8) -> Option<MatterSystemMode> {
    if v == 0 {
        Some(MatterSystemMode::Off)
    } else if v == 1 {
        Some(MatterSystemMode::Auto)
    } else if v == 3 {
        Some(MatterSystemMode::Cool)
    } else if v == 4 {
        Some(MatterSystemMode::Heat)
    } else if v == 7 {
        Some(MatterSystemMode::FanOnly)
    } else if v == 8 {
        Some(MatterSystemMode::Dry)
    } else {
        None
    }
}

/// Toshiba mode name for a Matter mode (`Off` is carried by `power`).
pub open spec fn toshiba_mode_name(m: MatterSystemMode) -> Seq<char> {
    match m {
        MatterSystemMode::Off | MatterSystemMode::Auto => "heat_cool"@,
        MatterSystemMode::Cool => "cool"@,
        MatterSystemMode::Heat => "heat"@,
        MatterSystemMode::FanOnly => "fan_only"@,
        MatterSystemMode::Dry => "dry"@,
    }
}

impl MatterSystemMode {
    pub fn as_u8(self) -> (r: u8)
        ensures
            r == mode_code(self),
    {
        match self {
            MatterSystemMode::Off => 0,
            MatterSystemMode::Auto => 1,
            MatterSystemMode::Cool => 3,
            MatterSystemMode::Heat => 4,
            MatterSystemMode::FanOnly => 7,
            MatterSystemMode::Dry => 8,
        }
    }

    pub fn from_u8(v: u8) -> (r: Option<Self>)
        ensures
            r == mode_of_code(v),
    {
        match v {
            0 => Some(MatterSystemMode::Off),
            1 => Some(MatterSystemMode::Auto),
            3 => Some(MatterSystemMode::Cool),
            4 => Some(MatterSystemMode::Heat),
            7 => Some(MatterSystemMode::FanOnly),
            8 => Some(MatterSystemMode::Dry),
            _ => None,
        }
    }

    pub fn toshiba_mode(self) -> (r: &'static str)
        ensures
            r@ == toshiba_mode_name(self),
    {
        match self {
            MatterSystemMode::Off | MatterSystemMode::Auto => "heat_cool",
            MatterSystemMode::Cool => "cool",
            MatterSystemMode::Heat => "heat",
            MatterSystemMode::FanOnly => "fan_only",
            MatterSystemMode::Dry => "dry",
        }
    }
}

/// Reading a mode back from its numeric value gives the mode again.
pub proof fn lemma_mode_code_round_trip(m: MatterSystemMode)
    ensures
        mode_of_code(mode_code(m)) == Some(m),
{
}

/// A mode written by a Matter controller and sent to the unit reads back as
/// the same mode once the unit reports it: the Toshiba name given to each
/// mode is the one the state mapping reads as that mode (`Auto` goes out as
/// `heat_cool`, which reads back as `Auto`; `Off` is carried by `power`).
pub proof fn lemma_mode_name_round_trip(m: MatterSystemMode)
    ensures
        m != MatterSystemMode::Off ==> system_mode_of(Some(true), Some(toshiba_mode_name(m))) == m,
        system_mode_of(Some(false), Some(toshiba_mode_name(m))) == MatterSystemMode::Off,
{
    reveal_strlit("heat_cool");
    reveal_strlit("cool");
    reveal_strlit("heat");
    reveal_strlit("dry");
    reveal_strlit("fan_only");
    let n = toshiba_mode_name(m);
    if m == MatterSystemMode::Auto || m == MatterSystemMode::Off {
        assert(n != "cool"@ && n != "heat"@ && n != "dry"@ && n != "fan_only"@) by {
            assert(n.len() == 9);
            assert(n[0] != "cool"@[0]);
            assert(n[4] != "heat"@[0] || n.len() != 4);
        }
    } else if m == MatterSystemMode::Cool {
        assert(n != "heat"@ && n != "dry"@ && n != "fan_only"@ && n == "cool"@) by {
            assert(n[0] != "heat"@[0]);
        }
    } else if m == MatterSystemMode::Heat {
        assert(n != "cool"@ && n == "heat"@) by {
            assert(n[0] != "cool"@[0]);
        }
    } else if m == MatterSystemMode::Dry {
        assert(n != "cool"@ && n != "heat"@ && n == "dry"@) by {
            assert(n.len() == 3);
        }
    } else {
        assert(n != "cool"@ && n != "heat"@ && n != "dry"@ && n == "fan_only"@) by {
            assert(n.len() == 8);
        }
    }
}

/// A set point written in whole degrees reaches the unit unchanged: the
/// centi-degrees the bridge reports for a target temperature round back to
/// that temperature.
pub proof fn lemma_setpoint_round_trip(t: u8)
    ensures
        setpoint_of(Some(t)) matches Some(c) && rounded_degrees(c as int) == t,
{
    assert(((t * 100 + 50) / 100) == t as int) by (nonlinear_arith);
}

/// Thermostat attributes pushed to Matter for one zone.
#[derive(Debug, Clone, Copy, PartialEq, Eq, Structural)]
pub struct ThermostatAttrs {
    /// `LocalTemperature` (centi-degrees); `None` when absent or invalid.
    pub local_temperature: Option<i16>,
    /// `OccupiedHeatingSetpoint` (centi-degrees).
    pub occupied_heating_setpoint: Option<i16>,
    /// `OccupiedCoolingSetpoint` (centi-degrees).
    pub occupied_cooling_setpoint: Option<i16>,
    /// `SystemMode` value.
    pub system_mode: u8,
}

pub open spec fn local_temperature_of(current: Option<i8>) -> Option<i16> {
    match current {
        Some(t) => if t != TEMP_INVALID {
            Some((t * 100) as i16)
        } else {
            None
        },
        None => None,
    }
}

pub open spec fn setpoint_of(target: Option<u8>) -> Option<i16> {
    match target {
        Some(t) => Some((t * 100) as i16),
        None => None,
    }
}

/// Measured temperature to `LocalTemperature`; `None` when invalid (127) or absent.
pub fn local_temperature_centi(current_temp_c: Option<i8>) -> (r: Option<i16>)
    ensures
        r == local_temperature_of(current_temp_c),
        r matches Some(v) ==> v == current_temp_c.unwrap() * 100,
{
    match current_temp_c {
        Some(t) => {
            if t != TEMP_INVALID {
                Some(t as i16 * 100)
            } else {
                None
            }
        },
        None => None,
    }
}

/// Set point in degrees to centi-degrees.
pub fn setpoint_centi(target_temp_c: Option<u8>) -> (r: Option<i16>)
    ensures
        r == setpoint_of(target_temp_c),
        r matches Some(v) ==> v == target_temp_c.unwrap() * 100,
{
    match target_temp_c {
        Some(t) => Some(t as i16 * 100),
        None => None,
    }
}

/// `SystemMode` from `power` and `mode`: `power == false` wins (`Off`); an
/// unknown or absent mode of a running unit reads as `Auto`.
pub open spec fn system_mode_of(power: Option<bool>, mode: Option<Seq<char>>) -> MatterSystemMode {
    if power == Some(false) {
        MatterSystemMode::Off
    } else {
        match mode {
            Some(m) => if m == "cool"@ {
                MatterSystemMode::Cool
            } else if m == "heat"@ {
                MatterSystemMode::Heat
            } else if m == "dry"@ {
                MatterSystemMode::Dry
            } else if m == "fan_only"@ {
                MatterSystemMode::FanOnly
            } else {
                MatterSystemMode::Auto
            },
            None => MatterSystemMode::Auto,
        }
    }
}

pub open spec fn opt_view(m: Option<&str>) -> Option<Seq<char>> {
    match m {
        Some(s) => Some(s@),
        None => None,
    }
}

pub open spec fn opt_string_view(m: Option<String>) -> Option<Seq<char>> {
    match m {
        Some(s) => Some(s@),
        None => None,
    }
}

pub fn system_mode(power: Option<bool>, mode: Option<&str>) -> (r: MatterSystemMode)
    ensures
        r == system_mode_of(power, opt_view(mode)),
{
    match power {
        Some(false) => return MatterSystemMode::Off,
        _ => {},
    }
    match mode {
        Some(m) => {
            if str_eq(m, "cool") {
                MatterSystemMode::Cool
            } else if str_eq(m, "heat") {
                MatterSystemMode::Heat
            } else if str_eq(m, "dry") {
                MatterSystemMode::Dry
            } else if str_eq(m, "fan_only") {
                MatterSystemMode::FanOnly
            } else {
                MatterSystemMode::Auto
            }
        },
        None => MatterSystemMode::Auto,
    }
}

/// Thermostat attributes of a Toshiba state: the single set point of the
/// unit is mirrored on both heating and cooling set points.
pub open spec fn attrs_of(p: ToshibaStatePayload) -> ThermostatAttrs {
    ThermostatAttrs {
        local_temperature: local_temperature_of(p.current_temp),
        occupied_heating_setpoint: setpoint_of(p.target_temp),
        occupied_cooling_setpoint: setpoint_of(p.target_temp),
        system_mode: mode_code(system_mode_of(p.power, opt_string_view(p.mode))),
    }
}

pub fn attrs_from_state(p: &ToshibaStatePayload) -> (a: ThermostatAttrs)
    ensures
        a == attrs_of(*p),
{
    let setpoint = setpoint_centi(p.target_temp);
    let mode = match &p.mode {
        Some(m) => Some(m.as_str()),
        None => None,
    };
    ThermostatAttrs {
        local_temperature: local_temperature_centi(p.current_temp),
        occupied_heating_setpoint: setpoint,
        occupied_cooling_setpoint: setpoint,
        system_mode: system_mode(p.power, mode).as_u8(),
    }
}

/// Attribute write received from a Matter controller.
#[derive(Debug, Clone, Copy, PartialEq, Eq, Structural)]
pub enum MatterWrite {
    /// `SystemMode` written by the controller.
    SystemMode(u8),
    /// Heating or cooling set point (centi-degrees); the unit has a single one.
    Setpoint(i16),
}

/// Centi-degrees to whole degrees, rounding half away from zero (the unit
/// takes no half degrees): the value of `(centi / 100.0).round()`.
pub open spec fn rounded_degrees(centi: int) -> int {
    if centi >= 0 {
        (centi + 50) / 100
    } else {
        -((-centi + 50) / 100)
    }
}

/// Command payload of a write; `None` for an unsupported `SystemMode` value.
pub open spec fn command_of(w: MatterWrite) -> Option<Seq<char>> {
    match w {
        MatterWrite::SystemMode(v) => match mode_of_code(v) {
            Some(m) => if m == MatterSystemMode::Off {
                Some("{\"power\":false}"@)
            } else {
                Some("{\"power\":true,\"mode\":\""@ + toshiba_mode_name(m) + "\"}"@)
            },
            None => None,
        },
        MatterWrite::Setpoint(c) => Some(
            "{\"target_temp\":"@ + int_text(rounded_degrees(c as int)) + "}"@,
        ),
    }
}

/// Matter write to the JSON command payload of the unit.
pub fn command_json(w: MatterWrite) -> (r: Option<String>)
    ensures
        r matches Some(s) ==> command_of(w) == Some(s@),
        r is None ==> command_of(w) is None,
{
    match w {
        MatterWrite::SystemMode(v) => {
            let m = match MatterSystemMode::from_u8(v) {
                Some(m) => m,
                None => return None,
            };
            if m == MatterSystemMode::Off {
                Some(String::from_str("{\"power\":false}"))
            } else {
                let mut js = String::from_str("{\"power\":true,\"mode\":\"");
                js.append(m.toshiba_mode());
                js.append("\"}");
                Some(js)
            }
        },
        MatterWrite::Setpoint(centi) => {
            let deg: i64 = if centi >= 0 {
                (centi as i64 + 50) / 100
            } else {
                -((-(centi as i64) + 50) / 100)
            };
            let mut js = String::from_str("{\"target_temp\":");
            push_i64(&mut js, deg);
            push_char(&mut js, '}');
            proof {
                reveal_strlit("}");
                assert(js@ =~= "{\"target_temp\":"@ + int_text(rounded_degrees(centi as int)) + "}"@);
            }
            Some(js)
        },
    }
}

/// Presence payload of the FP2 bridge (`{"present": bool, "ts": epoch}`, `ts` ignored).
#[derive(Debug, Clone, Copy, PartialEq, Eq)]
pub struct PresencePayload {
    pub present: bool,
}

/// Presence to the `Occupancy` bitmap of the Occupancy Sensor cluster (bit 0).
pub fn occupancy_bitmap(present: bool) -> (r: u8)
    ensures
        r == (if present { 1u8 } else { 0u8 }),
{
    if present {
        1
    } else {
        0
    }
}

} // verus!
