//! Messages exchanged on the energy manager's bus and the water-heater mode.
use vstd::prelude::*;
use crate::text::str_eq;

verus! {

/// Quality of service of an outgoing MQTT publish.
#[derive(Debug, Clone, Copy, PartialEq, Eq, Structural)]
pub enum MqttQos {
    AtMostOnce,
    AtLeastOnce,
}

/// Outgoing MQTT publish request.
#[derive(Debug, Clone)]
pub struct MqttOutgoing {
    pub topic: String,
    pub payload: String,
    pub retain: bool,
    pub qos: MqttQos,
}

impl MqttOutgoing {
    /// A publish of an already-rendered payload, at least once.
    pub fn raw(topic: String, payload: String, retain: bool) -> (m: Self)
        ensures
            m.topic@ == topic@,
            m.payload@ == payload@,
            m.retain == retain,
            m.qos == MqttQos::AtLeastOnce,
    {
        MqttOutgoing { topic, payload, retain, qos: MqttQos::AtLeastOnce }
    }
}

/// Operating mode of the LG water heater.
#[derive(Debug, Clone, Copy, PartialEq, Eq, Structural)]
pub enum WaterHeaterMode {
    Vacation,
    HeatPump,
    Turbo,
}

impl Default for WaterHeaterMode {
    fn default() -> (m: Self)
        ensures
            m == WaterHeaterMode::Vacation,
    {
        WaterHeaterMode::Vacation
    }
}

/// Name used by the LG API for each mode.
pub open spec fn lg_name(m: WaterHeaterMode) -> Seq<char> {
    match m {
        WaterHeaterMode::HeatPump => "HEAT_PUMP"@,
        WaterHeaterMode::Turbo => "TURBO"@,
        WaterHeaterMode::Vacation => "VACATION"@,
    }
}

/// Mode named by an LG string; anything unknown reads as `Vacation`.
pub open spec fn mode_of_lg(s: Seq<char>) -> WaterHeaterMode {
    if s == "HEAT_PUMP"@ {
        WaterHeaterMode::HeatPump
    } else if s == "TURBO"@ {
        WaterHeaterMode::Turbo
    } else {
        WaterHeaterMode::Vacation
    }
}

impl WaterHeaterMode {
    /// Venus OS state code: 0 = vacation, 1 = heat pump, 2 = turbo.
    pub fn to_venus_state(self) -> (r: i64)
        ensures
            r == match self {
                WaterHeaterMode::Vacation => 0i64,
                WaterHeaterMode::HeatPump => 1i64,
                WaterHeaterMode::Turbo => 2i64,
            },
    {
        match self {
            WaterHeaterMode::Vacation => 0,
            WaterHeaterMode::HeatPump => 1,
            WaterHeaterMode::Turbo => 2,
        }
    }

    pub fn from_lg_str(s: &str) -> (m: Self)
        ensures
            m == mode_of_lg(s@),
    {
        if str_eq(s, "HEAT_PUMP") {
            WaterHeaterMode::HeatPump
        } else if str_eq(s, "TURBO") {
            WaterHeaterMode::Turbo
        } else {
            WaterHeaterMode::Vacation
        }
    }

    pub fn to_lg_str(self) -> (r: &'static str)
        ensures
            r@ == lg_name(self),
    {
        match self {
            WaterHeaterMode::HeatPump => "HEAT_PUMP",
            WaterHeaterMode::Turbo => "TURBO",
            WaterHeaterMode::Vacation => "VACATION",
        }
    }
}

/// Reading back the LG name of a mode gives the mode again.
pub proof fn lemma_lg_name_round_trip(m: WaterHeaterMode)
    ensures
        mode_of_lg(lg_name(m)) == m,
{
    reveal_strlit("HEAT_PUMP");
    reveal_strlit("TURBO");
    reveal_strlit("VACATION");
    match m {
        WaterHeaterMode::HeatPump => {},
        WaterHeaterMode::Turbo => {
            assert("TURBO"@ != "HEAT_PUMP"@ ) by { assert("TURBO"@.len() != "HEAT_PUMP"@.len()); }
        },
        WaterHeaterMode::Vacation => {
            assert("VACATION"@ != "HEAT_PUMP"@) by { assert("VACATION"@[0] != "HEAT_PUMP"@[0]); }
            assert("VACATION"@ != "TURBO"@) by { assert("VACATION"@.len() != "TURBO"@.len()); }
        },
    }
}

} // verus!
