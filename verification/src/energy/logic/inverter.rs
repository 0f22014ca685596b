//! Inverter (VE.Bus) readings: which topic carries which reading, and where
//! the published AC output power comes from.
use vstd::prelude::*;
use crate::text::{contains_str, ends_with, is_suffix, occurs_at};

verus! {

/// A reading of the inverter.
#[derive(Debug, Clone, Copy, PartialEq, Eq, Structural)]
pub enum InverterField {
    DcVoltage,
    DcCurrent,
    DcPower,
    AcOutVoltage,
    AcOutCurrent,
    AcFrequency,
    AcOutPower,
    VebusState,
    /// `IgnoreAcIn1`: `0` while the grid input is used.
    AcIgnore,
}

/// Reading carried by a VE.Bus topic, by the end of its path; `None` for a
/// topic of another service or of no tracked reading.
pub open spec fn inverter_field_of(t: Seq<char>) -> Option<InverterField> {
    if !(exists|i: int| occurs_at(t, "/vebus/"@, i)) {
        None
    } else if is_suffix("/Dc/0/Voltage"@, t) {
        Some(InverterField::DcVoltage)
    } else if is_suffix("/Dc/0/Current"@, t) {
        Some(InverterField::DcCurrent)
    } else if is_suffix("/Dc/0/Power"@, t) {
        Some(InverterField::DcPower)
    } else if is_suffix("/Ac/Out/L1/V"@, t) {
        Some(InverterField::AcOutVoltage)
    } else if is_suffix("/Ac/Out/L1/I"@, t) {
        Some(InverterField::AcOutCurrent)
    } else if is_suffix("/Ac/Out/L1/F"@, t) {
        Some(InverterField::AcFrequency)
    } else if is_suffix("/Ac/Out/L1/P"@, t) {
        Some(InverterField::AcOutPower)
    } else if is_suffix("/State"@, t) {
        Some(InverterField::VebusState)
    } else if is_suffix("/Ac/State/IgnoreAcIn1"@, t) {
        Some(InverterField::AcIgnore)
    } else {
        None
    }
}

/// Reading carried by a received topic.
pub fn inverter_field(topic: &str) -> (r: Option<InverterField>)
    ensures
        r == inverter_field_of(topic@),
{
    if !contains_str(topic, "/vebus/") {
        None
    } else if ends_with(topic, "/Dc/0/Voltage") {
        Some(InverterField::DcVoltage)
    } else if ends_with(topic, "/Dc/0/Current") {
        Some(InverterField::DcCurrent)
    } else if ends_with(topic, "/Dc/0/Power") {
        Some(InverterField::DcPower)
    } else if ends_with(topic, "/Ac/Out/L1/V") {
        Some(InverterField::AcOutVoltage)
    } else if ends_with(topic, "/Ac/Out/L1/I") {
        Some(InverterField::AcOutCurrent)
    } else if ends_with(topic, "/Ac/Out/L1/F") {
        Some(InverterField::AcFrequency)
    } else if ends_with(topic, "/Ac/Out/L1/P") {
        Some(InverterField::AcOutPower)
    } else if ends_with(topic, "/State") {
        Some(InverterField::VebusState)
    } else if ends_with(topic, "/Ac/State/IgnoreAcIn1") {
        Some(InverterField::AcIgnore)
    } else {
        None
    }
}

/// The AC output power can be computed as voltage × current: both are
/// known.
pub fn ac_power_ready(ac_voltage_present: bool, ac_current_present: bool) -> (r: bool)
    ensures
        r == (ac_voltage_present && ac_current_present),
{
    ac_voltage_present && ac_current_present
}

/// Where the published AC output power comes from.
#[derive(Debug, Clone, Copy, PartialEq, Eq, Structural)]
pub enum AcPowerSource {
    /// The measured output power.
    Measured,
    /// Output voltage × output current.
    VoltageTimesCurrent,
    /// Not known.
    Unknown,
}

/// The measured power when there is one, else voltage × current when both
/// are known.
pub fn ac_power_source(measured: bool, voltage: bool, current: bool) -> (r: AcPowerSource)
    ensures
        r == (if measured {
            AcPowerSource::Measured
        } else if voltage && current {
            AcPowerSource::VoltageTimesCurrent
        } else {
            AcPowerSource::Unknown
        }),
{
    if measured {
        AcPowerSource::Measured
    } else if ac_power_ready(voltage, current) {
        AcPowerSource::VoltageTimesCurrent
    } else {
        AcPowerSource::Unknown
    }
}

} // verus!
