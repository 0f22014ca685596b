//! Helpers of the chart API: canonical form of a device address and the unit
//! inferred from a metric name.
use vstd::prelude::*;
use crate::text::{ends_with, hex_digits, is_prefix, is_suffix, parse_u32_radix, parse_unsigned, push_char, push_hex, starts_with, str_eq};

verus! {

/// `format!("{:#04x}", n)`: `0x`, then at least two lowercase hex digits.
pub open spec fn address_text(n: nat) -> Seq<char> {
    "0x"@ + if n < 16 {
        seq!['0'] + hex_digits(n)
    } else {
        hex_digits(n)
    }
}

/// Canonical address: kept as is when already `0x`/`0X`-prefixed; otherwise
/// read as hexadecimal, else as decimal, and rendered `0x..`; kept as is when
/// neither reading works.
pub open spec fn normalized_address(a: Seq<char>) -> Seq<char> {
    if is_prefix("0x"@, a) || is_prefix("0X"@, a) {
        a
    } else {
        match parse_unsigned(a, 16, u32::MAX as nat) {
            Some(n) => address_text(n),
            None => match parse_unsigned(a, 10, u32::MAX as nat) {
                Some(n) => address_text(n),
                None => a,
            },
        }
    }
}

fn address_string(n: u32) -> (r: String)
    ensures
        r@ == address_text(n as nat),
{
    let mut s = String::from_str("0x");
    if n < 16 {
        push_char(&mut s, '0');
    }
    push_hex(&mut s, n as u64);
    proof {
        reveal_strlit("0x");
        if n < 16 {
            assert(s@ =~= address_text(n as nat));
        } else {
            assert(s@ =~= address_text(n as nat));
        }
    }
    s
}

pub fn normalize_address(addr: &str) -> (r: String)
    ensures
        r@ == normalized_address(addr@),
{
    if starts_with(addr, "0x") || starts_with(addr, "0X") {
        String::from_str(addr)
    } else if let Some(n) = parse_u32_radix(addr, 16) {
        address_string(n)
    } else if let Some(n) = parse_u32_radix(addr, 10) {
        address_string(n)
    } else {
        String::from_str(addr)
    }
}

/// Unit of a metric, from its name suffix (or exact name); empty when unknown.
pub open spec fn unit_of(m: Seq<char>) -> Seq<char> {
    if is_suffix("_w"@, m) || is_suffix("_power_w"@, m) {
        "W"@
    } else if is_suffix("_kwh"@, m) {
        "kWh"@
    } else if is_suffix("_a"@, m) || m == "bms_current"@ {
        "A"@
    } else if is_suffix("_v"@, m) || is_suffix("_voltage_v"@, m) {
        "V"@
    } else if is_suffix("_soc"@, m) || m == "bms_soc"@ {
        "%"@
    } else if is_suffix("_wm2"@, m) {
        "W/m²"@
    } else if is_suffix("_hz"@, m) {
        "Hz"@
    } else {
        ""@
    }
}

pub fn infer_unit(metric: &str) -> (r: &'static str)
    ensures
        r@ == unit_of(metric@),
{
    if ends_with(metric, "_w") || ends_with(metric, "_power_w") {
        return "W";
    }
    if ends_with(metric, "_kwh") {
        return "kWh";
    }
    if ends_with(metric, "_a") || str_eq(metric, "bms_current") {
        return "A";
    }
    if ends_with(metric, "_v") || ends_with(metric, "_voltage_v") {
        return "V";
    }
    if ends_with(metric, "_soc") || str_eq(metric, "bms_soc") {
        return "%";
    }
    if ends_with(metric, "_wm2") {
        return "W/m²";
    }
    if ends_with(metric, "_hz") {
        return "Hz";
    }
    ""
}

} // verus!
