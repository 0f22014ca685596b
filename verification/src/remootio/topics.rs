//! MQTT side of the Remootio bridge: topics, the command named by a payload,
//! and the retained state message.
use vstd::prelude::*;
use crate::remootio::device::Command;
use crate::remootio::protocol::json_escaped;
use crate::text::{
    between_affixes, chars_of, contains_char, dec_digits, eq_ignore_ascii_case,
    eq_ignore_case_exec, push_u64, string_of, strip_affixes, trim, trim_window,
};

verus! {

/// Availability topic of the bridge itself.
pub const BRIDGE_AVAILABILITY_TOPIC: &'static str = "santuario/remootio/bridge/availability";

/// `santuario/remootio/<name>`: base of a device's topics.
pub fn topic_base(name: &str) -> (r: String)
    ensures
        r@ == "santuario/remootio/"@ + name@,
{
    let mut s = String::from_str("santuario/remootio/");
    s.append(name);
    s
}

/// Device name and output of a command topic: `santuario/remootio/<name>/set`
/// (main output) or `santuario/remootio/<name>/secondary/set`; `<name>` is one
/// topic segment (no `/`).
pub open spec fn command_topic_of(t: Seq<char>) -> Option<(Seq<char>, bool)> {
    match between_affixes(t, "santuario/remootio/"@, "/set"@) {
        Some(m) if !m.contains('/') => Some((m, false)),
        _ => match between_affixes(t, "santuario/remootio/"@, "/secondary/set"@) {
            Some(m) if !m.contains('/') => Some((m, true)),
            _ => None,
        },
    }
}

pub fn parse_command_topic(topic: &str) -> (r: Option<(&str, bool)>)
    ensures
        r matches Some(p) ==> command_topic_of(topic@) == Some((p.0@, p.1)),
        r is None ==> command_topic_of(topic@) is None,
{
    if let Some(m) = strip_affixes(topic, "santuario/remootio/", "/set") {
        if !contains_char(m, '/') {
            return Some((m, false));
        }
    }
    if let Some(m) = strip_affixes(topic, "santuario/remootio/", "/secondary/set") {
        if !contains_char(m, '/') {
            return Some((m, true));
        }
    }
    None
}

/// Payloads meaning "press" (Homey boolean capabilities publish `true`/`on`/`1`
/// as well as `trigger`).
pub open spec fn rising_edge(a: Seq<char>) -> bool {
    eq_ignore_ascii_case(a, "trigger"@) || eq_ignore_ascii_case(a, "true"@) || eq_ignore_ascii_case(
        a,
        "on"@,
    ) || eq_ignore_ascii_case(a, "1"@)
}

/// Command named by an MQTT payload (trimmed, case ignored). The secondary
/// output only knows the rising edge; on the main output `open`, `close` and
/// `query` name their command and a rising edge triggers. The release
/// (`false`/`off`/`0`) and unknown payloads name no command.
///
/// The words compared contain no `k`, and KELVIN SIGN is the only
/// non-ASCII character whose lowercase is ASCII, so comparing the
/// `to_lowercase` of the payload with a word is comparing ignoring ASCII case.
pub open spec fn command_of_payload(is_secondary: bool, payload: Seq<char>) -> Option<Command> {
    let a = trim(payload);
    if is_secondary {
        if rising_edge(a) {
            Some(Command::TriggerSecondary)
        } else {
            None
        }
    } else if eq_ignore_ascii_case(a, "open"@) {
        Some(Command::Open)
    } else if eq_ignore_ascii_case(a, "close"@) {
        Some(Command::Close)
    } else if eq_ignore_ascii_case(a, "query"@) {
        Some(Command::Query)
    } else if rising_edge(a) {
        Some(Command::Trigger)
    } else {
        None
    }
}

fn is_rising_edge(a: &str) -> (b: bool)
    ensures
        b == rising_edge(a@),
{
    eq_ignore_case_exec(a, "trigger") || eq_ignore_case_exec(a, "true") || eq_ignore_case_exec(a, "on")
        || eq_ignore_case_exec(a, "1")
}

pub fn command_for_payload(is_secondary: bool, payload: &str) -> (r: Option<Command>)
    ensures
        r == command_of_payload(is_secondary, payload@),
{
    let cs = chars_of(payload);
    let n = cs.len();
    let (lo, hi) = trim_window(&cs, 0, n);
    assert(cs@.subrange(0, n as int) =~= payload@);
    let action = string_of(&cs, lo, hi);
    let a = action.as_str();
    if is_secondary {
        if is_rising_edge(a) {
            Some(Command::TriggerSecondary)
        } else {
            None
        }
    } else if eq_ignore_case_exec(a, "open") {
        Some(Command::Open)
    } else if eq_ignore_case_exec(a, "close") {
        Some(Command::Close)
    } else if eq_ignore_case_exec(a, "query") {
        Some(Command::Query)
    } else if is_rising_edge(a) {
        Some(Command::Trigger)
    } else {
        None
    }
}

/// Seconds since the Unix epoch (0 if the clock is before it); a clock
/// reading, nothing is stated of its value.
#[verifier::external_body]
fn now_epoch() -> u64 {
    std::time::SystemTime::now()
        .duration_since(std::time::UNIX_EPOCH)
        .map(|d| d.as_secs())
        .unwrap_or(0)
}

/// Retained state message `{"state":<state>,"ts":<epoch seconds>}`.
pub open spec fn state_payload_text(state: Seq<char>, ts: u64) -> Seq<char> {
    "{\"state\":\""@ + json_escaped(state) + "\",\"ts\":"@ + dec_digits(ts as nat) + "}"@
}

pub fn state_payload(state: &str, ts: u64) -> (r: String)
    ensures
        r@ == state_payload_text(state@, ts),
{
    let mut s = String::from_str("{\"state\":\"");
    crate::remootio::protocol::push_json_escaped(&mut s, state);
    s.append("\",\"ts\":");
    push_u64(&mut s, ts);
    s.append("}");
    s
}

/// State message of `state`, stamped now.
pub fn state_message(state: &str) -> (r: String)
    ensures
        exists|ts: u64| r@ == state_payload_text(state@, ts),
{
    let ts = now_epoch();
    state_payload(state, ts)
}

} // verus!
