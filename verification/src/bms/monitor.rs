//! Decisions of the system monitor: the status reported for each service
//! from the probes made by the application (systemd state, TCP reachability,
//! restart outcome), and the watchdog's restart cooldown.
use vstd::prelude::*;
use crate::bms::state::ServiceStatus;
use crate::text::{dec_digits, push_u64, str_eq};

verus! {

/// `s` is the status `(name, active, status)`.
pub open spec fn status_is(s: ServiceStatus, name: Seq<char>, active: bool, status: Seq<char>) -> bool {
    s.name@ == name && s.active == active && s.status@ == status
}

fn service(name: &str, active: bool, status: String) -> (s: ServiceStatus)
    ensures
        status_is(s, name@, active, status@),
{
    ServiceStatus { name: String::from_str(name), status, active }
}

/// The server itself is active; its systemd state is shown (`active` when
/// systemd reported nothing).
pub fn daly_service(systemd_status: &str) -> (s: ServiceStatus)
    ensures
        status_is(
            s,
            "daly-bms"@,
            true,
            if systemd_status@.len() == 0 {
                "active"@
            } else {
                systemd_status@
            },
        ),
{
    let status = if systemd_status.is_empty() {
        String::from_str("active")
    } else {
        String::from_str(systemd_status)
    };
    service("daly-bms", true, status)
}

/// Status of the energy manager: active when systemd says so or, failing
/// that, when its API port answers (`tcp_ok`, only probed in that case).
pub open spec fn energy_manager_status(systemd_status: Seq<char>, tcp_ok: bool) -> (bool, Seq<char>) {
    let systemd_active = systemd_status == "active"@;
    let active = systemd_active || tcp_ok;
    (
        active,
        if active {
            if systemd_active {
                systemd_status
            } else {
                "active (port 8081)"@
            }
        } else if systemd_status.len() == 0 {
            "unknown"@
        } else {
            systemd_status
        },
    )
}

pub fn energy_manager_service(systemd_status: &str, tcp_ok: bool) -> (s: ServiceStatus)
    ensures
        status_is(
            s,
            "energy-manager"@,
            energy_manager_status(systemd_status@, tcp_ok).0,
            energy_manager_status(systemd_status@, tcp_ok).1,
        ),
{
    let systemd_active = str_eq(systemd_status, "active");
    let active = systemd_active || tcp_ok;
    let status = if active {
        if systemd_active {
            String::from_str(systemd_status)
        } else {
            String::from_str("active (port 8081)")
        }
    } else if systemd_status.is_empty() {
        String::from_str("unknown")
    } else {
        String::from_str(systemd_status)
    };
    service("energy-manager", active, status)
}

/// The MQTT broker: active when systemd says so or its port answers; the
/// status shows the systemd state only.
pub fn mosquitto_service(systemd_active: bool, tcp_ok: bool) -> (s: ServiceStatus)
    ensures
        status_is(
            s,
            "mosquitto-broker"@,
            systemd_active || tcp_ok,
            if systemd_active {
                "active"@
            } else {
                "inactive"@
            },
        ),
{
    let status = if systemd_active {
        String::from_str("active")
    } else {
        String::from_str("inactive")
    };
    service("mosquitto-broker", systemd_active || tcp_ok, status)
}

/// Outcome of a TCP probe of a network service: reachable (status
/// `host:port`); else restarted through its systemd unit (status `restarted`,
/// and the action is logged), restart failed (`down`), or no unit to restart
/// (`unreachable`). `restart_ok` is the outcome of the restart, tried only
/// for an unreachable service with a unit.
pub open spec fn network_status(
    host: Seq<char>,
    port: u16,
    reachable: bool,
    unit: Option<Seq<char>>,
    restart_ok: bool,
) -> (bool, Seq<char>, Option<Seq<char>>) {
    if reachable {
        (true, host + ":"@ + dec_digits(port as nat), None)
    } else {
        match unit {
            Some(u) => if restart_ok {
                (false, "restarted"@, Some("Redémarré service systemd: "@ + u))
            } else {
                (false, "down"@, None)
            },
            None => (false, "unreachable"@, None),
        }
    }
}

pub fn network_service(
    name: &str,
    host: &str,
    port: u16,
    reachable: bool,
    unit: Option<&str>,
    restart_ok: bool,
) -> (r: (ServiceStatus, Option<String>))
    ensures
        ({
            let st = network_status(
                host@,
                port,
                reachable,
                match unit {
                    Some(u) => Some(u@),
                    None => None,
                },
                restart_ok,
            );
            &&& status_is(r.0, name@, st.0, st.1)
            &&& match (r.1, st.2) {
                (Some(a), Some(b)) => a@ == b,
                (None, None) => true,
                _ => false,
            }
        }),
{
    if reachable {
        let mut s = String::from_str(host);
        s.append(":");
        push_u64(&mut s, port as u64);
        proof {
            reveal_strlit(":");
        }
        return (service(name, true, s), None);
    }
    match unit {
        Some(u) => if restart_ok {
            let mut msg = String::from_str("Redémarré service systemd: ");
            msg.append(u);
            (service(name, false, String::from_str("restarted")), Some(msg))
        } else {
            (service(name, false, String::from_str("down")), None)
        },
        None => (service(name, false, String::from_str("unreachable")), None),
    }
}

/// Least time between two watchdog restarts of a service (milliseconds).
pub const WATCHDOG_COOLDOWN_MS: u64 = 120_000;

/// The watchdog may restart a service: never restarted yet, or the cooldown
/// has passed since its last restart (a clock behind the restart counts as
/// no time elapsed).
pub open spec fn restart_allowed(last_restart_ms: Option<u64>, now_ms: u64) -> bool {
    match last_restart_ms {
        Some(t) => (if now_ms >= t {
            now_ms - t
        } else {
            0
        }) >= WATCHDOG_COOLDOWN_MS,
        None => true,
    }
}

pub fn watchdog_may_restart(last_restart_ms: Option<u64>, now_ms: u64) -> (r: bool)
    ensures
        r == restart_allowed(last_restart_ms, now_ms),
{
    match last_restart_ms {
        Some(t) => {
            let elapsed = if now_ms >= t {
                now_ms - t
            } else {
                0
            };
            elapsed >= WATCHDOG_COOLDOWN_MS
        },
        None => true,
    }
}

} // verus!
