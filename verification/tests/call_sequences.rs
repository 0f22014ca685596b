use daly_bms::bms::alerts::{dur_opt, rule_table, RuleDurations, RuleEvent, RuleState, RuleTiming, Severity};
use daly_bms::bms::redb_writes::RateLimiter;
use daly_bms::bms::state::TasmotaRingBuffer;
use daly_bms::energy::logic::deye_command::DeyeController;

#[test]
fn rate_limiter_over_a_call_sequence() {
    let mut rl = RateLimiter::new();
    let calls = [("a", 0, true), ("a", 4_999, false), ("b", 5_000, true), ("a", 5_000, true), ("a", 9_999, false), ("a", 10_000, true)];
    for (k, t, want) in calls {
        assert_eq!(rl.allow_at(k, t, 5_000), want, "call {k}@{t}");
    }
}

#[test]
fn ring_buffer_keeps_newest_after_n_pushes() {
    let mut b = TasmotaRingBuffer::new(3);
    for x in 1..=7 {
        b.push(x);
    }
    assert_eq!(b.buffer.iter().copied().collect::<Vec<_>>(), vec![5, 6, 7]);
    assert_eq!(b.latest(), Some(&7));
}

#[test]
fn deye_debounce_needs_an_uninterrupted_run() {
    let mut c = DeyeController::new(true);
    // Cut condition at t=0 and t=5, broken at t=8, back at t=9 and t=20.
    assert_eq!(c.step(true, false, 0, 10, 30), None);
    assert_eq!(c.step(true, false, 5, 10, 30), None);
    assert_eq!(c.step(false, false, 8, 10, 30), None);
    assert_eq!(c.step(true, false, 9, 10, 30), None);
    assert_eq!(c.step(true, false, 18, 10, 30), None);
    assert_eq!(c.step(true, false, 19, 10, 30), Some(false));
}

#[test]
fn alert_rule_cooldown_over_a_sequence() {
    let t = RuleTiming { cooldown_ms: 1_000, min_duration_ms: Some(100) };
    let mut s = RuleState::default();
    let mut events = Vec::new();
    for (trig, clear, now) in [(true, false, 0), (true, false, 100), (false, true, 200), (true, false, 300), (true, false, 400), (false, true, 500), (true, false, 1_200), (true, false, 1_300)] {
        events.push(s.step(t, trig, clear, now));
    }
    let (n, tr, cl) = (RuleEvent::Nothing, RuleEvent::Triggered, RuleEvent::Cleared);
    assert_eq!(events, vec![n, tr, cl, n, n, cl, n, tr]);
}

#[test]
fn default_rule_table() {
    assert_eq!(dur_opt(0), None);
    assert_eq!(dur_opt(30), Some(30_000));
    assert_eq!(dur_opt(u64::MAX), Some(u64::MAX));
    let d = RuleDurations {
        soc_low_for_secs: 60,
        soc_critical_for_secs: 0,
        temp_high_for_secs: 10,
        current_high_for_secs: 5,
        voltage_for_secs: 0,
    };
    let t = rule_table(d);
    let ids: Vec<&str> = t.iter().map(|r| r.0).collect();
    assert_eq!(ids, vec!["cell_ovp", "cell_uvp", "cell_imbalance", "soc_low", "soc_critical", "temp_high", "high_current", "pack_ovp", "pack_uvp"]);
    assert_eq!(t[3], ("soc_low", Severity::Warning, RuleTiming { cooldown_ms: 900_000, min_duration_ms: Some(60_000) }));
    assert_eq!(t[4].2.min_duration_ms, None);
    assert_eq!(t[6], ("high_current", Severity::Warning, RuleTiming { cooldown_ms: 60_000, min_duration_ms: Some(5_000) }));
}
