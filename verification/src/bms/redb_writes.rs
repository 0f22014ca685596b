//! Writing snapshot samples to the time-series store: per-series rate
//! limiting and the numeric codes of the Victron state labels.
use vstd::prelude::*;
use crate::bms::clock::{instant_now, millis_since, Stamps};
use crate::text::{
    dec_digits, hex_digit, hex_digit_char, push_char, push_u64,
    eq_ignore_ascii_case, eq_ignore_case_exec, parse_i32_radix, parse_signed, starts_with,
    str_eq, strip_all_prefixes, trim_start_matches, is_prefix,
};

verus! {

/// Minimum interval between two writes of one series (milliseconds).
pub const MIN_WRITE_INTERVAL_MS: u64 = 5_000;

/// Minimum interval for energy counters (they change slowly).
pub const ENERGY_WRITE_INTERVAL_MS: u64 = 30_000;

/// Minimum interval for temperatures.
pub const TEMP_WRITE_INTERVAL_MS: u64 = 60_000;

/// Whether a write of a series last written at `last` is allowed at `now`.
pub open spec fn write_allowed(last: Option<u64>, now: u64, min_interval_ms: u64) -> bool {
    match last {
        Some(t) => !((if now >= t { now - t } else { 0 }) < min_interval_ms),
        None => true,
    }
}

/// Rate limiter of the series written to the store, keyed by
/// `metric+labels` (one series is limited independently of the others).
/// Times are milliseconds of the monotonic clock since the limiter's creation.
pub struct RateLimiter {
    pub origin: std::time::Instant,
    pub last_writes: Stamps,
}

impl RateLimiter {
    pub fn new() -> (r: Self)
        ensures
            forall|k: Seq<char>| #[trigger] r.last_writes.get(k) is None,
            r.last_writes.listed().len() == 0,
    {
        RateLimiter { origin: instant_now(), last_writes: Stamps::new() }
    }

    /// `true` if a write of `key` is allowed now (and then records it).
    pub fn allow(&mut self, key: &str, min_interval_ms: u64) -> (r: bool)
        ensures
            exists|now: u64|
                #[trigger] write_allowed(old(self).last_writes.get(key@), now, min_interval_ms) == r
                    && final(self).last_writes.get(key@) == if r {
                    Some(now)
                } else {
                    old(self).last_writes.get(key@)
                },
            old(self).last_writes.get(key@) is None ==> r,
            min_interval_ms == 0 ==> r,
            r ==> final(self).last_writes.get(key@) is Some,
            !r ==> final(self).last_writes.get(key@) == old(self).last_writes.get(key@),
            forall|k: Seq<char>| k != key@ ==> #[trigger] final(self).last_writes.get(k) == old(
                self,
            ).last_writes.get(k),
    {
        let now = millis_since(&self.origin);
        let r = self.allow_at(key, now, min_interval_ms);
        assert(write_allowed(old(self).last_writes.get(key@), now, min_interval_ms) == r);
        r
    }

    /// `true` if a write of `key` is allowed at `now`: first write of the
    /// series, or at least `min_interval_ms` since its last allowed write.
    /// An allowed write is recorded; a refused one changes nothing.
    pub fn allow_at(&mut self, key: &str, now: u64, min_interval_ms: u64) -> (r: bool)
        ensures
            r == write_allowed(old(self).last_writes.get(key@), now, min_interval_ms),
            final(self).last_writes.get(key@) == if r {
                Some(now)
            } else {
                old(self).last_writes.get(key@)
            },
            forall|k: Seq<char>| k != key@ ==> #[trigger] final(self).last_writes.get(k) == old(
                self,
            ).last_writes.get(k),
    {
        match self.last_writes.last(key) {
            Some(last) => {
                let elapsed = if now >= last {
                    now - last
                } else {
                    0
                };
                if elapsed < min_interval_ms {
                    return false;
                }
                self.last_writes.stamp(key, now);
                true
            },
            None => {
                self.last_writes.stamp(key, now);
                true
            },
        }
    }
}

/// Two allowed writes of one series are at least `min_interval_ms` apart:
/// right after an allowed write at `t1`, a write at `t2` with
/// `t1 <= t2 < t1 + min_interval_ms` is refused.
pub proof fn lemma_rate_limit_spacing(t1: u64, t2: u64, min_interval_ms: u64)
    requires
        t1 <= t2,
        t2 < t1 + min_interval_ms,
    ensures
        !write_allowed(Some(t1), t2, min_interval_ms),
{
}

/// Time of the last allowed call for key `k` among the first `i` calls.
pub open spec fn last_allowed(
    keys: Seq<Seq<char>>,
    times: Seq<u64>,
    results: Seq<bool>,
    i: int,
    k: Seq<char>,
) -> Option<u64>
    decreases i,
{
    if i <= 0 {
        None
    } else if keys[i - 1] == k && results[i - 1] {
        Some(times[i - 1])
    } else {
        last_allowed(keys, times, results, i - 1, k)
    }
}

/// One call `allow_at(k, now, d)` that turned `b` into `a` and returned `r`,
/// as its contract describes it.
pub open spec fn allow_step(
    b: RateLimiter,
    a: RateLimiter,
    k: Seq<char>,
    now: u64,
    d: u64,
    r: bool,
) -> bool {
    &&& r == write_allowed(b.last_writes.get(k), now, d)
    &&& a.last_writes.get(k) == if r {
        Some(now)
    } else {
        b.last_writes.get(k)
    }
    &&& forall|x: Seq<char>| x != k ==> #[trigger] a.last_writes.get(x) == b.last_writes.get(x)
}

proof fn lemma_rate_limit_states(
    states: Seq<RateLimiter>,
    keys: Seq<Seq<char>>,
    times: Seq<u64>,
    ds: Seq<u64>,
    results: Seq<bool>,
    i: int,
)
    requires
        states.len() == keys.len() + 1,
        times.len() == keys.len(),
        ds.len() == keys.len(),
        results.len() == keys.len(),
        forall|k: Seq<char>| #[trigger] states[0].last_writes.get(k) is None,
        forall|j: int|
            0 <= j < keys.len() ==> #[trigger] allow_step(
                states[j],
                states[j + 1],
                keys[j],
                times[j],
                ds[j],
                results[j],
            ),
        0 <= i <= keys.len(),
    ensures
        forall|k: Seq<char>| #[trigger] states[i].last_writes.get(k) == last_allowed(keys, times, results, i, k),
    decreases i,
{
    if i > 0 {
        lemma_rate_limit_states(states, keys, times, ds, results, i - 1);
        let j = i - 1;
        assert(allow_step(states[j], states[j + 1], keys[j], times[j], ds[j], results[j]));
        assert(states[j + 1] == states[i]);
    }
}

/// Over any sequence of calls on a limiter created empty, call `i` on key
/// `k` is allowed exactly when no earlier call on `k` was allowed, or when at
/// least its interval has passed since the last one that was (calls on other
/// keys never matter); and the limiter then holds, for each key, the time of
/// its last allowed call.
pub proof fn lemma_rate_limit_sequence(
    states: Seq<RateLimiter>,
    keys: Seq<Seq<char>>,
    times: Seq<u64>,
    ds: Seq<u64>,
    results: Seq<bool>,
)
    requires
        states.len() == keys.len() + 1,
        times.len() == keys.len(),
        ds.len() == keys.len(),
        results.len() == keys.len(),
        forall|k: Seq<char>| #[trigger] states[0].last_writes.get(k) is None,
        forall|j: int|
            0 <= j < keys.len() ==> #[trigger] allow_step(
                states[j],
                states[j + 1],
                keys[j],
                times[j],
                ds[j],
                results[j],
            ),
    ensures
        forall|i: int|
            0 <= i < keys.len() ==> #[trigger] results[i] == write_allowed(
                last_allowed(keys, times, results, i, keys[i]),
                times[i],
                ds[i],
            ),
        forall|i: int, k: Seq<char>|
            0 <= i <= keys.len() ==> #[trigger] states[i].last_writes.get(k) == last_allowed(
                keys,
                times,
                results,
                i,
                k,
            ),
{
    assert forall|i: int, k: Seq<char>| 0 <= i <= keys.len() implies #[trigger] states[i].last_writes.get(
        k,
    ) == last_allowed(keys, times, results, i, k) by {
        lemma_rate_limit_states(states, keys, times, ds, results, i);
    }
    assert forall|i: int| 0 <= i < keys.len() implies #[trigger] results[i] == write_allowed(
        last_allowed(keys, times, results, i, keys[i]),
        times[i],
        ds[i],
    ) by {
        lemma_rate_limit_states(states, keys, times, ds, results, i);
        assert(allow_step(states[i], states[i + 1], keys[i], times[i], ds[i], results[i]));
    }
}

/// Identifier of a BMS in the series keys and labels: `0x` and two
/// lowercase hexadecimal digits of its bus address.
pub open spec fn bms_id_text(address: u8) -> Seq<char> {
    "0x"@ + seq![hex_digit((address / 16) as nat), hex_digit((address % 16) as nat)]
}

pub fn bms_id(address: u8) -> (r: String)
    ensures
        r@ == bms_id_text(address),
{
    let mut s = String::from_str("0x");
    push_char(&mut s, hex_digit_char(address / 16));
    push_char(&mut s, hex_digit_char(address % 16));
    proof {
        reveal_strlit("0x");
        assert(s@ =~= bms_id_text(address));
    }
    s
}

/// Rate-limiting key of a BMS series: `metric:id`.
pub fn series_key(metric: &str, id: &str) -> (r: String)
    ensures
        r@ == metric@ + ":"@ + id@,
{
    let mut s = String::from_str(metric);
    s.append(":");
    s.append(id);
    s
}

/// Rate-limiting key of a per-cell series: `metric:id:cell`.
pub fn cell_series_key(metric: &str, id: &str, cell: u64) -> (r: String)
    ensures
        r@ == metric@ + ":"@ + id@ + ":"@ + dec_digits(cell as nat),
{
    let mut s = series_key(metric, id);
    s.append(":");
    push_u64(&mut s, cell);
    s
}

/// Victron charger state name to its numeric code (`State N` gives `N`).
pub open spec fn mppt_code(label: Seq<char>) -> Option<int> {
    if label == "Off"@ {
        Some(0)
    } else if label == "Low power"@ {
        Some(1)
    } else if label == "Fault"@ {
        Some(2)
    } else if label == "Bulk"@ {
        Some(3)
    } else if label == "Absorption"@ {
        Some(4)
    } else if label == "Float"@ {
        Some(5)
    } else if label == "Storage"@ {
        Some(6)
    } else if label == "Equalize"@ {
        Some(7)
    } else if label == "Passthru"@ {
        Some(8)
    } else if label == "Inverting"@ {
        Some(9)
    } else if label == "Power assist"@ {
        Some(10)
    } else if label == "Power supply"@ {
        Some(11)
    } else if is_prefix("State "@, label) {
        parse_signed(strip_all_prefixes(label, "State "@), 10, i32::MAX as nat)
    } else {
        None
    }
}

pub fn mppt_state_to_code(label: &str) -> (r: Option<i32>)
    ensures
        r matches Some(c) ==> mppt_code(label@) == Some(c as int),
        r is None ==> mppt_code(label@) is None,
{
    if str_eq(label, "Off") {
        Some(0)
    } else if str_eq(label, "Low power") {
        Some(1)
    } else if str_eq(label, "Fault") {
        Some(2)
    } else if str_eq(label, "Bulk") {
        Some(3)
    } else if str_eq(label, "Absorption") {
        Some(4)
    } else if str_eq(label, "Float") {
        Some(5)
    } else if str_eq(label, "Storage") {
        Some(6)
    } else if str_eq(label, "Equalize") {
        Some(7)
    } else if str_eq(label, "Passthru") {
        Some(8)
    } else if str_eq(label, "Inverting") {
        Some(9)
    } else if str_eq(label, "Power assist") {
        Some(10)
    } else if str_eq(label, "Power supply") {
        Some(11)
    } else if starts_with(label, "State ") {
        parse_i32_radix(trim_start_matches(label, "State "), 10)
    } else {
        None
    }
}

/// Battery state code: 0 idle, 1 charging, 2 discharging, 3 anything else.
pub open spec fn shunt_code(label: Seq<char>) -> i32 {
    if label == "Idle"@ {
        0
    } else if label == "Charging"@ {
        1
    } else if label == "Discharging"@ {
        2
    } else {
        3
    }
}

pub fn shunt_state_to_code(label: &str) -> (r: i32)
    ensures
        r == shunt_code(label@),
{
    if str_eq(label, "Idle") {
        0
    } else if str_eq(label, "Charging") {
        1
    } else if str_eq(label, "Discharging") {
        2
    } else {
        3
    }
}

/// Inverter state code, ignoring case: 0 off, 1 on, 2 inverting, 3 charger,
/// 4 passthrough, 5 anything else.
///
/// The names compared contain only ASCII letters other than `k`; the only
/// non-ASCII character whose lowercase is an ASCII letter is KELVIN SIGN
/// (lowercase `k`), so comparing `label.to_lowercase()` with a name is
/// comparing the label with it ignoring ASCII case.
pub open spec fn inverter_state_code(label: Seq<char>) -> i32 {
    if eq_ignore_ascii_case(label, "off"@) {
        0
    } else if eq_ignore_ascii_case(label, "on"@) {
        1
    } else if eq_ignore_ascii_case(label, "inverting"@) {
        2
    } else if eq_ignore_ascii_case(label, "charger"@) {
        3
    } else if eq_ignore_ascii_case(label, "passthrough"@) {
        4
    } else {
        5
    }
}

pub fn inverter_state_to_code(label: &str) -> (r: i32)
    ensures
        r == inverter_state_code(label@),
{
    if eq_ignore_case_exec(label, "off") {
        0
    } else if eq_ignore_case_exec(label, "on") {
        1
    } else if eq_ignore_case_exec(label, "inverting") {
        2
    } else if eq_ignore_case_exec(label, "charger") {
        3
    } else if eq_ignore_case_exec(label, "passthrough") {
        4
    } else {
        5
    }
}

/// Inverter mode code, ignoring case: 0 charger, 1 inverter, 2 passthrough,
/// 3 anything else (same case rule as [`inverter_state_code`]).
pub open spec fn inverter_mode_code(label: Seq<char>) -> i32 {
    if eq_ignore_ascii_case(label, "charger"@) {
        0
    } else if eq_ignore_ascii_case(label, "inverter"@) {
        1
    } else if eq_ignore_ascii_case(label, "passthrough"@) {
        2
    } else {
        3
    }
}

pub fn inverter_mode_to_code(label: &str) -> (r: i32)
    ensures
        r == inverter_mode_code(label@),
{
    if eq_ignore_case_exec(label, "charger") {
        0
    } else if eq_ignore_case_exec(label, "inverter") {
        1
    } else if eq_ignore_case_exec(label, "passthrough") {
        2
    } else {
        3
    }
}

/// Resident memory of the process and allocator statistics (every field
/// optional: only what could be read is written).
#[derive(Debug, Clone, Copy, Default)]
pub struct ProcessMemoryStats {
    pub rss_bytes: Option<u64>,
    pub jemalloc_allocated: Option<u64>,
    pub jemalloc_active: Option<u64>,
    pub jemalloc_resident: Option<u64>,
    pub jemalloc_mapped: Option<u64>,
    pub jemalloc_retained: Option<u64>,
}

/// Appends `(name, v)` when the value was read.
pub open spec fn with_sample(s: Seq<(Seq<char>, u64)>, name: Seq<char>, v: Option<u64>) -> Seq<
    (Seq<char>, u64),
> {
    match v {
        Some(x) => s.push((name, x)),
        None => s,
    }
}

/// The samples written for a memory reading: one per field read, in the order
/// RSS, allocated, active, resident, mapped, retained.
pub open spec fn memory_samples(m: ProcessMemoryStats) -> Seq<(Seq<char>, u64)> {
    let s0 = with_sample(seq![], "process_rss_bytes"@, m.rss_bytes);
    let s1 = with_sample(s0, "process_jemalloc_allocated_bytes"@, m.jemalloc_allocated);
    let s2 = with_sample(s1, "process_jemalloc_active_bytes"@, m.jemalloc_active);
    let s3 = with_sample(s2, "process_jemalloc_resident_bytes"@, m.jemalloc_resident);
    let s4 = with_sample(s3, "process_jemalloc_mapped_bytes"@, m.jemalloc_mapped);
    with_sample(s4, "process_jemalloc_retained_bytes"@, m.jemalloc_retained)
}

pub open spec fn samples_view(v: Seq<(&'static str, u64)>) -> Seq<(Seq<char>, u64)> {
    v.map_values(|e: (&'static str, u64)| (e.0@, e.1))
}

fn push_sample(out: &mut Vec<(&'static str, u64)>, name: &'static str, v: Option<u64>)
    ensures
        samples_view(final(out)@) == with_sample(samples_view(old(out)@), name@, v),
{
    if let Some(x) = v {
        out.push((name, x));
        assert(samples_view(out@) =~= samples_view(old(out)@).push((name@, x)));
    }
}

impl ProcessMemoryStats {
    /// The (metric, value) samples of this reading.
    pub fn samples(&self) -> (r: Vec<(&'static str, u64)>)
        ensures
            samples_view(r@) == memory_samples(*self),
    {
        let mut out: Vec<(&'static str, u64)> = Vec::new();
        assert(samples_view(out@) =~= seq![]);
        push_sample(&mut out, "process_rss_bytes", self.rss_bytes);
        push_sample(&mut out, "process_jemalloc_allocated_bytes", self.jemalloc_allocated);
        push_sample(&mut out, "process_jemalloc_active_bytes", self.jemalloc_active);
        push_sample(&mut out, "process_jemalloc_resident_bytes", self.jemalloc_resident);
        push_sample(&mut out, "process_jemalloc_mapped_bytes", self.jemalloc_mapped);
        push_sample(&mut out, "process_jemalloc_retained_bytes", self.jemalloc_retained);
        out
    }
}

} // verus!
