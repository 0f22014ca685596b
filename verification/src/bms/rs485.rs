//! Health counters of the RS485 devices (BMS, ET112 meters, irradiance
//! sensor, transfer switch), per bus address. The counters only grow while
//! the server runs; the interface derives a success rate from them.
use vstd::prelude::*;
use std::collections::BTreeMap;
use crate::text::{chars_of, contains_str, occurs_at, str_eq, string_of};

verus! {

/// What `str::to_lowercase` gives for a text.
pub uninterp spec fn lowercase_of(s: Seq<char>) -> Seq<char>;

/// `str::to_lowercase` (Unicode lowercase mapping, independent of any
/// locale). Its result is named, not described.
#[verifier::external_body]
fn to_lowercase(s: &str) -> (r: String)
    ensures
        r@ == lowercase_of(s@),
{
    s.to_lowercase()
}

/// `t` occurs somewhere in `s`.
pub open spec fn mentions(s: Seq<char>, t: Seq<char>) -> bool {
    exists|i: int| occurs_at(s, t, i)
}

/// Class of a lowercased error message: `timeout` (a timeout or no answer
/// at all), `crc`, or `other`.
pub open spec fn kind_of_lowered(lc: Seq<char>) -> Seq<char> {
    if mentions(lc, "timeout"@) || mentions(lc, "aucune réponse"@) {
        "timeout"@
    } else if mentions(lc, "crc"@) {
        "crc"@
    } else {
        "other"@
    }
}

/// Class of a polling error, read from its message once lowercased.
pub open spec fn error_kind_of(msg: Seq<char>) -> Seq<char> {
    kind_of_lowered(lowercase_of(msg))
}

/// Class of an error message already lowercased.
pub fn error_kind(lowered: &str) -> (r: &'static str)
    ensures
        r@ == kind_of_lowered(lowered@),
{
    proof {
        reveal_strlit("timeout");
        reveal_strlit("crc");
        reveal_strlit("other");
    }
    if contains_str(lowered, "timeout") || contains_str(lowered, "aucune réponse") {
        "timeout"
    } else if contains_str(lowered, "crc") {
        "crc"
    } else {
        "other"
    }
}

/// Characters of an error message that are kept.
pub const MESSAGE_KEPT: usize = 200;

/// The first 200 characters of a message.
pub open spec fn kept_message(msg: Seq<char>) -> Seq<char> {
    if msg.len() <= MESSAGE_KEPT {
        msg
    } else {
        msg.take(MESSAGE_KEPT as int)
    }
}

/// Health counters of one RS485 device (times in epoch milliseconds).
#[derive(Debug, Clone)]
pub struct Rs485DeviceStats {
    pub address: u8,
    pub name: String,
    /// Device family: `BMS`, `ET112`, `PRALRAN` or `ATS`.
    pub kind: String,
    pub successful_polls: u64,
    pub timeout_count: u64,
    pub crc_error_count: u64,
    pub other_error_count: u64,
    pub last_success_ts: Option<i64>,
    pub last_error_ts: Option<i64>,
    /// `timeout`, `crc` or `other`.
    pub last_error_kind: Option<String>,
    pub last_error_message: Option<String>,
}

/// Counters of a device seen for the first time.
pub open spec fn is_fresh(s: Rs485DeviceStats, address: u8, name: Seq<char>, kind: Seq<char>) -> bool {
    &&& s.address == address
    &&& s.name@ == name
    &&& s.kind@ == kind
    &&& s.successful_polls == 0
    &&& s.timeout_count == 0
    &&& s.crc_error_count == 0
    &&& s.other_error_count == 0
    &&& s.last_success_ts is None
    &&& s.last_error_ts is None
    &&& s.last_error_kind is None
    &&& s.last_error_message is None
}

/// `after` is `before` with one more successful poll, at `now_ms`.
pub open spec fn succeeded(before: Rs485DeviceStats, after: Rs485DeviceStats, now_ms: i64) -> bool {
    after == Rs485DeviceStats {
        successful_polls: (before.successful_polls + 1) as u64,
        last_success_ts: Some(now_ms),
        ..before
    }
}

/// `after` is `before` with one more error of the class of `msg`, at
/// `now_ms`, the message kept as the last one.
pub open spec fn errored(
    before: Rs485DeviceStats,
    after: Rs485DeviceStats,
    msg: Seq<char>,
    now_ms: i64,
) -> bool {
    let kind = error_kind_of(msg);
    &&& after.address == before.address
    &&& after.name == before.name
    &&& after.kind == before.kind
    &&& after.successful_polls == before.successful_polls
    &&& after.last_success_ts == before.last_success_ts
    &&& after.timeout_count == before.timeout_count + (if kind == "timeout"@ {
        1int
    } else {
        0
    })
    &&& after.crc_error_count == before.crc_error_count + (if kind == "crc"@ {
        1int
    } else {
        0
    })
    &&& after.other_error_count == before.other_error_count + (if kind == "other"@ {
        1int
    } else {
        0
    })
    &&& after.last_error_ts == Some(now_ms)
    &&& after.last_error_kind matches Some(k) && k@ == kind
    &&& after.last_error_message matches Some(m) && m@ == kept_message(msg)
}

/// The counter that an error with this message increments is below its
/// maximum.
pub open spec fn error_countable(s: Rs485DeviceStats, msg: Seq<char>) -> bool {
    let kind = error_kind_of(msg);
    &&& kind == "timeout"@ ==> s.timeout_count < u64::MAX
    &&& kind == "crc"@ ==> s.crc_error_count < u64::MAX
    &&& kind == "other"@ ==> s.other_error_count < u64::MAX
}

impl Rs485DeviceStats {
    pub fn new(address: u8, name: String, kind: &str) -> (s: Self)
        ensures
            is_fresh(s, address, name@, kind@),
    {
        Rs485DeviceStats {
            address,
            name,
            kind: String::from_str(kind),
            successful_polls: 0,
            timeout_count: 0,
            crc_error_count: 0,
            other_error_count: 0,
            last_success_ts: None,
            last_error_ts: None,
            last_error_kind: None,
            last_error_message: None,
        }
    }

    /// Counts a successful poll made at `now_ms`.
    pub fn record_success(&mut self, now_ms: i64)
        requires
            old(self).successful_polls < u64::MAX,
        ensures
            succeeded(*old(self), *final(self), now_ms),
    {
        self.successful_polls = self.successful_polls + 1;
        self.last_success_ts = Some(now_ms);
    }

    /// Counts a failed poll at `now_ms` under the class read from its
    /// message, and keeps the message (its first 200 characters).
    pub fn record_error(&mut self, err_msg: &str, now_ms: i64)
        requires
            error_countable(*old(self), err_msg@),
        ensures
            errored(*old(self), *final(self), err_msg@, now_ms),
    {
        proof {
            reveal_strlit("timeout");
            reveal_strlit("crc");
            reveal_strlit("other");
            assert("timeout"@.len() == 7);
            assert("crc"@.len() == 3);
            assert("other"@.len() == 5);
        }
        let lc = to_lowercase(err_msg);
        let kind = error_kind(lc.as_str());
        if str_eq(kind, "timeout") {
            self.timeout_count = self.timeout_count + 1;
        } else if str_eq(kind, "crc") {
            self.crc_error_count = self.crc_error_count + 1;
        } else {
            self.other_error_count = self.other_error_count + 1;
        }
        self.last_error_ts = Some(now_ms);
        self.last_error_kind = Some(String::from_str(kind));
        let cs = chars_of(err_msg);
        let keep = if cs.len() <= MESSAGE_KEPT {
            cs.len()
        } else {
            MESSAGE_KEPT
        };
        let kept = string_of(&cs, 0, keep);
        proof {
            if cs@.len() <= MESSAGE_KEPT {
                assert(cs@.subrange(0, keep as int) =~= err_msg@);
            } else {
                assert(cs@.subrange(0, keep as int) =~= err_msg@.take(MESSAGE_KEPT as int));
            }
        }
        self.last_error_message = Some(kept);
    }
}

/// `after` holds an entry for `addr` and keeps every other entry of
/// `before`.
pub open spec fn others_kept(
    before: Map<u8, Rs485DeviceStats>,
    after: Map<u8, Rs485DeviceStats>,
    addr: u8,
) -> bool {
    &&& after.dom() == before.dom().insert(addr)
    &&& forall|k: u8| k != addr && #[trigger] before.contains_key(k) ==> after[k] == before[k]
}

/// One more successful poll of `addr` at `now_ms`, its entry created first
/// for a device not seen before; the other devices keep theirs.
pub open spec fn success_recorded(
    before: Map<u8, Rs485DeviceStats>,
    after: Map<u8, Rs485DeviceStats>,
    addr: u8,
    name: Seq<char>,
    kind: Seq<char>,
    now_ms: i64,
) -> bool {
    &&& others_kept(before, after, addr)
    &&& before.contains_key(addr) ==> succeeded(before[addr], after[addr], now_ms)
    &&& !before.contains_key(addr) ==> exists|b: Rs485DeviceStats|
        is_fresh(b, addr, name, kind) && #[trigger] succeeded(b, after[addr], now_ms)
}

/// One more failed poll of `addr` at `now_ms` with message `msg`, its entry
/// created first for a device not seen before; the other devices keep
/// theirs.
pub open spec fn error_recorded(
    before: Map<u8, Rs485DeviceStats>,
    after: Map<u8, Rs485DeviceStats>,
    addr: u8,
    name: Seq<char>,
    kind: Seq<char>,
    msg: Seq<char>,
    now_ms: i64,
) -> bool {
    &&& others_kept(before, after, addr)
    &&& before.contains_key(addr) ==> errored(before[addr], after[addr], msg, now_ms)
    &&& !before.contains_key(addr) ==> exists|b: Rs485DeviceStats|
        is_fresh(b, addr, name, kind) && #[trigger] errored(b, after[addr], msg, now_ms)
}

fn take_entry(
    stats: &mut BTreeMap<u8, Rs485DeviceStats>,
    addr: u8,
    kind: &str,
    name: &str,
) -> (r: Rs485DeviceStats)
    ensures
        final(stats)@ == old(stats)@.remove(addr),
        old(stats)@.contains_key(addr) ==> r == old(stats)@[addr],
        !old(stats)@.contains_key(addr) ==> is_fresh(r, addr, name@, kind@),
{
    broadcast use vstd::laws_cmp::group_laws_cmp;

    match stats.remove(&addr) {
        Some(s) => s,
        None => Rs485DeviceStats::new(addr, String::from_str(name), kind),
    }
}

/// Counts a successful poll of device `addr` at `now_ms`, creating its
/// entry if needed.
pub fn record_rs485_success(
    stats: &mut BTreeMap<u8, Rs485DeviceStats>,
    addr: u8,
    kind: &str,
    name: &str,
    now_ms: i64,
)
    requires
        old(stats)@.contains_key(addr) ==> old(stats)@[addr].successful_polls < u64::MAX,
    ensures
        success_recorded(old(stats)@, final(stats)@, addr, name@, kind@, now_ms),
{
    broadcast use vstd::laws_cmp::group_laws_cmp;

    let ghost before = stats@;
    let mut s = take_entry(stats, addr, kind, name);
    let ghost base = s;
    s.record_success(now_ms);
    stats.insert(addr, s);
    proof {
        assert(stats@.dom() =~= before.dom().insert(addr));
        if !before.contains_key(addr) {
            assert(succeeded(base, stats@[addr], now_ms));
        }
    }
}

/// Counts a failed poll of device `addr` at `now_ms`, creating its entry if
/// needed.
pub fn record_rs485_error(
    stats: &mut BTreeMap<u8, Rs485DeviceStats>,
    addr: u8,
    kind: &str,
    name: &str,
    err_msg: &str,
    now_ms: i64,
)
    requires
        old(stats)@.contains_key(addr) ==> error_countable(old(stats)@[addr], err_msg@),
    ensures
        error_recorded(old(stats)@, final(stats)@, addr, name@, kind@, err_msg@, now_ms),
{
    broadcast use vstd::laws_cmp::group_laws_cmp;

    let ghost before = stats@;
    let mut s = take_entry(stats, addr, kind, name);
    let ghost base = s;
    s.record_error(err_msg, now_ms);
    stats.insert(addr, s);
    proof {
        assert(stats@.dom() =~= before.dom().insert(addr));
        if !before.contains_key(addr) {
            assert(errored(base, stats@[addr], err_msg@, now_ms));
        }
    }
}

/// Polls counted for a device, whatever their outcome.
pub open spec fn polls_counted(s: Rs485DeviceStats) -> int {
    s.successful_polls + s.timeout_count + s.crc_error_count + s.other_error_count
}

/// The counters only grow: each recorded poll adds exactly one to the polls
/// counted for its device and lowers no counter.
pub proof fn lemma_counters_monotone(
    before: Rs485DeviceStats,
    after: Rs485DeviceStats,
    msg: Seq<char>,
    now_ms: i64,
)
    ensures
        succeeded(before, after, now_ms) && before.successful_polls < u64::MAX ==> {
            &&& polls_counted(after) == polls_counted(before) + 1
            &&& after.successful_polls > before.successful_polls
        },
        errored(before, after, msg, now_ms) ==> {
            &&& polls_counted(after) == polls_counted(before) + 1
            &&& after.successful_polls == before.successful_polls
            &&& after.timeout_count >= before.timeout_count
            &&& after.crc_error_count >= before.crc_error_count
            &&& after.other_error_count >= before.other_error_count
        },
{
    reveal_strlit("timeout");
    reveal_strlit("crc");
    reveal_strlit("other");
    assert("timeout"@.len() == 7);
    assert("crc"@.len() == 3);
    assert("other"@.len() == 5);
    let k = error_kind_of(msg);
    assert(k == "timeout"@ || k == "crc"@ || k == "other"@);
}

/// Sum of one counter (picked by `f`) over a list of devices.
pub open spec fn counter_total(s: Seq<Rs485DeviceStats>, f: spec_fn(Rs485DeviceStats) -> u64) -> int
    decreases s.len(),
{
    if s.len() == 0 {
        0
    } else {
        counter_total(s.drop_last(), f) + f(s.last())
    }
}

pub open spec fn successes_of(d: Rs485DeviceStats) -> u64 {
    d.successful_polls
}

pub open spec fn timeouts_of(d: Rs485DeviceStats) -> u64 {
    d.timeout_count
}

pub open spec fn crc_errors_of(d: Rs485DeviceStats) -> u64 {
    d.crc_error_count
}

pub open spec fn other_errors_of(d: Rs485DeviceStats) -> u64 {
    d.other_error_count
}

/// Bus-wide counter totals.
#[derive(Debug, Clone, Copy, PartialEq, Eq)]
pub struct Rs485Totals {
    pub successful_polls: u64,
    pub timeout_count: u64,
    pub crc_error_count: u64,
    pub other_error_count: u64,
}

/// The four totals fit in a `u64`.
pub open spec fn totals_fit(s: Seq<Rs485DeviceStats>) -> bool {
    &&& counter_total(s, |d: Rs485DeviceStats| successes_of(d)) <= u64::MAX
    &&& counter_total(s, |d: Rs485DeviceStats| timeouts_of(d)) <= u64::MAX
    &&& counter_total(s, |d: Rs485DeviceStats| crc_errors_of(d)) <= u64::MAX
    &&& counter_total(s, |d: Rs485DeviceStats| other_errors_of(d)) <= u64::MAX
}

proof fn lemma_prefix_total_le(
    s: Seq<Rs485DeviceStats>,
    f: spec_fn(Rs485DeviceStats) -> u64,
    i: int,
)
    requires
        0 <= i <= s.len(),
    ensures
        counter_total(s.take(i), f) <= counter_total(s, f),
    decreases s.len() - i,
{
    if i < s.len() {
        lemma_prefix_total_le(s, f, i + 1);
        assert(s.take(i + 1).drop_last() =~= s.take(i));
    } else {
        assert(s.take(i) =~= s);
    }
}

proof fn lemma_prefix_step(s: Seq<Rs485DeviceStats>, f: spec_fn(Rs485DeviceStats) -> u64, i: int)
    requires
        0 <= i < s.len(),
    ensures
        counter_total(s.take(i + 1), f) == counter_total(s.take(i), f) + f(s[i]),
{
    assert(s.take(i + 1).drop_last() =~= s.take(i));
}

/// Totals of the four counters over the devices, for the health summary.
pub fn rs485_totals(stats: &Vec<Rs485DeviceStats>) -> (t: Rs485Totals)
    requires
        totals_fit(stats@),
    ensures
        t.successful_polls == counter_total(stats@, |d: Rs485DeviceStats| successes_of(d)),
        t.timeout_count == counter_total(stats@, |d: Rs485DeviceStats| timeouts_of(d)),
        t.crc_error_count == counter_total(stats@, |d: Rs485DeviceStats| crc_errors_of(d)),
        t.other_error_count == counter_total(stats@, |d: Rs485DeviceStats| other_errors_of(d)),
{
    let ghost fs = |d: Rs485DeviceStats| successes_of(d);
    let ghost ft = |d: Rs485DeviceStats| timeouts_of(d);
    let ghost fc = |d: Rs485DeviceStats| crc_errors_of(d);
    let ghost fo = |d: Rs485DeviceStats| other_errors_of(d);
    let mut t = Rs485Totals {
        successful_polls: 0,
        timeout_count: 0,
        crc_error_count: 0,
        other_error_count: 0,
    };
    let mut i: usize = 0;
    proof {
        assert(stats@.take(0) =~= Seq::<Rs485DeviceStats>::empty());
    }
    while i < stats.len()
        invariant
            i <= stats.len(),
            totals_fit(stats@),
            fs == (|d: Rs485DeviceStats| successes_of(d)),
            ft == (|d: Rs485DeviceStats| timeouts_of(d)),
            fc == (|d: Rs485DeviceStats| crc_errors_of(d)),
            fo == (|d: Rs485DeviceStats| other_errors_of(d)),
            t.successful_polls == counter_total(stats@.take(i as int), fs),
            t.timeout_count == counter_total(stats@.take(i as int), ft),
            t.crc_error_count == counter_total(stats@.take(i as int), fc),
            t.other_error_count == counter_total(stats@.take(i as int), fo),
        decreases stats.len() - i,
    {
        proof {
            lemma_prefix_step(stats@, fs, i as int);
            lemma_prefix_step(stats@, ft, i as int);
            lemma_prefix_step(stats@, fc, i as int);
            lemma_prefix_step(stats@, fo, i as int);
            lemma_prefix_total_le(stats@, fs, i as int + 1);
            lemma_prefix_total_le(stats@, ft, i as int + 1);
            lemma_prefix_total_le(stats@, fc, i as int + 1);
            lemma_prefix_total_le(stats@, fo, i as int + 1);
        }
        let d = &stats[i];
        t.successful_polls = t.successful_polls + d.successful_polls;
        t.timeout_count = t.timeout_count + d.timeout_count;
        t.crc_error_count = t.crc_error_count + d.crc_error_count;
        t.other_error_count = t.other_error_count + d.other_error_count;
        i += 1;
    }
    proof {
        assert(stats@.take(stats@.len() as int) =~= stats@);
    }
    t
}

} // verus!
