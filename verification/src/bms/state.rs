//! In-memory stores of the application state: bounded snapshot history per
//! device (oldest dropped first), log lines shown by the web interface, and
//! system service status; and the text of the sample values answered to
//! queries.
use vstd::prelude::*;
use std::collections::VecDeque;
use crate::text::{chars_of, string_of, strip_trailing, strip_trailing_window};

verus! {

/// History after pushing `x` on `h` bounded by `cap`: when full, the oldest
/// entry is dropped first.
pub open spec fn pushed<T>(h: Seq<T>, cap: usize, x: T) -> Seq<T> {
    if h.len() >= cap && h.len() > 0 {
        h.drop_first().push(x)
    } else {
        h.push(x)
    }
}

/// The bound actually kept (a zero capacity still keeps the latest entry).
pub open spec fn kept_bound(cap: usize) -> nat {
    if cap == 0 {
        1
    } else {
        cap as nat
    }
}

fn push_bounded<T>(buffer: &mut VecDeque<T>, capacity: usize, x: T)
    ensures
        final(buffer)@ == pushed(old(buffer)@, capacity, x),
{
    if buffer.len() >= capacity {
        let _ = buffer.pop_front();
    }
    buffer.push_back(x);
    proof {
        if old(buffer)@.len() >= capacity && old(buffer)@.len() > 0 {
            assert(old(buffer)@.subrange(1, old(buffer)@.len() as int) =~= old(buffer)@.drop_first());
        }
    }
}

fn last_of<T>(buffer: &VecDeque<T>) -> (r: Option<&T>)
    ensures
        buffer@.len() == 0 ==> r is None,
        buffer@.len() > 0 ==> r == Some(&buffer@.last()),
{
    let n = buffer.len();
    if n == 0 {
        None
    } else {
        Some(&buffer[n - 1])
    }
}

/// Snapshot history of one BMS (the snapshot type is the poller's).
pub struct BmsRingBuffer<T> {
    pub buffer: VecDeque<T>,
    pub capacity: usize,
}

impl<T> BmsRingBuffer<T> {
    pub fn new(capacity: usize) -> (r: Self)
        ensures
            r.buffer@.len() == 0,
            r.capacity == capacity,
    {
        BmsRingBuffer { buffer: VecDeque::with_capacity(capacity), capacity }
    }

    /// Appends a snapshot, dropping the oldest one when full.
    pub fn push(&mut self, snap: T)
        ensures
            final(self).capacity == old(self).capacity,
            final(self).buffer@ == pushed(old(self).buffer@, old(self).capacity, snap),
    {
        push_bounded(&mut self.buffer, self.capacity, snap);
    }

    /// Most recent snapshot.
    pub fn latest(&self) -> (r: Option<&T>)
        ensures
            self.buffer@.len() == 0 ==> r is None,
            self.buffer@.len() > 0 ==> r == Some(&self.buffer@.last()),
    {
        last_of(&self.buffer)
    }
}

/// Snapshot history of one ET112 meter.
pub struct Et112RingBuffer<T> {
    pub buffer: VecDeque<T>,
    pub capacity: usize,
}

impl<T> Et112RingBuffer<T> {
    pub fn new(capacity: usize) -> (r: Self)
        ensures
            r.buffer@.len() == 0,
            r.capacity == capacity,
    {
        Et112RingBuffer { buffer: VecDeque::with_capacity(capacity), capacity }
    }

    /// Appends a snapshot, dropping the oldest one when full.
    pub fn push(&mut self, snap: T)
        ensures
            final(self).capacity == old(self).capacity,
            final(self).buffer@ == pushed(old(self).buffer@, old(self).capacity, snap),
    {
        push_bounded(&mut self.buffer, self.capacity, snap);
    }

    /// Most recent snapshot.
    pub fn latest(&self) -> (r: Option<&T>)
        ensures
            self.buffer@.len() == 0 ==> r is None,
            self.buffer@.len() > 0 ==> r == Some(&self.buffer@.last()),
    {
        last_of(&self.buffer)
    }
}

/// Snapshot history of one Tasmota plug.
pub struct TasmotaRingBuffer<T> {
    pub buffer: VecDeque<T>,
    pub capacity: usize,
}

impl<T> TasmotaRingBuffer<T> {
    pub fn new(capacity: usize) -> (r: Self)
        ensures
            r.buffer@.len() == 0,
            r.capacity == capacity,
    {
        TasmotaRingBuffer { buffer: VecDeque::with_capacity(capacity), capacity }
    }

    /// Appends a snapshot, dropping the oldest one when full.
    pub fn push(&mut self, snap: T)
        ensures
            final(self).capacity == old(self).capacity,
            final(self).buffer@ == pushed(old(self).buffer@, old(self).capacity, snap),
    {
        push_bounded(&mut self.buffer, self.capacity, snap);
    }

    /// Most recent snapshot.
    pub fn latest(&self) -> (r: Option<&T>)
        ensures
            self.buffer@.len() == 0 ==> r is None,
            self.buffer@.len() > 0 ==> r == Some(&self.buffer@.last()),
    {
        last_of(&self.buffer)
    }
}

/// A bounded history never holds more than its bound, and the entry just
/// pushed is the latest one.
pub proof fn lemma_history_bounded<T>(h: Seq<T>, cap: usize, x: T)
    requires
        h.len() <= kept_bound(cap),
    ensures
        pushed(h, cap, x).len() <= kept_bound(cap),
        pushed(h, cap, x).last() == x,
{
}

/// Pushing keeps the order of the snapshots: the new history is the old one
/// followed by the new snapshot, minus at most its oldest entry.
pub proof fn lemma_history_fifo<T>(h: Seq<T>, cap: usize, x: T)
    ensures
        pushed(h, cap, x) == h.push(x) || pushed(h, cap, x) == h.push(x).drop_first(),
{
    if h.len() >= cap && h.len() > 0 {
        assert(h.drop_first().push(x) =~= h.push(x).drop_first());
    }
}

/// History after pushing every item of `xs` in turn on `h`.
pub open spec fn pushed_all<T>(h: Seq<T>, cap: usize, xs: Seq<T>) -> Seq<T>
    decreases xs.len(),
{
    if xs.len() == 0 {
        h
    } else {
        pushed(pushed_all(h, cap, xs.drop_last()), cap, xs.last())
    }
}

/// Number of items kept of `n` pushed ones under a bound `cap >= 1`.
pub open spec fn kept_count(n: nat, cap: usize) -> nat {
    if n <= cap {
        n
    } else {
        cap as nat
    }
}

/// A history started empty with a bound `cap >= 1`, after `n` pushes, holds
/// the `min(n, cap)` newest items, oldest first (so its latest is the last
/// item pushed).
pub proof fn lemma_history_keeps_newest<T>(cap: usize, xs: Seq<T>)
    requires
        cap >= 1,
    ensures
        pushed_all(Seq::<T>::empty(), cap, xs) == xs.subrange(
            xs.len() - kept_count(xs.len(), cap),
            xs.len() as int,
        ),
        pushed_all(Seq::<T>::empty(), cap, xs).len() == kept_count(xs.len(), cap),
        xs.len() > 0 ==> pushed_all(Seq::<T>::empty(), cap, xs).last() == xs.last(),
    decreases xs.len(),
{
    if xs.len() == 0 {
        assert(xs.subrange(0, 0) =~= Seq::<T>::empty());
    } else {
        let ys = xs.drop_last();
        lemma_history_keeps_newest(cap, ys);
        let n = xs.len();
        let h = pushed_all(Seq::<T>::empty(), cap, ys);
        if n - 1 >= cap {
            assert(h.drop_first().push(xs.last()) =~= xs.subrange(n - cap, n as int));
        } else {
            assert(h.push(xs.last()) =~= xs.subrange(0, n as int));
        }
    }
}

/// A log line captured for the web interface.
#[derive(Debug, Clone)]
pub struct LogEntry {
    pub timestamp: String,
    pub level: String,
    pub message: String,
}

/// Log lines kept for the web interface.
pub const LOG_CAPACITY: usize = 200;

/// Keeps a captured log line, dropping the oldest one when the buffer holds
/// `LOG_CAPACITY` lines.
pub fn record_log(buffer: &mut VecDeque<LogEntry>, entry: LogEntry)
    ensures
        final(buffer)@ == pushed(old(buffer)@, LOG_CAPACITY, entry),
{
    push_bounded(buffer, LOG_CAPACITY, entry);
}

/// The `limit` most recent entries, newest first.
pub fn recent_first<T>(buffer: &VecDeque<T>, limit: usize) -> (r: Vec<&T>)
    ensures
        r@.len() == (if limit < buffer@.len() {
            limit as int
        } else {
            buffer@.len() as int
        }),
        forall|i: int| 0 <= i < r@.len() ==> *#[trigger] r@[i] == buffer@[buffer@.len() - 1 - i],
{
    let n = buffer.len();
    let k = if limit < n {
        limit
    } else {
        n
    };
    let mut out: Vec<&T> = Vec::new();
    let mut i: usize = 0;
    while i < k
        invariant
            n == buffer@.len(),
            k <= n,
            i <= k,
            out@.len() == i,
            forall|j: int| 0 <= j < i ==> *#[trigger] out@[j] == buffer@[n - 1 - j],
        decreases k - i,
    {
        out.push(&buffer[n - 1 - i]);
        i += 1;
    }
    out
}

/// Status of a system service.
#[derive(Debug, Clone)]
pub struct ServiceStatus {
    pub name: String,
    /// `active`, `inactive`, `failed` or `unknown`.
    pub status: String,
    pub active: bool,
}

/// A sample value written with six decimals, once shortened: trailing zeros
/// and then the decimal point removed, and `0` when nothing but a sign (or
/// nothing at all) is left.
pub open spec fn trimmed_decimal_of(s: Seq<char>) -> Seq<char> {
    let t = strip_trailing(strip_trailing(s, '0'), '.');
    if t.len() == 0 || t == seq!['-'] {
        seq!['0']
    } else {
        t
    }
}

/// Shortens the six-decimal text of a sample value (the formatting itself
/// is floating point and done by the application).
pub fn trimmed_decimal(text: &str) -> (r: String)
    ensures
        r@ == trimmed_decimal_of(text@),
{
    let cs = chars_of(text);
    let n = cs.len();
    proof {
        assert(cs@.subrange(0, n as int) =~= text@);
    }
    let b = strip_trailing_window(&cs, 0, n, '0');
    let b2 = strip_trailing_window(&cs, 0, b, '.');
    if b2 == 0 || (b2 == 1 && cs[0] == '-') {
        proof {
            if b2 == 1 {
                assert(cs@.subrange(0, 1) =~= seq!['-']);
            } else {
                assert(cs@.subrange(0, 0).len() == 0);
            }
        }
        let mut z = String::new();
        crate::text::push_char(&mut z, '0');
        proof {
            assert(z@ =~= seq!['0']);
        }
        z
    } else {
        proof {
            if b2 == 1 {
                assert(cs@.subrange(0, 1)[0] == cs@[0]);
            }
        }
        string_of(&cs, 0, b2)
    }
}

} // verus!
