//! Freshness registry of the data sources: every snapshot funnel stamps its
//! source here, and a periodic task exports the age of each source's last
//! data (a silent source shows as a growing age).
use vstd::prelude::*;
use crate::bms::clock::{instant_now, millis_since, Stamps};

verus! {

pub struct FreshnessRegistry {
    pub origin: std::time::Instant,
    /// Last stamp of each source, in milliseconds since `origin`.
    pub stamps: Stamps,
}

/// Age of a stamp at `now` (zero if the stamp is ahead of `now`).
pub open spec fn age(stamp: u64, now: u64) -> u64 {
    if now >= stamp {
        (now - stamp) as u64
    } else {
        0
    }
}

/// `ages` are the ages at `now` of the stamps `listed`, one for one.
pub open spec fn ages_at_time(ages: Seq<(String, u64)>, listed: Seq<(String, u64)>, now: u64) -> bool {
    forall|i: int| 0 <= i < ages.len() ==> (#[trigger] ages[i]).1 == age(listed[i].1, now)
}

impl FreshnessRegistry {
    pub fn new() -> (r: Self)
        ensures
            forall|k: Seq<char>| #[trigger] r.stamps.get(k) is None,
            r.stamps.listed().len() == 0,
    {
        FreshnessRegistry { origin: instant_now(), stamps: Stamps::new() }
    }

    /// Records a snapshot of `source` now.
    pub fn touch(&mut self, source: &str)
        ensures
            final(self).stamps.get(source@) is Some,
            forall|k: Seq<char>| k != source@ ==> #[trigger] final(self).stamps.get(k) == old(
                self,
            ).stamps.get(k),
    {
        let now = millis_since(&self.origin);
        self.touch_at(source, now);
    }

    /// Records a snapshot of `source` at `now` (milliseconds since the origin).
    pub fn touch_at(&mut self, source: &str, now: u64)
        ensures
            final(self).stamps.get(source@) == Some(now),
            forall|k: Seq<char>| k != source@ ==> #[trigger] final(self).stamps.get(k) == old(
                self,
            ).stamps.get(k),
    {
        self.stamps.stamp(source, now);
    }

    /// Age in milliseconds of the last data of every known source at `now`.
    pub fn ages_at(&self, now: u64) -> (r: Vec<(String, u64)>)
        ensures
            r@.len() == self.stamps.listed().len(),
            forall|i: int|
                0 <= i < r@.len() ==> (#[trigger] r@[i]).0@ == self.stamps.listed()[i].0@ && r@[i].1
                    == age(self.stamps.listed()[i].1, now),
    {
        let mut out: Vec<(String, u64)> = Vec::new();
        let entries = self.stamps.entries();
        let n = entries.len();
        let mut i: usize = 0;
        while i < n
            invariant
                n == self.stamps.listed().len(),
                entries@ == self.stamps.listed(),
                i <= n,
                out@.len() == i,
                forall|j: int|
                    0 <= j < i ==> (#[trigger] out@[j]).0@ == self.stamps.listed()[j].0@
                        && out@[j].1 == age(self.stamps.listed()[j].1, now),
            decreases n - i,
        {
            let t = entries[i].1;
            let a = if now >= t {
                now - t
            } else {
                0
            };
            out.push((entries[i].0.clone(), a));
            i += 1;
        }
        out
    }

    /// Age in milliseconds of the last data of every known source, now.
    pub fn ages_millis(&self) -> (r: Vec<(String, u64)>)
        ensures
            r@.len() == self.stamps.listed().len(),
            forall|i: int| 0 <= i < r@.len() ==> (#[trigger] r@[i]).0@ == self.stamps.listed()[i].0@,
            exists|now: u64| #[trigger] ages_at_time(r@, self.stamps.listed(), now),
    {
        let now = millis_since(&self.origin);
        let r = self.ages_at(now);
        assert(ages_at_time(r@, self.stamps.listed(), now));
        r
    }
}

/// A source just stamped has age zero at that instant.
pub proof fn lemma_touch_resets_age(stamp: u64)
    ensures
        age(stamp, stamp) == 0,
{
}

/// Ages grow with time.
pub proof fn lemma_age_grows(stamp: u64, t1: u64, t2: u64)
    requires
        t1 <= t2,
    ensures
        age(stamp, t1) <= age(stamp, t2),
{
}

/// Time of the last touch of `k` among the first `i` touches.
pub open spec fn last_touch(sources: Seq<Seq<char>>, times: Seq<u64>, i: int, k: Seq<char>) -> Option<
    u64,
>
    decreases i,
{
    if i <= 0 {
        None
    } else if sources[i - 1] == k {
        Some(times[i - 1])
    } else {
        last_touch(sources, times, i - 1, k)
    }
}

/// One call `touch_at(k, now)` that turned `b` into `a`, as its contract
/// describes it.
pub open spec fn touch_step(b: FreshnessRegistry, a: FreshnessRegistry, k: Seq<char>, now: u64) -> bool {
    &&& a.stamps.get(k) == Some(now)
    &&& forall|x: Seq<char>| x != k ==> #[trigger] a.stamps.get(x) == b.stamps.get(x)
}

proof fn lemma_freshness_states(
    states: Seq<FreshnessRegistry>,
    sources: Seq<Seq<char>>,
    times: Seq<u64>,
    i: int,
)
    requires
        states.len() == sources.len() + 1,
        times.len() == sources.len(),
        forall|k: Seq<char>| #[trigger] states[0].stamps.get(k) is None,
        forall|j: int|
            0 <= j < sources.len() ==> #[trigger] touch_step(states[j], states[j + 1], sources[j], times[j]),
        0 <= i <= sources.len(),
    ensures
        forall|k: Seq<char>| #[trigger] states[i].stamps.get(k) == last_touch(sources, times, i, k),
    decreases i,
{
    if i > 0 {
        lemma_freshness_states(states, sources, times, i - 1);
        let j = i - 1;
        assert(touch_step(states[j], states[j + 1], sources[j], times[j]));
        assert(states[j + 1] == states[i]);
    }
}

/// Over any sequence of touches of a registry created empty, a source has a
/// stamp exactly when it was touched, and its stamp is the time of its last
/// touch; so its age at `now` is the time elapsed since that touch (zero
/// right after it, growing until the next one, see [`lemma_age_grows`]).
pub proof fn lemma_freshness_sequence(
    states: Seq<FreshnessRegistry>,
    sources: Seq<Seq<char>>,
    times: Seq<u64>,
    now: u64,
)
    requires
        states.len() == sources.len() + 1,
        times.len() == sources.len(),
        forall|k: Seq<char>| #[trigger] states[0].stamps.get(k) is None,
        forall|j: int|
            0 <= j < sources.len() ==> #[trigger] touch_step(states[j], states[j + 1], sources[j], times[j]),
    ensures
        forall|i: int, k: Seq<char>|
            0 <= i <= sources.len() ==> #[trigger] states[i].stamps.get(k) == last_touch(
                sources,
                times,
                i,
                k,
            ),
        forall|k: Seq<char>|
            #[trigger] last_touch(sources, times, sources.len() as int, k) matches Some(t) ==> age(t, now)
                == if now >= t {
                now - t
            } else {
                0
            },
{
    assert forall|i: int, k: Seq<char>| 0 <= i <= sources.len() implies #[trigger] states[i].stamps.get(k)
        == last_touch(sources, times, i, k) by {
        lemma_freshness_states(states, sources, times, i);
    }
}

} // verus!
