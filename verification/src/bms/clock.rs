//! Monotonic clock readings and a table of per-key timestamps.
//!
//! Timestamps are milliseconds elapsed since an origin `Instant` taken when
//! the owning structure is created; the monotonic clock is insensitive to NTP
//! jumps.
use vstd::prelude::*;
use crate::text::str_eq;

verus! {

#[verifier::external_type_specification]
#[verifier::external_body]
pub struct ExInstant(std::time::Instant);

/// `Instant::now()`: a reading of the monotonic clock (nothing is stated of
/// its value).
#[verifier::external_body]
pub(crate) fn instant_now() -> std::time::Instant {
    std::time::Instant::now()
}

/// Milliseconds elapsed since `origin` (`origin.elapsed().as_millis()`);
/// a clock reading, nothing is stated of its value.
#[verifier::external_body]
pub(crate) fn millis_since(origin: &std::time::Instant) -> u64 {
    origin.elapsed().as_millis() as u64
}

/// The timestamp recorded for key `k`, if any.
pub open spec fn stamp_of(es: Seq<(String, u64)>, k: Seq<char>) -> Option<u64> {
    if exists|i: int| 0 <= i < es.len() && #[trigger] es[i].0@ == k {
        Some(es[choose|i: int| 0 <= i < es.len() && #[trigger] es[i].0@ == k].1)
    } else {
        None
    }
}

pub open spec fn stamp_keys_unique(es: Seq<(String, u64)>) -> bool {
    forall|i: int, j: int| 0 <= i < j < es.len() ==> #[trigger] es[i].0@ != #[trigger] es[j].0@
}

pub proof fn lemma_stamp_at(es: Seq<(String, u64)>, i: int)
    requires
        stamp_keys_unique(es),
        0 <= i < es.len(),
    ensures
        stamp_of(es, es[i].0@) == Some(es[i].1),
{
    let z = es[i].0@;
    assert(es[i].0@ == z);
    let k = choose|k: int| 0 <= k < es.len() && #[trigger] es[k].0@ == z;
    if k < i {
        assert(es[k].0@ != es[i].0@);
    } else if k > i {
        assert(es[i].0@ != es[k].0@);
    }
}

/// Per-key timestamps (each key once).
#[derive(Debug)]
pub struct Stamps {
    entries: Vec<(String, u64)>,
}

impl Stamps {
    /// Each key is stamped once.
    #[verifier::type_invariant]
    spec fn wf(&self) -> bool {
        stamp_keys_unique(self.entries@)
    }

    /// The timestamp of key `k`, if any.
    pub closed spec fn get(&self, k: Seq<char>) -> Option<u64> {
        stamp_of(self.entries@, k)
    }

    /// The stamped keys with their timestamps, in the order first stamped.
    pub closed spec fn listed(&self) -> Seq<(String, u64)> {
        self.entries@
    }

    /// The stamped keys with their timestamps: each key once, with the
    /// timestamp that `get` gives.
    pub fn entries(&self) -> (r: &Vec<(String, u64)>)
        ensures
            r@ == self.listed(),
            forall|i: int|
                0 <= i < r@.len() ==> #[trigger] self.get(r@[i].0@) == Some(r@[i].1),
            forall|i: int, j: int| 0 <= i < j < r@.len() ==> #[trigger] r@[i].0@ != #[trigger] r@[j].0@,
    {
        proof {
            use_type_invariant(self);
            assert forall|i: int| 0 <= i < self.entries@.len() implies #[trigger] self.get(
                self.entries@[i].0@,
            ) == Some(self.entries@[i].1) by {
                lemma_stamp_at(self.entries@, i);
            }
        }
        &self.entries
    }

    pub fn new() -> (s: Self)
        ensures
            forall|k: Seq<char>| #[trigger] s.get(k) is None,
            s.listed().len() == 0,
    {
        Stamps { entries: Vec::new() }
    }

    fn find(&self, key: &str) -> (r: Option<usize>)
        ensures
            r matches Some(i) ==> i < self.entries@.len() && self.entries@[i as int].0@ == key@,
            r is None ==> forall|i: int|
                0 <= i < self.entries@.len() ==> #[trigger] self.entries@[i].0@ != key@,
    {
        let n = self.entries.len();
        let mut i: usize = 0;
        while i < n
            invariant
                n == self.entries@.len(),
                i <= n,
                forall|j: int| 0 <= j < i ==> #[trigger] self.entries@[j].0@ != key@,
            decreases n - i,
        {
            if str_eq(self.entries[i].0.as_str(), key) {
                return Some(i);
            }
            i += 1;
        }
        None
    }

    /// Timestamp of `key`.
    pub fn last(&self, key: &str) -> (r: Option<u64>)
        ensures
            r == self.get(key@),
    {
        proof {
            use_type_invariant(self);
        }
        match self.find(key) {
            Some(i) => {
                proof {
                    lemma_stamp_at(self.entries@, i as int);
                }
                Some(self.entries[i].1)
            },
            None => None,
        }
    }

    /// Records `t` for `key`; the other keys keep their timestamps.
    pub fn stamp(&mut self, key: &str, t: u64)
        ensures
            final(self).get(key@) == Some(t),
            forall|k: Seq<char>| k != key@ ==> #[trigger] final(self).get(k) == old(self).get(k),
            forall|k: Seq<char>| #[trigger] final(self).get(k) is Some ==> k == key@ || old(self).get(k) is Some,
    {
        proof {
            use_type_invariant(&*self);
        }
        match self.find(key) {
            Some(i) => {
                let mut entries: Vec<(String, u64)> = Vec::new();
                std::mem::swap(&mut entries, &mut self.entries);
                entries[i].1 = t;
                proof {
                    assert forall|a: int, b: int| 0 <= a < b < entries@.len() implies #[trigger] entries@[a].0@
                        != #[trigger] entries@[b].0@ by {
                        assert(entries@[a].0 == old(self).entries@[a].0);
                        assert(entries@[b].0 == old(self).entries@[b].0);
                    }
                }
                self.entries = entries;
                proof {
                    assert(self.entries@[i as int].0@ == key@);
                    lemma_stamp_at(self.entries@, i as int);
                    assert forall|z: Seq<char>| z != key@ implies #[trigger] stamp_of(self.entries@, z)
                        == stamp_of(old(self).entries@, z) by {
                        if exists|k: int| 0 <= k < old(self).entries@.len() && #[trigger] old(self).entries@[k].0@ == z {
                            let k = choose|k: int| 0 <= k < old(self).entries@.len() && #[trigger] old(self).entries@[k].0@ == z;
                            lemma_stamp_at(old(self).entries@, k);
                            assert(self.entries@[k] == old(self).entries@[k]);
                            lemma_stamp_at(self.entries@, k);
                        } else {
                            assert forall|k: int| 0 <= k < self.entries@.len() implies #[trigger] self.entries@[k].0@ != z by {
                                assert(self.entries@[k].0@ == old(self).entries@[k].0@);
                            }
                        }
                    }
                }
            },
            None => {
                let k = key.to_owned();
                let mut entries: Vec<(String, u64)> = Vec::new();
                std::mem::swap(&mut entries, &mut self.entries);
                entries.push((k, t));
                proof {
                    assert(entries@[old(self).entries@.len() as int].0@ == key@);
                }
                self.entries = entries;
                let ghost n = old(self).entries@.len();
                proof {
                    assert(self.entries@[n as int].0@ == key@);
                    lemma_stamp_at(self.entries@, n as int);
                    assert forall|z: Seq<char>| z != key@ implies #[trigger] stamp_of(self.entries@, z)
                        == stamp_of(old(self).entries@, z) by {
                        if exists|k: int| 0 <= k < old(self).entries@.len() && #[trigger] old(self).entries@[k].0@ == z {
                            let k = choose|k: int| 0 <= k < old(self).entries@.len() && #[trigger] old(self).entries@[k].0@ == z;
                            lemma_stamp_at(old(self).entries@, k);
                            assert(self.entries@[k] == old(self).entries@[k]);
                            lemma_stamp_at(self.entries@, k);
                        } else {
                            assert forall|k: int| 0 <= k < self.entries@.len() implies #[trigger] self.entries@[k].0@ != z by {
                                if k < n {
                                    assert(self.entries@[k] == old(self).entries@[k]);
                                }
                            }
                        }
                    }
                }
            },
        }
    }
}

} // verus!
