//! Transport-agnostic orchestration of the bridge: per-zone cache of the last
//! state projected into Thermostat attributes, and translation of Matter
//! writes into command payloads.
use vstd::prelude::*;
use crate::matter::mapping::{
    attrs_from_state, attrs_of, command_json, command_of, MatterWrite, ThermostatAttrs,
    ToshibaStatePayload,
};
use crate::text::str_eq;

verus! {

/// The attributes cached for zone `z`, if any.
pub open spec fn lookup(zs: Seq<(String, ThermostatAttrs)>, z: Seq<char>) -> Option<ThermostatAttrs> {
    if exists|i: int| 0 <= i < zs.len() && #[trigger] zs[i].0@ == z {
        Some(zs[choose|i: int| 0 <= i < zs.len() && #[trigger] zs[i].0@ == z].1)
    } else {
        None
    }
}

pub open spec fn keys_unique(zs: Seq<(String, ThermostatAttrs)>) -> bool {
    forall|i: int, j: int|
        0 <= i < j < zs.len() ==> #[trigger] zs[i].0@ != #[trigger] zs[j].0@
}

pub proof fn lemma_lookup_at(zs: Seq<(String, ThermostatAttrs)>, i: int)
    requires
        keys_unique(zs),
        0 <= i < zs.len(),
    ensures
        lookup(zs, zs[i].0@) == Some(zs[i].1),
{
    let z = zs[i].0@;
    assert(zs[i].0@ == z);
    let k = choose|k: int| 0 <= k < zs.len() && #[trigger] zs[k].0@ == z;
    if k < i {
        assert(zs[k].0@ != zs[i].0@);
    } else if k > i {
        assert(zs[i].0@ != zs[k].0@);
    }
}

/// Per-zone cache of the last state, as Thermostat attributes.
#[derive(Debug)]
pub struct Bridge {
    zones: Vec<(String, ThermostatAttrs)>,
}

impl Bridge {
    /// Each zone is cached once.
    #[verifier::type_invariant]
    spec fn wf(&self) -> bool {
        keys_unique(self.zones@)
    }

    /// The cached attributes of a zone.
    pub closed spec fn cached(&self, z: Seq<char>) -> Option<ThermostatAttrs> {
        lookup(self.zones@, z)
    }

    pub fn new() -> (b: Self)
        ensures
            forall|z: Seq<char>| #[trigger] b.cached(z) is None,
    {
        Bridge { zones: Vec::new() }
    }

    fn find(&self, zone: &str) -> (r: Option<usize>)
        ensures
            r matches Some(i) ==> i < self.zones@.len() && self.zones@[i as int].0@ == zone@,
            r is None ==> forall|i: int|
                0 <= i < self.zones@.len() ==> #[trigger] self.zones@[i].0@ != zone@,
    {
        let n = self.zones.len();
        let mut i: usize = 0;
        while i < n
            invariant
                n == self.zones@.len(),
                i <= n,
                forall|j: int| 0 <= j < i ==> #[trigger] self.zones@[j].0@ != zone@,
            decreases n - i,
        {
            if str_eq(self.zones[i].0.as_str(), zone) {
                return Some(i);
            }
            i += 1;
        }
        None
    }

    /// Handles a decoded state message of `zone`: caches and returns its
    /// Thermostat attributes (the other zones are untouched).
    pub fn on_state(&mut self, zone: &str, payload: &ToshibaStatePayload) -> (a: ThermostatAttrs)
        ensures
            a == attrs_of(*payload),
            final(self).cached(zone@) == Some(a),
            forall|z: Seq<char>| z != zone@ ==> #[trigger] final(self).cached(z) == old(self).cached(z),
    {
        proof {
            use_type_invariant(&*self);
        }
        let attrs = attrs_from_state(payload);
        match self.find(zone) {
            Some(i) => {
                let mut zones: Vec<(String, ThermostatAttrs)> = Vec::new();
                std::mem::swap(&mut zones, &mut self.zones);
                zones[i].1 = attrs;
                proof {
                    assert forall|a: int, b: int| 0 <= a < b < zones@.len() implies #[trigger] zones@[a].0@
                        != #[trigger] zones@[b].0@ by {
                        assert(zones@[a].0 == old(self).zones@[a].0);
                        assert(zones@[b].0 == old(self).zones@[b].0);
                    }
                }
                self.zones = zones;
                assert(self.zones@[i as int].0@ == zone@);
                proof {
                    lemma_lookup_at(self.zones@, i as int);
                    assert forall|z: Seq<char>| z != zone@ implies #[trigger] lookup(self.zones@, z)
                        == lookup(old(self).zones@, z) by {
                        if exists|k: int| 0 <= k < old(self).zones@.len() && #[trigger] old(self).zones@[k].0@ == z {
                            let k = choose|k: int| 0 <= k < old(self).zones@.len() && #[trigger] old(self).zones@[k].0@ == z;
                            lemma_lookup_at(old(self).zones@, k);
                            assert(self.zones@[k].0@ == z);
                            lemma_lookup_at(self.zones@, k);
                        } else {
                            assert forall|k: int| 0 <= k < self.zones@.len() implies #[trigger] self.zones@[k].0@ != z by {
                                assert(self.zones@[k].0@ == old(self).zones@[k].0@);
                            }
                        }
                    }
                }
            },
            None => {
                let key = zone.to_owned();
                let mut zones: Vec<(String, ThermostatAttrs)> = Vec::new();
                std::mem::swap(&mut zones, &mut self.zones);
                zones.push((key, attrs));
                proof {
                    assert(zones@[old(self).zones@.len() as int].0@ == zone@);
                }
                self.zones = zones;
                let ghost n = old(self).zones@.len();
                proof {
                    assert(self.zones@[n as int].0@ == zone@);
                    lemma_lookup_at(self.zones@, n as int);
                    assert forall|z: Seq<char>| z != zone@ implies #[trigger] lookup(self.zones@, z)
                        == lookup(old(self).zones@, z) by {
                        if exists|k: int| 0 <= k < old(self).zones@.len() && #[trigger] old(self).zones@[k].0@ == z {
                            let k = choose|k: int| 0 <= k < old(self).zones@.len() && #[trigger] old(self).zones@[k].0@ == z;
                            lemma_lookup_at(old(self).zones@, k);
                            assert(self.zones@[k] == old(self).zones@[k]);
                            lemma_lookup_at(self.zones@, k);
                        } else {
                            assert forall|k: int| 0 <= k < self.zones@.len() implies #[trigger] self.zones@[k].0@ != z by {
                                if k < n {
                                    assert(self.zones@[k] == old(self).zones@[k]);
                                }
                            }
                        }
                    }
                }
            },
        }
        attrs
    }

    /// Last known state of a zone.
    pub fn attrs(&self, zone: &str) -> (r: Option<&ThermostatAttrs>)
        ensures
            r matches Some(a) ==> self.cached(zone@) == Some(*a),
            r is None ==> self.cached(zone@) is None,
    {
        proof {
            use_type_invariant(self);
        }
        match self.find(zone) {
            Some(i) => {
                proof {
                    lemma_lookup_at(self.zones@, i as int);
                }
                Some(&self.zones[i].1)
            },
            None => None,
        }
    }

    /// Translates a Matter attribute write into a command payload.
    pub fn on_matter_write(&self, write: MatterWrite) -> (r: Option<String>)
        ensures
            r matches Some(s) ==> command_of(write) == Some(s@),
            r is None ==> command_of(write) is None,
    {
        command_json(write)
    }
}

/// Attributes of the last state received for zone `z` among the first `i`
/// state messages.
pub open spec fn last_state_attrs(
    zones: Seq<Seq<char>>,
    payloads: Seq<ToshibaStatePayload>,
    i: int,
    z: Seq<char>,
) -> Option<ThermostatAttrs>
    decreases i,
{
    if i <= 0 {
        None
    } else if zones[i - 1] == z {
        Some(attrs_of(payloads[i - 1]))
    } else {
        last_state_attrs(zones, payloads, i - 1, z)
    }
}

/// One call `on_state(z, p)` that turned `b` into `a`, as its contract
/// describes it.
pub open spec fn state_step(b: Bridge, a: Bridge, z: Seq<char>, p: ToshibaStatePayload) -> bool {
    &&& a.cached(z) == Some(attrs_of(p))
    &&& forall|x: Seq<char>| x != z ==> #[trigger] a.cached(x) == b.cached(x)
}

proof fn lemma_bridge_states(
    states: Seq<Bridge>,
    zones: Seq<Seq<char>>,
    payloads: Seq<ToshibaStatePayload>,
    i: int,
)
    requires
        states.len() == zones.len() + 1,
        payloads.len() == zones.len(),
        forall|z: Seq<char>| #[trigger] states[0].cached(z) is None,
        forall|j: int|
            0 <= j < zones.len() ==> #[trigger] state_step(states[j], states[j + 1], zones[j], payloads[j]),
        0 <= i <= zones.len(),
    ensures
        forall|z: Seq<char>| #[trigger] states[i].cached(z) == last_state_attrs(zones, payloads, i, z),
    decreases i,
{
    if i > 0 {
        lemma_bridge_states(states, zones, payloads, i - 1);
        let j = i - 1;
        assert(state_step(states[j], states[j + 1], zones[j], payloads[j]));
        assert(states[j + 1] == states[i]);
    }
}

/// Over any sequence of state messages handled by a bridge created empty,
/// the attributes read back for a zone are those of the last state received
/// for that zone, and nothing is read back for a zone never received.
pub proof fn lemma_bridge_reads_last_state(
    states: Seq<Bridge>,
    zones: Seq<Seq<char>>,
    payloads: Seq<ToshibaStatePayload>,
)
    requires
        states.len() == zones.len() + 1,
        payloads.len() == zones.len(),
        forall|z: Seq<char>| #[trigger] states[0].cached(z) is None,
        forall|j: int|
            0 <= j < zones.len() ==> #[trigger] state_step(states[j], states[j + 1], zones[j], payloads[j]),
    ensures
        forall|i: int, z: Seq<char>|
            0 <= i <= zones.len() ==> #[trigger] states[i].cached(z) == last_state_attrs(
                zones,
                payloads,
                i,
                z,
            ),
{
    assert forall|i: int, z: Seq<char>| 0 <= i <= zones.len() implies #[trigger] states[i].cached(z)
        == last_state_attrs(zones, payloads, i, z) by {
        lemma_bridge_states(states, zones, payloads, i);
    }
}

} // verus!
