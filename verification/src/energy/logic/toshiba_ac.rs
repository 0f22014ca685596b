//! Toshiba air conditioners: telemetry topic parsing and presence control
//! (Aqara FP2 presence sensors, one per room). Policy: ECO as soon as the room
//! is empty, OFF after a longer absence, comfort again on return.
//!
//! Times are Unix epoch seconds.
use vstd::prelude::*;
use crate::text::{str_eq, topic_zone, topic_zone_exec};

verus! {

/// Zone of a state topic `santuario/toshiba/<zone>/state`; `None` for any other topic.
pub fn parse_zone(topic: &str) -> (r: Option<&str>)
    ensures
        r matches Some(z) ==> topic_zone(topic@, "santuario/toshiba/"@, "/state"@) == Some(z@),
        r is None ==> topic_zone(topic@, "santuario/toshiba/"@, "/state"@) is None,
{
    topic_zone_exec(topic, "santuario/toshiba/", "/state")
}

/// Zone of a presence topic `santuario/toshiba/presence/<zone>`; `None` otherwise.
pub fn parse_presence_zone(topic: &str) -> (r: Option<&str>)
    ensures
        r matches Some(z) ==> topic_zone(topic@, "santuario/toshiba/presence/"@, ""@) == Some(
            z@,
        ),
        r is None ==> topic_zone(topic@, "santuario/toshiba/presence/"@, ""@) is None,
{
    topic_zone_exec(topic, "santuario/toshiba/presence/", "")
}

/// State payload published by the air-conditioner firmware; every field is
/// optional (the unit fills them in over time).
#[derive(Debug, Clone)]
pub struct ToshibaStatePayload {
    pub power: Option<bool>,
    pub mode: Option<String>,
    pub target_temp: Option<u8>,
    pub current_temp: Option<i8>,
    pub outdoor_temp: Option<i8>,
    pub fan: Option<String>,
    pub swing: Option<String>,
    pub preset: Option<String>,
    pub pwr_level: Option<u8>,
    pub self_clean: bool,
}

/// Last known state of an air conditioner, as stored by the energy manager.
#[derive(Debug, Clone)]
pub struct ToshibaAcSnapshot {
    pub power: Option<bool>,
    pub mode: Option<String>,
    pub target_temp_c: Option<u8>,
    pub current_temp_c: Option<i8>,
    pub outdoor_temp_c: Option<i8>,
    pub fan: Option<String>,
    pub swing: Option<String>,
    pub preset: Option<String>,
    pub pwr_level_pct: Option<u8>,
    pub self_clean: bool,
    /// When the state was received.
    pub last_update: Option<i64>,
}

/// The state payload received at `now`, as a stored snapshot.
pub fn snapshot_from_payload(p: ToshibaStatePayload, now: i64) -> (s: ToshibaAcSnapshot)
    ensures
        s.power == p.power,
        s.mode == p.mode,
        s.target_temp_c == p.target_temp,
        s.current_temp_c == p.current_temp,
        s.outdoor_temp_c == p.outdoor_temp,
        s.fan == p.fan,
        s.swing == p.swing,
        s.preset == p.preset,
        s.pwr_level_pct == p.pwr_level,
        s.self_clean == p.self_clean,
        s.last_update == Some(now),
{
    ToshibaAcSnapshot {
        power: p.power,
        mode: p.mode,
        target_temp_c: p.target_temp,
        current_temp_c: p.current_temp,
        outdoor_temp_c: p.outdoor_temp,
        fan: p.fan,
        swing: p.swing,
        preset: p.preset,
        pwr_level_pct: p.pwr_level,
        self_clean: p.self_clean,
        last_update: Some(now),
    }
}

/// Presence payload of the FP2 bridge (`{"present": bool, "ts": epoch}`, `ts` ignored).
#[derive(Debug, Clone, Copy, PartialEq, Eq)]
pub struct PresencePayload {
    pub present: bool,
}

/// Air-conditioning action deduced from presence.
#[derive(Debug, Clone, Copy, PartialEq, Eq, Structural)]
pub enum PresenceAction {
    /// Room occupied: comfort (normal power and preset).
    Occupied,
    /// Short absence: ECO.
    Eco,
    /// Long absence: OFF.
    Off,
}

/// Present → `Occupied`; absent for at least `off_after` → `Off`; absent for
/// at least `eco_after` → `Eco`; otherwise (grace period) → `Occupied`.
pub open spec fn presence_action(
    present: bool,
    secs_since_presence: u64,
    eco_after: u64,
    off_after: u64,
) -> PresenceAction {
    if present {
        PresenceAction::Occupied
    } else if secs_since_presence >= off_after {
        PresenceAction::Off
    } else if secs_since_presence >= eco_after {
        PresenceAction::Eco
    } else {
        PresenceAction::Occupied
    }
}

pub fn decide_presence(present: bool, secs_since_presence: u64, eco_after: u64, off_after: u64) -> (r:
    PresenceAction)
    ensures
        r == presence_action(present, secs_since_presence, eco_after, off_after),
{
    if present {
        PresenceAction::Occupied
    } else if secs_since_presence >= off_after {
        PresenceAction::Off
    } else if secs_since_presence >= eco_after {
        PresenceAction::Eco
    } else {
        PresenceAction::Occupied
    }
}

/// Command payload sent for an action.
pub open spec fn presence_command(action: PresenceAction) -> Seq<char> {
    match action {
        PresenceAction::Occupied => "{\"power\":true,\"preset\":\"standard\"}"@,
        PresenceAction::Eco => "{\"preset\":\"eco\"}"@,
        PresenceAction::Off => "{\"power\":false}"@,
    }
}

/// JSON command for an action (the caller only sends on a change of action).
pub fn presence_command_json(action: PresenceAction) -> (r: &'static str)
    ensures
        r@ == presence_command(action),
{
    match action {
        PresenceAction::Occupied => "{\"power\":true,\"preset\":\"standard\"}",
        PresenceAction::Eco => "{\"preset\":\"eco\"}",
        PresenceAction::Off => "{\"power\":false}",
    }
}

/// Presence state of one room between two evaluations.
#[derive(Debug, Clone)]
pub struct ZonePresence {
    pub zone: String,
    pub present: bool,
    /// Last time presence was seen (anchor of the absence counter).
    pub last_seen_present: i64,
    /// Last action emitted (only changes are published).
    pub last_action: Option<PresenceAction>,
}

/// Seconds of absence of a room at `now` (zero while present or if the clock
/// is behind the anchor).
pub open spec fn absence_secs(z: ZonePresence, now: i64) -> int {
    if z.present {
        0
    } else if now - z.last_seen_present < 0 {
        0
    } else {
        now - z.last_seen_present
    }
}

/// Action of a room at `now`.
pub open spec fn zone_action(z: ZonePresence, now: i64, eco_after: u64, off_after: u64) -> PresenceAction {
    presence_action(z.present, absence_secs(z, now) as u64, eco_after, off_after)
}

/// Whether evaluating room `z` at `now` changes its action.
pub open spec fn zone_changes(z: ZonePresence, now: i64, eco_after: u64, off_after: u64) -> bool {
    z.last_action != Some(zone_action(z, now, eco_after, off_after))
}

/// `(zone, action)` pairs emitted by an evaluation of the rooms `zs`, in order.
pub open spec fn emitted(zs: Seq<ZonePresence>, now: i64, eco_after: u64, off_after: u64) -> Seq<
    (Seq<char>, PresenceAction),
>
    decreases zs.len(),
{
    if zs.len() == 0 {
        seq![]
    } else {
        let rest = emitted(zs.drop_last(), now, eco_after, off_after);
        let z = zs.last();
        if zone_changes(z, now, eco_after, off_after) {
            rest.push((z.zone@, zone_action(z, now, eco_after, off_after)))
        } else {
            rest
        }
    }
}

/// Rooms after an evaluation at `now`: every last action is the current one.
pub open spec fn evaluated(z: ZonePresence, now: i64, eco_after: u64, off_after: u64) -> ZonePresence {
    ZonePresence { last_action: Some(zone_action(z, now, eco_after, off_after)), ..z }
}

/// Presence tracking per room; decides at each tick which commands to emit.
#[derive(Debug)]
pub struct PresenceControl {
    zones: Vec<ZonePresence>,
}

/// No room appears twice.
pub open spec fn rooms_unique(zs: Seq<ZonePresence>) -> bool {
    forall|i: int, j: int| 0 <= i < j < zs.len() ==> #[trigger] zs[i].zone@ != #[trigger] zs[j].zone@
}

impl PresenceControl {
    #[verifier::type_invariant]
    spec fn wf(&self) -> bool {
        rooms_unique(self.zones@)
    }

    /// The rooms known so far, in the order first heard of.
    pub closed spec fn rooms(&self) -> Seq<ZonePresence> {
        self.zones@
    }

    pub fn new() -> (c: Self)
        ensures
            c.rooms().len() == 0,
            rooms_unique(c.rooms()),
    {
        PresenceControl { zones: Vec::new() }
    }

    fn find(&self, zone: &str) -> (r: Option<usize>)
        ensures
            r matches Some(i) ==> i < self.zones@.len() && self.zones@[i as int].zone@ == zone@,
            r is None ==> forall|i: int|
                0 <= i < self.zones@.len() ==> #[trigger] self.zones@[i].zone@ != zone@,
    {
        let n = self.zones.len();
        let mut i: usize = 0;
        while i < n
            invariant
                n == self.zones@.len(),
                i <= n,
                forall|j: int| 0 <= j < i ==> #[trigger] self.zones@[j].zone@ != zone@,
            decreases n - i,
        {
            if str_eq(self.zones[i].zone.as_str(), zone) {
                return Some(i);
            }
            i += 1;
        }
        None
    }

    /// Records a presence message for `zone`. The first message of a room
    /// anchors the absence counter at `now` (no spurious OFF at start-up); a
    /// presence moves the anchor to `now`.
    pub fn on_presence(&mut self, zone: &str, present: bool, now: i64)
        ensures
            (exists|i: int|
                0 <= i < old(self).rooms().len() && #[trigger] old(self).rooms()[i].zone@ == zone@)
                ==> {
                &&& final(self).rooms().len() == old(self).rooms().len()
                &&& forall|i: int|
                    0 <= i < old(self).rooms().len() ==> #[trigger] final(self).rooms()[i] == if old(
                        self,
                    ).rooms()[i].zone@ == zone@ {
                        ZonePresence {
                            present,
                            last_seen_present: if present {
                                now
                            } else {
                                old(self).rooms()[i].last_seen_present
                            },
                            ..old(self).rooms()[i]
                        }
                    } else {
                        old(self).rooms()[i]
                    }
            },
            (forall|i: int|
                0 <= i < old(self).rooms().len() ==> #[trigger] old(self).rooms()[i].zone@ != zone@)
                ==> {
                &&& final(self).rooms().len() == old(self).rooms().len() + 1
                &&& final(self).rooms().take(old(self).rooms().len() as int) == old(self).rooms()
                &&& final(self).rooms().last().zone@ == zone@
                &&& final(self).rooms().last().present == present
                &&& final(self).rooms().last().last_seen_present == now
                &&& final(self).rooms().last().last_action is None
            },
            rooms_unique(final(self).rooms()),
    {
        proof {
            use_type_invariant(&*self);
        }
        let ghost zs = self.zones@;
        let mut zones: Vec<ZonePresence> = Vec::new();
        let found = self.find(zone);
        std::mem::swap(&mut zones, &mut self.zones);
        match found {
            Some(i) => {
                zones[i].present = present;
                if present {
                    zones[i].last_seen_present = now;
                }
                assert forall|k: int| 0 <= k < zs.len() implies #[trigger] zones@[k] == if zs[k].zone@
                    == zone@ {
                    ZonePresence {
                        present,
                        last_seen_present: if present {
                            now
                        } else {
                            zs[k].last_seen_present
                        },
                        ..zs[k]
                    }
                } else {
                    zs[k]
                } by {
                    if k != i {
                        assert(zs[k].zone@ != zs[i as int].zone@);
                    }
                }
                assert forall|a: int, b: int| 0 <= a < b < zones@.len() implies #[trigger] zones@[a].zone@
                    != #[trigger] zones@[b].zone@ by {
                    assert(zones@[a].zone == zs[a].zone);
                    assert(zones@[b].zone == zs[b].zone);
                }
            },
            None => {
                let e = ZonePresence {
                    zone: zone.to_owned(),
                    present,
                    last_seen_present: now,
                    last_action: None,
                };
                zones.push(e);
                assert(zones@.take(zs.len() as int) =~= zs);
                assert(zones@[zs.len() as int].zone@ == zone@);
            },
        }
        self.zones = zones;
        proof {
            use_type_invariant(&*self);
        }
    }

    /// Evaluates every known room and returns only the `(zone, action)` pairs
    /// whose action changed since the previous evaluation (in room order).
    pub fn evaluate(&mut self, now: i64, eco_after: u64, off_after: u64) -> (out: Vec<
        (String, PresenceAction),
    >)
        ensures
            final(self).rooms().len() == old(self).rooms().len(),
            forall|i: int|
                0 <= i < old(self).rooms().len() ==> #[trigger] final(self).rooms()[i] == evaluated(
                    old(self).rooms()[i],
                    now,
                    eco_after,
                    off_after,
                ),
            out@.len() == emitted(old(self).rooms(), now, eco_after, off_after).len(),
            forall|k: int|
                0 <= k < out@.len() ==> (#[trigger] out@[k]).0@ == emitted(
                    old(self).rooms(),
                    now,
                    eco_after,
                    off_after,
                )[k].0 && out@[k].1 == emitted(old(self).rooms(), now, eco_after, off_after)[k].1,
            rooms_unique(final(self).rooms()),
    {
        proof {
            use_type_invariant(&*self);
        }
        let ghost zs = self.zones@;
        let mut zones: Vec<ZonePresence> = Vec::new();
        std::mem::swap(&mut zones, &mut self.zones);
        let mut out: Vec<(String, PresenceAction)> = Vec::new();
        let n = zones.len();
        let mut i: usize = 0;
        while i < n
            invariant
                n == zs.len(),
                zones@.len() == n,
                i <= n,
                forall|j: int|
                    0 <= j < i ==> #[trigger] zones@[j] == evaluated(zs[j], now, eco_after, off_after),
                forall|j: int| i <= j < n ==> #[trigger] zones@[j] == zs[j],
                out@.len() == emitted(zs.take(i as int), now, eco_after, off_after).len(),
                forall|k: int|
                    0 <= k < out@.len() ==> (#[trigger] out@[k]).0@ == emitted(
                        zs.take(i as int),
                        now,
                        eco_after,
                        off_after,
                    )[k].0 && out@[k].1 == emitted(zs.take(i as int), now, eco_after, off_after)[k].1,
            decreases n - i,
        {
            assert(zs.take(i + 1).drop_last() =~= zs.take(i as int));
            assert(zs.take(i + 1).last() == zs[i as int]);
            let present = zones[i].present;
            let secs: u64 = if present {
                0
            } else {
                let d: i128 = now as i128 - zones[i].last_seen_present as i128;
                if d < 0 {
                    0
                } else {
                    d as u64
                }
            };
            let action = decide_presence(present, secs, eco_after, off_after);
            let changed = match zones[i].last_action {
                Some(a) => a != action,
                None => true,
            };
            if changed {
                out.push((zones[i].zone.clone(), action));
            }
            zones[i].last_action = Some(action);
            i += 1;
        }
        assert(zs.take(n as int) =~= zs);
        proof {
            assert forall|a: int, b: int| 0 <= a < b < zones@.len() implies #[trigger] zones@[a].zone@
                != #[trigger] zones@[b].zone@ by {
                assert(zones@[a].zone@ == zs[a].zone@);
                assert(zones@[b].zone@ == zs[b].zone@);
            }
        }
        self.zones = zones;
        proof {
            use_type_invariant(&*self);
        }
        out
    }
}

/// Evaluating twice at the same instant emits nothing the second time: only
/// changes of action are published.
pub proof fn lemma_evaluate_emits_only_changes(
    zs: Seq<ZonePresence>,
    now: i64,
    eco_after: u64,
    off_after: u64,
)
    ensures
        emitted(
            Seq::new(zs.len(), |i: int| evaluated(zs[i], now, eco_after, off_after)),
            now,
            eco_after,
            off_after,
        ).len() == 0,
    decreases zs.len(),
{
    let ev = Seq::new(zs.len(), |i: int| evaluated(zs[i], now, eco_after, off_after));
    if zs.len() > 0 {
        lemma_evaluate_emits_only_changes(zs.drop_last(), now, eco_after, off_after);
        assert(ev.drop_last() =~= Seq::new(
            zs.drop_last().len(),
            |i: int| evaluated(zs.drop_last()[i], now, eco_after, off_after),
        ));
    }
}

/// A room first heard of at `now` is never switched OFF at that instant (the
/// absence counter starts at its first message), whenever `off_after > 0`.
pub proof fn lemma_no_off_at_first_message(
    zone: String,
    present: bool,
    now: i64,
    eco_after: u64,
    off_after: u64,
)
    requires
        off_after > 0,
    ensures
        zone_action(
            ZonePresence { zone, present, last_seen_present: now, last_action: None },
            now,
            eco_after,
            off_after,
        ) != PresenceAction::Off,
{
}

/// A call made on a presence controller: a presence message of a room, or an
/// evaluation at a time with its two delays.
pub enum PresenceOp {
    Seen(Seq<char>, bool, i64),
    Evaluate(i64, u64, u64),
}

/// What the controller knows of a room (its name aside).
pub struct RoomView {
    pub present: bool,
    pub last_seen_present: i64,
    pub last_action: Option<PresenceAction>,
}

pub open spec fn room_view(z: ZonePresence) -> RoomView {
    RoomView {
        present: z.present,
        last_seen_present: z.last_seen_present,
        last_action: z.last_action,
    }
}

/// Action of a room with this knowledge at `now`.
pub open spec fn view_action(v: RoomView, now: i64, eco_after: u64, off_after: u64) -> PresenceAction {
    let secs: int = if v.present {
        0
    } else if now - v.last_seen_present < 0 {
        0
    } else {
        now - v.last_seen_present
    };
    presence_action(v.present, secs as u64, eco_after, off_after)
}

/// What the controller knows of room `z` after the first `i` calls: nothing
/// before its first message; then its last presence flag, the time of its
/// last presence (or of its first message, if never present since), and the
/// action of the last evaluation since it is known.
pub open spec fn room_after(ops: Seq<PresenceOp>, i: int, z: Seq<char>) -> Option<RoomView>
    decreases i,
{
    if i <= 0 {
        None
    } else {
        let prev = room_after(ops, i - 1, z);
        match ops[i - 1] {
            PresenceOp::Seen(y, p, t) => if y == z {
                match prev {
                    Some(v) => Some(
                        RoomView {
                            present: p,
                            last_seen_present: if p {
                                t
                            } else {
                                v.last_seen_present
                            },
                            last_action: v.last_action,
                        },
                    ),
                    None => Some(RoomView { present: p, last_seen_present: t, last_action: None }),
                }
            } else {
                prev
            },
            PresenceOp::Evaluate(now, e, o) => match prev {
                Some(v) => Some(
                    RoomView { last_action: Some(view_action(v, now, e, o)), ..v },
                ),
                None => None,
            },
        }
    }
}

/// Index of the first room named `z`.
pub open spec fn room_index(zs: Seq<ZonePresence>, z: Seq<char>) -> Option<int>
    decreases zs.len(),
{
    if zs.len() == 0 {
        None
    } else if zs[0].zone@ == z {
        Some(0)
    } else {
        match room_index(zs.drop_first(), z) {
            Some(i) => Some(i + 1),
            None => None,
        }
    }
}

/// The rooms `a` after the presence message `(z, p, t)` on the rooms `b`, as
/// [`PresenceControl::on_presence`] states it.
pub open spec fn seen_step(b: Seq<ZonePresence>, a: Seq<ZonePresence>, z: Seq<char>, p: bool, t: i64) -> bool {
    &&& (exists|i: int| 0 <= i < b.len() && #[trigger] b[i].zone@ == z) ==> {
        &&& a.len() == b.len()
        &&& forall|i: int|
            0 <= i < b.len() ==> #[trigger] a[i] == if b[i].zone@ == z {
                ZonePresence {
                    present: p,
                    last_seen_present: if p {
                        t
                    } else {
                        b[i].last_seen_present
                    },
                    ..b[i]
                }
            } else {
                b[i]
            }
    }
    &&& (forall|i: int| 0 <= i < b.len() ==> #[trigger] b[i].zone@ != z) ==> {
        &&& a.len() == b.len() + 1
        &&& a.take(b.len() as int) == b
        &&& a.last().zone@ == z
        &&& a.last().present == p
        &&& a.last().last_seen_present == t
        &&& a.last().last_action is None
    }
}

/// The rooms `a` after an evaluation on the rooms `b`, as
/// [`PresenceControl::evaluate`] states it.
pub open spec fn evaluate_step(b: Seq<ZonePresence>, a: Seq<ZonePresence>, now: i64, e: u64, o: u64) -> bool {
    &&& a.len() == b.len()
    &&& forall|i: int| 0 <= i < b.len() ==> #[trigger] a[i] == evaluated(b[i], now, e, o)
}

proof fn lemma_room_index(zs: Seq<ZonePresence>, z: Seq<char>)
    ensures
        match room_index(zs, z) {
            Some(i) => 0 <= i < zs.len() && zs[i].zone@ == z && forall|j: int|
                0 <= j < i ==> #[trigger] zs[j].zone@ != z,
            None => forall|j: int| 0 <= j < zs.len() ==> #[trigger] zs[j].zone@ != z,
        },
    decreases zs.len(),
{
    if zs.len() > 0 && zs[0].zone@ != z {
        let t = zs.drop_first();
        lemma_room_index(t, z);
        assert forall|j: int| 0 < j < zs.len() implies zs[j] == #[trigger] t[j - 1] by {}
        match room_index(t, z) {
            Some(i) => {
                assert forall|j: int| 0 <= j < i + 1 implies #[trigger] zs[j].zone@ != z by {
                    if j > 0 {
                        assert(zs[j] == t[j - 1]);
                    }
                }
            },
            None => {
                assert forall|j: int| 0 <= j < zs.len() implies #[trigger] zs[j].zone@ != z by {
                    if j > 0 {
                        assert(zs[j] == t[j - 1]);
                    }
                }
            },
        }
    }
}

proof fn lemma_room_index_unique(zs: Seq<ZonePresence>, z: Seq<char>, i: int)
    requires
        0 <= i < zs.len(),
        zs[i].zone@ == z,
        forall|j: int| 0 <= j < i ==> #[trigger] zs[j].zone@ != z,
    ensures
        room_index(zs, z) == Some(i),
{
    lemma_room_index(zs, z);
    match room_index(zs, z) {
        Some(c) => {
            if c < i {
                assert(zs[c].zone@ != z);
            } else if c > i {
                assert(zs[i].zone@ != z);
            }
        },
        None => {
            assert(zs[i].zone@ != z);
        },
    }
}

/// Same names, same positions: a renaming-free update of the rooms finds
/// every room at the same index.
proof fn lemma_room_index_same_names(b: Seq<ZonePresence>, a: Seq<ZonePresence>, z: Seq<char>)
    requires
        a.len() == b.len(),
        forall|i: int| 0 <= i < b.len() ==> #[trigger] a[i].zone@ == b[i].zone@,
    ensures
        room_index(a, z) == room_index(b, z),
{
    lemma_room_index(b, z);
    match room_index(b, z) {
        Some(i) => {
            assert forall|j: int| 0 <= j < i implies #[trigger] a[j].zone@ != z by {
                assert(b[j].zone@ != z);
            }
            lemma_room_index_unique(a, z, i);
        },
        None => {
            lemma_room_index(a, z);
            if let Some(c) = room_index(a, z) {
                assert(b[c].zone@ != z);
            }
        },
    }
}

proof fn lemma_presence_states(rooms: Seq<Seq<ZonePresence>>, ops: Seq<PresenceOp>, k: int)
    requires
        rooms.len() == ops.len() + 1,
        rooms[0].len() == 0,
        forall|j: int|
            0 <= j < ops.len() ==> match #[trigger] ops[j] {
                PresenceOp::Seen(z, p, t) => seen_step(rooms[j], rooms[j + 1], z, p, t),
                PresenceOp::Evaluate(now, e, o) => evaluate_step(rooms[j], rooms[j + 1], now, e, o),
            },
        0 <= k <= ops.len(),
    ensures
        forall|z: Seq<char>|
            match #[trigger] room_index(rooms[k], z) {
                Some(i) => room_after(ops, k, z) == Some(room_view(rooms[k][i])),
                None => room_after(ops, k, z) is None,
            },
    decreases k,
{
    if k == 0 {
        assert forall|z: Seq<char>| #[trigger] room_index(rooms[0], z) is None by {}
    } else {
        let j = k - 1;
        lemma_presence_states(rooms, ops, j);
        let b = rooms[j];
        let a = rooms[j + 1];
        assert(a == rooms[k]);
        match ops[j] {
            PresenceOp::Seen(y, p, t) => {
                assert(seen_step(b, a, y, p, t));
                if exists|i: int| 0 <= i < b.len() && #[trigger] b[i].zone@ == y {
                    assert forall|i: int| 0 <= i < b.len() implies #[trigger] a[i].zone@ == b[i].zone@ by {}
                    assert forall|z: Seq<char>|
                        match #[trigger] room_index(rooms[k], z) {
                            Some(i) => room_after(ops, k, z) == Some(room_view(rooms[k][i])),
                            None => room_after(ops, k, z) is None,
                        } by {
                        lemma_room_index_same_names(b, a, z);
                        lemma_room_index(b, z);
                        assert(room_index(rooms[j], z) == room_index(b, z));
                    }
                } else {
                    assert forall|z: Seq<char>|
                        match #[trigger] room_index(rooms[k], z) {
                            Some(i) => room_after(ops, k, z) == Some(room_view(rooms[k][i])),
                            None => room_after(ops, k, z) is None,
                        } by {
                        lemma_room_index(b, z);
                        assert(room_index(rooms[j], z) == room_index(b, z));
                        assert forall|i: int| 0 <= i < b.len() implies a[i] == #[trigger] b[i] by {
                            assert(a.take(b.len() as int)[i] == a[i]);
                        }
                        match room_index(b, z) {
                            Some(i) => {
                                assert forall|m: int| 0 <= m < i implies #[trigger] a[m].zone@ != z by {
                                    assert(a[m] == b[m]);
                                }
                                lemma_room_index_unique(a, z, i);
                            },
                            None => {
                                if z == y {
                                    assert forall|m: int| 0 <= m < b.len() implies #[trigger] a[m].zone@ != z by {
                                        assert(a[m] == b[m]);
                                    }
                                    lemma_room_index_unique(a, z, b.len() as int);
                                } else {
                                    lemma_room_index(a, z);
                                    if let Some(c) = room_index(a, z) {
                                        if c < b.len() {
                                            assert(a[c] == b[c]);
                                        }
                                    }
                                }
                            },
                        }
                    }
                }
            },
            PresenceOp::Evaluate(now, e, o) => {
                assert(evaluate_step(b, a, now, e, o));
                assert forall|i: int| 0 <= i < b.len() implies #[trigger] a[i].zone@ == b[i].zone@ by {
                    assert(a[i] == evaluated(b[i], now, e, o));
                }
                assert forall|z: Seq<char>|
                    match #[trigger] room_index(rooms[k], z) {
                        Some(i) => room_after(ops, k, z) == Some(room_view(rooms[k][i])),
                        None => room_after(ops, k, z) is None,
                    } by {
                    lemma_room_index_same_names(b, a, z);
                    lemma_room_index(b, z);
                    assert(room_index(rooms[j], z) == room_index(b, z));
                    if let Some(i) = room_index(b, z) {
                        assert(a[i] == evaluated(b[i], now, e, o));
                    }
                }
            },
        }
    }
}

/// Over any sequence of presence messages and evaluations on a controller
/// created empty, the controller's room `z` (found by name) holds exactly
/// what [`room_after`] says: nothing before its first message, then its last
/// presence flag, the time of its last presence (of its first message if it
/// was never present since), and the action of its last evaluation. An
/// evaluation therefore emits, for each known room, the action computed from
/// that knowledge when it differs from the action last emitted (none yet
/// counting as different).
pub proof fn lemma_presence_sequence(rooms: Seq<Seq<ZonePresence>>, ops: Seq<PresenceOp>)
    requires
        rooms.len() == ops.len() + 1,
        rooms[0].len() == 0,
        forall|j: int|
            0 <= j < ops.len() ==> match #[trigger] ops[j] {
                PresenceOp::Seen(z, p, t) => seen_step(rooms[j], rooms[j + 1], z, p, t),
                PresenceOp::Evaluate(now, e, o) => evaluate_step(rooms[j], rooms[j + 1], now, e, o),
            },
    ensures
        forall|k: int, z: Seq<char>|
            0 <= k <= ops.len() ==> match #[trigger] room_index(rooms[k], z) {
                Some(i) => room_after(ops, k, z) == Some(room_view(rooms[k][i])),
                None => room_after(ops, k, z) is None,
            },
        forall|r: ZonePresence, now: i64, e: u64, o: u64|
            #[trigger] zone_changes(r, now, e, o) == (r.last_action != Some(
                view_action(room_view(r), now, e, o),
            )) && zone_action(r, now, e, o) == view_action(room_view(r), now, e, o),
{
    assert forall|k: int, z: Seq<char>| 0 <= k <= ops.len() implies match #[trigger] room_index(
        rooms[k],
        z,
    ) {
        Some(i) => room_after(ops, k, z) == Some(room_view(rooms[k][i])),
        None => room_after(ops, k, z) is None,
    } by {
        lemma_presence_states(rooms, ops, k);
    }
}

} // verus!
