//! Bridge configuration: exposed zones, MQTT broker, Matter commissioning
//! parameters; validation and topic derivation.
use vstd::prelude::*;
use crate::text::{
    dec_digits, is_ws, is_ws_char, push_char, push_u64, topic_zone, topic_zone_exec,
};

verus! {

/// Matter setup passcodes forbidden by the specification (too weak / patterns).
pub open spec fn forbidden_passcode(p: u32) -> bool {
    p == 0 || p == 11111111 || p == 22222222 || p == 33333333 || p == 44444444 || p
        == 55555555 || p == 66666666 || p == 77777777 || p == 88888888 || p == 99999999 || p
        == 12345678 || p == 87654321
}

/// Local root of the Toshiba topics.
pub const TOPIC_ROOT: &'static str = "santuario/toshiba";

/// `Debug` rendering of a string (quoted, escaped), as `format!("{:?}", s)`.
pub uninterp spec fn debug_str(s: Seq<char>) -> Seq<char>;

/// Renders `s` with `<str as Debug>::fmt`; the result is named by
/// [`debug_str`] and is a function of the text alone.
#[verifier::external_body]
fn debug_text(s: &str) -> (r: String)
    ensures
        r@ == debug_str(s@),
{
    format!("{s:?}")
}

#[derive(Debug, Clone)]
pub struct NodeConfig {
    /// Zones: Toshiba nodes exposed as one Thermostat endpoint each.
    pub zones: Vec<String>,
    pub mqtt_host: String,
    pub mqtt_port: u16,
    /// Matter commissioning discriminator (12 bits: 0..=4095).
    pub discriminator: u16,
    /// Matter setup passcode.
    pub passcode: u32,
    /// Matter identifiers (test range by default).
    pub vendor_id: u16,
    pub product_id: u16,
}

/// A zone usable as a topic segment: non-empty, none of `/ + #` or space.
pub open spec fn zone_ok(z: Seq<char>) -> bool {
    z.len() > 0 && !z.contains('/') && !z.contains('+') && !z.contains('#') && !z.contains(' ')
}

/// `i` is the first zone that is not a valid topic segment.
pub open spec fn first_bad_zone(zs: Seq<String>, i: int) -> bool {
    &&& 0 <= i < zs.len()
    &&& !zone_ok(zs[i]@)
    &&& forall|j: int| 0 <= j < i ==> zone_ok(#[trigger] zs[j]@)
}

pub open spec fn has_duplicate(zs: Seq<String>) -> bool {
    exists|i: int, j: int| 0 <= i < j < zs.len() && #[trigger] zs[i]@ == #[trigger] zs[j]@
}

pub open spec fn all_ws(s: Seq<char>) -> bool {
    forall|i: int| 0 <= i < s.len() ==> is_ws(#[trigger] s[i])
}

pub open spec fn passcode_ok(p: u32) -> bool {
    1 <= p <= 99_999_998 && !forbidden_passcode(p)
}

/// The first rule a configuration breaks, as the message reported for it.
pub open spec fn validation_error(c: NodeConfig) -> Option<Seq<char>> {
    let zs = c.zones@;
    if zs.len() == 0 {
        Some("aucune zone configurée"@)
    } else if exists|i: int| first_bad_zone(zs, i) {
        Some(
            "zone invalide (segment de topic) : "@ + debug_str(
                zs[choose|i: int| first_bad_zone(zs, i)]@,
            ),
        )
    } else if has_duplicate(zs) {
        Some("zones dupliquées"@)
    } else if all_ws(c.mqtt_host@) {
        Some("mqtt_host vide"@)
    } else if c.discriminator > 4095 {
        Some("discriminator hors plage 0..=4095 : "@ + dec_digits(c.discriminator as nat))
    } else if !passcode_ok(c.passcode) {
        Some("passcode Matter invalide (interdit par la spec) : "@ + dec_digits(c.passcode as nat))
    } else {
        None
    }
}

fn zone_is_ok(z: &str) -> (b: bool)
    ensures
        b == zone_ok(z@),
{
    let n = z.unicode_len();
    if n == 0 {
        return false;
    }
    let mut i: usize = 0;
    while i < n
        invariant
            n == z@.len(),
            i <= n,
            forall|j: int|
                0 <= j < i ==> #[trigger] z@[j] != '/' && z@[j] != '+' && z@[j] != '#' && z@[j]
                    != ' ',
        decreases n - i,
    {
        let c = z.get_char(i);
        if c == '/' || c == '+' || c == '#' || c == ' ' {
            proof {
                if c == '/' { assert(z@.contains('/')); }
                if c == '+' { assert(z@.contains('+')); }
                if c == '#' { assert(z@.contains('#')); }
                if c == ' ' { assert(z@.contains(' ')); }
            }
            return false;
        }
        i += 1;
    }
    true
}

fn is_forbidden(p: u32) -> (b: bool)
    ensures
        b == forbidden_passcode(p),
{
    p == 0 || p == 11111111 || p == 22222222 || p == 33333333 || p == 44444444 || p == 55555555
        || p == 66666666 || p == 77777777 || p == 88888888 || p == 99999999 || p == 12345678 || p
        == 87654321
}

fn blank(s: &str) -> (b: bool)
    ensures
        b == all_ws(s@),
{
    let n = s.unicode_len();
    let mut i: usize = 0;
    while i < n
        invariant
            n == s@.len(),
            i <= n,
            forall|j: int| 0 <= j < i ==> is_ws(#[trigger] s@[j]),
        decreases n - i,
    {
        if !is_ws_char(s.get_char(i)) {
            return false;
        }
        i += 1;
    }
    true
}

fn message_with_number(prefix: &str, n: u64) -> (r: String)
    ensures
        r@ == prefix@ + dec_digits(n as nat),
{
    let mut s = String::from_str(prefix);
    push_u64(&mut s, n);
    s
}

impl NodeConfig {
    /// Commissioning defaults: local broker, Matter test values.
    pub fn new(zones: Vec<String>) -> (c: Self)
        ensures
            c.zones@ == zones@,
            c.mqtt_host@ == "127.0.0.1"@,
            c.mqtt_port == 1883,
            c.discriminator == 3840,
            c.passcode == 20202021,
            c.vendor_id == 0xFFF1,
            c.product_id == 0x8000,
    {
        NodeConfig {
            zones,
            mqtt_host: String::from_str("127.0.0.1"),
            mqtt_port: 1883,
            discriminator: 3840,
            passcode: 20202021,
            vendor_id: 0xFFF1,
            product_id: 0x8000,
        }
    }

    /// `Ok` iff no rule is broken; otherwise the message of the first broken
    /// rule, in the order: zones present, zones valid, zones distinct, host
    /// not blank, discriminator in range, passcode allowed.
    pub fn validate(&self) -> (r: Result<(), String>)
        ensures
            r is Ok <==> validation_error(*self) is None,
            r matches Err(m) ==> validation_error(*self) == Some(m@),
    {
        let zs = &self.zones;
        let n = zs.len();
        if n == 0 {
            return Err(String::from_str("aucune zone configurée"));
        }
        let mut i: usize = 0;
        while i < n
            invariant
                n == zs@.len(),
                n > 0,
                zs@ == self.zones@,
                i <= n,
                forall|j: int| 0 <= j < i ==> zone_ok(#[trigger] zs@[j]@),
            decreases n - i,
        {
            if !zone_is_ok(zs[i].as_str()) {
                assert(first_bad_zone(zs@, i as int));
                let ghost k = choose|k: int| first_bad_zone(zs@, k);
                proof {
                    assert(k == i) by {
                        if k < i {
                            assert(zone_ok(zs@[k]@));
                        }
                        if k > i {
                            assert(zone_ok(zs@[i as int]@));
                        }
                    }
                }
                let mut m = String::from_str("zone invalide (segment de topic) : ");
                let d = debug_text(zs[i].as_str());
                m.append(d.as_str());
                return Err(m);
            }
            i += 1;
        }
        assert(!exists|k: int| first_bad_zone(zs@, k));
        let mut a: usize = 0;
        while a < n
            invariant
                n == zs@.len(),
                n > 0,
                zs@ == self.zones@,
                !exists|k: int| first_bad_zone(zs@, k),
                a <= n,
                forall|x: int, y: int| 0 <= x < a && x < y < n ==> zs@[x]@ != zs@[y]@,
            decreases n - a,
        {
            let mut b: usize = a + 1;
            while b < n
                invariant
                    n == zs@.len(),
                    n > 0,
                    zs@ == self.zones@,
                    !exists|k: int| first_bad_zone(zs@, k),
                    a < n,
                    a + 1 <= b <= n,
                    forall|x: int, y: int| 0 <= x < a && x < y < n ==> zs@[x]@ != zs@[y]@,
                    forall|y: int| a < y < b ==> zs@[a as int]@ != zs@[y]@,
                decreases n - b,
            {
                if zs[a] == zs[b] {
                    assert(zs@[a as int]@ == zs@[b as int]@);
                    return Err(String::from_str("zones dupliquées"));
                }
                b += 1;
            }
            a += 1;
        }
        assert(!has_duplicate(zs@));
        if blank(self.mqtt_host.as_str()) {
            return Err(String::from_str("mqtt_host vide"));
        }
        if self.discriminator > 4095 {
            return Err(
                message_with_number(
                    "discriminator hors plage 0..=4095 : ",
                    self.discriminator as u64,
                ),
            );
        }
        if !(1 <= self.passcode && self.passcode <= 99_999_998) || is_forbidden(self.passcode) {
            return Err(
                message_with_number(
                    "passcode Matter invalide (interdit par la spec) : ",
                    self.passcode as u64,
                ),
            );
        }
        Ok(())
    }
}

/// `santuario/toshiba/<zone>/state` (subscribed).
pub fn state_topic(zone: &str) -> (r: String)
    ensures
        r@ == "santuario/toshiba/"@ + zone@ + "/state"@,
{
    let mut s = String::from_str(TOPIC_ROOT);
    push_char(&mut s, '/');
    s.append(zone);
    s.append("/state");
    proof {
        reveal_strlit("santuario/toshiba");
        reveal_strlit("santuario/toshiba/");
        assert("santuario/toshiba"@.push('/') =~= "santuario/toshiba/"@);
        assert(s@ =~= "santuario/toshiba/"@ + zone@ + "/state"@);
    }
    s
}

/// `santuario/toshiba/<zone>/command` (published, not retained).
pub fn command_topic(zone: &str) -> (r: String)
    ensures
        r@ == "santuario/toshiba/"@ + zone@ + "/command"@,
{
    let mut s = String::from_str(TOPIC_ROOT);
    push_char(&mut s, '/');
    s.append(zone);
    s.append("/command");
    proof {
        reveal_strlit("santuario/toshiba");
        reveal_strlit("santuario/toshiba/");
        assert("santuario/toshiba"@.push('/') =~= "santuario/toshiba/"@);
        assert(s@ =~= "santuario/toshiba/"@ + zone@ + "/command"@);
    }
    s
}

/// `<zone>` of a topic `santuario/toshiba/<zone>/state` (wildcard subscription).
pub fn zone_from_state_topic(topic: &str) -> (r: Option<&str>)
    ensures
        r matches Some(z) ==> topic_zone(topic@, "santuario/toshiba/"@, "/state"@) == Some(z@),
        r is None ==> topic_zone(topic@, "santuario/toshiba/"@, "/state"@) is None,
{
    topic_zone_exec(topic, "santuario/toshiba/", "/state")
}

/// The zone of the state topic of a valid zone is that zone.
pub proof fn lemma_state_topic_round_trip(zone: Seq<char>)
    requires
        zone_ok(zone),
    ensures
        topic_zone("santuario/toshiba/"@ + zone + "/state"@, "santuario/toshiba/"@, "/state"@)
            == Some(zone),
{
    let p = "santuario/toshiba/"@;
    let sfx = "/state"@;
    let t = p + zone + sfx;
    assert(t.take(p.len() as int) =~= p);
    assert(t.skip(t.len() - sfx.len()) =~= sfx);
    assert(t.subrange(p.len() as int, t.len() - sfx.len()) =~= zone);
}

} // verus!
