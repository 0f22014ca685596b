//! Requests to the LG ThinQ cloud API of the water heater: device URLs,
//! headers sent with every request, message ids, and whether the poller can
//! start.
use vstd::prelude::*;
use crate::energy::config::LgThinqConfig;
use crate::text::{hex_digits, push_hex};

verus! {

/// `<base>/devices/<device>/<action>`.
pub open spec fn device_url_of(base: Seq<char>, device: Seq<char>, action: Seq<char>) -> Seq<char> {
    base + "/devices/"@ + device + seq!['/'] + action
}

fn device_url(cfg: &LgThinqConfig, action: &str) -> (r: String)
    ensures
        r@ == device_url_of(cfg.base_url@, cfg.device_id@, action@),
{
    let mut s = cfg.base_url.clone();
    s.append("/devices/");
    s.append(cfg.device_id.as_str());
    s.append("/");
    s.append(action);
    proof {
        reveal_strlit("/");
        assert(s@ =~= device_url_of(cfg.base_url@, cfg.device_id@, action@));
    }
    s
}

/// URL of the device's state.
pub fn state_url(cfg: &LgThinqConfig) -> (r: String)
    ensures
        r@ == device_url_of(cfg.base_url@, cfg.device_id@, "state"@),
{
    device_url(cfg, "state")
}

/// URL of the device's controls.
pub fn control_url(cfg: &LgThinqConfig) -> (r: String)
    ensures
        r@ == device_url_of(cfg.base_url@, cfg.device_id@, "control"@),
{
    device_url(cfg, "control")
}

/// `(name, value)` of an optional header: present when its value is set.
pub open spec fn optional_header(name: Seq<char>, value: Seq<char>) -> Seq<(Seq<char>, Seq<char>)> {
    if value.len() == 0 {
        seq![]
    } else {
        seq![(name, value)]
    }
}

/// Headers of every request: the bearer token, then the API key, the
/// country and the client id when they are set, then the JSON content type.
pub open spec fn base_headers_of(cfg: LgThinqConfig) -> Seq<(Seq<char>, Seq<char>)> {
    seq![("authorization"@, "Bearer "@ + cfg.bearer_token@)] + optional_header(
        "x-api-key"@,
        cfg.api_key@,
    ) + optional_header("x-country"@, cfg.country@) + optional_header("x-client-id"@, cfg.client_id@)
        + seq![("content-type"@, "application/json"@)]
}

/// Views of header pairs.
pub open spec fn header_views(v: Seq<(String, String)>) -> Seq<(Seq<char>, Seq<char>)> {
    v.map_values(|p: (String, String)| (p.0@, p.1@))
}

fn push_optional(v: &mut Vec<(String, String)>, name: &str, value: &String)
    ensures
        header_views(final(v)@) == header_views(old(v)@) + optional_header(name@, value@),
{
    let ghost before = header_views(v@);
    if value.unicode_len() > 0 {
        v.push((String::from_str(name), value.clone()));
        assert(header_views(v@) =~= before + optional_header(name@, value@));
    } else {
        assert(header_views(v@) =~= before + optional_header(name@, value@));
    }
}

pub fn base_headers(cfg: &LgThinqConfig) -> (r: Vec<(String, String)>)
    ensures
        header_views(r@) == base_headers_of(*cfg),
{
    let mut v: Vec<(String, String)> = Vec::new();
    let mut bearer = String::from_str("Bearer ");
    bearer.append(cfg.bearer_token.as_str());
    v.push((String::from_str("authorization"), bearer));
    assert(header_views(v@) =~= seq![("authorization"@, "Bearer "@ + cfg.bearer_token@)]);
    push_optional(&mut v, "x-api-key", &cfg.api_key);
    push_optional(&mut v, "x-country", &cfg.country);
    push_optional(&mut v, "x-client-id", &cfg.client_id);
    let ghost before = header_views(v@);
    v.push((String::from_str("content-type"), String::from_str("application/json")));
    assert(header_views(v@) =~= before + seq![("content-type"@, "application/json"@)]);
    v
}

/// Id of a request sent at `ms` (epoch milliseconds): their lowercase
/// hexadecimal text.
pub fn message_id(ms: u64) -> (r: String)
    ensures
        r@ == hex_digits(ms as nat),
{
    let mut s = String::new();
    push_hex(&mut s, ms);
    assert(s@ =~= hex_digits(ms as nat));
    s
}

/// Whether the state poller starts.
#[derive(Debug, Clone, Copy, PartialEq, Eq, Structural)]
pub enum PollerStart {
    /// The integration is disabled.
    Disabled,
    /// Enabled without a device id or a bearer token.
    MissingCredentials,
    Start,
}

pub fn poller_start(cfg: &LgThinqConfig) -> (r: PollerStart)
    ensures
        r == (if !cfg.enabled {
            PollerStart::Disabled
        } else if cfg.device_id@.len() == 0 || cfg.bearer_token@.len() == 0 {
            PollerStart::MissingCredentials
        } else {
            PollerStart::Start
        }),
{
    if !cfg.enabled {
        PollerStart::Disabled
    } else if cfg.device_id.unicode_len() == 0 || cfg.bearer_token.unicode_len() == 0 {
        PollerStart::MissingCredentials
    } else {
        PollerStart::Start
    }
}

} // verus!
