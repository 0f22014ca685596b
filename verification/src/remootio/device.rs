//! WebSocket session with a Remootio device: commands, events reported to
//! MQTT, and the session state machine fed with the decoded frames (the
//! connection, keep-alive and frame decoding are done by the application).
use vstd::prelude::*;
use crate::json::{as_str, as_u64, get, json_get, json_value_of, json_view, str_of, u64_of, Json};
use crate::remootio::protocol::{
    action_json, action_text, base64_decoding, decode_base64_key, decrypt_frame, failure_matches,
    next_action_id, plaintext_of, EncryptedFrame, ProtocolError,
};
use crate::json::json_accepts;

verus! {

/// Command received on MQTT for a device.
#[derive(Debug, Clone, Copy, PartialEq, Eq, Structural)]
pub enum Command {
    Open,
    Close,
    Trigger,
    TriggerSecondary,
    Query,
}

/// Event reported by a device session.
#[derive(Debug, Clone)]
pub enum Event {
    Authenticated,
    Disconnected,
    /// State reported by a `StateChange` event or by the reply to a `QUERY`.
    State(String),
}

/// A configured device.
pub struct DeviceConfig {
    pub name: String,
    pub ip: String,
    pub secret_key: [u8; 32],
    pub auth_key: [u8; 32],
    pub ping_interval: core::time::Duration,
}

/// Action type sent for a command.
pub open spec fn action_type_of(c: Command) -> Seq<char> {
    match c {
        Command::Open => "OPEN"@,
        Command::Close => "CLOSE"@,
        Command::Trigger => "TRIGGER"@,
        Command::TriggerSecondary => "TRIGGER_SECONDARY"@,
        Command::Query => "QUERY"@,
    }
}

pub fn action_type(c: Command) -> (r: &'static str)
    ensures
        r@ == action_type_of(c),
{
    match c {
        Command::Open => "OPEN",
        Command::Close => "CLOSE",
        Command::Trigger => "TRIGGER",
        Command::TriggerSecondary => "TRIGGER_SECONDARY",
        Command::Query => "QUERY",
    }
}

/// Plaintext of the action sent for `cmd` after the action `last_action_id`.
pub fn command_plaintext(cmd: Command, last_action_id: u32) -> (r: String)
    requires
        last_action_id < u32::MAX,
    ensures
        r@ == action_text(
            action_type_of(cmd),
            ((last_action_id + 1) % 0x7fff_ffff) as u32,
            None,
        ),
{
    let next_id = next_action_id(last_action_id);
    action_json(action_type(cmd), next_id, None)
}

/// Decoded content of a frame received from the device.
#[derive(Debug, Clone)]
pub enum SessionMessage {
    /// Authentication challenge: Base64 session key and first action id.
    Challenge { session_key_b64: Option<String>, initial_action_id: Option<u64> },
    /// Reply to an action: its id, whether it answers a `QUERY`, and the
    /// reported state.
    Response { id: Option<u64>, is_query: bool, state: Option<String> },
    /// Event of type `StateChange` with its state.
    StateChange { state: Option<String> },
    /// Anything else (ignored).
    Other,
}

/// Text of an optional string.
pub open spec fn opt_text(s: Option<String>) -> Option<Seq<char>> {
    match s {
        Some(t) => Some(t@),
        None => None,
    }
}

/// `m` is what the decrypted document `j` says: a `challenge` (session key
/// and first action id), else a `response` (id, whether its type is `QUERY`,
/// state), else an `event` of type `StateChange` (state), else nothing of
/// interest.
pub open spec fn reads_as(m: SessionMessage, j: Json) -> bool {
    match json_get(j, "challenge"@) {
        Some(c) => match m {
            SessionMessage::Challenge { session_key_b64, initial_action_id } => opt_text(
                session_key_b64,
            ) == str_of(json_get(c, "sessionKey"@)) && initial_action_id == u64_of(
                json_get(c, "initialActionId"@),
            ),
            _ => false,
        },
        None => match json_get(j, "response"@) {
            Some(r) => match m {
                SessionMessage::Response { id, is_query, state } => id == u64_of(
                    json_get(r, "id"@),
                ) && is_query == (str_of(json_get(r, "type"@)) == Some("QUERY"@)) && opt_text(
                    state,
                ) == str_of(json_get(r, "state"@)),
                _ => false,
            },
            None => match json_get(j, "event"@) {
                Some(e) => if str_of(json_get(e, "type"@)) == Some("StateChange"@) {
                    match m {
                        SessionMessage::StateChange { state } => opt_text(state) == str_of(
                            json_get(e, "state"@),
                        ),
                        _ => false,
                    }
                } else {
                    m is Other
                },
                None => m is Other,
            },
        },
    }
}

fn owned(s: Option<&str>) -> (r: Option<String>)
    ensures
        opt_text(r) == match s {
            Some(t) => Some(t@),
            None => None::<Seq<char>>,
        },
{
    match s {
        Some(t) => Some(String::from_str(t)),
        None => None,
    }
}

fn is_text(s: Option<&str>, t: &str) -> (r: bool)
    ensures
        r == (match s {
            Some(x) => Some(x@),
            None => None::<Seq<char>>,
        } == Some(t@)),
{
    match s {
        Some(x) => crate::text::str_eq(x, t),
        None => false,
    }
}

/// What a decrypted document says to the session.
pub fn session_message(v: &Json) -> (m: SessionMessage)
    ensures
        reads_as(m, *v),
{
    if let Some(challenge) = get(v, "challenge") {
        return SessionMessage::Challenge {
            session_key_b64: owned(as_str(get(challenge, "sessionKey"))),
            initial_action_id: as_u64(get(challenge, "initialActionId")),
        };
    }
    if let Some(response) = get(v, "response") {
        return SessionMessage::Response {
            id: as_u64(get(response, "id")),
            is_query: is_text(as_str(get(response, "type")), "QUERY"),
            state: owned(as_str(get(response, "state"))),
        };
    }
    if let Some(event) = get(v, "event") {
        if is_text(as_str(get(event, "type")), "StateChange") {
            return SessionMessage::StateChange { state: owned(as_str(get(event, "state"))) };
        }
    }
    SessionMessage::Other
}

/// Decrypts a frame and reads what its document says to the session: the
/// outcome of [`decrypt_frame`], its document read by [`session_message`].
pub fn frame_message(frame: &EncryptedFrame, aes_key: &[u8; 32], auth_key: &[u8; 32]) -> (r: Result<
    SessionMessage,
    ProtocolError,
>)
    ensures
        match plaintext_of(*frame, aes_key@, auth_key@) {
            Ok(pt) => if json_accepts(pt) {
                r matches Ok(m) && reads_as(m, json_view(json_value_of(pt)))
            } else {
                r matches Err(ProtocolError::Json(_))
            },
            Err(f) => r matches Err(e) && failure_matches(e, f),
        },
{
    match decrypt_frame(frame, aes_key, auth_key) {
        Ok(v) => {
            let j = crate::json::json_from_value(&v);
            Ok(session_message(&j))
        },
        Err(e) => Err(e),
    }
}

/// State of a session.
#[derive(Debug, Clone, Copy, PartialEq, Eq)]
pub struct Session {
    pub session_key: Option<[u8; 32]>,
    pub last_action_id: Option<u32>,
    pub waiting_for_auth_query: bool,
    pub authenticated: bool,
}

/// Last action id after a reply with id `id`: it moves forward (or wraps
/// from `0x7FFFFFFF` to 0), and is taken as is when none is known yet.
pub open spec fn next_last_id(prev: Option<u32>, id: u32) -> Option<u32> {
    match prev {
        Some(p) => if p < id || (id == 0 && p == 0x7fff_ffff) {
            Some(id)
        } else {
            Some(p)
        },
        None => Some(id),
    }
}

impl Session {
    pub fn new() -> (s: Self)
        ensures
            s.session_key is None,
            s.last_action_id is None,
            !s.waiting_for_auth_query,
            !s.authenticated,
    {
        Session {
            session_key: None,
            last_action_id: None,
            waiting_for_auth_query: false,
            authenticated: false,
        }
    }

    /// Key decrypting the incoming frames: the session key once received,
    /// the secret key before.
    pub fn aes_key(&self, secret_key: &[u8; 32]) -> (k: [u8; 32])
        ensures
            k == match self.session_key {
                Some(s) => s,
                None => *secret_key,
            },
    {
        match self.session_key {
            Some(s) => s,
            None => *secret_key,
        }
    }

    /// Handles a decoded frame. Returns whether the caller must now send the
    /// `QUERY` action that completes the authentication, and the events to
    /// report.
    pub fn on_message(&mut self, msg: SessionMessage) -> (r: (bool, Vec<Event>))
        ensures
            match msg {
                SessionMessage::Challenge { session_key_b64, initial_action_id } => {
                    let accepted = session_key_b64 matches Some(k) && base64_decoding(k@) matches Some(b) && b.len() == 32;
                    &&& r.1@.len() == 0
                    &&& r.0 == accepted
                    &&& accepted ==> {
                        &&& (final(self).session_key matches Some(k) && k@ == base64_decoding(session_key_b64.unwrap()@).unwrap())
                        &&& final(self).last_action_id == match initial_action_id {
                            Some(v) => Some(v as u32),
                            None => None::<u32>,
                        }
                        &&& final(self).waiting_for_auth_query
                        &&& final(self).authenticated == old(self).authenticated
                    }
                    &&& !accepted ==> *final(self) == *old(self)
                },
                SessionMessage::Response { id, is_query, state } => {
                    &&& !r.0
                    &&& final(self).session_key == old(self).session_key
                    &&& final(self).last_action_id == match id {
                        Some(i) => next_last_id(old(self).last_action_id, i as u32),
                        None => old(self).last_action_id,
                    }
                    &&& final(self).authenticated == (old(self).authenticated || (is_query && old(self).waiting_for_auth_query))
                    &&& final(self).waiting_for_auth_query == (old(self).waiting_for_auth_query && !is_query)
                    &&& r.1@.len() == (if is_query && old(self).waiting_for_auth_query { 1int } else { 0 }) + (if is_query && state is Some { 1int } else { 0 })
                    &&& (is_query && old(self).waiting_for_auth_query) ==> r.1@[0] is Authenticated
                    &&& (is_query && state is Some) ==> (r.1@.last() matches Event::State(s) && s@ == state.unwrap()@)
                },
                SessionMessage::StateChange { state } => {
                    &&& !r.0
                    &&& *final(self) == *old(self)
                    &&& r.1@.len() == (if state is Some { 1int } else { 0 })
                    &&& state is Some ==> (r.1@[0] matches Event::State(s) && s@ == state.unwrap()@)
                },
                SessionMessage::Other => {
                    &&& !r.0
                    &&& *final(self) == *old(self)
                    &&& r.1@.len() == 0
                },
            },
    {
        let mut events: Vec<Event> = Vec::new();
        match msg {
            SessionMessage::Challenge { session_key_b64, initial_action_id } => {
                let b64 = match session_key_b64 {
                    Some(k) => k,
                    None => return (false, events),
                };
                match decode_base64_key(b64.as_str()) {
                    Ok(key) => {
                        self.session_key = Some(key);
                    },
                    Err(_) => return (false, events),
                }
                self.last_action_id = match initial_action_id {
                    Some(v) => Some(v as u32),
                    None => None,
                };
                self.waiting_for_auth_query = true;
                (true, events)
            },
            SessionMessage::Response { id, is_query, state } => {
                if let Some(i) = id {
                    let i = i as u32;
                    match self.last_action_id {
                        Some(prev) => {
                            if prev < i || (i == 0 && prev == 0x7fff_ffff) {
                                self.last_action_id = Some(i);
                            }
                        },
                        None => {
                            self.last_action_id = Some(i);
                        },
                    }
                }
                if is_query {
                    if self.waiting_for_auth_query {
                        self.waiting_for_auth_query = false;
                        self.authenticated = true;
                        events.push(Event::Authenticated);
                    }
                    if let Some(s) = state {
                        events.push(Event::State(s));
                    }
                }
                (false, events)
            },
            SessionMessage::StateChange { state } => {
                if let Some(s) = state {
                    events.push(Event::State(s));
                }
                (false, events)
            },
            SessionMessage::Other => (false, events),
        }
    }
}

} // verus!
