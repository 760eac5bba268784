//! The client facade: the state composed of the shared context and the
//! selected game engine, and the decision parts of the lifecycle
//! operations — which engine a seed selects, what each outgoing backend
//! event carries, and which report parameters a partially initialized
//! client falls back to.  The RPC calls themselves are the host's.

use vstd::prelude::*;

use crate::context::{ClientContext, ClientData, SessionEvent, EventKind};
use crate::engine::SMZ3Client;
use crate::errors::ClientError;
use vstd::string::StringExecFns;

verus! {

/// Case-insensitive ASCII equality on character codes.
pub open spec fn lower_code(c: char) -> int {
    if 'A' <= c && c <= 'Z' {
        c as int + 32
    } else {
        c as int
    }
}

/// Two strings are equal up to ASCII case.
pub open spec fn eq_nocase(a: Seq<char>, b: Seq<char>) -> bool {
    a.len() == b.len() && forall|i: int| 0 <= i < a.len() ==> lower_code(a[i]) == lower_code(b[i])
}

/// Compares two strings up to ASCII case.
pub fn ascii_eq_nocase(a: &str, b: &str) -> (r: bool)
    ensures
        r == eq_nocase(a@, b@),
{
    let na: usize = a.unicode_len();
    let nb: usize = b.unicode_len();
    if na != nb {
        return false;
    }
    let mut i: usize = 0;
    while i < na
        invariant
            i <= na,
            na == a@.len(),
            na == b@.len(),
            forall|j: int| 0 <= j < i ==> lower_code(a@[j]) == lower_code(b@[j]),
        decreases na - i,
    {
        let ca: char = a.get_char(i);
        let cb: char = b.get_char(i);
        let va: u32 = if 'A' <= ca && ca <= 'Z' {
            (ca as u32) + 32
        } else {
            ca as u32
        };
        let vb: u32 = if 'A' <= cb && cb <= 'Z' {
            (cb as u32) + 32
        } else {
            cb as u32
        };
        if va != vb {
            return false;
        }
        i = i + 1;
    }
    true
}

/// The game/mode pair the SMZ3 multiworld engine serves.
pub open spec fn selects_smz3_multiworld(game_id: Seq<char>, game_mode: Seq<char>) -> bool {
    eq_nocase(game_id, "smz3"@) && eq_nocase(game_mode, "multiworld"@)
}

/// The client facade: the shared context and the engine selected by
/// `start`, if any.
#[derive(Debug)]
pub struct RandomizerClient {
    pub context: ClientContext,
    pub game_client: Option<SMZ3Client>,
}

impl RandomizerClient {
    /// A fresh client for one session: nothing fetched, nothing connected.
    pub fn new(session_guid: String) -> (r: RandomizerClient)
        ensures
            r.context.session is None,
            r.context.client is None,
            r.context.device@ == Seq::<char>::empty(),
            r.context.connected == false,
            r.context.session_guid@ == session_guid@,
            r.game_client is None,
    {
        RandomizerClient {
            context: ClientContext {
                session: Option::None,
                client: Option::None,
                device: String::new(),
                connected: false,
                session_guid,
            },
            game_client: Option::None,
        }
    }

    /// Selects the engine for the session's seed and records the device to
    /// run against.  Only the `smz3`/`multiworld` pair (compared without
    /// regard to ASCII case) has an engine; any other seed leaves none
    /// selected.
    pub fn start(&mut self, device: String) -> (r: Result<bool, ClientError>)
        ensures
            final(self).context.session == old(self).context.session,
            final(self).context.client == old(self).context.client,
            final(self).context.connected == old(self).context.connected,
            final(self).context.session_guid == old(self).context.session_guid,
            match old(self).context.session {
                Option::None => {
                    r matches Err(e) && e is Precondition && final(self).game_client == old(
                        self,
                    ).game_client && final(self).context.device@ == device@
                },
                Option::Some(session) => {
                    match session.seed {
                        Option::None => {
                            r matches Err(e) && e is Precondition && final(self).game_client
                                == old(self).game_client && final(self).context.device@ == device@
                        },
                        Option::Some(seed) => {
                            r matches Ok(b) && b == true && final(self).context.device@ == device@
                                && if selects_smz3_multiworld(seed.game_id@, seed.game_mode@) {
                                final(self).game_client matches Some(c) && c.items_base == 0xE04000
                                    && c.seed_data == 0xE046A0 && c.game_state
                                    == crate::engine::GameState::Initialized && c.tick is Idle
                                    && c.verified_events@ == Seq::<i32>::empty()
                            } else {
                                final(self).game_client is None
                            }
                        },
                    }
                },
            },
    {
        self.context.device = device;
        match &self.context.session {
            Option::None => Err(
                ClientError::Precondition {
                    message: String::from_str(
                        "Could not get session data, make sure a session is established before running start",
                    ),
                },
            ),
            Option::Some(session) => {
                match &session.seed {
                    Option::None => Err(
                        ClientError::Precondition {
                            message: String::from_str("Could not get seed data from session"),
                        },
                    ),
                    Option::Some(seed) => {
                        let is_smz3 = ascii_eq_nocase(seed.game_id.as_str(), "smz3");
                        let is_multi = ascii_eq_nocase(seed.game_mode.as_str(), "multiworld");
                        if is_smz3 && is_multi {
                            self.game_client = Option::Some(SMZ3Client::new());
                        } else {
                            self.game_client = Option::None;
                        }
                        Ok(true)
                    },
                }
            },
        }
    }
}

/// The event `send_event` submits on the caller's behalf: the caller's
/// fields, the client's own world as origin, no id yet, and an empty time
/// stamp.
pub fn build_send_event(
    client: &ClientData,
    event_type: EventKind,
    to_world_id: i32,
    item_id: i32,
    item_location: i32,
    sequence_num: i32,
    confirmed: bool,
    message: String,
) -> (ev: SessionEvent)
    ensures
        ev.id == 0,
        ev.event_type == event_type,
        ev.from_world_id == client.world_id,
        ev.to_world_id == to_world_id,
        ev.item_id == item_id,
        ev.item_location == item_location,
        ev.sequence_num == sequence_num,
        ev.confirmed == confirmed,
        ev.message@ == message@,
        ev.time_stamp@ == Seq::<char>::empty(),
{
    SessionEvent {
        id: 0,
        event_type,
        from_world_id: client.world_id,
        to_world_id,
        item_id,
        item_location,
        sequence_num,
        confirmed,
        message,
        time_stamp: String::new(),
    }
}

/// The forfeit event: a `Forfeit` from the client's world with every other
/// field zero, empty or false.
pub fn forfeit_event(client: &ClientData) -> (ev: SessionEvent)
    ensures
        ev.id == 0,
        ev.event_type == EventKind::Forfeit,
        ev.from_world_id == client.world_id,
        ev.to_world_id == 0,
        ev.item_id == 0,
        ev.item_location == 0,
        ev.sequence_num == 0,
        ev.confirmed == false,
        ev.message@ == "Forfeit"@,
        ev.time_stamp@ == Seq::<char>::empty(),
{
    SessionEvent {
        id: 0,
        event_type: EventKind::Forfeit,
        from_world_id: client.world_id,
        to_world_id: 0,
        item_id: 0,
        item_location: 0,
        sequence_num: 0,
        confirmed: false,
        message: String::from_str("Forfeit"),
        time_stamp: String::new(),
    }
}

/// The parameters a report request falls back to: the seed's id or `-1`
/// without a seed, and the client's token and world or `("", -1)` without
/// a registered client.
pub fn report_params(ctx: &ClientContext) -> (r: (i32, String, i32))
    requires
        ctx.session is Some,
    ensures
        ({
            let session = ctx.session->Some_0;
            &&& r.0 == (match session.seed {
                Option::Some(seed) => seed.id,
                Option::None => -1i32,
            })
            &&& match ctx.client {
                Option::Some(c) => r.1@ == c.client_token@ && r.2 == c.world_id,
                Option::None => r.1@ == Seq::<char>::empty() && r.2 == -1,
            }
        }),
{
    match &ctx.session {
        Option::Some(session) => {
            let seed_id: i32 = match &session.seed {
                Option::Some(seed) => seed.id,
                Option::None => -1,
            };
            match &ctx.client {
                Option::Some(c) => (seed_id, c.client_token.clone(), c.world_id),
                Option::None => (seed_id, String::new(), -1),
            }
        },
        Option::None => unreached(),
    }
}

} // verus!
