//! The data the client holds about a session: backend descriptors (session,
//! seed, worlds, registered client), session events, and the notifications
//! sent to the host's callback.
//!
//! Everything here is plain data.  The backend produces these records over
//! RPC; the host's transport layer converts its wire types into these and
//! back at the boundary.

use vstd::prelude::*;

verus! {

/// The kind of a session event.  The backend's wire encoding of the kind is
/// the transport layer's concern.
#[derive(Clone, Copy, PartialEq, Eq, Structural, Debug)]
pub enum EventKind {
    ItemFound,
    Forfeit,
}

/// One entry of the session's authoritative event log.  `id` is assigned by
/// the backend and is monotonic within a session.
#[derive(Debug)]
pub struct SessionEvent {
    pub id: i32,
    pub event_type: EventKind,
    pub from_world_id: i32,
    pub to_world_id: i32,
    pub item_id: i32,
    pub item_location: i32,
    pub sequence_num: i32,
    pub confirmed: bool,
    pub message: String,
    pub time_stamp: String,
}

/// One world of the session's seed.
#[derive(Debug)]
pub struct WorldData {
    pub world_id: i32,
    pub guid: String,
}

/// The seed of a session: which game it is for and the worlds it contains.
#[derive(Debug)]
pub struct SeedData {
    pub id: i32,
    pub game_id: String,
    pub game_mode: String,
    pub worlds: Vec<WorldData>,
}

/// A session descriptor as returned by the backend.
#[derive(Debug)]
pub struct SessionData {
    pub seed: Option<SeedData>,
}

/// The registered client: an opaque token and the world this client owns.
#[derive(Debug)]
pub struct ClientData {
    pub client_token: String,
    pub world_id: i32,
}

/// The shared client state a tick works against: the session and client
/// descriptors, the selected device, the connection flag and the session
/// GUID.  The transports and RPC services themselves live with the host.
#[derive(Debug)]
pub struct ClientContext {
    pub session: Option<SessionData>,
    pub client: Option<ClientData>,
    pub device: String,
    pub connected: bool,
    pub session_guid: String,
}

/// A notification to the host's callback.  `code` gives the numeric code the
/// callback receives; the payload carries the arguments.
#[derive(Debug)]
pub enum Message {
    ConsoleDisconnected,
    ConsoleReconnecting,
    ConsoleConnected { device: String },
    ConsoleError { message: String },
    GameState { message: String },
    ItemFound { event: SessionEvent },
    ItemReceived { event: SessionEvent },
    ItemsConfirmed { ids: Vec<i32> },
}

impl Message {
    /// The numeric code of this notification.
    pub open spec fn code_spec(&self) -> i32 {
        match self {
            Message::ConsoleDisconnected => 0,
            Message::ConsoleReconnecting => 1,
            Message::ConsoleConnected { .. } => 2,
            Message::ConsoleError { .. } => 3,
            Message::GameState { .. } => 4,
            Message::ItemFound { .. } => 5,
            Message::ItemReceived { .. } => 6,
            Message::ItemsConfirmed { .. } => 7,
        }
    }

    #[verifier::when_used_as_spec(code_spec)]
    pub fn code(&self) -> (c: i32)
        ensures
            c == self.code_spec(),
    {
        match self {
            Message::ConsoleDisconnected => 0,
            Message::ConsoleReconnecting => 1,
            Message::ConsoleConnected { .. } => 2,
            Message::ConsoleError { .. } => 3,
            Message::GameState { .. } => 4,
            Message::ItemFound { .. } => 5,
            Message::ItemReceived { .. } => 6,
            Message::ItemsConfirmed { .. } => 7,
        }
    }
}

} // verus!
