//! Error kinds surfaced by the client.
//!
//! `Transport` covers socket, stream and RPC failures; the supervisor turns
//! it into a disconnect/reconnect cycle.  `Protocol` covers framing
//! mismatches (text where binary was expected, an unexpected response shape,
//! an unsupported opcode).  `Precondition` reports a host-sequencing mistake
//! (a missing session, client or engine, or a response of the wrong shape
//! handed to a step machine).  `Backend` carries an RPC-layer status message
//! verbatim.

use vstd::prelude::*;

verus! {

/// A typed error with a human-readable message.
#[derive(Debug)]
pub enum ClientError {
    Transport { message: String },
    Protocol { message: String },
    Precondition { message: String },
    Backend { message: String },
}

impl ClientError {
    /// True exactly on the `Transport` variant; the supervisor reclassifies
    /// such a tick failure into a disconnect/reconnect cycle.
    pub open spec fn is_transport_spec(&self) -> bool {
        self is Transport
    }

    #[verifier::when_used_as_spec(is_transport_spec)]
    pub fn is_transport(&self) -> (r: bool)
        ensures
            r == self.is_transport_spec(),
    {
        match self {
            ClientError::Transport { .. } => true,
            _ => false,
        }
    }

    /// The message carried by any of the variants.
    pub open spec fn message_spec(&self) -> Seq<char> {
        match self {
            ClientError::Transport { message } => message@,
            ClientError::Protocol { message } => message@,
            ClientError::Precondition { message } => message@,
            ClientError::Backend { message } => message@,
        }
    }

    pub fn message(&self) -> (r: &String)
        ensures
            r@ == self.message_spec(),
    {
        match self {
            ClientError::Transport { message } => message,
            ClientError::Protocol { message } => message,
            ClientError::Precondition { message } => message,
            ClientError::Backend { message } => message,
        }
    }
}

} // verus!
