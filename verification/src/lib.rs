//! Client-side bridge between a multiworld randomizer backend and a game
//! console.  The crate holds the decision logic of that bridge: the byte
//! codecs for the SRAM exchange areas, the USB2SNES protocol state machine
//! with its vectored-packing rules and wire framing, the SNI request builder
//! with its per-device mapping cache, the SMZ3 game-reconciliation engine,
//! and the connection supervisor.  All I/O (sockets, RPC transports, host
//! callbacks) lives outside the crate: the engine and the transports are
//! written as step machines that emit requests as plain values and consume
//! the responses the host hands back.

pub mod codec;
pub mod context;
pub mod engine;
pub mod engine_laws;
pub mod errors;
pub mod facade;
pub mod protocol;
pub mod sni;
pub mod strutil;
pub mod supervisor;
pub mod usb2snes;
pub mod wire;
