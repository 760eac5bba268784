//! The connection supervisor's decisions: which transports to try on first
//! connect, what to do with the device list seen after a reconnect, and
//! which tick failures demand a disconnect/reconnect cycle.
//!
//! The I/O around these decisions — opening transports, listing devices,
//! delivering notifications — is the host's; the functions here only
//! decide.

use vstd::prelude::*;

use crate::errors::ClientError;
use crate::protocol::{Protocol, Device, ConnectionSpec, default_uri};
use vstd::string::StringExecFns;

verus! {

/// The transports tried on first connect, in order: SNI at its default
/// endpoint, then USB2SNES at its default endpoint, then the legacy
/// USB2SNES endpoint.  The first whose `connect` succeeds is kept.
pub fn connection_candidates() -> (r: Vec<ConnectionSpec>)
    ensures
        r@.len() == 3,
        r@[0].protocol == Protocol::Sni && r@[0].uri@ == default_uri(Protocol::Sni),
        r@[1].protocol == Protocol::Usb2Snes && r@[1].uri@ == default_uri(Protocol::Usb2Snes),
        r@[2].protocol == Protocol::Usb2Snes && r@[2].uri@ == "ws://localhost:8080"@,
{
    let mut r: Vec<ConnectionSpec> = Vec::new();
    r.push(crate::protocol::create_connection(&Protocol::Sni));
    r.push(crate::protocol::create_connection(&Protocol::Usb2Snes));
    r.push(
        crate::protocol::create_connection_with_uri(&Protocol::Usb2Snes, "ws://localhost:8080"),
    );
    r
}

/// What the supervisor does with the device list seen while reconnecting.
#[derive(Debug)]
pub enum ReconnectDecision {
    /// The list is empty: fail the tick with a retriable error.
    EmptyList,
    /// The cached device is present: keep it.
    KeepCurrent,
    /// The cached device is absent but the list holds exactly one: adopt it.
    Adopt(String),
    /// The cached device is absent and the list holds several: report and
    /// fail; the user must reconnect manually.
    TooMany,
}

/// Some listed device has this URI.
pub open spec fn device_listed(devices: Seq<Device>, uri: Seq<char>) -> bool {
    exists|i: int| 0 <= i < devices.len() && devices[i].uri@ == uri
}

/// The reconnect decision: an empty list fails; a list holding the cached
/// device keeps it; a single other device is adopted; several others are
/// ambiguous.
pub fn reconnect_decision(devices: &Vec<Device>, cached: &String) -> (r: ReconnectDecision)
    ensures
        if devices@.len() == 0 {
            r is EmptyList
        } else if device_listed(devices@, cached@) {
            r is KeepCurrent
        } else if devices@.len() == 1 {
            r matches ReconnectDecision::Adopt(uri) && uri@ == devices@[0].uri@
        } else {
            r is TooMany
        },
{
    if devices.len() == 0 {
        return ReconnectDecision::EmptyList;
    }
    let mut i: usize = 0;
    while i < devices.len()
        invariant
            i <= devices@.len(),
            forall|j: int| 0 <= j < i ==> devices@[j].uri@ != cached@,
        decreases devices@.len() - i,
    {
        if devices[i].uri == *cached {
            return ReconnectDecision::KeepCurrent;
        }
        i = i + 1;
    }
    if devices.len() == 1 {
        ReconnectDecision::Adopt(devices[0].uri.clone())
    } else {
        ReconnectDecision::TooMany
    }
}

/// The message shown when the reconnect decision is ambiguous.
pub fn reconnect_ambiguous_message() -> (r: String)
    ensures
        r@ == "Could get device list, but there's more than one device, please reconnect manually"@,
{
    String::from_str(
        "Could get device list, but there's more than one device, please reconnect manually",
    )
}

/// The tick-failure classification: a transport-kind error makes the
/// supervisor emit `ConsoleDisconnected`, close the transport, clear the
/// connected flag and surface a retriable error; every other error passes
/// through unchanged.
pub fn failure_forces_reconnect(e: &ClientError) -> (r: bool)
    ensures
        r == e.is_transport(),
{
    e.is_transport()
}

} // verus!
