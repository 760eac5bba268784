//! The device-transport interface: the transport kinds, the device
//! descriptor, and the operations a transport offers.
//!
//! The two transports (SNI and USB2SNES) are stateful I/O; their decision
//! logic lives in `sni` and `usb2snes`, and the host's drivers implement
//! the `Connection` trait around it.

use vstd::prelude::*;

use crate::errors::ClientError;
use vstd::string::StringExecFns;

verus! {

/// The transport kinds the client can speak.
#[derive(Clone, Copy, PartialEq, Eq, Structural, Debug)]
pub enum Protocol {
    Sni,
    Usb2Snes,
}

/// An addressable memory endpoint: a display name, a transport-scoped URI,
/// and optional free-form info lines.
#[derive(Debug)]
pub struct Device {
    pub name: String,
    pub uri: String,
    pub info: Option<Vec<String>>,
}

/// The uniform transport contract.  Implementations are I/O drivers the
/// host supplies; each read returns exactly the requested sizes and each
/// vectored result keeps the request's order.
pub trait Connection {
    fn connect(&mut self) -> Result<bool, ClientError>;

    fn disconnect(&mut self) -> Result<bool, ClientError>;

    fn list_devices(&mut self) -> Result<Vec<Device>, ClientError>;

    fn read_single(&mut self, device: &str, address: u32, size: u32) -> Result<Vec<u8>, ClientError>;

    fn read_multi(&mut self, device: &str, address_info: &Vec<u32>) -> Result<
        Vec<Vec<u8>>,
        ClientError,
    >;

    fn write_single(&mut self, device: &str, address: u32, data: &Vec<u8>) -> Result<
        bool,
        ClientError,
    >;

    fn write_multi(&mut self, device: &str, addresses: &Vec<u32>, data: &Vec<Vec<u8>>) -> Result<
        bool,
        ClientError,
    >;
}

/// What a transport is built from: its kind and its endpoint.
#[derive(Debug)]
pub struct ConnectionSpec {
    pub protocol: Protocol,
    pub uri: String,
}

/// The default endpoint of each transport.
pub open spec fn default_uri(p: Protocol) -> Seq<char> {
    match p {
        Protocol::Sni => "http://127.0.0.1:8190"@,
        Protocol::Usb2Snes => "ws://127.0.0.1:23074"@,
    }
}

/// A transport at its default endpoint.
pub fn create_connection(protocol: &Protocol) -> (r: ConnectionSpec)
    ensures
        r.protocol == *protocol,
        r.uri@ == default_uri(*protocol),
{
    match protocol {
        Protocol::Sni => ConnectionSpec {
            protocol: Protocol::Sni,
            uri: String::from_str("http://127.0.0.1:8190"),
        },
        Protocol::Usb2Snes => ConnectionSpec {
            protocol: Protocol::Usb2Snes,
            uri: String::from_str("ws://127.0.0.1:23074"),
        },
    }
}

/// A transport at a chosen endpoint.
pub fn create_connection_with_uri(protocol: &Protocol, uri: &str) -> (r: ConnectionSpec)
    ensures
        r.protocol == *protocol,
        r.uri@ == uri@,
{
    ConnectionSpec { protocol: *protocol, uri: String::from_str(uri) }
}

} // verus!
