//! The USB2SNES transport: a stateful framed protocol over a bidirectional
//! message stream.
//!
//! The connection is a three-state machine {Disconnected, Connected,
//! Attached}: `connect` opens the stream, `Attach` binds it to a device,
//! and every command is preceded by a readiness check that forces a dead
//! stream back to Disconnected.  Control requests are JSON text frames;
//! responses are either one `{"Results":[…]}` text frame or binary frames
//! accumulated to a declared total.  Vectored reads and writes are packed
//! into a single command only within the device's limits — at least two
//! pairs, at most sixteen for reads and eight for writes, and fewer than
//! 256 bytes in total — and are otherwise split into one command per pair.
//!
//! The stream itself lives with the host: the host reports readiness,
//! performs the sends and receives, and hands the frames back to the
//! functions here.

use vstd::prelude::*;

use crate::errors::ClientError;
use crate::strutil::copy_bytes;
use crate::wire::{
    hex_seq, hex_value, all_hex, render_hex, parse_hex, json_request, views_of, render_request,
    parse_results, spec_parse_results,
};
use vstd::string::StringExecFns;

verus! {

/// The connection's lifecycle state.
#[derive(Clone, Copy, PartialEq, Eq, Structural, Debug)]
pub enum ConnState {
    Disconnected,
    Connected,
    Attached,
}

/// The shared connection record: whether the host holds an open stream,
/// the lifecycle state, and the attached device's name.
#[derive(Debug)]
pub struct Socket {
    pub stream_open: bool,
    pub state: ConnState,
    pub device: String,
}

impl Socket {
    /// State consistency: the stream is open exactly outside Disconnected,
    /// and a non-empty device name is held exactly in Attached.
    pub open spec fn wf(&self) -> bool {
        (self.stream_open <==> self.state != ConnState::Disconnected) && (self.device@.len() > 0
            <==> self.state == ConnState::Attached)
    }

    pub fn new() -> (r: Socket)
        ensures
            r.wf(),
            r.state == ConnState::Disconnected,
            !r.stream_open,
            r.device@.len() == 0,
    {
        Socket { stream_open: false, state: ConnState::Disconnected, device: String::new() }
    }

    /// The host opened the stream: the connection is Connected with no
    /// device attached.
    pub fn on_connected(&mut self)
        ensures
            final(self).wf(),
            final(self).state == ConnState::Connected,
            final(self).stream_open,
            final(self).device@.len() == 0,
    {
        self.stream_open = true;
        self.state = ConnState::Connected;
        self.device = String::new();
    }

    /// An `Attach` request went out on the open stream: the connection is
    /// Attached to `device`.
    pub fn on_attached(&mut self, device: String)
        requires
            old(self).stream_open,
            device@.len() > 0,
        ensures
            final(self).wf(),
            final(self).state == ConnState::Attached,
            final(self).stream_open,
            final(self).device@ == device@,
    {
        self.state = ConnState::Attached;
        self.device = device;
    }

    /// The stream is gone: back to Disconnected with everything cleared.
    pub fn on_closed(&mut self)
        ensures
            final(self).wf(),
            final(self).state == ConnState::Disconnected,
            !final(self).stream_open,
            final(self).device@.len() == 0,
    {
        self.stream_open = false;
        self.state = ConnState::Disconnected;
        self.device = String::new();
    }

    /// The readiness check run before every command: a stream that is held
    /// but no longer ready forces the connection to Disconnected; otherwise
    /// nothing changes.
    pub fn precheck(&mut self, ready: bool)
        requires
            old(self).wf(),
        ensures
            final(self).wf(),
            if old(self).stream_open && !ready {
                final(self).state == ConnState::Disconnected && !final(self).stream_open
                    && final(self).device@.len() == 0
            } else {
                *final(self) == *old(self)
            },
    {
        if self.stream_open && !ready {
            self.on_closed();
        }
    }
}

/// What `update_connection_state` decides to do before a command.
#[derive(Debug)]
pub enum ConnAction {
    /// Disconnected: open the stream first.
    DoConnect,
    /// A (re)attach to this device is needed.
    DoAttach(String),
    /// The connection is already in the right state.
    Stay,
}

impl Socket {
    /// The decision table run before every command: Disconnected connects;
    /// Connected attaches when a device is wanted; Attached re-attaches
    /// only when a different device is wanted.
    pub fn connection_action(&self, device: Option<&String>) -> (a: ConnAction)
        ensures
            match self.state {
                ConnState::Disconnected => a is DoConnect,
                ConnState::Connected => {
                    match device {
                        Option::Some(d) => a matches ConnAction::DoAttach(x) && x@ == d@,
                        Option::None => a is Stay,
                    }
                },
                ConnState::Attached => {
                    match device {
                        Option::Some(d) => {
                            if d@ != self.device@ {
                                a matches ConnAction::DoAttach(x) && x@ == d@
                            } else {
                                a is Stay
                            }
                        },
                        Option::None => a is Stay,
                    }
                },
            },
    {
        match self.state {
            ConnState::Disconnected => ConnAction::DoConnect,
            ConnState::Connected => {
                match device {
                    Option::Some(d) => ConnAction::DoAttach(d.clone()),
                    Option::None => ConnAction::Stay,
                }
            },
            ConnState::Attached => {
                match device {
                    Option::Some(d) => {
                        if !(*d == self.device) {
                            ConnAction::DoAttach(d.clone())
                        } else {
                            ConnAction::Stay
                        }
                    },
                    Option::None => ConnAction::Stay,
                }
            },
        }
    }
}

/// A USB2SNES connection: the endpoint it was created for and the shared
/// connection record.
#[derive(Debug)]
pub struct Usb2SnesConnection {
    pub uri: String,
    pub socket: Socket,
}

impl Usb2SnesConnection {
    pub fn new(uri: &str) -> (r: Usb2SnesConnection)
        ensures
            r.uri@ == uri@,
            r.socket.wf(),
            r.socket.state == ConnState::Disconnected,
    {
        Usb2SnesConnection { uri: String::from_str(uri), socket: Socket::new() }
    }
}

/// A USB2SNES control command.
#[derive(Debug)]
pub enum Command {
    DeviceList,
    Attach(String),
    AppVersion,
    Name(String),
    Close,
    Info,
    Boot(String),
    Menu,
    Reset,
    Binary,
    Stream,
    Fence,
    GetAddress(Vec<String>),
    PutAddress(Vec<String>, Vec<u8>),
    PutIps,
    GetFile(String),
    PutFile(Vec<String>, Vec<u8>),
    List(String),
    Remove(String),
    Rename(Vec<String>),
    MakeDir(String),
}

/// How a command's response arrives.
#[derive(Clone, Copy, PartialEq, Eq, Structural, Debug)]
pub enum ResponseKind {
    /// No response frame follows.
    NoReply,
    /// One text frame with `{"Results":[…]}` follows.
    Text,
    /// Binary frames totalling this many bytes follow.
    Binary(u64),
}

/// A command ready for the stream: the JSON text frame, how to read the
/// response, and the binary payload to send after the text frame, if any.
#[derive(Debug)]
pub struct WireRequest {
    pub text: String,
    pub response: ResponseKind,
    pub binary: Option<Vec<u8>>,
}

/// A parsed response.
#[derive(Debug)]
pub enum CommandResponse {
    Response(Vec<String>),
    Data(Vec<u8>),
    Empty,
}

/// A size operand parses as hexadecimal into 64 bits.
pub open spec fn valid_hex64(s: Seq<char>) -> bool {
    s.len() > 0 && all_hex(s) && hex_value(s) <= u64::MAX
}

/// The total size requested by the operands `[addr, size, addr, size, …]`,
/// summing the operands at odd positions; `None` when one of them does not
/// parse.
pub open spec fn sum_hex_sizes(ops: Seq<Seq<char>>, i: int) -> Option<int>
    decreases ops.len() + 2 - i,
{
    if i < 0 || i >= ops.len() {
        Option::Some(0)
    } else if valid_hex64(ops[i]) {
        match sum_hex_sizes(ops, i + 2) {
            Option::None => Option::None,
            Option::Some(rest) => Option::Some(hex_value(ops[i]) + rest),
        }
    } else {
        Option::None
    }
}

fn get_size_from(ops: &Vec<String>, i: usize) -> (r: Result<u64, ClientError>)
    ensures
        match r {
            Ok(v) => sum_hex_sizes(views_of(ops@), i as int) matches Some(total) && total
                <= u64::MAX && v == total,
            Err(e) => (e is Protocol && (sum_hex_sizes(views_of(ops@), i as int) is None
                || (sum_hex_sizes(views_of(ops@), i as int) matches Some(total) && total
                > u64::MAX))),
        },
    decreases ops@.len() + 2 - i,
{
    if i >= ops.len() {
        proof {
            assert(sum_hex_sizes(views_of(ops@), i as int) == Option::Some(0int));
        }
        return Ok(0);
    }
    match parse_hex(&ops[i]) {
        Option::None => Err(
            ClientError::Protocol {
                message: String::from_str("Could not get data size for request"),
            },
        ),
        Option::Some(v) => {
            let rest_r: Result<u64, ClientError> = if ops.len() - i <= 2 {
                proof {
                    assert(sum_hex_sizes(views_of(ops@), i + 2) == Option::Some(0int));
                }
                Ok(0)
            } else {
                get_size_from(ops, i + 2)
            };
            match rest_r {
                Err(e) => Err(e),
                Ok(rest) => {
                    if rest > u64::MAX - v {
                        Err(
                            ClientError::Protocol {
                                message: String::from_str("Could not get data size for request"),
                            },
                        )
                    } else {
                        Ok(v + rest)
                    }
                },
            }
        },
    }
}

/// The total byte count a `GetAddress` command requests: the sum of its
/// size operands.
pub fn get_size(ops: &Vec<String>) -> (r: Result<u64, ClientError>)
    ensures
        match r {
            Ok(v) => sum_hex_sizes(views_of(ops@), 1) matches Some(total) && total <= u64::MAX
                && v == total,
            Err(e) => (e is Protocol && (sum_hex_sizes(views_of(ops@), 1) is None || (sum_hex_sizes(
                views_of(ops@),
                1,
            ) matches Some(total) && total > u64::MAX))),
        },
{
    get_size_from(ops, 1)
}

/// The wire form of a supported command, per the protocol's table:
/// `DeviceList`, `Info` and `AppVersion` take a text response;
/// `GetAddress` takes binary of the summed size; `PutAddress` takes no
/// response and is followed by its payload; everything else is refused.
pub fn command_request(cmd: &Command) -> (r: Result<WireRequest, ClientError>)
    ensures
        match cmd {
            Command::DeviceList => r matches Ok(w) && w.text@ == json_request(
                "DeviceList"@,
                Option::None,
            ) && w.response == ResponseKind::Text && w.binary is None,
            Command::Info => r matches Ok(w) && w.text@ == json_request("Info"@, Option::None)
                && w.response == ResponseKind::Text && w.binary is None,
            Command::AppVersion => r matches Ok(w) && w.text@ == json_request(
                "AppVersion"@,
                Option::None,
            ) && w.response == ResponseKind::Text && w.binary is None,
            Command::GetAddress(ops) => {
                match sum_hex_sizes(views_of(ops@), 1) {
                    Option::Some(total) => {
                        if total <= u64::MAX {
                            r matches Ok(w) && w.text@ == json_request(
                                "GetAddress"@,
                                Option::Some(views_of(ops@)),
                            ) && w.response == ResponseKind::Binary(total as u64) && w.binary
                                is None
                        } else {
                            r matches Err(e) && e is Protocol
                        }
                    },
                    Option::None => r matches Err(e) && e is Protocol,
                }
            },
            Command::PutAddress(ops, data) => r matches Ok(w) && w.text@ == json_request(
                "PutAddress"@,
                Option::Some(views_of(ops@)),
            ) && w.response == ResponseKind::NoReply && (w.binary matches Some(d) && d@ == data@),
            _ => r matches Err(e) && e is Protocol,
        },
{
    match cmd {
        Command::DeviceList => Ok(
            WireRequest {
                text: render_request("DeviceList", Option::None),
                response: ResponseKind::Text,
                binary: Option::None,
            },
        ),
        Command::Info => Ok(
            WireRequest {
                text: render_request("Info", Option::None),
                response: ResponseKind::Text,
                binary: Option::None,
            },
        ),
        Command::AppVersion => Ok(
            WireRequest {
                text: render_request("AppVersion", Option::None),
                response: ResponseKind::Text,
                binary: Option::None,
            },
        ),
        Command::GetAddress(ops) => {
            let size = get_size(ops)?;
            Ok(
                WireRequest {
                    text: render_request("GetAddress", Option::Some(ops)),
                    response: ResponseKind::Binary(size),
                    binary: Option::None,
                },
            )
        },
        Command::PutAddress(ops, data) => Ok(
            WireRequest {
                text: render_request("PutAddress", Option::Some(ops)),
                response: ResponseKind::NoReply,
                binary: Option::Some(copy_bytes(data)),
            },
        ),
        _ => Err(
            ClientError::Protocol {
                message: String::from_str("Attempted to use an unsupported command"),
            },
        ),
    }
}

/// The `Attach` request binding the stream to `device`.
pub fn attach_request(device: &String) -> (r: String)
    ensures
        r@ == json_request("Attach"@, Option::Some(seq![device@])),
{
    let mut ops: Vec<String> = Vec::new();
    ops.push(device.clone());
    let r = render_request("Attach", Option::Some(&ops));
    proof {
        assert(views_of(ops@) =~= seq![device@]);
    }
    r
}

/// The sum of a list of sizes.
pub open spec fn sum_u32(s: Seq<u32>) -> int
    decreases s.len(),
{
    if s.len() == 0 {
        0
    } else {
        sum_u32(s.drop_last()) + s.last()
    }
}

proof fn lemma_sum_u32_nonneg(s: Seq<u32>)
    ensures
        sum_u32(s) >= 0,
    decreases s.len(),
{
    if s.len() > 0 {
        lemma_sum_u32_nonneg(s.drop_last());
    }
}

/// The sizes in a flat `[addr, size, addr, size, …]` pair list.
pub open spec fn sizes_of(pairs: Seq<u32>) -> Seq<u32> {
    Seq::new(pairs.len() / 2, |i: int| pairs[2 * i + 1])
}

/// The hexadecimal operands of a flat value list, in order.
pub open spec fn hex_operands(vals: Seq<u32>) -> Seq<Seq<char>> {
    vals.map_values(|v: u32| hex_seq(v as nat))
}

/// The total requested, saturated at 256: enough to decide the packing
/// rule, and exact below the limit.
fn saturated_size_total(pairs: &Vec<u32>) -> (t: u32)
    requires
        pairs@.len() % 2 == 0,
    ensures
        t == if sum_u32(sizes_of(pairs@)) < 256 {
            sum_u32(sizes_of(pairs@))
        } else {
            256int
        },
{
    let ghost sizes = sizes_of(pairs@);
    let count = pairs.len() / 2;
    let mut acc: u32 = 0;
    let mut i: usize = 0;
    proof {
        assert(sizes.take(0) =~= Seq::<u32>::empty());
    }
    while i < count
        invariant
            i <= count,
            count == pairs@.len() / 2,
            count <= usize::MAX / 2,
            pairs@.len() % 2 == 0,
            sizes == sizes_of(pairs@),
            acc == if sum_u32(sizes.take(i as int)) < 256 {
                sum_u32(sizes.take(i as int))
            } else {
                256int
            },
        decreases count - i,
    {
        proof {
            assert(2 * i + 1 < pairs@.len());
        }
        let s: u32 = pairs[2 * i + 1];
        proof {
            assert(sizes.take(i + 1).drop_last() =~= sizes.take(i as int));
            assert(sizes.take(i + 1).last() == sizes[i as int]);
            assert(sizes[i as int] == pairs@[2 * (i as int) + 1]);
            lemma_sum_u32_nonneg(sizes.take(i as int));
        }
        if s >= 256 - acc {
            acc = 256;
        } else {
            acc = acc + s;
        }
        i = i + 1;
    }
    proof {
        assert(sizes.take(count as int) =~= sizes);
    }
    acc
}

/// Renders the hexadecimal operands of a flat value list.
fn render_operands(vals: &Vec<u32>) -> (r: Vec<String>)
    ensures
        views_of(r@) == hex_operands(vals@),
{
    let mut r: Vec<String> = Vec::new();
    let mut i: usize = 0;
    while i < vals.len()
        invariant
            i <= vals@.len(),
            r@.len() == i,
            forall|j: int| 0 <= j < i ==> r@[j]@ == hex_seq(vals@[j] as nat),
        decreases vals@.len() - i,
    {
        r.push(render_hex(vals[i]));
        i = i + 1;
    }
    proof {
        assert(views_of(r@) =~= hex_operands(vals@));
    }
    r
}

/// How a vectored read is carried on the wire.
#[derive(Debug)]
pub enum GetPlan {
    /// One `GetAddress` carrying every pair.
    Vectored { operands: Vec<String> },
    /// One `GetAddress` per pair, results concatenated in order.
    Singles { commands: Vec<Vec<String>> },
}

/// Packs a vectored read per the device's limits: one command exactly when
/// there are at least two pairs, at most sixteen, and fewer than 256 bytes
/// in total; one command per pair otherwise.
pub fn plan_get(pairs: &Vec<u32>) -> (r: GetPlan)
    requires
        pairs@.len() % 2 == 0,
    ensures
        ({
            let n = pairs@.len() / 2;
            let total = sum_u32(sizes_of(pairs@));
            if 2 <= n <= 16 && total < 256 {
                r matches GetPlan::Vectored { operands } && views_of(operands@) == hex_operands(
                    pairs@,
                )
            } else {
                r matches GetPlan::Singles { commands } && commands@.len() == n && (forall|i: int|
                    0 <= i < n ==> views_of(commands@[i]@) == seq![
                        hex_seq(pairs@[2 * i] as nat),
                        hex_seq(pairs@[2 * i + 1] as nat),
                    ])
            }
        }),
{
    let n = pairs.len() / 2;
    let total = saturated_size_total(pairs);
    if 2 <= n && n <= 16 && total < 256 {
        GetPlan::Vectored { operands: render_operands(pairs) }
    } else {
        let mut commands: Vec<Vec<String>> = Vec::new();
        let mut i: usize = 0;
        while i < n
            invariant
                i <= n,
                n == pairs@.len() / 2,
                n <= usize::MAX / 2,
                pairs@.len() % 2 == 0,
                commands@.len() == i,
                forall|j: int|
                    0 <= j < i ==> views_of(commands@[j]@) == seq![
                        hex_seq(pairs@[2 * j] as nat),
                        hex_seq(pairs@[2 * j + 1] as nat),
                    ],
            decreases n - i,
        {
            proof {
                assert(2 * i + 1 < pairs@.len());
            }
            let mut ops: Vec<String> = Vec::new();
            ops.push(render_hex(pairs[2 * i]));
            ops.push(render_hex(pairs[2 * i + 1]));
            proof {
                assert(views_of(ops@) =~= seq![
                    hex_seq(pairs@[2 * (i as int)] as nat),
                    hex_seq(pairs@[2 * (i as int) + 1] as nat),
                ]);
            }
            commands.push(ops);
            i = i + 1;
        }
        GetPlan::Singles { commands }
    }
}

/// The concatenation of a list of byte buffers.
pub open spec fn concat_bytes(ds: Seq<Seq<u8>>) -> Seq<u8>
    decreases ds.len(),
{
    if ds.len() == 0 {
        Seq::empty()
    } else {
        concat_bytes(ds.drop_last()) + ds.last()
    }
}

fn flatten_bytes(ds: &Vec<Vec<u8>>) -> (r: Vec<u8>)
    ensures
        r@ == concat_bytes(ds.deep_view()),
{
    let mut r: Vec<u8> = Vec::new();
    let mut i: usize = 0;
    proof {
        assert(ds.deep_view().take(0) =~= Seq::<Seq<u8>>::empty());
    }
    while i < ds.len()
        invariant
            i <= ds@.len(),
            r@ == concat_bytes(ds.deep_view().take(i as int)),
        decreases ds@.len() - i,
    {
        let mut chunk = copy_bytes(&ds[i]);
        r.append(&mut chunk);
        proof {
            let dv = ds.deep_view();
            assert(dv.take(i + 1).drop_last() =~= dv.take(i as int));
            assert(dv.take(i + 1).last() == dv[i as int]);
            assert(dv[i as int] == ds@[i as int]@);
        }
        i = i + 1;
    }
    proof {
        assert(ds.deep_view().take(ds@.len() as int) =~= ds.deep_view());
    }
    r
}

/// The lengths of a list of byte buffers, for size operands.
pub open spec fn lens_of(ds: Seq<Seq<u8>>) -> Seq<u32> {
    ds.map_values(|d: Seq<u8>| d.len() as u32)
}

/// The flat `[addr, len, addr, len, …]` operand values of a write batch.
pub open spec fn write_operand_vals(addrs: Seq<u32>, ds: Seq<Seq<u8>>) -> Seq<u32> {
    Seq::new(2 * addrs.len(), |i: int| if i % 2 == 0 {
        addrs[i / 2]
    } else {
        (ds[i / 2].len() as u32)
    })
}

/// How a vectored write is carried on the wire.
#[derive(Debug)]
pub enum PutPlan {
    /// One `PutAddress` carrying every pair, its payload the concatenated
    /// buffers.
    Vectored { operands: Vec<String>, payload: Vec<u8> },
    /// One `PutAddress` per pair.
    Singles { commands: Vec<(Vec<String>, Vec<u8>)> },
}

/// Packs a vectored write per the device's limits: one command exactly
/// when there are at least two pairs, at most eight, and fewer than 256
/// bytes in total; one command per pair otherwise.
pub fn plan_put(addrs: &Vec<u32>, data: &Vec<Vec<u8>>) -> (r: PutPlan)
    requires
        addrs@.len() == data@.len(),
        forall|i: int| 0 <= i < data@.len() ==> data@[i]@.len() <= 0xFFFFFFFF,
    ensures
        ({
            let n = addrs@.len();
            let total = sum_u32(lens_of(data.deep_view()));
            if 2 <= n <= 8 && total < 256 {
                r matches PutPlan::Vectored { operands, payload } && views_of(operands@)
                    == hex_operands(write_operand_vals(addrs@, data.deep_view())) && payload@
                    == concat_bytes(data.deep_view())
            } else {
                r matches PutPlan::Singles { commands } && commands@.len() == n && (forall|i: int|
                    0 <= i < n ==> views_of(commands@[i].0@) == seq![
                        hex_seq(addrs@[i] as nat),
                        hex_seq(data@[i]@.len() as nat),
                    ] && commands@[i].1@ == data@[i]@)
            }
        }),
{
    let n = addrs.len();
    let mut flat: Vec<u32> = Vec::new();
    let mut i: usize = 0;
    while i < n
        invariant
            i <= n,
            n == addrs@.len(),
            n == data@.len(),
            forall|k: int| 0 <= k < data@.len() ==> data@[k]@.len() <= 0xFFFFFFFF,
            flat@.len() == 2 * i,
            forall|k: int|
                0 <= k < 2 * i ==> flat@[k] == write_operand_vals(addrs@, data.deep_view())[k],
        decreases n - i,
    {
        flat.push(addrs[i]);
        let len_i: u32 = data[i].len() as u32;
        flat.push(len_i);
        proof {
            assert(data.deep_view()[i as int] == data@[i as int]@);
        }
        i = i + 1;
    }
    proof {
        assert(flat@ =~= write_operand_vals(addrs@, data.deep_view()));
        assert(sizes_of(flat@) =~= lens_of(data.deep_view()));
    }
    let total = saturated_size_total(&flat);
    if 2 <= n && n <= 8 && total < 256 {
        PutPlan::Vectored { operands: render_operands(&flat), payload: flatten_bytes(data) }
    } else {
        let mut commands: Vec<(Vec<String>, Vec<u8>)> = Vec::new();
        let mut j: usize = 0;
        while j < n
            invariant
                j <= n,
                n == addrs@.len(),
                n == data@.len(),
                forall|k: int| 0 <= k < data@.len() ==> data@[k]@.len() <= 0xFFFFFFFF,
                commands@.len() == j,
                forall|k: int|
                    0 <= k < j ==> views_of(commands@[k].0@) == seq![
                        hex_seq(addrs@[k] as nat),
                        hex_seq(data@[k]@.len() as nat),
                    ] && commands@[k].1@ == data@[k]@,
            decreases n - j,
        {
            let mut ops: Vec<String> = Vec::new();
            ops.push(render_hex(addrs[j]));
            ops.push(render_hex(data[j].len() as u32));
            proof {
                assert(views_of(ops@) =~= seq![
                    hex_seq(addrs@[j as int] as nat),
                    hex_seq(data@[j as int]@.len() as nat),
                ]);
            }
            commands.push((ops, copy_bytes(&data[j])));
            j = j + 1;
        }
        PutPlan::Singles { commands }
    }
}

/// Splits a vectored read's binary response into one buffer per pair, each
/// of its requested size, in order.  Succeeds exactly when the response
/// holds at least the total requested.
#[verifier::rlimit(100)]
pub fn split_by_sizes(data: &Vec<u8>, pairs: &Vec<u32>) -> (r: Option<Vec<Vec<u8>>>)
    requires
        pairs@.len() % 2 == 0,
    ensures
        ({
            let sizes = sizes_of(pairs@);
            match r {
                Some(v) => sum_u32(sizes) <= data@.len() && v@.len() == sizes.len() && (forall|
                    i: int,
                |
                    0 <= i < sizes.len() ==> v@[i]@ == data@.subrange(
                        sum_u32(sizes.take(i)),
                        sum_u32(sizes.take(i)) + sizes[i],
                    )),
                None => sum_u32(sizes) > data@.len(),
            }
        }),
{
    let ghost sizes = sizes_of(pairs@);
    let count = pairs.len() / 2;
    let mut r: Vec<Vec<u8>> = Vec::new();
    let mut pos: usize = 0;
    let mut i: usize = 0;
    proof {
        assert(sizes.take(0) =~= Seq::<u32>::empty());
    }
    while i < count
        invariant
            i <= count,
            count == pairs@.len() / 2,
            count <= usize::MAX / 2,
            pairs@.len() % 2 == 0,
            sizes == sizes_of(pairs@),
            pos <= data@.len(),
            pos == sum_u32(sizes.take(i as int)),
            r@.len() == i,
            forall|k: int|
                0 <= k < i ==> r@[k]@ == data@.subrange(
                    sum_u32(sizes.take(k)),
                    sum_u32(sizes.take(k)) + sizes[k],
                ),
        decreases count - i,
    {
        proof {
            assert(2 * i + 1 < pairs@.len());
        }
        let size32: u32 = pairs[2 * i + 1];
        proof {
            assert(sizes[i as int] == pairs@[2 * (i as int) + 1]);
            assert(sizes.take(i + 1).drop_last() =~= sizes.take(i as int));
            assert(sizes.take(i + 1).last() == sizes[i as int]);
        }
        let size: usize = size32 as usize;
        if size > data.len() - pos {
            proof {
                lemma_sum_u32_monotone(sizes, i + 1, sizes.len() as int);
                assert(sizes.take(sizes.len() as int) =~= sizes);
            }
            return None;
        }
        let chunk = crate::strutil::copy_range(data, pos, size);
        r.push(chunk);
        pos = pos + size;
        i = i + 1;
    }
    proof {
        assert(sizes.take(count as int) =~= sizes);
    }
    Some(r)
}

proof fn lemma_sum_u32_monotone(s: Seq<u32>, i: int, j: int)
    requires
        0 <= i <= j <= s.len(),
    ensures
        sum_u32(s.take(i)) <= sum_u32(s.take(j)),
    decreases j - i,
{
    if i < j {
        lemma_sum_u32_monotone(s, i, j - 1);
        assert(s.take(j).drop_last() =~= s.take(j - 1));
    }
}

/// One frame received from the stream.
#[derive(Debug)]
pub enum Frame {
    Text(String),
    Binary(Vec<u8>),
}

/// Consumes one received frame while reading a command's response.
/// For a text response, the single frame must be text and parse as
/// `{"Results":[…]}`.  For a binary response, binary frames accumulate in
/// `buf` until the declared size is reached (`Ok(None)` asks for the next
/// frame).  A frame of the wrong kind is a framing error.
pub fn read_response_step(kind: &ResponseKind, buf: &mut Vec<u8>, frame: Frame) -> (r: Result<
    Option<CommandResponse>,
    ClientError,
>)
    ensures
        match kind {
            ResponseKind::NoReply => r matches Err(e) && e is Protocol,
            ResponseKind::Text => {
                match frame {
                    Frame::Text(t) => {
                        match spec_parse_results(t@) {
                            Option::Some(m) => r matches Ok(o) && o matches Some(c) && (c
                                matches CommandResponse::Response(v) && views_of(v@) == m),
                            Option::None => r matches Err(e) && e is Protocol,
                        }
                    },
                    Frame::Binary(_) => r matches Err(e) && e is Protocol,
                }
            },
            ResponseKind::Binary(size) => {
                match frame {
                    Frame::Binary(d) => {
                        if old(buf)@.len() + d@.len() >= *size {
                            r matches Ok(o) && o matches Some(c) && (c
                                matches CommandResponse::Data(out) && out@ == old(buf)@ + d@)
                                && final(buf)@.len() == 0
                        } else {
                            r matches Ok(o) && o is None && final(buf)@ == old(buf)@ + d@
                        }
                    },
                    Frame::Text(_) => r matches Err(e) && e is Protocol,
                }
            },
        },
{
    match kind {
        ResponseKind::NoReply => Err(
            ClientError::Protocol {
                message: String::from_str("Received a frame when no response was expected"),
            },
        ),
        ResponseKind::Text => {
            match frame {
                Frame::Text(t) => {
                    match parse_results(t.as_str()) {
                        Option::Some(v) => Ok(Option::Some(CommandResponse::Response(v))),
                        Option::None => Err(
                            ClientError::Protocol {
                                message: String::from_str("Could not read command response"),
                            },
                        ),
                    }
                },
                Frame::Binary(_) => Err(
                    ClientError::Protocol {
                        message: String::from_str(
                            "Got binary response when expecting a text response",
                        ),
                    },
                ),
            }
        },
        ResponseKind::Binary(size) => {
            match frame {
                Frame::Binary(mut d) => {
                    buf.append(&mut d);
                    if buf.len() as u64 >= *size {
                        let mut out: Vec<u8> = Vec::new();
                        core::mem::swap(buf, &mut out);
                        Ok(Option::Some(CommandResponse::Data(out)))
                    } else {
                        Ok(Option::None)
                    }
                },
                Frame::Text(_) => Err(
                    ClientError::Protocol {
                        message: String::from_str("Got text data when expecting binary data"),
                    },
                ),
            }
        },
    }
}

} // verus!
