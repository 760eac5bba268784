//! The SMZ3 multiworld reconciliation engine.
//!
//! The engine is a per-tick state machine over {Initialized, Detecting,
//! Running}.  A tick never performs I/O itself: `update` consumes the
//! response to the previous request (`TickInput`) and returns the next
//! request (`TickRequest`) together with the notifications to deliver, so a
//! host drives one tick by calling `update` with `TickInput::Start` and then
//! feeding each response back in until the request is `Done`.
//!
//! A Running tick performs, in order: a double-read of the inbound header
//! until stable; a fetch of new inbound events; a verified write of the
//! inbound payload, then of the two inbound pointer fields; a double-read of
//! the outbound header; a read of the outbound slots and one `send_event`
//! per slot; a verified write of the advanced sync pointer; and a final
//! confirmation of committed event ids.  The verify loops are unbounded by
//! design: a failed read-back retries the write, and only a transport error
//! (handed in as `TickInput::Failed`) aborts the tick.

use vstd::prelude::*;

use crate::codec::{
    le16, le16_bytes, le32, le32_bytes, as_signed32, as_unsigned32, pairs_bytes, slot_of,
    encode_pairs, u16_from_le_at, u16_to_le, i32_from_le_at, i32_to_le, decode_slot_at,
};
use crate::context::{ClientContext, Message, SessionEvent, EventKind, WorldData};
use crate::errors::ClientError;
use crate::strutil::{
    bytes_eq, copy_bytes, copy_ids, dec_digits, dec_int, dec_u32_string, dec_i32_string,
    str_bytes_match,
};
use vstd::string::StringExecFns;

verus! {

/// The engine's top-level state.
#[derive(Clone, Copy, PartialEq, Eq, Structural, Debug)]
pub enum GameState {
    Initialized,
    Detecting,
    Running,
}

impl Default for GameState {
    fn default() -> (r: GameState)
        ensures
            r == GameState::Initialized,
    {
        GameState::Initialized
    }
}

/// An outbound message slot decoded from SRAM:
/// `(to_world_id, item_id, item_index)`.
#[derive(Clone, Copy, PartialEq, Eq, Structural, Debug)]
pub struct OutboundItem {
    pub to_world_id: u16,
    pub item_id: u16,
    pub item_index: u16,
}

/// The three writes a non-empty batch of inbound events turns into: the
/// payload at the current write pointer, the advanced write pointer, and the
/// id of the newest event, together with the ids awaiting confirmation.
#[derive(Debug)]
pub struct InboundPlan {
    pub payload_addr: u32,
    pub payload: Vec<u8>,
    pub ptr_addr: u32,
    pub ptr_bytes: Vec<u8>,
    pub id_addr: u32,
    pub id_bytes: Vec<u8>,
    pub event_ids: Vec<i32>,
}

/// Where a tick stands between two `update` calls.
#[derive(Debug)]
pub enum TickPhase {
    /// No tick in progress; `update` expects `TickInput::Start`.
    Idle,
    /// Awaiting the 0x50 bytes at `seed_data` to fingerprint the game.
    DetectRead { world_guid: String },
    /// GUIDs matched; awaiting the acknowledgement of `UpdatePlayer`.
    DetectUpdatePlayer,
    /// Awaiting the first read of the inbound header.
    InHdrFirst,
    /// Awaiting the second read of the inbound header.
    InHdrSecond { first: Vec<u8> },
    /// Header stable; awaiting the new inbound events.
    FetchEvents { snes_write_ptr: u16, snes_event_id: i32 },
    /// Awaiting completion of the payload write.
    WritePayload { plan: InboundPlan },
    /// Awaiting the read-back of the payload.
    VerifyPayload { plan: InboundPlan },
    /// Payload verified; awaiting completion of the pointer write.
    WritePointers { plan: InboundPlan },
    /// Awaiting the read-back of the two pointer fields.
    VerifyPointers { plan: InboundPlan },
    /// Awaiting the first read of the outbound header.
    OutHdrFirst,
    /// Awaiting the second read of the outbound header.
    OutHdrSecond { first: Vec<u8> },
    /// Awaiting the outbound message slots.
    ReadOutbox { sync_read_ptr: u16, messages: u16 },
    /// Sending one event per outbound slot; `next` of them are already sent.
    Sending { sync_read_ptr: u16, messages: u16, items: Vec<OutboundItem>, next: u16 },
    /// All events sent; awaiting completion of the sync-pointer write.
    WriteSync { sync_read_ptr: u16, messages: u16 },
    /// Awaiting the read-back of the sync pointer.
    VerifySync { sync_read_ptr: u16, messages: u16 },
    /// Awaiting the acknowledgement of `confirm_events`.
    Confirm,
}

/// What the host hands back to `update`: the response to the request the
/// previous call returned, or `Start` to begin a tick, or `Failed` when the
/// operation failed.
#[derive(Debug)]
pub enum TickInput {
    Start,
    Bytes(Vec<u8>),
    Chunks(Vec<Vec<u8>>),
    Written,
    Events(Vec<SessionEvent>),
    EventSent(SessionEvent),
    Acked,
    Failed(ClientError),
}

/// What the host must do next.  Memory operations go to the console
/// transport; the rest go to the backend service.  `Done` ends the tick.
#[derive(Debug)]
#[allow(inconsistent_fields)]
pub enum TickRequest {
    ReadMem { addr: u32, size: u32 },
    ReadMemMulti { pairs: Vec<u32> },
    WriteMem { addr: u32, data: Vec<u8> },
    WriteMemMulti { addrs: Vec<u32>, data: Vec<Vec<u8>> },
    FetchEvents { from_event_id: i32, to_world_id: i32 },
    UpdatePlayer { device: String },
    SendEvent { event: SessionEvent },
    ConfirmEvents { ids: Vec<i32> },
    Done,
}

/// One step of a tick: notifications to deliver, then the next request.
#[derive(Debug)]
pub struct TickStep {
    pub notices: Vec<Message>,
    pub request: TickRequest,
}

/// The engine for the SMZ3 multiworld game mode.
#[derive(Debug)]
pub struct SMZ3Client {
    pub items_base: u32,
    pub seed_data: u32,
    pub verified_events: Vec<i32>,
    pub game_state: GameState,
    pub tick: TickPhase,
}

/// The world this client owns, once a client is registered.
pub open spec fn client_world_id(ctx: ClientContext) -> i32
    recommends
        ctx.client is Some,
{
    match ctx.client {
        Option::Some(c) => c.world_id,
        Option::None => 0,
    }
}

/// The inbound pair each event encodes into its SRAM slot.
pub open spec fn ev_pair(e: SessionEvent) -> (u16, u16) {
    (e.from_world_id as u16, e.item_id as u16)
}

/// The inbound pairs of a batch of events, in backend order.
pub open spec fn pairs_of_events(evs: Seq<SessionEvent>) -> Seq<(u16, u16)> {
    evs.map_values(|e: SessionEvent| ev_pair(e))
}

/// The ids of a batch of events, in backend order.
pub open spec fn ids_of_events(evs: Seq<SessionEvent>) -> Seq<i32> {
    evs.map_values(|e: SessionEvent| e.id)
}

/// The largest id in a non-empty batch of events.
pub open spec fn max_event_id_spec(evs: Seq<SessionEvent>) -> i32
    recommends
        evs.len() > 0,
    decreases evs.len(),
{
    if evs.len() <= 1 {
        evs[0].id
    } else {
        let m = max_event_id_spec(evs.drop_last());
        if evs.last().id >= m {
            evs.last().id
        } else {
            m
        }
    }
}

/// An inbound event can be encoded: its world and item ids fit the u16 slot
/// fields.
pub open spec fn event_encodable(e: SessionEvent) -> bool {
    0 <= e.from_world_id <= 0xFFFF && 0 <= e.item_id <= 0xFFFF
}

/// What must hold of the events the host hands to a `FetchEvents` request:
/// every event fits its slot, and the advanced write pointer still fits in
/// sixteen bits.
pub open spec fn events_ok(wp: u16, evs: Seq<SessionEvent>) -> bool {
    wp + evs.len() <= 0xFFFF && forall|i: int| 0 <= i < evs.len() ==> event_encodable(evs[i])
}

/// Structural bounds on an inbound plan (sizes that keep address arithmetic
/// within `u32`).
pub open spec fn plan_wf(p: InboundPlan) -> bool {
    p.payload@.len() <= 0x40000 && p.ptr_bytes@.len() == 2 && p.id_bytes@.len() == 4
}

/// Structural bounds on a tick phase.
pub open spec fn tick_wf(t: TickPhase) -> bool {
    match t {
        TickPhase::WritePayload { plan } => plan_wf(plan),
        TickPhase::VerifyPayload { plan } => plan_wf(plan),
        TickPhase::WritePointers { plan } => plan_wf(plan),
        TickPhase::VerifyPointers { plan } => plan_wf(plan),
        TickPhase::ReadOutbox { sync_read_ptr, messages } => {
            sync_read_ptr + messages <= 0xFFFF && messages >= 1
        },
        TickPhase::Sending { sync_read_ptr, messages, items, next } => {
            sync_read_ptr + messages <= 0xFFFF && messages >= 1 && items@.len() == messages
                && next < messages
        },
        TickPhase::WriteSync { sync_read_ptr, messages } => sync_read_ptr + messages <= 0xFFFF,
        TickPhase::VerifySync { sync_read_ptr, messages } => sync_read_ptr + messages <= 0xFFFF,
        _ => true,
    }
}

impl SMZ3Client {
    /// Well-formedness: the configured base addresses leave room for every
    /// exchange-area offset, and the stored phase is structurally sound.
    pub open spec fn wf(&self) -> bool {
        self.items_base <= 0xFF000000 && self.seed_data <= 0xFF000000 && tick_wf(self.tick)
    }

    /// An engine with the default base addresses.
    pub fn new() -> (r: Self)
        ensures
            r.items_base == 0xE04000,
            r.seed_data == 0xE046A0,
            r.verified_events@ == Seq::<i32>::empty(),
            r.game_state == GameState::Initialized,
            r.tick is Idle,
            r.wf(),
    {
        Self {
            items_base: 0xE04000,
            seed_data: 0xE046A0,
            verified_events: Vec::new(),
            game_state: GameState::Initialized,
            tick: TickPhase::Idle,
        }
    }

    /// An engine with custom base addresses.  The bounds keep every address
    /// the engine computes within `u32`.
    pub fn new_with_options(items_base: u32, seed_data: u32) -> (r: Self)
        requires
            items_base <= 0xFF000000,
            seed_data <= 0xFF000000,
        ensures
            r.items_base == items_base,
            r.seed_data == seed_data,
            r.verified_events@ == Seq::<i32>::empty(),
            r.game_state == GameState::Initialized,
            r.tick is Idle,
            r.wf(),
    {
        Self {
            items_base,
            seed_data,
            verified_events: Vec::new(),
            game_state: GameState::Initialized,
            tick: TickPhase::Idle,
        }
    }
}

/// The constraints `update` puts on the response the host hands in: the
/// events answering a fetch must be encodable.
pub open spec fn input_ok(pre: SMZ3Client, input: TickInput) -> bool {
    match (pre.tick, input) {
        (TickPhase::FetchEvents { snes_write_ptr, .. }, TickInput::Events(evs)) => events_ok(
            snes_write_ptr,
            evs@,
        ),
        _ => true,
    }
}

/// The index of the first world with the given id.
pub open spec fn world_index(ws: Seq<WorldData>, id: i32) -> int
    decreases ws.len(),
{
    if ws.len() == 0 {
        0
    } else if ws[0].world_id == id {
        0
    } else {
        1 + world_index(ws.drop_first(), id)
    }
}

/// Some world has the given id.
pub open spec fn found_world(ws: Seq<WorldData>, id: i32) -> bool {
    exists|i: int| 0 <= i < ws.len() && ws[i].world_id == id
}

proof fn lemma_world_index_first(ws: Seq<WorldData>, id: i32, i: int)
    requires
        0 <= i < ws.len(),
        ws[i].world_id == id,
        forall|j: int| 0 <= j < i ==> ws[j].world_id != id,
    ensures
        world_index(ws, id) == i,
    decreases ws.len(),
{
    if i > 0 {
        lemma_world_index_first(ws.drop_first(), id, i - 1);
    }
}

/// Finds the first world owned by `id`.
fn find_world(ws: &Vec<WorldData>, id: i32) -> (r: Option<usize>)
    ensures
        match r {
            Some(i) => i < ws@.len() && ws@[i as int].world_id == id && i == world_index(ws@, id)
                && found_world(ws@, id),
            None => !found_world(ws@, id),
        },
{
    let mut i: usize = 0;
    while i < ws.len()
        invariant
            i <= ws.len(),
            forall|j: int| 0 <= j < i ==> ws@[j].world_id != id,
        decreases ws.len() - i,
    {
        if ws[i].world_id == id {
            proof {
                lemma_world_index_first(ws@, id, i as int);
            }
            return Some(i);
        }
        i = i + 1;
    }
    None
}

/// The largest id in a non-empty batch of events.
fn max_event_id(evs: &Vec<SessionEvent>) -> (r: i32)
    requires
        evs@.len() >= 1,
    ensures
        r == max_event_id_spec(evs@),
{
    let mut m: i32 = evs[0].id;
    let mut i: usize = 1;
    proof {
        assert(evs@.take(1) =~= seq![evs@[0]]);
    }
    while i < evs.len()
        invariant
            1 <= i <= evs@.len(),
            m == max_event_id_spec(evs@.take(i as int)),
        decreases evs@.len() - i,
    {
        let id: i32 = evs[i].id;
        proof {
            assert(evs@.take(i + 1).drop_last() =~= evs@.take(i as int));
            assert(evs@.take(i + 1).last() == evs@[i as int]);
        }
        if id >= m {
            m = id;
        }
        i = i + 1;
    }
    proof {
        assert(evs@.take(evs@.len() as int) =~= evs@);
    }
    m
}

/// The message recorded on an outbound send.
pub open spec fn sent_message(item_id: u16, item_index: u16, from: i32, to: u16) -> Seq<char> {
    "Sent item "@ + dec_digits(item_id as nat) + " at location "@ + dec_digits(item_index as nat)
        + " from world "@ + dec_int(from as int) + " to world "@ + dec_digits(to as nat)
}

/// The event sent for one outbound slot: `ItemFound` from this client's
/// world, unconfirmed, with the slot's fields and the running sequence
/// number.
pub open spec fn is_outbound_event(
    ev: SessionEvent,
    world_id: i32,
    sync_read_ptr: u16,
    i: int,
    it: OutboundItem,
) -> bool {
    &&& ev.id == 0
    &&& ev.event_type == EventKind::ItemFound
    &&& ev.from_world_id == world_id
    &&& ev.to_world_id == it.to_world_id as i32
    &&& ev.item_id == it.item_id as i32
    &&& ev.item_location == it.item_index as i32
    &&& ev.sequence_num == sync_read_ptr + i
    &&& ev.confirmed == false
    &&& ev.message@ == sent_message(it.item_id, it.item_index, world_id, it.to_world_id)
    &&& ev.time_stamp@ == Seq::<char>::empty()
}

fn build_outbound_event(world_id: i32, sync_read_ptr: u16, i: u16, it: OutboundItem) -> (ev:
    SessionEvent)
    requires
        sync_read_ptr + i <= 0xFFFF,
    ensures
        is_outbound_event(ev, world_id, sync_read_ptr, i as int, it),
{
    let mut message: String = String::from_str("Sent item ");
    let part = dec_u32_string(it.item_id as u32);
    message.append(part.as_str());
    message.append(" at location ");
    let part = dec_u32_string(it.item_index as u32);
    message.append(part.as_str());
    message.append(" from world ");
    let part = dec_i32_string(world_id);
    message.append(part.as_str());
    message.append(" to world ");
    let part = dec_u32_string(it.to_world_id as u32);
    message.append(part.as_str());
    SessionEvent {
        id: 0,
        event_type: EventKind::ItemFound,
        from_world_id: world_id,
        to_world_id: it.to_world_id as i32,
        item_id: it.item_id as i32,
        item_location: it.item_index as i32,
        sequence_num: (sync_read_ptr + i) as i32,
        confirmed: false,
        message,
        time_stamp: String::new(),
    }
}

/// The outbound items stored in `b`, one eight-byte slot each.
pub open spec fn items_of_slots(b: Seq<u8>, n: nat) -> Seq<OutboundItem> {
    Seq::new(
        n,
        |i: int|
            {
                let (t, id, ix) = slot_of(b, 8 * i);
                OutboundItem { to_world_id: t, item_id: id, item_index: ix }
            },
    )
}

/// Decodes `n` outbound slots.
fn decode_items(b: &Vec<u8>, n: u16) -> (r: Vec<OutboundItem>)
    requires
        b@.len() == 8 * (n as int),
    ensures
        r@ == items_of_slots(b@, n as nat),
{
    let mut r: Vec<OutboundItem> = Vec::new();
    let mut i: usize = 0;
    while i < n as usize
        invariant
            i <= n,
            b@.len() == 8 * (n as int),
            r@ == items_of_slots(b@, n as nat).take(i as int),
        decreases n - i,
    {
        let (t, id, ix) = decode_slot_at(b, 8 * i);
        r.push(OutboundItem { to_world_id: t, item_id: id, item_index: ix });
        proof {
            let full = items_of_slots(b@, n as nat);
            assert(full.take(i + 1) =~= full.take(i as int).push(full[i as int]));
        }
        i = i + 1;
    }
    proof {
        let full = items_of_slots(b@, n as nat);
        assert(full.take(n as int) =~= full);
    }
    r
}

/// The parts of the engine a step never changes besides the phase, the
/// top-level state and the confirmation list.
pub open spec fn same_config(pre: SMZ3Client, post: SMZ3Client) -> bool {
    post.items_base == pre.items_base && post.seed_data == pre.seed_data
}

/// Nothing but the phase changed.
pub open spec fn only_phase_changed(pre: SMZ3Client, post: SMZ3Client) -> bool {
    same_config(pre, post) && post.game_state == pre.game_state && post.verified_events@
        == pre.verified_events@
}

/// A step that ends the tick (or aborts it): phase back to `Idle`.
pub open spec fn idle_with(pre: SMZ3Client, post: SMZ3Client) -> bool {
    only_phase_changed(pre, post) && post.tick is Idle
}

/// The step carries no notifications and this request.
pub open spec fn quiet(step: TickStep) -> bool {
    step.notices@.len() == 0
}

/// A precondition failure: the tick is abandoned.
pub open spec fn precondition_err(r: Result<TickStep, ClientError>, msg: Seq<char>) -> bool {
    r matches Err(e) && e matches ClientError::Precondition { message } && message@ == msg
}

/// A protocol failure: the tick is abandoned.
pub open spec fn protocol_err(r: Result<TickStep, ClientError>, msg: Seq<char>) -> bool {
    r matches Err(e) && e matches ClientError::Protocol { message } && message@ == msg
}

/// The request that re-issues the payload write of `plan`.
pub open spec fn is_payload_write(req: TickRequest, plan: InboundPlan) -> bool {
    req matches TickRequest::WriteMem { addr, data } && addr == plan.payload_addr && data@
        == plan.payload@
}

/// The request that writes the two inbound pointer fields of `plan`.
pub open spec fn is_pointer_write(req: TickRequest, plan: InboundPlan) -> bool {
    req matches TickRequest::WriteMemMulti { addrs, data } && addrs@ == seq![
        plan.ptr_addr,
        plan.id_addr,
    ] && data@.len() == 2 && data@[0]@ == plan.ptr_bytes@ && data@[1]@ == plan.id_bytes@
}

/// The request that reads back the two inbound pointer fields of `plan`.
pub open spec fn is_pointer_readback(req: TickRequest, plan: InboundPlan) -> bool {
    req matches TickRequest::ReadMemMulti { pairs } && pairs@ == seq![
        plan.ptr_addr,
        2u32,
        plan.id_addr,
        4u32,
    ]
}

/// The request that writes the advanced sync pointer.
pub open spec fn is_sync_write(req: TickRequest, base: u32, new_ptr: u16) -> bool {
    req matches TickRequest::WriteMem { addr, data } && addr == base + 0x680 && data@
        == le16_bytes(new_ptr)
}

/// The inbound plan computed for write pointer `wp` and events `evs`.
pub open spec fn is_inbound_plan(plan: InboundPlan, base: u32, wp: u16, evs: Seq<SessionEvent>) -> bool {
    &&& plan.payload_addr == base + 4 * wp
    &&& plan.payload@ == pairs_bytes(pairs_of_events(evs))
    &&& plan.ptr_addr == base + 0x602
    &&& plan.ptr_bytes@ == le16_bytes((wp + evs.len()) as u16)
    &&& plan.id_addr == base + 0x608
    &&& plan.id_bytes@ == le32_bytes(as_unsigned32(max_event_id_spec(evs)))
    &&& plan.event_ids@ == ids_of_events(evs)
}

/// The step that closes a tick: confirm outstanding event ids if there are
/// any, otherwise finish.
pub open spec fn closes_tick(pre: SMZ3Client, post: SMZ3Client, step: TickStep) -> bool {
    if pre.verified_events@.len() == 0 {
        idle_with(pre, post) && quiet(step) && step.request is Done
    } else {
        only_phase_changed(pre, post) && post.tick is Confirm && quiet(step) && (step.request
            matches TickRequest::ConfirmEvents { ids } && ids@ == pre.verified_events@)
    }
}

/// The full step relation of the engine: what `update` does for every phase
/// and input.  This is the specification the implementation is verified
/// against, and the ground the trace laws build on.
pub open spec fn update_rel(
    pre: SMZ3Client,
    ctx: ClientContext,
    input: TickInput,
    post: SMZ3Client,
    r: Result<TickStep, ClientError>,
) -> bool {
    match (pre.tick, input) {
        (TickPhase::Idle, TickInput::Start) => rel_start(pre, ctx, post, r),
        (TickPhase::DetectRead { world_guid }, TickInput::Bytes(b)) => rel_detect_read(
            pre,
            ctx,
            world_guid,
            b,
            post,
            r,
        ),
        (TickPhase::DetectUpdatePlayer, TickInput::Acked) => {
            &&& same_config(pre, post)
            &&& post.tick is Idle
            &&& post.verified_events@ == pre.verified_events@
            &&& post.game_state == GameState::Running
            &&& r matches Ok(step)
            &&& step.request is Done
            &&& step.notices@.len() == 1
            &&& (step.notices@[0] matches Message::GameState { message } && message@
                == "Multiworld session running"@)
        },
        (TickPhase::InHdrFirst, TickInput::Bytes(b)) => {
            if b@.len() != 0x10 {
                idle_with(pre, post) && protocol_err(
                    r,
                    "Read returned a different size than requested"@,
                )
            } else {
                &&& only_phase_changed(pre, post)
                &&& (post.tick matches TickPhase::InHdrSecond { first } && first@ == b@)
                &&& r matches Ok(step)
                &&& quiet(step)
                &&& (step.request matches TickRequest::ReadMem { addr, size } && addr
                    == pre.items_base + 0x600 && size == 0x10)
            }
        },
        (TickPhase::InHdrSecond { first }, TickInput::Bytes(b)) => rel_in_hdr_second(
            pre,
            ctx,
            first,
            b,
            post,
            r,
        ),
        (TickPhase::FetchEvents { snes_write_ptr, .. }, TickInput::Events(evs)) => rel_fetch_events(
            pre,
            snes_write_ptr,
            evs,
            post,
            r,
        ),
        (TickPhase::WritePayload { plan }, TickInput::Written) => {
            &&& only_phase_changed(pre, post)
            &&& (post.tick matches TickPhase::VerifyPayload { plan: p } && p == plan)
            &&& r matches Ok(step)
            &&& quiet(step)
            &&& (step.request matches TickRequest::ReadMem { addr, size } && addr
                == plan.payload_addr && size == plan.payload@.len())
        },
        (TickPhase::VerifyPayload { plan }, TickInput::Bytes(b)) => {
            &&& only_phase_changed(pre, post)
            &&& r matches Ok(step)
            &&& quiet(step)
            &&& if b@ == plan.payload@ {
                (post.tick matches TickPhase::WritePointers { plan: p } && p == plan)
                    && is_pointer_write(step.request, plan)
            } else {
                (post.tick matches TickPhase::WritePayload { plan: p } && p == plan)
                    && is_payload_write(step.request, plan)
            }
        },
        (TickPhase::WritePointers { plan }, TickInput::Written) => {
            &&& only_phase_changed(pre, post)
            &&& (post.tick matches TickPhase::VerifyPointers { plan: p } && p == plan)
            &&& r matches Ok(step)
            &&& quiet(step)
            &&& is_pointer_readback(step.request, plan)
        },
        (TickPhase::VerifyPointers { plan }, TickInput::Chunks(ch)) => {
            &&& r matches Ok(step)
            &&& quiet(step)
            &&& if ch@.len() == 2 && ch@[0]@ == plan.ptr_bytes@ && ch@[1]@ == plan.id_bytes@ {
                &&& same_config(pre, post)
                &&& post.game_state == pre.game_state
                &&& post.verified_events@ == pre.verified_events@ + plan.event_ids@
                &&& post.tick is OutHdrFirst
                &&& (step.request matches TickRequest::ReadMem { addr, size } && addr
                    == pre.items_base + 0x680 && size == 4)
            } else {
                &&& only_phase_changed(pre, post)
                &&& (post.tick matches TickPhase::WritePointers { plan: p } && p == plan)
                &&& is_pointer_write(step.request, plan)
            }
        },
        (TickPhase::OutHdrFirst, TickInput::Bytes(b)) => {
            if b@.len() != 4 {
                idle_with(pre, post) && protocol_err(
                    r,
                    "Read returned a different size than requested"@,
                )
            } else {
                &&& only_phase_changed(pre, post)
                &&& (post.tick matches TickPhase::OutHdrSecond { first } && first@ == b@)
                &&& r matches Ok(step)
                &&& quiet(step)
                &&& (step.request matches TickRequest::ReadMem { addr, size } && addr
                    == pre.items_base + 0x680 && size == 4)
            }
        },
        (TickPhase::OutHdrSecond { first }, TickInput::Bytes(b)) => rel_out_hdr_second(
            pre,
            first,
            b,
            post,
            r,
        ),
        (TickPhase::ReadOutbox { sync_read_ptr, messages }, TickInput::Bytes(b)) => rel_read_outbox(
            pre,
            ctx,
            sync_read_ptr,
            messages,
            b,
            post,
            r,
        ),
        (TickPhase::Sending { sync_read_ptr, messages, items, next }, TickInput::EventSent(ev)) => rel_event_sent(
            pre,
            ctx,
            sync_read_ptr,
            messages,
            items,
            next,
            ev,
            post,
            r,
        ),
        (TickPhase::WriteSync { sync_read_ptr, messages }, TickInput::Written) => {
            &&& only_phase_changed(pre, post)
            &&& (post.tick matches TickPhase::VerifySync { sync_read_ptr: s, messages: m } && s
                == sync_read_ptr && m == messages)
            &&& r matches Ok(step)
            &&& quiet(step)
            &&& (step.request matches TickRequest::ReadMem { addr, size } && addr
                == pre.items_base + 0x680 && size == 2)
        },
        (TickPhase::VerifySync { sync_read_ptr, messages }, TickInput::Bytes(b)) => rel_verify_sync(
            pre,
            sync_read_ptr,
            messages,
            b,
            post,
            r,
        ),
        (TickPhase::Confirm, TickInput::Acked) => {
            &&& same_config(pre, post)
            &&& post.game_state == pre.game_state
            &&& post.verified_events@ == Seq::<i32>::empty()
            &&& post.tick is Idle
            &&& r matches Ok(step)
            &&& step.request is Done
            &&& step.notices@.len() == 1
            &&& (step.notices@[0] matches Message::ItemsConfirmed { ids } && ids@
                == pre.verified_events@)
        },
        // Confirmation failures are non-fatal: the ids stay queued for the
        // next tick and this tick still completes.
        (TickPhase::Confirm, TickInput::Failed(e)) => {
            idle_with(pre, post) && (r matches Ok(step) && quiet(step) && step.request is Done)
        },
        (_, TickInput::Failed(e)) => {
            idle_with(pre, post) && (r matches Err(e2) && e2 == e)
        },
        (_, _) => {
            idle_with(pre, post) && precondition_err(
                r,
                "Unexpected response for the current tick step"@,
            )
        },
    }
}

/// Beginning a tick: requires a registered client; dispatches on the
/// engine's top-level state.
pub open spec fn rel_start(
    pre: SMZ3Client,
    ctx: ClientContext,
    post: SMZ3Client,
    r: Result<TickStep, ClientError>,
) -> bool {
    if ctx.client is None {
        idle_with(pre, post) && precondition_err(
            r,
            "Client must be initialized and authenticated"@,
        )
    } else {
        match pre.game_state {
            GameState::Initialized => {
                &&& same_config(pre, post)
                &&& post.verified_events@ == pre.verified_events@
                &&& post.game_state == GameState::Detecting
                &&& post.tick is Idle
                &&& r matches Ok(step)
                &&& step.request is Done
                &&& step.notices@.len() == 1
                &&& (step.notices@[0] matches Message::GameState { message } && message@
                    == "Detecting game"@)
            },
            GameState::Detecting => rel_start_detecting(pre, ctx, post, r),
            GameState::Running => {
                &&& only_phase_changed(pre, post)
                &&& post.tick is InHdrFirst
                &&& r matches Ok(step)
                &&& quiet(step)
                &&& (step.request matches TickRequest::ReadMem { addr, size } && addr
                    == pre.items_base + 0x600 && size == 0x10)
            },
        }
    }
}

/// Beginning a tick in the Detecting state: requires a session; when this
/// client's world is in the seed, read the fingerprint region.
pub open spec fn rel_start_detecting(
    pre: SMZ3Client,
    ctx: ClientContext,
    post: SMZ3Client,
    r: Result<TickStep, ClientError>,
) -> bool {
    match ctx.session {
        Option::None => {
            idle_with(pre, post) && precondition_err(r, "Session must be initialized"@)
        },
        Option::Some(session) => {
            match session.seed {
                Option::None => {
                    idle_with(pre, post) && (r matches Ok(step) && quiet(step) && step.request
                        is Done)
                },
                Option::Some(seed) => {
                    let wid = client_world_id(ctx);
                    if !found_world(seed.worlds@, wid) {
                        idle_with(pre, post) && (r matches Ok(step) && quiet(step)
                            && step.request is Done)
                    } else {
                        &&& only_phase_changed(pre, post)
                        &&& (post.tick matches TickPhase::DetectRead { world_guid } && world_guid@
                            == seed.worlds@[world_index(seed.worlds@, wid)].guid@)
                        &&& r matches Ok(step)
                        &&& quiet(step)
                        &&& (step.request matches TickRequest::ReadMem { addr, size } && addr
                            == pre.seed_data && size == 0x50)
                    }
                },
            }
        },
    }
}

/// The fingerprint bytes arrived: when both GUIDs match, report the player
/// ready; otherwise the tick ends and detection retries next tick.
pub open spec fn rel_detect_read(
    pre: SMZ3Client,
    ctx: ClientContext,
    world_guid: String,
    b: Vec<u8>,
    post: SMZ3Client,
    r: Result<TickStep, ClientError>,
) -> bool {
    if b@.len() != 0x50 {
        idle_with(pre, post) && protocol_err(r, "Read returned a different size than requested"@)
    } else {
        let session_match = b@.subrange(0x10, 0x30) == vstd::utf8::encode_utf8(ctx.session_guid@);
        let world_match = b@.subrange(0x30, 0x50) == vstd::utf8::encode_utf8(world_guid@);
        if session_match && world_match {
            &&& only_phase_changed(pre, post)
            &&& post.tick is DetectUpdatePlayer
            &&& r matches Ok(step)
            &&& quiet(step)
            &&& (step.request matches TickRequest::UpdatePlayer { device } && device@
                == ctx.device@)
        } else {
            idle_with(pre, post) && (r matches Ok(step) && quiet(step) && step.request is Done)
        }
    }
}

/// The second inbound-header read arrived: when it differs from the first
/// the double-read restarts; when stable, fetch the events after the last
/// committed id.
pub open spec fn rel_in_hdr_second(
    pre: SMZ3Client,
    ctx: ClientContext,
    first: Vec<u8>,
    b: Vec<u8>,
    post: SMZ3Client,
    r: Result<TickStep, ClientError>,
) -> bool {
    if b@.len() != 0x10 {
        idle_with(pre, post) && protocol_err(r, "Read returned a different size than requested"@)
    } else if b@ != first@ {
        &&& only_phase_changed(pre, post)
        &&& post.tick is InHdrFirst
        &&& r matches Ok(step)
        &&& quiet(step)
        &&& (step.request matches TickRequest::ReadMem { addr, size } && addr == pre.items_base
            + 0x600 && size == 0x10)
    } else if ctx.client is None {
        idle_with(pre, post) && precondition_err(
            r,
            "Client must be initialized and authenticated"@,
        )
    } else {
        let wp = le16(b@.subrange(2, 4));
        let eid = as_signed32(le32(b@.subrange(8, 12)));
        if eid == i32::MAX {
            idle_with(pre, post) && protocol_err(r, "Inbound event id is at the maximum value"@)
        } else {
            &&& only_phase_changed(pre, post)
            &&& (post.tick matches TickPhase::FetchEvents { snes_write_ptr, snes_event_id }
                && snes_write_ptr == wp && snes_event_id == eid)
            &&& r matches Ok(step)
            &&& quiet(step)
            &&& (step.request matches TickRequest::FetchEvents { from_event_id, to_world_id }
                && from_event_id == eid + 1 && to_world_id == client_world_id(ctx))
        }
    }
}

/// The fetched events arrived: an empty batch skips to the outbound side;
/// otherwise the inbound plan is computed, one `ItemReceived` notification
/// per event is delivered, and the payload write begins.
pub open spec fn rel_fetch_events(
    pre: SMZ3Client,
    wp: u16,
    evs: Vec<SessionEvent>,
    post: SMZ3Client,
    r: Result<TickStep, ClientError>,
) -> bool {
    if evs@.len() == 0 {
        &&& only_phase_changed(pre, post)
        &&& post.tick is OutHdrFirst
        &&& r matches Ok(step)
        &&& quiet(step)
        &&& (step.request matches TickRequest::ReadMem { addr, size } && addr == pre.items_base
            + 0x680 && size == 4)
    } else {
        &&& only_phase_changed(pre, post)
        &&& (post.tick matches TickPhase::WritePayload { plan } && is_inbound_plan(
            plan,
            pre.items_base,
            wp,
            evs@,
        ))
        &&& r matches Ok(step)
        &&& step.notices@ == evs@.map_values(|e: SessionEvent| Message::ItemReceived { event: e })
        &&& (post.tick matches TickPhase::WritePayload { plan } && is_payload_write(
            step.request,
            plan,
        ))
    }
}

/// The second outbound-header read arrived: when stable, read the pending
/// outbound slots, or close the tick if there are none.
pub open spec fn rel_out_hdr_second(
    pre: SMZ3Client,
    first: Vec<u8>,
    b: Vec<u8>,
    post: SMZ3Client,
    r: Result<TickStep, ClientError>,
) -> bool {
    if b@.len() != 4 {
        idle_with(pre, post) && protocol_err(r, "Read returned a different size than requested"@)
    } else if b@ != first@ {
        &&& only_phase_changed(pre, post)
        &&& post.tick is OutHdrFirst
        &&& r matches Ok(step)
        &&& quiet(step)
        &&& (step.request matches TickRequest::ReadMem { addr, size } && addr == pre.items_base
            + 0x680 && size == 4)
    } else {
        let sync = le16(b@.subrange(0, 2));
        let wp = le16(b@.subrange(2, 4));
        if sync < wp {
            &&& only_phase_changed(pre, post)
            &&& (post.tick matches TickPhase::ReadOutbox { sync_read_ptr, messages }
                && sync_read_ptr == sync && messages == wp - sync)
            &&& r matches Ok(step)
            &&& quiet(step)
            &&& (step.request matches TickRequest::ReadMem { addr, size } && addr
                == pre.items_base + 0x700 + 8 * sync && size == 8 * (wp - sync))
        } else {
            r matches Ok(step) && closes_tick(pre, post, step)
        }
    }
}

/// The outbound slots arrived: decode them and send the first event.
pub open spec fn rel_read_outbox(
    pre: SMZ3Client,
    ctx: ClientContext,
    sync: u16,
    messages: u16,
    b: Vec<u8>,
    post: SMZ3Client,
    r: Result<TickStep, ClientError>,
) -> bool {
    if b@.len() != 8 * messages {
        idle_with(pre, post) && protocol_err(r, "Read returned a different size than requested"@)
    } else if ctx.client is None {
        idle_with(pre, post) && precondition_err(
            r,
            "Client must be initialized and authenticated"@,
        )
    } else {
        &&& only_phase_changed(pre, post)
        &&& (post.tick matches TickPhase::Sending { sync_read_ptr, messages: m, items, next }
            && sync_read_ptr == sync && m == messages && items@ == items_of_slots(
            b@,
            messages as nat,
        ) && next == 0)
        &&& r matches Ok(step)
        &&& quiet(step)
        &&& (step.request matches TickRequest::SendEvent { event } && is_outbound_event(
            event,
            client_world_id(ctx),
            sync,
            0,
            items_of_slots(b@, messages as nat)[0],
        ))
    }
}

/// One outbound send completed: deliver `ItemFound`, then send the next
/// event, or start the verified write of the advanced sync pointer when all
/// are sent.
pub open spec fn rel_event_sent(
    pre: SMZ3Client,
    ctx: ClientContext,
    sync: u16,
    messages: u16,
    items: Vec<OutboundItem>,
    next: u16,
    ev: SessionEvent,
    post: SMZ3Client,
    r: Result<TickStep, ClientError>,
) -> bool {
    if ctx.client is None {
        idle_with(pre, post) && precondition_err(
            r,
            "Client must be initialized and authenticated"@,
        )
    } else {
        &&& only_phase_changed(pre, post)
        &&& r matches Ok(step)
        &&& step.notices@.len() == 1
        &&& (step.notices@[0] matches Message::ItemFound { event } && event == ev)
        &&& if next + 1 < messages {
            &&& (post.tick matches TickPhase::Sending {
                sync_read_ptr,
                messages: m,
                items: its,
                next: n,
            } && sync_read_ptr == sync && m == messages && its@ == items@ && n == next + 1)
            &&& (step.request matches TickRequest::SendEvent { event } && is_outbound_event(
                event,
                client_world_id(ctx),
                sync,
                next + 1,
                items@[next + 1],
            ))
        } else {
            &&& (post.tick matches TickPhase::WriteSync { sync_read_ptr, messages: m }
                && sync_read_ptr == sync && m == messages)
            &&& is_sync_write(step.request, pre.items_base, (sync + messages) as u16)
        }
    }
}

fn quiet_step(request: TickRequest) -> (step: TickStep)
    ensures
        quiet(step),
        step.request == request,
{
    TickStep { notices: Vec::new(), request }
}

fn precondition_error(msg: &str) -> (e: ClientError)
    ensures
        e matches ClientError::Precondition { message } && message@ == msg@,
{
    ClientError::Precondition { message: String::from_str(msg) }
}

fn protocol_error(msg: &str) -> (e: ClientError)
    ensures
        e matches ClientError::Protocol { message } && message@ == msg@,
{
    ClientError::Protocol { message: String::from_str(msg) }
}

/// The inbound pairs of a batch of events.
fn events_to_pairs(evs: &Vec<SessionEvent>) -> (r: Vec<(u16, u16)>)
    requires
        forall|i: int| 0 <= i < evs@.len() ==> event_encodable(evs@[i]),
    ensures
        r@ == pairs_of_events(evs@),
{
    let mut r: Vec<(u16, u16)> = Vec::new();
    let mut i: usize = 0;
    while i < evs.len()
        invariant
            i <= evs@.len(),
            forall|j: int| 0 <= j < evs@.len() ==> event_encodable(evs@[j]),
            r@.len() == i,
            forall|j: int| 0 <= j < i ==> r@[j] == ev_pair(evs@[j]),
        decreases evs@.len() - i,
    {
        let from: u16 = evs[i].from_world_id as u16;
        let item: u16 = evs[i].item_id as u16;
        r.push((from, item));
        i = i + 1;
    }
    proof {
        assert(r@ =~= pairs_of_events(evs@));
    }
    r
}

/// The ids of a batch of events.
fn events_to_ids(evs: &Vec<SessionEvent>) -> (r: Vec<i32>)
    ensures
        r@ == ids_of_events(evs@),
{
    let mut r: Vec<i32> = Vec::new();
    let mut i: usize = 0;
    while i < evs.len()
        invariant
            i <= evs@.len(),
            r@.len() == i,
            forall|j: int| 0 <= j < i ==> r@[j] == evs@[j].id,
        decreases evs@.len() - i,
    {
        r.push(evs[i].id);
        i = i + 1;
    }
    proof {
        assert(r@ =~= ids_of_events(evs@));
    }
    r
}

/// Computes the three inbound writes for a non-empty batch of events.
fn plan_inbound(base: u32, wp: u16, evs: &Vec<SessionEvent>) -> (plan: InboundPlan)
    requires
        base <= 0xFF000000,
        evs@.len() >= 1,
        events_ok(wp, evs@),
    ensures
        is_inbound_plan(plan, base, wp, evs@),
        plan_wf(plan),
{
    let pairs = events_to_pairs(evs);
    let payload = encode_pairs(&pairs);
    assert(evs@.len() <= 0xFFFF);
    let new_wp: u16 = wp + (evs.len() as u16);
    let max_id: i32 = max_event_id(evs);
    let ids = events_to_ids(evs);
    InboundPlan {
        payload_addr: base + 4 * (wp as u32),
        payload,
        ptr_addr: base + 0x602,
        ptr_bytes: u16_to_le(new_wp),
        id_addr: base + 0x608,
        id_bytes: i32_to_le(max_id),
        event_ids: ids,
    }
}

/// The sync-pointer read-back arrived: when it shows the advanced value the
/// tick closes, otherwise the write retries.
pub open spec fn rel_verify_sync(
    pre: SMZ3Client,
    sync: u16,
    messages: u16,
    b: Vec<u8>,
    post: SMZ3Client,
    r: Result<TickStep, ClientError>,
) -> bool {
    if b@.len() != 2 {
        idle_with(pre, post) && protocol_err(r, "Read returned a different size than requested"@)
    } else if le16(b@) == sync + messages {
        r matches Ok(step) && closes_tick(pre, post, step)
    } else {
        &&& only_phase_changed(pre, post)
        &&& (post.tick matches TickPhase::WriteSync { sync_read_ptr, messages: m } && sync_read_ptr
            == sync && m == messages)
        &&& r matches Ok(step)
        &&& quiet(step)
        &&& is_sync_write(step.request, pre.items_base, (sync + messages) as u16)
    }
}

fn pointer_write_request(plan: &InboundPlan) -> (r: TickRequest)
    ensures
        is_pointer_write(r, *plan),
{
    let mut addrs: Vec<u32> = Vec::new();
    addrs.push(plan.ptr_addr);
    addrs.push(plan.id_addr);
    let mut data: Vec<Vec<u8>> = Vec::new();
    data.push(copy_bytes(&plan.ptr_bytes));
    data.push(copy_bytes(&plan.id_bytes));
    proof {
        assert(addrs@ =~= seq![plan.ptr_addr, plan.id_addr]);
    }
    TickRequest::WriteMemMulti { addrs, data }
}

impl SMZ3Client {
    /// Closes the tick: emits the confirmation of the committed event ids
    /// when any are outstanding, otherwise finishes.
    fn close_tick(&mut self) -> (step: TickStep)
        ensures
            closes_tick(*old(self), *final(self), step),
            tick_wf(final(self).tick),
    {
        if self.verified_events.len() == 0 {
            self.tick = TickPhase::Idle;
            quiet_step(TickRequest::Done)
        } else {
            let ids = copy_ids(&self.verified_events);
            self.tick = TickPhase::Confirm;
            quiet_step(TickRequest::ConfirmEvents { ids })
        }
    }

    /// One step of a tick.  `input` answers the request the previous call
    /// returned (`Start` begins a tick); the result carries the
    /// notifications to deliver and the next request, or the error that
    /// abandons the tick.  The full behaviour is pinned by `update_rel`.
    pub fn update(&mut self, ctx: &ClientContext, input: TickInput) -> (r: Result<
        TickStep,
        ClientError,
    >)
        requires
            old(self).wf(),
            input_ok(*old(self), input),
        ensures
            final(self).wf(),
            update_rel(*old(self), *ctx, input, *final(self), r),
    {
        let mut phase = TickPhase::Idle;
        core::mem::swap(&mut self.tick, &mut phase);
        match (phase, input) {
            (TickPhase::Idle, TickInput::Start) => {
                match &ctx.client {
                    Option::None => Err(
                        precondition_error("Client must be initialized and authenticated"),
                    ),
                    Option::Some(client) => {
                        match self.game_state {
                            GameState::Initialized => {
                                self.game_state = GameState::Detecting;
                                let mut notices: Vec<Message> = Vec::new();
                                notices.push(
                                    Message::GameState {
                                        message: String::from_str("Detecting game"),
                                    },
                                );
                                Ok(TickStep { notices, request: TickRequest::Done })
                            },
                            GameState::Detecting => {
                                match &ctx.session {
                                    Option::None => Err(
                                        precondition_error("Session must be initialized"),
                                    ),
                                    Option::Some(session) => {
                                        match &session.seed {
                                            Option::None => Ok(quiet_step(TickRequest::Done)),
                                            Option::Some(seed) => {
                                                match find_world(&seed.worlds, client.world_id) {
                                                    Option::None => Ok(
                                                        quiet_step(TickRequest::Done),
                                                    ),
                                                    Option::Some(i) => {
                                                        let guid = seed.worlds[i].guid.clone();
                                                        self.tick = TickPhase::DetectRead {
                                                            world_guid: guid,
                                                        };
                                                        Ok(
                                                            quiet_step(
                                                                TickRequest::ReadMem {
                                                                    addr: self.seed_data,
                                                                    size: 0x50,
                                                                },
                                                            ),
                                                        )
                                                    },
                                                }
                                            },
                                        }
                                    },
                                }
                            },
                            GameState::Running => {
                                self.tick = TickPhase::InHdrFirst;
                                Ok(
                                    quiet_step(
                                        TickRequest::ReadMem {
                                            addr: self.items_base + 0x600,
                                            size: 0x10,
                                        },
                                    ),
                                )
                            },
                        }
                    },
                }
            },
            (TickPhase::DetectRead { world_guid }, TickInput::Bytes(b)) => {
                if b.len() != 0x50 {
                    Err(protocol_error("Read returned a different size than requested"))
                } else {
                    let session_match = str_bytes_match(&ctx.session_guid, &b, 0x10, 0x20);
                    let world_match = str_bytes_match(&world_guid, &b, 0x30, 0x20);
                    if session_match && world_match {
                        self.tick = TickPhase::DetectUpdatePlayer;
                        Ok(quiet_step(TickRequest::UpdatePlayer { device: ctx.device.clone() }))
                    } else {
                        Ok(quiet_step(TickRequest::Done))
                    }
                }
            },
            (TickPhase::DetectUpdatePlayer, TickInput::Acked) => {
                self.game_state = GameState::Running;
                let mut notices: Vec<Message> = Vec::new();
                notices.push(
                    Message::GameState { message: String::from_str("Multiworld session running") },
                );
                Ok(TickStep { notices, request: TickRequest::Done })
            },
            (TickPhase::InHdrFirst, TickInput::Bytes(b)) => {
                if b.len() != 0x10 {
                    Err(protocol_error("Read returned a different size than requested"))
                } else {
                    self.tick = TickPhase::InHdrSecond { first: b };
                    Ok(
                        quiet_step(
                            TickRequest::ReadMem { addr: self.items_base + 0x600, size: 0x10 },
                        ),
                    )
                }
            },
            (TickPhase::InHdrSecond { first }, TickInput::Bytes(b)) => {
                if b.len() != 0x10 {
                    Err(protocol_error("Read returned a different size than requested"))
                } else if !bytes_eq(&b, &first) {
                    self.tick = TickPhase::InHdrFirst;
                    Ok(
                        quiet_step(
                            TickRequest::ReadMem { addr: self.items_base + 0x600, size: 0x10 },
                        ),
                    )
                } else {
                    match &ctx.client {
                        Option::None => Err(
                            precondition_error("Client must be initialized and authenticated"),
                        ),
                        Option::Some(client) => {
                            let wp = u16_from_le_at(&b, 2);
                            let eid = i32_from_le_at(&b, 8);
                            if eid == i32::MAX {
                                Err(protocol_error("Inbound event id is at the maximum value"))
                            } else {
                                self.tick = TickPhase::FetchEvents {
                                    snes_write_ptr: wp,
                                    snes_event_id: eid,
                                };
                                Ok(
                                    quiet_step(
                                        TickRequest::FetchEvents {
                                            from_event_id: eid + 1,
                                            to_world_id: client.world_id,
                                        },
                                    ),
                                )
                            }
                        },
                    }
                }
            },
            (TickPhase::FetchEvents { snes_write_ptr, .. }, TickInput::Events(evs)) => {
                if evs.len() == 0 {
                    self.tick = TickPhase::OutHdrFirst;
                    Ok(quiet_step(TickRequest::ReadMem { addr: self.items_base + 0x680, size: 4 }))
                } else {
                    let plan = plan_inbound(self.items_base, snes_write_ptr, &evs);
                    let req_data = copy_bytes(&plan.payload);
                    let payload_addr = plan.payload_addr;
                    let ghost orig = evs@;
                    let mut notices: Vec<Message> = Vec::new();
                    let mut rest = evs;
                    while rest.len() > 0
                        invariant
                            notices@.len() + rest@.len() == orig.len(),
                            rest@ == orig.skip(notices@.len() as int),
                            forall|j: int|
                                0 <= j < notices@.len() ==> notices@[j] == (Message::ItemReceived {
                                    event: orig[j],
                                }),
                        decreases rest@.len(),
                    {
                        let ghost k = notices@.len() as int;
                        let e = rest.remove(0);
                        proof {
                            assert(e == orig[k]);
                            assert(rest@ =~= orig.skip(k + 1));
                        }
                        notices.push(Message::ItemReceived { event: e });
                    }
                    proof {
                        assert(notices@ =~= orig.map_values(
                            |e: SessionEvent| Message::ItemReceived { event: e },
                        ));
                    }
                    self.tick = TickPhase::WritePayload { plan };
                    Ok(
                        TickStep {
                            notices,
                            request: TickRequest::WriteMem { addr: payload_addr, data: req_data },
                        },
                    )
                }
            },
            (TickPhase::WritePayload { plan }, TickInput::Written) => {
                let addr = plan.payload_addr;
                let size = plan.payload.len() as u32;
                self.tick = TickPhase::VerifyPayload { plan };
                Ok(quiet_step(TickRequest::ReadMem { addr, size }))
            },
            (TickPhase::VerifyPayload { plan }, TickInput::Bytes(b)) => {
                if bytes_eq(&b, &plan.payload) {
                    let req = pointer_write_request(&plan);
                    self.tick = TickPhase::WritePointers { plan };
                    Ok(quiet_step(req))
                } else {
                    let req = TickRequest::WriteMem {
                        addr: plan.payload_addr,
                        data: copy_bytes(&plan.payload),
                    };
                    self.tick = TickPhase::WritePayload { plan };
                    Ok(quiet_step(req))
                }
            },
            (TickPhase::WritePointers { plan }, TickInput::Written) => {
                let mut pairs: Vec<u32> = Vec::new();
                pairs.push(plan.ptr_addr);
                pairs.push(2);
                pairs.push(plan.id_addr);
                pairs.push(4);
                proof {
                    assert(pairs@ =~= seq![plan.ptr_addr, 2u32, plan.id_addr, 4u32]);
                }
                self.tick = TickPhase::VerifyPointers { plan };
                Ok(quiet_step(TickRequest::ReadMemMulti { pairs }))
            },
            (TickPhase::VerifyPointers { mut plan }, TickInput::Chunks(ch)) => {
                let ok = ch.len() == 2 && bytes_eq(&ch[0], &plan.ptr_bytes) && bytes_eq(
                    &ch[1],
                    &plan.id_bytes,
                );
                if ok {
                    self.verified_events.append(&mut plan.event_ids);
                    self.tick = TickPhase::OutHdrFirst;
                    Ok(quiet_step(TickRequest::ReadMem { addr: self.items_base + 0x680, size: 4 }))
                } else {
                    let req = pointer_write_request(&plan);
                    self.tick = TickPhase::WritePointers { plan };
                    Ok(quiet_step(req))
                }
            },
            (TickPhase::OutHdrFirst, TickInput::Bytes(b)) => {
                if b.len() != 4 {
                    Err(protocol_error("Read returned a different size than requested"))
                } else {
                    self.tick = TickPhase::OutHdrSecond { first: b };
                    Ok(quiet_step(TickRequest::ReadMem { addr: self.items_base + 0x680, size: 4 }))
                }
            },
            (TickPhase::OutHdrSecond { first }, TickInput::Bytes(b)) => {
                if b.len() != 4 {
                    Err(protocol_error("Read returned a different size than requested"))
                } else if !bytes_eq(&b, &first) {
                    self.tick = TickPhase::OutHdrFirst;
                    Ok(quiet_step(TickRequest::ReadMem { addr: self.items_base + 0x680, size: 4 }))
                } else {
                    let sync = u16_from_le_at(&b, 0);
                    let wp = u16_from_le_at(&b, 2);
                    if sync < wp {
                        let messages = wp - sync;
                        self.tick = TickPhase::ReadOutbox { sync_read_ptr: sync, messages };
                        Ok(
                            quiet_step(
                                TickRequest::ReadMem {
                                    addr: self.items_base + 0x700 + 8 * (sync as u32),
                                    size: 8 * (messages as u32),
                                },
                            ),
                        )
                    } else {
                        Ok(self.close_tick())
                    }
                }
            },
            (TickPhase::ReadOutbox { sync_read_ptr, messages }, TickInput::Bytes(b)) => {
                if b.len() != 8 * (messages as usize) {
                    Err(protocol_error("Read returned a different size than requested"))
                } else {
                    match &ctx.client {
                        Option::None => Err(
                            precondition_error("Client must be initialized and authenticated"),
                        ),
                        Option::Some(client) => {
                            let items = decode_items(&b, messages);
                            let event = build_outbound_event(
                                client.world_id,
                                sync_read_ptr,
                                0,
                                items[0],
                            );
                            self.tick = TickPhase::Sending {
                                sync_read_ptr,
                                messages,
                                items,
                                next: 0,
                            };
                            Ok(quiet_step(TickRequest::SendEvent { event }))
                        },
                    }
                }
            },
            (TickPhase::Sending { sync_read_ptr, messages, items, next }, TickInput::EventSent(ev)) => {
                match &ctx.client {
                    Option::None => Err(
                        precondition_error("Client must be initialized and authenticated"),
                    ),
                    Option::Some(client) => {
                        let mut notices: Vec<Message> = Vec::new();
                        notices.push(Message::ItemFound { event: ev });
                        let new_next = next + 1;
                        if new_next < messages {
                            let event = build_outbound_event(
                                client.world_id,
                                sync_read_ptr,
                                new_next,
                                items[new_next as usize],
                            );
                            self.tick = TickPhase::Sending {
                                sync_read_ptr,
                                messages,
                                items,
                                next: new_next,
                            };
                            Ok(TickStep { notices, request: TickRequest::SendEvent { event } })
                        } else {
                            let new_ptr = sync_read_ptr + messages;
                            self.tick = TickPhase::WriteSync { sync_read_ptr, messages };
                            Ok(
                                TickStep {
                                    notices,
                                    request: TickRequest::WriteMem {
                                        addr: self.items_base + 0x680,
                                        data: u16_to_le(new_ptr),
                                    },
                                },
                            )
                        }
                    },
                }
            },
            (TickPhase::WriteSync { sync_read_ptr, messages }, TickInput::Written) => {
                self.tick = TickPhase::VerifySync { sync_read_ptr, messages };
                Ok(quiet_step(TickRequest::ReadMem { addr: self.items_base + 0x680, size: 2 }))
            },
            (TickPhase::VerifySync { sync_read_ptr, messages }, TickInput::Bytes(b)) => {
                if b.len() != 2 {
                    Err(protocol_error("Read returned a different size than requested"))
                } else {
                    let got = u16_from_le_at(&b, 0);
                    let new_ptr = sync_read_ptr + messages;
                    proof {
                        assert(b@.subrange(0, 2) =~= b@);
                    }
                    if got == new_ptr {
                        Ok(self.close_tick())
                    } else {
                        self.tick = TickPhase::WriteSync { sync_read_ptr, messages };
                        Ok(
                            quiet_step(
                                TickRequest::WriteMem {
                                    addr: self.items_base + 0x680,
                                    data: u16_to_le(new_ptr),
                                },
                            ),
                        )
                    }
                }
            },
            (TickPhase::Confirm, TickInput::Acked) => {
                let mut ids: Vec<i32> = Vec::new();
                core::mem::swap(&mut self.verified_events, &mut ids);
                let mut notices: Vec<Message> = Vec::new();
                notices.push(Message::ItemsConfirmed { ids });
                Ok(TickStep { notices, request: TickRequest::Done })
            },
            (TickPhase::Confirm, TickInput::Failed(_e)) => Ok(quiet_step(TickRequest::Done)),
            (_, TickInput::Failed(e)) => Err(e),
            (_, _) => Err(precondition_error("Unexpected response for the current tick step")),
        }
    }
}

} // verus!
