//! Laws of the engine's tick traces.
//!
//! A trace is a run of `update` steps against one context.  Proved here:
//! pointer ordering — the write of the two inbound pointer fields is only
//! ever emitted after the tick emitted the payload write and saw a
//! matching read-back; send-before-advance — the write advancing the sync
//! pointer by `m` is only emitted once exactly `m` outbound sends have
//! completed; and write idempotence — replaying the writes of a tick's
//! inbound plan, or any single store, leaves the memory image unchanged,
//! which is what makes a tick safe to discard and re-run.

use vstd::prelude::*;
use vstd::map::*;

use crate::context::ClientContext;
use crate::engine::{
    SMZ3Client, TickPhase, TickInput, TickStep, InboundPlan, update_rel, is_payload_write,
    is_pointer_write, is_sync_write,
};
use crate::errors::ClientError;

verus! {

/// A trace: `states[0]` steps through `inputs` to `states[t + 1]`, each
/// step governed by the engine's step relation and returning `results[t]`.
pub open spec fn is_trace(
    ctx: ClientContext,
    states: Seq<SMZ3Client>,
    inputs: Seq<TickInput>,
    results: Seq<Result<TickStep, ClientError>>,
) -> bool {
    &&& states.len() == inputs.len() + 1
    &&& results.len() == inputs.len()
    &&& forall|t: int| 0 <= t < states.len() ==> #[trigger] states[t].wf()
    &&& forall|t: int|
        0 <= t < inputs.len() ==> update_rel(states[t], ctx, inputs[t], states[t + 1], results[t])
}

/// Step `t` emitted the payload write of `plan`.
pub open spec fn emits_payload_write(r: Result<TickStep, ClientError>, plan: InboundPlan) -> bool {
    r matches Ok(step) && is_payload_write(step.request, plan)
}

/// Step `t` emitted the write of `plan`'s two pointer fields.
pub open spec fn emits_pointer_write(r: Result<TickStep, ClientError>, plan: InboundPlan) -> bool {
    r matches Ok(step) && is_pointer_write(step.request, plan)
}

/// At this step the read-back of `plan`'s payload arrived and matched.
pub open spec fn payload_verified_at(pre: SMZ3Client, input: TickInput, plan: InboundPlan) -> bool {
    &&& (pre.tick matches TickPhase::VerifyPayload { plan: p } && p == plan)
    &&& (input matches TickInput::Bytes(b) && b@ == plan.payload@)
}

/// Some earlier step emitted the payload write of `plan`.
pub open spec fn wrote_payload_before(
    results: Seq<Result<TickStep, ClientError>>,
    plan: InboundPlan,
    t: int,
) -> bool {
    exists|w: int| 0 <= w < t && emits_payload_write(results[w], plan)
}

/// Some earlier step saw `plan`'s payload read back intact.
pub open spec fn verified_payload_before(
    states: Seq<SMZ3Client>,
    inputs: Seq<TickInput>,
    plan: InboundPlan,
    t: int,
) -> bool {
    exists|v: int| 0 <= v < t && payload_verified_at(states[v], inputs[v], plan)
}

/// The phase history invariant on the inbound side: a tick standing at the
/// payload-write phases has emitted the payload write, and one standing at
/// the pointer-write phases has furthermore seen the payload verified.
pub open spec fn inbound_inv(
    states: Seq<SMZ3Client>,
    inputs: Seq<TickInput>,
    results: Seq<Result<TickStep, ClientError>>,
    plan: InboundPlan,
    t: int,
) -> bool {
    &&& ((states[t].tick matches TickPhase::WritePayload { plan: p } && p == plan) || (
    states[t].tick matches TickPhase::VerifyPayload { plan: p } && p == plan))
        ==> wrote_payload_before(results, plan, t)
    &&& ((states[t].tick matches TickPhase::WritePointers { plan: p } && p == plan) || (
    states[t].tick matches TickPhase::VerifyPointers { plan: p } && p == plan)) ==> (
    wrote_payload_before(results, plan, t) && verified_payload_before(states, inputs, plan, t))
}

proof fn lemma_inbound_inv(
    ctx: ClientContext,
    states: Seq<SMZ3Client>,
    inputs: Seq<TickInput>,
    results: Seq<Result<TickStep, ClientError>>,
    plan: InboundPlan,
    t: int,
)
    requires
        is_trace(ctx, states, inputs, results),
        states[0].tick is Idle,
        0 <= t <= inputs.len(),
    ensures
        inbound_inv(states, inputs, results, plan, t),
    decreases t,
{
    if t > 0 {
        lemma_inbound_inv(ctx, states, inputs, results, plan, t - 1);
        assert(update_rel(states[t - 1], ctx, inputs[t - 1], states[t], results[t - 1]));
    }
}

/// Pointer ordering: in any tick trace, a step whose tick holds an
/// inbound plan and that emits the write of the plan's two pointer fields
/// is strictly preceded by a step that emitted that plan's payload write,
/// and the payload was read back intact no later than the step emitting
/// the pointer write.
pub proof fn lemma_pointer_ordering(
    ctx: ClientContext,
    states: Seq<SMZ3Client>,
    inputs: Seq<TickInput>,
    results: Seq<Result<TickStep, ClientError>>,
    plan: InboundPlan,
    j: int,
)
    requires
        is_trace(ctx, states, inputs, results),
        states[0].tick is Idle,
        0 <= j < results.len(),
        (states[j].tick matches TickPhase::VerifyPayload { plan: p } && p == plan) || (
        states[j].tick matches TickPhase::VerifyPointers { plan: p } && p == plan),
        emits_pointer_write(results[j], plan),
    ensures
        exists|w: int| 0 <= w < j && emits_payload_write(results[w], plan),
        exists|v: int| 0 <= v <= j && payload_verified_at(states[v], inputs[v], plan),
{
    lemma_inbound_inv(ctx, states, inputs, results, plan, j);
    assert(update_rel(states[j], ctx, inputs[j], states[j + 1], results[j]));
    match states[j].tick {
        TickPhase::VerifyPayload { plan: p } => {
            // The only arm of the step relation that lets a VerifyPayload
            // step emit the pointer write is the matching read-back.
            match inputs[j] {
                TickInput::Bytes(b) => {
                    if b@ == plan.payload@ {
                        assert(payload_verified_at(states[j], inputs[j], plan));
                    } else {
                        assert(!emits_pointer_write(results[j], plan));
                    }
                },
                _ => {
                    assert(!emits_pointer_write(results[j], plan));
                },
            }
        },
        TickPhase::VerifyPointers { plan: p } => {
            assert(verified_payload_before(states, inputs, plan, j));
        },
        _ => {
        },
    }
}

/// The number of outbound sends completed strictly before step `t`.
pub open spec fn sends_before(
    states: Seq<SMZ3Client>,
    inputs: Seq<TickInput>,
    t: int,
) -> int
    decreases t,
{
    if t <= 0 {
        0
    } else {
        sends_before(states, inputs, t - 1) + if states[t - 1].tick is Sending && inputs[t - 1]
            is EventSent {
            1int
        } else {
            0int
        }
    }
}

/// No step before `t` returned the tick to `Idle`: the steps `0 .. t`
/// belong to one tick.
pub open spec fn single_tick(states: Seq<SMZ3Client>, t: int) -> bool {
    forall|u: int| 0 < u <= t ==> !(states[u].tick is Idle)
}

/// The send-count invariant on the outbound side of one tick.
pub open spec fn sends_inv(states: Seq<SMZ3Client>, inputs: Seq<TickInput>, t: int) -> bool {
    &&& (states[t].tick matches TickPhase::Sending { next, .. } ==> sends_before(states, inputs, t)
        == next)
    &&& (states[t].tick matches TickPhase::WriteSync { messages, .. } ==> sends_before(
        states,
        inputs,
        t,
    ) == messages)
    &&& (states[t].tick matches TickPhase::VerifySync { messages, .. } ==> sends_before(
        states,
        inputs,
        t,
    ) == messages)
    &&& (match states[t].tick {
        TickPhase::Sending { .. } => true,
        TickPhase::WriteSync { .. } => true,
        TickPhase::VerifySync { .. } => true,
        TickPhase::Confirm => true,
        TickPhase::Idle => true,
        _ => sends_before(states, inputs, t) == 0,
    })
}

proof fn lemma_sends_inv(
    ctx: ClientContext,
    states: Seq<SMZ3Client>,
    inputs: Seq<TickInput>,
    results: Seq<Result<TickStep, ClientError>>,
    t: int,
)
    requires
        is_trace(ctx, states, inputs, results),
        states[0].tick is Idle,
        0 <= t <= inputs.len(),
        single_tick(states, t),
    ensures
        sends_inv(states, inputs, t),
    decreases t,
{
    if t > 0 {
        lemma_sends_inv(ctx, states, inputs, results, t - 1);
        assert(states[t - 1].wf());
        assert(update_rel(states[t - 1], ctx, inputs[t - 1], states[t], results[t - 1]));
        assert(sends_before(states, inputs, t) == sends_before(states, inputs, t - 1) + (
        if states[t - 1].tick is Sending && inputs[t - 1] is EventSent {
            1int
        } else {
            0int
        }));
        if t == 1 {
            assert(sends_before(states, inputs, 0) == 0);
        }
    }
}

/// Send-before-advance: in any tick trace, a step that emits the write
/// advancing the sync pointer from `sync` to `sync + messages` has seen
/// exactly `messages` outbound sends complete, counting the step itself.
pub proof fn lemma_send_before_advance(
    ctx: ClientContext,
    states: Seq<SMZ3Client>,
    inputs: Seq<TickInput>,
    results: Seq<Result<TickStep, ClientError>>,
    j: int,
    sync: u16,
    messages: u16,
)
    requires
        is_trace(ctx, states, inputs, results),
        states[0].tick is Idle,
        0 <= j < results.len(),
        single_tick(states, j + 1),
        (states[j].tick matches TickPhase::Sending { sync_read_ptr, messages: m, .. }
            && sync_read_ptr == sync && m == messages) || (states[j].tick
            matches TickPhase::WriteSync { sync_read_ptr, messages: m } && sync_read_ptr == sync
            && m == messages) || (states[j].tick matches TickPhase::VerifySync {
            sync_read_ptr,
            messages: m,
        } && sync_read_ptr == sync && m == messages),
        emits_sync_advance(results[j], states[j].items_base, sync, messages),
    ensures
        sends_before(states, inputs, j + 1) == messages,
{
    lemma_sends_inv(ctx, states, inputs, results, j);
    lemma_sends_inv(ctx, states, inputs, results, j + 1);
    assert(update_rel(states[j], ctx, inputs[j], states[j + 1], results[j]));
}

/// Step `j` emitted the write that advances the sync pointer to
/// `sync + messages`.
pub open spec fn emits_sync_advance(
    r: Result<TickStep, ClientError>,
    base: u32,
    sync: u16,
    messages: u16,
) -> bool {
    r matches Ok(step) && is_sync_write(step.request, base, (sync + messages) as u16)
}

/// A byte-addressed memory image with `data` stored at `addr`.
pub open spec fn store_bytes(m: Map<int, u8>, addr: int, data: Seq<u8>) -> Map<int, u8>
    decreases data.len(),
{
    if data.len() == 0 {
        m
    } else {
        store_bytes(m.insert(addr, data[0]), addr + 1, data.drop_first())
    }
}

/// What a store leaves at each address: the stored byte inside the written
/// region, the old contents outside it.
pub proof fn lemma_store_bytes_spec(m: Map<int, u8>, addr: int, data: Seq<u8>, x: int)
    ensures
        store_bytes(m, addr, data).contains_key(x) <==> (m.contains_key(x) || (addr <= x < addr
            + data.len())),
        addr <= x < addr + data.len() ==> store_bytes(m, addr, data)[x] == data[x - addr],
        !(addr <= x < addr + data.len()) && m.contains_key(x) ==> store_bytes(m, addr, data)[x]
            == m[x],
    decreases data.len(),
{
    if data.len() > 0 {
        lemma_store_bytes_spec(m.insert(addr, data[0]), addr + 1, data.drop_first(), x);
    }
}

/// Storing the same bytes twice at the same place equals storing them
/// once.
pub proof fn lemma_store_idempotent(m: Map<int, u8>, addr: int, data: Seq<u8>)
    ensures
        store_bytes(store_bytes(m, addr, data), addr, data) == store_bytes(m, addr, data),
{
    let once = store_bytes(m, addr, data);
    let twice = store_bytes(once, addr, data);
    assert_maps_equal!(twice, once, x => {
        lemma_store_bytes_spec(m, addr, data, x);
        lemma_store_bytes_spec(once, addr, data, x);
    });
}

/// The memory image after the three writes of an inbound plan: the payload
/// at the write pointer, then the advanced pointer, then the newest event
/// id.
pub open spec fn apply_inbound_plan(m: Map<int, u8>, plan: InboundPlan) -> Map<int, u8> {
    store_bytes(
        store_bytes(store_bytes(m, plan.payload_addr as int, plan.payload@), plan.ptr_addr as int, plan.ptr_bytes@),
        plan.id_addr as int,
        plan.id_bytes@,
    )
}

/// Idempotence under replay: discarding a tick after any of its inbound
/// writes and replaying the whole plan leaves the same memory image as
/// applying the plan once — each address holds the value of its last
/// writer, which replay does not change.
pub proof fn lemma_inbound_plan_idempotent(m: Map<int, u8>, plan: InboundPlan)
    ensures
        apply_inbound_plan(apply_inbound_plan(m, plan), plan) == apply_inbound_plan(m, plan),
{
    let once = apply_inbound_plan(m, plan);
    let twice = apply_inbound_plan(once, plan);
    assert_maps_equal!(twice, once, x => {
        lemma_plan_spec(m, plan, x);
        lemma_plan_spec(once, plan, x);
    });
}

/// What the plan's application leaves at each address, by the last of the
/// three writes covering it.
proof fn lemma_plan_spec(m: Map<int, u8>, plan: InboundPlan, x: int)
    ensures
        ({
            let r = apply_inbound_plan(m, plan);
            let in_id = plan.id_addr <= x < plan.id_addr + plan.id_bytes@.len();
            let in_ptr = plan.ptr_addr <= x < plan.ptr_addr + plan.ptr_bytes@.len();
            let in_payload = plan.payload_addr <= x < plan.payload_addr + plan.payload@.len();
            &&& (r.contains_key(x) <==> (m.contains_key(x) || in_id || in_ptr || in_payload))
            &&& (in_id ==> r[x] == plan.id_bytes@[x - plan.id_addr])
            &&& (!in_id && in_ptr ==> r[x] == plan.ptr_bytes@[x - plan.ptr_addr])
            &&& (!in_id && !in_ptr && in_payload ==> r[x] == plan.payload@[x - plan.payload_addr])
            &&& (!in_id && !in_ptr && !in_payload && m.contains_key(x) ==> r[x] == m[x])
        }),
{
    let s1 = store_bytes(m, plan.payload_addr as int, plan.payload@);
    let s2 = store_bytes(s1, plan.ptr_addr as int, plan.ptr_bytes@);
    lemma_store_bytes_spec(m, plan.payload_addr as int, plan.payload@, x);
    lemma_store_bytes_spec(s1, plan.ptr_addr as int, plan.ptr_bytes@, x);
    lemma_store_bytes_spec(s2, plan.id_addr as int, plan.id_bytes@, x);
}

} // verus!
