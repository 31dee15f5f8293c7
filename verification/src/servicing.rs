//! What callbacks get to see over a run of operations on a queue.

use crate::callbacks::{
    can_dispatch, has_dispatched, queue_entry, CallbackState, Fired, PktCallbackHandle,
};
use crate::coordinator::Attempt;
use crate::gc::receives;
use crate::incoming::{
    law_every_call_gives_the_next_message, law_message_is_received, law_size_is_length, left,
    no_error, props_of, requests_of, served, Message, Receive,
};
use crate::message::{EGCResults, GCMessageQueueEntry, GCResult, RecvMessageProperties};
use vstd::prelude::*;

verus! {

/// Only one callback for a message type exists: one that is installed takes the place of the
/// one before it.
pub proof fn law_later_callback_replaces<C>(
    state: CallbackState<C>,
    msg_type: u32,
    first: C,
    second: C,
)
    ensures
        state.installed(msg_type, first).installed(msg_type, second) == state.installed(
            msg_type,
            second,
        ),
{
    assert(state.installed(msg_type, first).installed(msg_type, second).table
        =~= state.installed(msg_type, second).table);
}

/// A callback that is installed with a handle is gone once the handle is dropped: the table is
/// as it was before, without a callback for that type. A type that had none before leaves no
/// trace.
pub proof fn law_handle_scopes_callback<C>(
    state: CallbackState<C>,
    handle: PktCallbackHandle,
    callback_fn: C,
)
    ensures
        state.installed(handle.handles(), callback_fn).removed(handle.handles()) == state.removed(
            handle.handles(),
        ),
        !state.table.contains_key(handle.handles()) ==> state.installed(
            handle.handles(),
            callback_fn,
        ).removed(handle.handles()) == state,
{
    let t = handle.handles();
    assert(state.installed(t, callback_fn).removed(t).table =~= state.table.remove(t));
    if !state.table.contains_key(t) {
        assert(state.table.remove(t) =~= state.table);
    }
}

/// Dropping a handle does not spare a callback that was installed for its type after its own.
pub proof fn law_handle_removes_later_callback<C>(
    state: CallbackState<C>,
    handle: PktCallbackHandle,
    own: C,
    later: C,
)
    ensures
        state.installed(handle.handles(), own).installed(handle.handles(), later).removed(
            handle.handles(),
        ) == state.removed(handle.handles()),
{
    let t = handle.handles();
    assert(state.installed(t, own).installed(t, later).removed(t).table =~= state.table.remove(t));
}

/// Removing a callback is reported as a removal exactly once: there is one after it was
/// installed, and none after it was removed.
pub proof fn law_removal_is_reported_once<C>(
    state: CallbackState<C>,
    msg_type: u32,
    callback_fn: C,
)
    ensures
        state.installed(msg_type, callback_fn).table.contains_key(msg_type),
        !state.removed(msg_type).table.contains_key(msg_type),
{
}

/// An operation on a queue.
pub enum Operation<C> {
    /// A callback is installed, for good or with a handle.
    Install { msg_type: u32, callback_fn: C },
    /// A callback is removed, or its handle is dropped.
    Remove { msg_type: u32 },
    /// A message was announced; the receive returned `r` and left the message in `buffer`.
    Event { r: GCResult<RecvMessageProperties>, buffer: Vec<u8> },
    /// A message is sent.
    Send,
}

impl<C> Operation<C> {
    /// What the operation makes of the callbacks.
    pub open spec fn apply(self, state: CallbackState<C>) -> CallbackState<C> {
        match self {
            Operation::Install { msg_type, callback_fn } => state.installed(msg_type, callback_fn),
            Operation::Remove { msg_type } => state.removed(msg_type),
            Operation::Event { r, buffer } => state.serviced(r, buffer),
            Operation::Send => state,
        }
    }

    /// The operation neither installs nor removes a callback for the message type.
    pub open spec fn spares(self, t: u32) -> bool {
        match self {
            Operation::Install { msg_type, .. } => msg_type != t,
            Operation::Remove { msg_type } => msg_type != t,
            _ => true,
        }
    }

    /// The messages of a type that the operation receives: one or none.
    pub open spec fn messages(self, t: u32) -> Seq<GCMessageQueueEntry> {
        match self {
            Operation::Event { r: Ok(props), buffer } => if props.msg_type == t {
                seq![queue_entry(props, buffer)]
            } else {
                Seq::empty()
            },
            _ => Seq::empty(),
        }
    }
}

/// What a run of operations makes of the callbacks.
pub open spec fn run<C>(state: CallbackState<C>, operations: Seq<Operation<C>>) -> CallbackState<C>
    decreases operations.len(),
{
    if operations.len() == 0 {
        state
    } else {
        operations.last().apply(run(state, operations.drop_last()))
    }
}

/// The operations neither install nor remove a callback for the message type.
pub open spec fn all_spare<C>(operations: Seq<Operation<C>>, t: u32) -> bool {
    forall|i: int| 0 <= i < operations.len() ==> (#[trigger] operations[i]).spares(t)
}

/// The messages of a type that a run of operations receives, in order.
pub open spec fn messages_of<C>(operations: Seq<Operation<C>>, t: u32) -> Seq<GCMessageQueueEntry>
    decreases operations.len(),
{
    if operations.len() == 0 {
        Seq::empty()
    } else {
        messages_of(operations.drop_last(), t) + operations.last().messages(t)
    }
}

/// The calls that were made for messages of a type, in order.
pub open spec fn calls_for<C>(fired: Seq<Fired<C>>, t: u32) -> Seq<Fired<C>>
    decreases fired.len(),
{
    if fired.len() == 0 {
        Seq::empty()
    } else {
        let earlier = calls_for(fired.drop_last(), t);
        if fired.last().entry.props.msg_type == t {
            earlier.push(fired.last())
        } else {
            earlier
        }
    }
}

/// Calls of `callback`, one for each of the messages.
pub open spec fn calls_of<C>(callback: C, messages: Seq<GCMessageQueueEntry>) -> Seq<Fired<C>> {
    Seq::new(messages.len(), |i: int| Fired { callback, entry: messages[i] })
}

/// A callback is permanent: whatever else is done with the queue, as long as no callback is
/// installed or removed for its type, the type keeps it; a type without one stays without.
pub proof fn law_callback_is_permanent<C>(
    state: CallbackState<C>,
    operations: Seq<Operation<C>>,
    t: u32,
)
    requires
        all_spare(operations, t),
    ensures
        run(state, operations).table.get(t) == state.table.get(t),
    decreases operations.len(),
{
    if operations.len() > 0 {
        let earlier = operations.drop_last();
        assert forall|i: int| 0 <= i < earlier.len() implies (#[trigger] earlier[i]).spares(t) by {
            assert(earlier[i] == operations[i]);
        }
        law_callback_is_permanent(state, earlier, t);
        assert(operations[operations.len() - 1].spares(t));
    }
}

/// The callback of a type is called for every message of that type, once, in the order in
/// which they are received, and for nothing else, for as long as no callback is installed or
/// removed for the type; and it is still there afterwards.
pub proof fn law_callback_gets_every_message<C>(
    state: CallbackState<C>,
    operations: Seq<Operation<C>>,
    t: u32,
)
    requires
        all_spare(operations, t),
        state.table.contains_key(t),
    ensures
        calls_for(run(state, operations).fired, t) == calls_for(state.fired, t) + calls_of(
            state.table[t],
            messages_of(operations, t),
        ),
        run(state, operations).table.contains_key(t),
        run(state, operations).table[t] == state.table[t],
    decreases operations.len(),
{
    law_callback_is_permanent(state, operations, t);
    if operations.len() == 0 {
        assert(calls_for(state.fired, t) + calls_of(state.table[t], messages_of(operations, t))
            =~= calls_for(state.fired, t));
    } else {
        let earlier = operations.drop_last();
        let last = operations.last();
        assert forall|i: int| 0 <= i < earlier.len() implies (#[trigger] earlier[i]).spares(t) by {
            assert(earlier[i] == operations[i]);
        }
        law_callback_gets_every_message(state, earlier, t);
        lemma_calls_of_one(run(state, earlier), last, t);
        let callback = state.table[t];
        assert(calls_of(callback, messages_of(operations, t)) =~= calls_of(
            callback,
            messages_of(earlier, t),
        ) + calls_of(callback, last.messages(t)));
        assert(calls_for(run(state, operations).fired, t) =~= calls_for(state.fired, t) + calls_of(
            callback,
            messages_of(operations, t),
        ));
    }
}

proof fn lemma_calls_of_one<C>(state: CallbackState<C>, operation: Operation<C>, t: u32)
    ensures
        state.table.contains_key(t) ==> calls_for(operation.apply(state).fired, t) == calls_for(
            state.fired,
            t,
        ) + calls_of(state.table[t], operation.messages(t)),
        !state.table.contains_key(t) ==> calls_for(operation.apply(state).fired, t) == calls_for(
            state.fired,
            t,
        ),
{
    let before = calls_for(state.fired, t);
    assert(before + calls_of(state.table[t], Seq::<GCMessageQueueEntry>::empty()) =~= before);
    if let Operation::Event { r: Ok(props), buffer } = operation {
        if state.table.contains_key(props.msg_type) {
            let fired = Fired {
                callback: state.table[props.msg_type],
                entry: queue_entry(props, buffer),
            };
            assert(state.fired.push(fired).drop_last() =~= state.fired);
            if props.msg_type == t {
                assert(before.push(fired) =~= before + calls_of(
                    state.table[t],
                    operation.messages(t),
                ));
            }
        }
    }
}

/// A type that has no callback gets no call, whatever is received, until one is installed.
pub proof fn law_no_callback_no_call<C>(
    state: CallbackState<C>,
    operations: Seq<Operation<C>>,
    t: u32,
)
    requires
        all_spare(operations, t),
        !state.table.contains_key(t),
    ensures
        calls_for(run(state, operations).fired, t) == calls_for(state.fired, t),
    decreases operations.len(),
{
    if operations.len() > 0 {
        let earlier = operations.drop_last();
        assert forall|i: int| 0 <= i < earlier.len() implies (#[trigger] earlier[i]).spares(t) by {
            assert(earlier[i] == operations[i]);
        }
        law_no_callback_no_call(state, earlier, t);
        law_callback_is_permanent(state, earlier, t);
        lemma_calls_of_one(run(state, earlier), operations.last(), t);
    }
}

/// After a callback was installed, whether or not the type had another before, every message of
/// the type that is received calls the new one, once and in order, and never the other;
/// messages of another type reach the callback that it had, or none if it had none.
pub proof fn law_installed_callback_takes_over<C>(
    state: CallbackState<C>,
    t: u32,
    callback_fn: C,
    operations: Seq<Operation<C>>,
    u: u32,
)
    requires
        all_spare(operations, t),
        u != t,
    ensures
        ({
            let after = run(state.installed(t, callback_fn), operations);
            &&& calls_for(after.fired, t) == calls_for(state.fired, t) + calls_of(
                callback_fn,
                messages_of(operations, t),
            )
            &&& after.table.contains_key(t)
            &&& after.table[t] == callback_fn
            &&& all_spare(operations, u) ==> after.table.get(u) == state.table.get(u)
            &&& all_spare(operations, u) ==> calls_for(after.fired, u)
                == if state.table.contains_key(u) {
                calls_for(state.fired, u) + calls_of(state.table[u], messages_of(operations, u))
            } else {
                calls_for(state.fired, u)
            }
        }),
{
    let installed = state.installed(t, callback_fn);
    law_callback_gets_every_message(installed, operations, t);
    if all_spare(operations, u) {
        law_callback_is_permanent(installed, operations, u);
        if state.table.contains_key(u) {
            law_callback_gets_every_message(installed, operations, u);
        } else {
            law_no_callback_no_call(installed, operations, u);
        }
    }
}

/// Every call that an event makes is of the callback of the message's own type, with no error,
/// and, if the coordinator hands out no more than it was offered and gives the buffer back
/// whole, with as many bytes as the message is said to have.
pub proof fn law_entry_is_sound<C>(
    state: CallbackState<C>,
    message_size: u32,
    attempts: Seq<Attempt>,
    r: GCResult<RecvMessageProperties>,
    buffer: Vec<u8>,
)
    requires
        receives(Seq::<u8>::empty(), message_size as nat, attempts, buffer@, r),
        attempts.last().reply.msg_size <= attempts.last().cub_dest,
        attempts.last().reply.buffer@.len() == attempts.last().buffer@.len(),
    ensures
        state.fired.len() <= state.serviced(r, buffer).fired.len() <= state.fired.len() + 1,
        state.serviced(r, buffer).fired.take(state.fired.len() as int) == state.fired,
        state.serviced(r, buffer).fired.len() > state.fired.len() ==> {
            let call = state.serviced(r, buffer).fired.last();
            &&& state.table.contains_key(call.entry.props.msg_type)
            &&& call.callback == state.table[call.entry.props.msg_type]
            &&& call.entry.buffer@.len() == call.entry.props.msg_size
            &&& !call.entry.error
        },
{
    assert(state.serviced(r, buffer).fired.take(state.fired.len() as int) =~= state.fired);
    if r is Ok {
        law_size_is_length(Seq::<u8>::empty(), message_size as nat, attempts, buffer@, r);
    }
}

/// The call that the message makes when it is received into `buffer`.
pub open spec fn call_for<C>(table: Map<u32, C>, message: Message, buffer: Vec<u8>) -> Fired<C> {
    Fired { callback: table[message.msg_type], entry: queue_entry(props_of(message), buffer) }
}

/// The message at the head of the coordinator's queue that an event receives reaches the
/// callback for its type, with its type, its size and its bytes, and is gone from the queue;
/// nothing else is called. Without a callback for its type, nothing is called.
pub proof fn law_message_reaches_callback<C>(
    queue: Seq<Message>,
    state: CallbackState<C>,
    message_size: u32,
    attempts: Seq<Attempt>,
    r: GCResult<RecvMessageProperties>,
    buffer: Vec<u8>,
)
    requires
        receives(Seq::<u8>::empty(), message_size as nat, attempts, buffer@, r),
        served(queue, attempts),
        no_error(attempts),
    ensures
        queue.len() > 0,
        buffer@ == queue[0].bytes,
        left(queue, attempts) == queue.skip(1),
        state.table.contains_key(queue[0].msg_type) ==> state.serviced(r, buffer) == (
        CallbackState {
            table: state.table,
            fired: state.fired.push(call_for(state.table, queue[0], buffer)),
        }),
        !state.table.contains_key(queue[0].msg_type) ==> state.serviced(r, buffer) == state,
        state.table.contains_key(queue[0].msg_type) ==> {
            let call = state.serviced(r, buffer).fired.last();
            &&& call.callback == state.table[queue[0].msg_type]
            &&& call.entry.props.msg_type == queue[0].msg_type
            &&& call.entry.props.msg_size == queue[0].bytes.len()
            &&& call.entry.buffer@ == queue[0].bytes
            &&& !call.entry.error
        },
{
    law_message_is_received(
        queue,
        Seq::<u8>::empty(),
        message_size as nat,
        attempts,
        buffer@,
        r,
    );
}

/// The events that successive receives make, with the vectors that they filled.
pub open spec fn events_of<C>(calls: Seq<Receive>, buffers: Seq<Vec<u8>>) -> Seq<Operation<C>> {
    Seq::new(
        calls.len(),
        |i: int| Operation::Event { r: calls[i].r, buffer: buffers[i] },
    )
}

/// A run of events that each receive a message calls, for message after message of the
/// coordinator's queue, the callback of its type with its type, its size and its bytes: none is
/// left out, none comes twice, and the callbacks stay.
pub proof fn law_events_deliver_in_order<C>(
    queue: Seq<Message>,
    state: CallbackState<C>,
    calls: Seq<Receive>,
    buffers: Seq<Vec<u8>>,
)
    requires
        buffers.len() == calls.len(),
        forall|i: int|
            0 <= i < calls.len() ==> {
                &&& (#[trigger] calls[i]).valid()
                &&& calls[i].r is Ok
                &&& calls[i].after == buffers[i]@
            },
        served(queue, requests_of(calls)),
        forall|i: int|
            0 <= i < calls.len() ==> state.table.contains_key((#[trigger] queue[i]).msg_type),
    ensures
        calls.len() <= queue.len(),
        left(queue, requests_of(calls)) == queue.skip(calls.len() as int),
        forall|i: int| 0 <= i < calls.len() ==> (#[trigger] buffers[i])@ == queue[i].bytes,
        run(state, events_of(calls, buffers)) == (CallbackState {
            table: state.table,
            fired: state.fired + Seq::new(
                calls.len(),
                |i: int| call_for(state.table, queue[i], buffers[i]),
            ),
        }),
        ({
            let fired = run(state, events_of(calls, buffers)).fired;
            &&& fired.len() == state.fired.len() + calls.len()
            &&& forall|i: int|
                0 <= i < calls.len() ==> {
                    let call = fired[state.fired.len() + i];
                    &&& call.callback == state.table[(#[trigger] queue[i]).msg_type]
                    &&& call.entry.props.msg_type == queue[i].msg_type
                    &&& call.entry.props.msg_size == queue[i].bytes.len()
                    &&& call.entry.buffer@ == queue[i].bytes
                    &&& !call.entry.error
                }
        }),
{
    law_every_call_gives_the_next_message(queue, calls);
    assert forall|i: int| 0 <= i < calls.len() implies (#[trigger] buffers[i])@
        == queue[i].bytes by {
        assert(calls[i].after == queue[i].bytes);
    }
    assert forall|i: int| 0 <= i < calls.len() implies events_of::<C>(calls, buffers)[i]
        == (Operation::<C>::Event {
        r: Ok::<RecvMessageProperties, EGCResults>(props_of(#[trigger] queue[i])),
        buffer: buffers[i],
    }) by {
        assert(calls[i].r == Ok::<RecvMessageProperties, EGCResults>(props_of(queue[i])));
    }
    lemma_events_fire(queue, state, events_of(calls, buffers), buffers);
    assert forall|i: int| 0 <= i < calls.len() implies {
        let call = run(state, events_of(calls, buffers)).fired[state.fired.len() + i];
        &&& call.callback == state.table[(#[trigger] queue[i]).msg_type]
        &&& call.entry.props.msg_type == queue[i].msg_type
        &&& call.entry.props.msg_size == queue[i].bytes.len()
        &&& call.entry.buffer@ == queue[i].bytes
        &&& !call.entry.error
    } by {
        assert(calls[i].r->Ok_0.msg_size == queue[i].bytes.len());
        assert(buffers[i]@ == queue[i].bytes);
    }
}

proof fn lemma_events_fire<C>(
    queue: Seq<Message>,
    state: CallbackState<C>,
    events: Seq<Operation<C>>,
    buffers: Seq<Vec<u8>>,
)
    requires
        events.len() <= queue.len(),
        forall|i: int|
            0 <= i < events.len() ==> {
                &&& state.table.contains_key((#[trigger] queue[i]).msg_type)
                &&& events[i] == (Operation::<C>::Event {
                    r: Ok::<RecvMessageProperties, EGCResults>(props_of(queue[i])),
                    buffer: buffers[i],
                })
            },
    ensures
        run(state, events) == (CallbackState {
            table: state.table,
            fired: state.fired + Seq::new(
                events.len(),
                |i: int| call_for(state.table, queue[i], buffers[i]),
            ),
        }),
    decreases events.len(),
{
    let calls = Seq::new(events.len(), |i: int| call_for(state.table, queue[i], buffers[i]));
    if events.len() == 0 {
        assert(state.fired + calls =~= state.fired);
    } else {
        let earlier = events.drop_last();
        let last = events.len() - 1;
        lemma_events_fire(queue, state, earlier, buffers);
        let _ = queue[last];
        assert(run(state, events).fired =~= state.fired + calls);
    }
}

/// Installing a callback gives it to its type, and changes nothing for any other type and
/// nothing about the calls made.
pub proof fn law_install_sets_one_type<C>(
    state: CallbackState<C>,
    msg_type: u32,
    callback_fn: C,
    other: u32,
)
    ensures
        state.installed(msg_type, callback_fn).table.contains_key(msg_type),
        state.installed(msg_type, callback_fn).table[msg_type] == callback_fn,
        other != msg_type ==> state.installed(msg_type, callback_fn).table.get(other)
            == state.table.get(other),
        state.installed(msg_type, callback_fn).fired == state.fired,
{
}

/// Removing a callback takes it from its type, and changes nothing for any other type and
/// nothing about the calls made.
pub proof fn law_remove_clears_one_type<C>(state: CallbackState<C>, msg_type: u32, other: u32)
    ensures
        !state.removed(msg_type).table.contains_key(msg_type),
        other != msg_type ==> state.removed(msg_type).table.get(other) == state.table.get(other),
        state.removed(msg_type).fired == state.fired,
{
}

/// A message whose type has a callback adds one call to the record, after all earlier ones: of
/// that callback, with the message's properties and bytes, and no error. A message whose type has
/// none adds no call. Neither changes which callbacks there are.
pub proof fn law_dispatch_makes_one_call<C>(
    state: CallbackState<C>,
    props: RecvMessageProperties,
    buffer: Vec<u8>,
)
    ensures
        ({
            let after = state.dispatched(props, buffer);
            &&& after.table == state.table
            &&& state.table.contains_key(props.msg_type) ==> {
                &&& after.fired.len() == state.fired.len() + 1
                &&& after.fired.take(state.fired.len() as int) == state.fired
                &&& after.fired.last().callback == state.table[props.msg_type]
                &&& after.fired.last().entry.props == props
                &&& after.fired.last().entry.buffer == buffer
                &&& !after.fired.last().entry.error
            }
            &&& !state.table.contains_key(props.msg_type) ==> after.fired == state.fired
        }),
{
    let after = state.dispatched(props, buffer);
    assert(after.fired.take(state.fired.len() as int) =~= state.fired);
}

/// An event dispatches the message that was received; without one it changes nothing.
pub proof fn law_event_dispatches_what_was_received<C>(
    state: CallbackState<C>,
    r: GCResult<RecvMessageProperties>,
    buffer: Vec<u8>,
)
    ensures
        r matches Ok(props) ==> state.serviced(r, buffer) == state.dispatched(props, buffer),
        r is Err ==> state.serviced(r, buffer).table == state.table && state.serviced(
            r,
            buffer,
        ).fired == state.fired,
{
}

/// The record of calls is true: if every callback in it returned from the call with what the
/// record says it was handed, that is so after a dispatch as well, however large the message.
pub proof fn law_fired_calls_were_made<C: FnMut(GCMessageQueueEntry)>(
    state: CallbackState<C>,
    props: RecvMessageProperties,
    buffer: Vec<u8>,
)
    requires
        has_dispatched(state.table, props, buffer),
        forall|k: int|
            0 <= k < state.fired.len() ==> call_ensures(
                (#[trigger] state.fired[k]).callback,
                (state.fired[k].entry,),
                (),
            ),
    ensures
        forall|k: int|
            0 <= k < state.dispatched(props, buffer).fired.len() ==> call_ensures(
                (#[trigger] state.dispatched(props, buffer).fired[k]).callback,
                (state.dispatched(props, buffer).fired[k].entry,),
                (),
            ),
        state.table.contains_key(props.msg_type) ==> call_ensures(
            state.table[props.msg_type],
            (GCMessageQueueEntry { props, buffer, error: false },),
            (),
        ),
{
    let after = state.dispatched(props, buffer);
    assert forall|k: int| 0 <= k < after.fired.len() implies call_ensures(
        (#[trigger] after.fired[k]).callback,
        (after.fired[k].entry,),
        (),
    ) by {
        if k < state.fired.len() {
            assert(after.fired[k] == state.fired[k]);
        }
    }
}

/// Dispatching asks of the callback exactly that it takes this one message; of a type without a
/// callback it asks nothing.
pub proof fn law_dispatch_asks_for_one_call<C: FnMut(GCMessageQueueEntry)>(
    table: Map<u32, C>,
    props: RecvMessageProperties,
    buffer: Vec<u8>,
)
    ensures
        !table.contains_key(props.msg_type) ==> can_dispatch(table, props, buffer),
        call_requires(
            table[props.msg_type],
            (GCMessageQueueEntry { props, buffer, error: false },),
        ) ==> can_dispatch(table, props, buffer),
{
}

} // verus!
