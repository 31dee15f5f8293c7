//! The callbacks that service message types.

use crate::counted::Counted;
use crate::message::{GCMessageQueueEntry, GCResult, RecvMessageProperties};
use std::collections::hash_map::Entry;
use std::collections::HashMap;
use vstd::prelude::*;

verus! {

/// One call of a callback.
pub struct Fired<C> {
    /// The callback.
    pub callback: C,
    /// What it was called with.
    pub entry: GCMessageQueueEntry,
}

/// What there is to say of a table of callbacks. A callback counts as the same after it was
/// called, whatever it keeps to itself.
#[verifier::ext_equal]
pub struct CallbackState<C> {
    /// The callback of each message type that has one.
    pub table: Map<u32, C>,
    /// The calls made so far, in order.
    pub fired: Seq<Fired<C>>,
}

/// What a callback for the message is handed.
pub open spec fn queue_entry(props: RecvMessageProperties, buffer: Vec<u8>) -> GCMessageQueueEntry {
    GCMessageQueueEntry { props, buffer, error: false }
}

impl<C> CallbackState<C> {
    /// After a callback was installed for a message type.
    pub open spec fn installed(self, msg_type: u32, callback_fn: C) -> Self {
        CallbackState { table: self.table.insert(msg_type, callback_fn), fired: self.fired }
    }

    /// After the callback for a message type was removed.
    pub open spec fn removed(self, msg_type: u32) -> Self {
        CallbackState { table: self.table.remove(msg_type), fired: self.fired }
    }

    /// After a message was handed to the callback for its type, if there is one: that callback
    /// was called once with the message, and no other.
    pub open spec fn dispatched(self, props: RecvMessageProperties, buffer: Vec<u8>) -> Self {
        if self.table.contains_key(props.msg_type) {
            CallbackState {
                table: self.table,
                fired: self.fired.push(
                    Fired {
                        callback: self.table[props.msg_type],
                        entry: queue_entry(props, buffer),
                    },
                ),
            }
        } else {
            self
        }
    }

    /// After a receive that returned `r` and left the message in `buffer`: a message was
    /// dispatched, or, if none was received, nothing happened.
    pub open spec fn serviced(self, r: GCResult<RecvMessageProperties>, buffer: Vec<u8>) -> Self {
        match r {
            Ok(props) => self.dispatched(props, buffer),
            Err(_) => self,
        }
    }
}

/// The callback for a message, if there is one, can be called with it.
pub open spec fn can_dispatch<C: FnMut(GCMessageQueueEntry)>(
    table: Map<u32, C>,
    props: RecvMessageProperties,
    buffer: Vec<u8>,
) -> bool {
    table.contains_key(props.msg_type) ==> call_requires(
        table[props.msg_type],
        (queue_entry(props, buffer),),
    )
}

/// The callback for a message, if there is one, returned from being called with it.
pub open spec fn has_dispatched<C: FnMut(GCMessageQueueEntry)>(
    table: Map<u32, C>,
    props: RecvMessageProperties,
    buffer: Vec<u8>,
) -> bool {
    table.contains_key(props.msg_type) ==> call_ensures(
        table[props.msg_type],
        (queue_entry(props, buffer),),
        (),
    )
}

/// How often each callback was called, after a message of this type was handed to the callback
/// for its type, if there is one.
pub open spec fn called_once_more(calls: Map<u32, nat>, msg_type: u32) -> Map<u32, nat> {
    if calls.contains_key(msg_type) {
        calls.insert(msg_type, calls[msg_type] + 1)
    } else {
        calls
    }
}

/// The callbacks of a queue: at most one for each message type.
pub struct PacketCallbacks<C> {
    callbacks: HashMap<u32, Counted<C>>,
    fired: Ghost<Seq<Fired<C>>>,
}

impl<C> View for PacketCallbacks<C> {
    type V = CallbackState<C>;

    closed spec fn view(&self) -> CallbackState<C> {
        CallbackState {
            table: self.callbacks@.map_values(|callback: Counted<C>| callback.function()),
            fired: self.fired@,
        }
    }
}

/// Handle representing a callback that is there only until the handle is dropped
pub struct PktCallbackHandle {
    msg_type: u32,
}

impl PktCallbackHandle {
    /// The message type whose callback goes when the handle is dropped.
    pub closed spec fn handles(&self) -> u32 {
        self.msg_type
    }

    /// Drops the handle: whatever callback is registered for its message type is removed from
    /// the table. If the table can no longer be reached (`None`), nothing happens.
    pub fn drop<C>(&mut self, packet_callbacks: Option<&mut PacketCallbacks<C>>)
        ensures
            *final(self) == *old(self),
            packet_callbacks matches Some(table) ==> final(table)@ == table@.removed(
                old(self).handles(),
            ),
            packet_callbacks matches Some(table) ==> final(table).calls() == table.calls().remove(
                old(self).handles(),
            ),
    {
        match packet_callbacks {
            Some(table) => {
                let _ = table.remove_callback(self.msg_type);
            },
            None => {},
        }
    }
}

impl<C> PacketCallbacks<C> {
    /// How often the callback of each message type was called since it was installed.
    pub closed spec fn calls(&self) -> Map<u32, nat> {
        self.callbacks@.map_values(|callback: Counted<C>| callback.uses())
    }

    /// A table without callbacks.
    pub fn new() -> (table: Self)
        ensures
            table@ == (CallbackState { table: Map::<u32, C>::empty(), fired: Seq::empty() }),
            table.calls() == Map::<u32, nat>::empty(),
    {
        let table = PacketCallbacks { callbacks: HashMap::new(), fired: Ghost(Seq::empty()) };
        assert(table@.table =~= Map::<u32, C>::empty());
        table
    }

    /// The number of callbacks.
    pub fn len(&self) -> (n: usize)
        ensures
            n == self@.table.dom().len(),
    {
        assert(self@.table.dom() =~= self.callbacks@.dom());
        self.callbacks.len()
    }

    /// Registers a callback for a message type, in place of the one that is there, if any.
    pub fn install_global_callback(&mut self, msg_type: u32, callback_fn: C)
        ensures
            final(self)@ == old(self)@.installed(msg_type, callback_fn),
            final(self).calls() == old(self).calls().insert(msg_type, 0),
    {
        let _ = self.callbacks.insert(msg_type, Counted::new(callback_fn));
        assert(self@.table =~= old(self)@.table.insert(msg_type, callback_fn));
    }

    /// Registers a callback for a message type, in place of the one that is there, if any.
    /// Dropping the handle removes it.
    #[must_use]
    pub fn install_callback(&mut self, msg_type: u32, callback_fn: C) -> (handle: PktCallbackHandle)
        ensures
            final(self)@ == old(self)@.installed(msg_type, callback_fn),
            final(self).calls() == old(self).calls().insert(msg_type, 0),
            handle.handles() == msg_type,
    {
        let _ = self.callbacks.insert(msg_type, Counted::new(callback_fn));
        assert(self@.table =~= old(self)@.table.insert(msg_type, callback_fn));
        PktCallbackHandle { msg_type }
    }

    /// Removes the callback for a message type. Returns whether there was one.
    pub fn remove_callback(&mut self, msg_type: u32) -> (removed: bool)
        ensures
            removed == old(self)@.table.contains_key(msg_type),
            final(self)@ == old(self)@.removed(msg_type),
            final(self).calls() == old(self).calls().remove(msg_type),
    {
        let removed = self.callbacks.remove(&msg_type).is_some();
        assert(self@.table =~= old(self)@.table.remove(msg_type));
        removed
    }
}

impl<C: FnMut(GCMessageQueueEntry)> PacketCallbacks<C> {
    /// Hands a received message to the callback for its type. A message for whose type there is
    /// no callback is dropped, as is any message if the table can no longer be reached (`None`).
    pub fn dispatch(
        packet_callbacks: Option<&mut PacketCallbacks<C>>,
        props: RecvMessageProperties,
        buffer: Vec<u8>,
    )
        requires
            packet_callbacks matches Some(table) ==> can_dispatch(table@.table, props, buffer),
        ensures
            packet_callbacks matches Some(table) ==> {
                &&& final(table)@ == table@.dispatched(props, buffer)
                &&& final(table).calls() == called_once_more(table.calls(), props.msg_type)
                &&& has_dispatched(table@.table, props, buffer)
                &&& forall|k: int|
                    table@.fired.len() <= k < final(table)@.fired.len() ==> call_ensures(
                        (#[trigger] final(table)@.fired[k]).callback,
                        (final(table)@.fired[k].entry,),
                        (),
                    )
            },
    {
        if let Some(table) = packet_callbacks {
            let ghost before = table@;
            let ghost calls = table.calls();
            let ghost mut fired = before.fired;
            match table.callbacks.entry(props.msg_type) {
                Entry::Occupied(occupied) => {
                    let callback = occupied.into_mut();
                    proof {
                        fired = fired.push(
                            Fired {
                                callback: callback.function(),
                                entry: queue_entry(props, buffer),
                            },
                        );
                    }
                    callback.hand(GCMessageQueueEntry { props, buffer, error: false });
                },
                Entry::Vacant(_) => {},
            }
            table.fired = Ghost(fired);
            assert(table@.table =~= before.table);
            assert(table.calls() =~= called_once_more(calls, props.msg_type));
        }
    }
}

/// The calls are counted for just the callbacks that are in the table.
pub proof fn law_every_callback_is_counted<C>(table: PacketCallbacks<C>)
    ensures
        table.calls().dom() == table@.table.dom(),
{
    assert(table.calls().dom() =~= table@.table.dom());
}

/// Handing over a message calls the callback for its type once, no more and no less, and no
/// other callback at all.
pub proof fn law_dispatch_counts_one_call(calls: Map<u32, nat>, msg_type: u32, other: u32)
    ensures
        ({
            let after = called_once_more(calls, msg_type);
            &&& after.dom() == calls.dom()
            &&& calls.contains_key(msg_type) ==> after[msg_type] == calls[msg_type] + 1
            &&& other != msg_type && calls.contains_key(other) ==> after[other] == calls[other]
        }),
{
    assert(called_once_more(calls, msg_type).dom() =~= calls.dom());
}

} // verus!
