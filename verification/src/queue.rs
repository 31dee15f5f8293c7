//! A queue that receives messages and dispatches them to callbacks.

use crate::callbacks::{
    called_once_more, can_dispatch, has_dispatched, CallbackState, PacketCallbacks,
    PktCallbackHandle,
};
use crate::coordinator::{Attempt, ISteamGameCoordinator};
use crate::gc::{asked_for, receives, send_outcome, sent_once, since, GC};
use crate::header::HEADER_SIZE;
use crate::message::{
    EGCResults, GCMessageAvailable, GCMessageQueueEntry, GCResult, RecvMessageProperties,
};
use vstd::prelude::*;

verus! {

/// A high level message queue to assist in receiving GC messages easily
pub struct GCMessageQueue<G, C> {
    /// The coordinator that messages are sent to and received from.
    pub gc: GC<G>,
    /// The callbacks that service message types.
    pub packet_callbacks: PacketCallbacks<C>,
}

impl<G, C> GCMessageQueue<G, C> {
    /// Create a new message queue for a coordinator
    pub fn new(gc: GC<G>) -> (queue: Self)
        ensures
            queue.gc == gc,
            queue.packet_callbacks@ == (CallbackState {
                table: Map::<u32, C>::empty(),
                fired: Seq::empty(),
            }),
            queue.packet_callbacks.calls() == Map::<u32, nat>::empty(),
    {
        GCMessageQueue { gc, packet_callbacks: PacketCallbacks::new() }
    }

    /// Establish a permanent callback function to call whenever a packet of a certain type is
    /// received
    ///
    /// Only one callback for a specific message type can exist per queue, if one already exists
    /// the callback is replaced with this one.
    pub fn install_global_callback(&mut self, msg_type: u32, callback_fn: C)
        ensures
            final(self).gc == old(self).gc,
            final(self).packet_callbacks@ == old(self).packet_callbacks@.installed(
                msg_type,
                callback_fn,
            ),
            final(self).packet_callbacks.calls() == old(self).packet_callbacks.calls().insert(
                msg_type,
                0,
            ),
    {
        self.packet_callbacks.install_global_callback(msg_type, callback_fn);
    }

    /// Establish a temporary callback function to call whenever a packet of a certain type is
    /// received.
    /// This is used to establish a callback function for a packet type which only exists in the
    /// scope of the returned handle.
    ///
    /// Only one callback for a specific message type can exist per queue, if one already exists
    /// the callback is replaced with this one.
    ///
    /// Returns a handle object which, when dropped, will remove the callback type specified by
    /// msg_type.
    /// NOTE: the handle removes whatever callback the type has by then, a later one too.
    #[must_use]
    pub fn install_callback(&mut self, msg_type: u32, callback_fn: C) -> (handle: PktCallbackHandle)
        ensures
            final(self).gc == old(self).gc,
            final(self).packet_callbacks@ == old(self).packet_callbacks@.installed(
                msg_type,
                callback_fn,
            ),
            final(self).packet_callbacks.calls() == old(self).packet_callbacks.calls().insert(
                msg_type,
                0,
            ),
            handle.handles() == msg_type,
    {
        self.packet_callbacks.install_callback(msg_type, callback_fn)
    }

    /// Removes a previously registered callback by its message type
    /// If no callback was registered already for that type, returns false. Otherwise, returns
    /// true.
    pub fn remove_callback(&mut self, msg_type: u32) -> (removed: bool)
        ensures
            removed == old(self).packet_callbacks@.table.contains_key(msg_type),
            final(self).gc == old(self).gc,
            final(self).packet_callbacks@ == old(self).packet_callbacks@.removed(msg_type),
            final(self).packet_callbacks.calls() == old(self).packet_callbacks.calls().remove(
                msg_type,
            ),
    {
        self.packet_callbacks.remove_callback(msg_type)
    }
}

/// A message announced as `message_size` bytes long can be received with these properties and
/// contents.
pub open spec fn can_arrive<G: ISteamGameCoordinator>(
    operations: G::Operations,
    message_size: u32,
    attempts: Seq<Attempt>,
    props: RecvMessageProperties,
    contents: Seq<u8>,
) -> bool {
    &&& receives(Seq::<u8>::empty(), message_size as nat, attempts, contents, Ok(props))
    &&& forall|k: int|
        0 <= k < attempts.len() ==> G::retrieves(operations, #[trigger] attempts[k])
}

impl<G: ISteamGameCoordinator, C> GCMessageQueue<G, C> {
    /// Add a message to send to the queue. Returns true if the message was successfully queued.
    /// The message data must NOT include the 8-byte header. This is added automatically.
    pub fn send_message(&mut self, msg_type: u32, msg_data: &[u8]) -> (queued: bool)
        requires
            G::ready(old(self).gc.gc.operations()),
            msg_data@.len() + HEADER_SIZE <= isize::MAX,
        ensures
            final(self).gc.gc.operations() == old(self).gc.gc.operations(),
            sent_once(old(self).gc.gc.sent(), final(self).gc.gc.sent(), msg_type, msg_data@),
            final(self).gc.gc.polled() == old(self).gc.gc.polled(),
            final(self).gc.gc.asked() == old(self).gc.gc.asked(),
            final(self).gc.gc.made() == (
                old(self).gc.gc.made().0 + 1,
                old(self).gc.gc.made().1,
                old(self).gc.gc.made().2,
            ),
            final(self).packet_callbacks == old(self).packet_callbacks,
            ({
                let m = final(self).gc.gc.sent().last().data;
                &&& m.len() == msg_data@.len() + 8
                &&& m[0] + 0x100 * m[1] + 0x1_0000 * m[2] + 0x100_0000 * m[3] == msg_type
                &&& m[4] + 0x100 * m[5] + 0x1_0000 * m[6] + 0x100_0000 * m[7]
                    == msg_data@.len() % 0x1_0000_0000
                &&& m.skip(8) == msg_data@
                &&& final(self).gc.gc.sent().last().size == m.len() % 0x1_0000_0000
            }),
            queued <==> final(self).gc.gc.sent().last().result == EGCResults::k_EGCResultOK,
            G::sends(old(self).gc.gc.operations(), final(self).gc.gc.sent().last()),
            queued == (send_outcome(final(self).gc.gc.sent().last().result) is Ok),
    {
        let res = self.gc.send_message(msg_type, msg_data);
        if let Ok(_) = res {
            true
        } else {
            false
        }
    }
}

impl<G: ISteamGameCoordinator, C: FnMut(GCMessageQueueEntry)> GCMessageQueue<G, C> {
    /// Receives the message that `available` announces and fires the callback for its type, if
    /// there is one.
    pub fn on_message_available(&mut self, available: GCMessageAvailable)
        requires
            G::ready(old(self).gc.gc.operations()),
            available.message_size <= isize::MAX,
            forall|attempts: Seq<Attempt>, props: RecvMessageProperties, buffer: Vec<u8>| #[trigger]
                can_arrive::<G>(
                    old(self).gc.gc.operations(),
                    available.message_size,
                    attempts,
                    props,
                    buffer@,
                ) ==> can_dispatch(old(self).packet_callbacks@.table, props, buffer),
        ensures
            final(self).gc.gc.operations() == old(self).gc.gc.operations(),
            final(self).gc.gc.sent() == old(self).gc.gc.sent(),
            final(self).gc.gc.polled() == old(self).gc.gc.polled(),
            final(self).gc.gc.made().0 == old(self).gc.gc.made().0,
            final(self).gc.gc.made().1 == old(self).gc.gc.made().1,
            final(self).gc.gc.made().2 - old(self).gc.gc.made().2
                == final(self).gc.gc.asked().len() - old(self).gc.gc.asked().len(),
            asked_for::<G>(
                old(self).gc.gc.operations(),
                old(self).gc.gc.asked(),
                final(self).gc.gc.asked(),
            ),
            forall|k: int|
                old(self).packet_callbacks@.fired.len() <= k
                    < final(self).packet_callbacks@.fired.len() ==> call_ensures(
                    (#[trigger] final(self).packet_callbacks@.fired[k]).callback,
                    (final(self).packet_callbacks@.fired[k].entry,),
                    (),
                ),
            exists|r: GCResult<RecvMessageProperties>, buffer: Vec<u8>|
                {
                    &&& #[trigger] receives(
                        Seq::<u8>::empty(),
                        available.message_size as nat,
                        since(old(self).gc.gc.asked(), final(self).gc.gc.asked()),
                        buffer@,
                        r,
                    )
                    &&& final(self).packet_callbacks@ == old(self).packet_callbacks@.serviced(
                        r,
                        buffer,
                    )
                    &&& final(self).packet_callbacks.calls() == match r {
                        Ok(props) => called_once_more(
                            old(self).packet_callbacks.calls(),
                            props.msg_type,
                        ),
                        Err(_) => old(self).packet_callbacks.calls(),
                    }
                    &&& r matches Ok(props) ==> has_dispatched(
                        old(self).packet_callbacks@.table,
                        props,
                        buffer,
                    )
                },
    {
        let (r, buffer) = self.gc.recv_available(&available);
        let ghost attempts = since(old(self).gc.gc.asked(), self.gc.gc.asked());
        if let Ok(props) = r {
            proof {
                assert forall|k: int| 0 <= k < attempts.len() implies G::retrieves(
                    old(self).gc.gc.operations(),
                    #[trigger] attempts[k],
                ) by {
                    assert(attempts[k] == self.gc.gc.asked()[k + old(
                        self,
                    ).gc.gc.asked().len()]);
                }
                assert(can_arrive::<G>(
                    old(self).gc.gc.operations(),
                    available.message_size,
                    attempts,
                    props,
                    buffer@,
                ));
            }
            PacketCallbacks::dispatch(Some(&mut self.packet_callbacks), props, buffer);
        }
    }
}

/// Callbacks have to take only what can be received: a message that counts as one that can
/// arrive comes out of a receive for the announced size, each answer of which the coordinator
/// can give.
pub proof fn law_only_receivable_messages_arrive<G: ISteamGameCoordinator>(
    operations: G::Operations,
    message_size: u32,
    attempts: Seq<Attempt>,
    props: RecvMessageProperties,
    contents: Seq<u8>,
)
    requires
        can_arrive::<G>(operations, message_size, attempts, props, contents),
    ensures
        receives(Seq::<u8>::empty(), message_size as nat, attempts, contents, Ok(props)),
        forall|k: int|
            0 <= k < attempts.len() ==> G::retrieves(operations, #[trigger] attempts[k]),
{
}

} // verus!
