//! The Game Coordinator: sending messages to it and receiving messages from it.

use crate::coordinator::{Attempt, ISteamGameCoordinator, Retrieved, Sent};
use crate::header::{
    frame_message, framed, law_header_reads_back, length_field, low_32, HEADER_SIZE,
};
use crate::message::{EGCResults, GCMessageAvailable, GCResult, RecvMessageProperties};
use vstd::prelude::*;

verus! {

/// Size of the first buffer offered for a message when the caller's vector has no room at all.
pub const DEFAULT_CAPACITY: usize = 4096;

/// A connection to the Game Coordinator.
pub struct GC<G> {
    /// The interface of the coordinator that this connection talks to.
    pub gc: G,
}

/// What was added to a record that was `before`.
pub open spec fn since<T>(before: Seq<T>, after: Seq<T>) -> Seq<T> {
    after.skip(before.len() as int)
}

/// What a send comes to when the coordinator answers `result`.
pub open spec fn send_outcome(result: EGCResults) -> GCResult<()> {
    if result == EGCResults::k_EGCResultOK {
        Ok(())
    } else {
        Err(result)
    }
}

/// The record of sent messages grew from `before` by one: the framed message with its size.
pub open spec fn sent_once(
    before: Seq<Sent>,
    after: Seq<Sent>,
    msg_type: u32,
    msg_data: Seq<u8>,
) -> bool {
    &&& after.len() == before.len() + 1
    &&& after.drop_last() == before
    &&& after.last().msg_type == msg_type
    &&& after.last().data == framed(msg_type, msg_data)
    &&& after.last().size == low_32(framed(msg_type, msg_data).len())
}

/// `s` cut or filled up with zeroes to `n` bytes.
pub open spec fn resized(s: Seq<u8>, n: nat) -> Seq<u8> {
    Seq::new(
        n,
        |i: int|
            if i < s.len() {
                s[i]
            } else {
                0
            },
    )
}

/// The first `n` bytes of `s`, or all of `s` if it has fewer.
pub open spec fn cut(s: Seq<u8>, n: nat) -> Seq<u8> {
    if n <= s.len() {
        s.take(n as int)
    } else {
        s
    }
}

/// Size of the buffer for attempt number `k` at receiving a message, into a vector with room
/// for `capacity` bytes: the room that is there (or a default if there is none), doubled
/// after each attempt.
pub open spec fn attempt_capacity(capacity: nat, k: nat) -> nat
    decreases k,
{
    if k > 0 {
        2 * attempt_capacity(capacity, (k - 1) as nat)
    } else if capacity == 0 {
        DEFAULT_CAPACITY as nat
    } else {
        capacity
    }
}

/// The buffer size as told to the coordinator, which counts in 32 bits: at most as many bytes
/// as the buffer has.
pub open spec fn offered(capacity: nat) -> u32 {
    if capacity <= u32::MAX {
        capacity as u32
    } else {
        u32::MAX
    }
}

/// The attempts that receiving a message makes: each hands over what the vector held at first
/// (later: what came back from the attempt before), resized to that attempt's capacity; every
/// attempt but the last is answered that the buffer is too small, and the last is not.
pub open spec fn attempts_made(before: Seq<u8>, capacity: nat, attempts: Seq<Attempt>) -> bool {
    &&& attempts.len() > 0
    &&& forall|k: int| #![trigger attempts[k]]
        0 <= k < attempts.len() ==> attempt_made(before, capacity, attempts, k)
    &&& forall|k: int|
        0 <= k < attempts.len() - 1 ==> (#[trigger] attempts[k]).reply.result
            == EGCResults::k_EGCResultBufferTooSmall
    &&& attempts.last().reply.result != EGCResults::k_EGCResultBufferTooSmall
}

/// What is handed over in attempt number `k`.
pub open spec fn attempt_made(
    before: Seq<u8>,
    capacity: nat,
    attempts: Seq<Attempt>,
    k: int,
) -> bool {
    &&& attempts[k].buffer@ == resized(
        if k == 0 {
            before
        } else {
            attempts[k - 1].reply.buffer@
        },
        attempt_capacity(capacity, k as nat),
    )
    &&& attempts[k].cub_dest == offered(attempt_capacity(capacity, k as nat))
}

/// What receiving comes to when the last answer is `reply`: the message's properties, or the
/// error.
pub open spec fn recv_outcome(reply: Retrieved) -> GCResult<RecvMessageProperties> {
    if reply.result == EGCResults::k_EGCResultOK {
        Ok(RecvMessageProperties { msg_type: reply.msg_type, msg_size: reply.msg_size })
    } else {
        Err(reply.result)
    }
}

/// What the vector holds when the last answer is `reply`: the message, or, after an error, as
/// many bytes as it held before.
pub open spec fn recv_contents(reply: Retrieved, len: nat) -> Seq<u8> {
    if reply.result == EGCResults::k_EGCResultOK {
        cut(reply.buffer@, reply.msg_size as nat)
    } else {
        cut(reply.buffer@, len)
    }
}

/// Receiving into a vector that held `before` and has room for `capacity` bytes makes these
/// attempts, leaves the vector with `after` and returns `r`.
pub open spec fn receives(
    before: Seq<u8>,
    capacity: nat,
    attempts: Seq<Attempt>,
    after: Seq<u8>,
    r: GCResult<RecvMessageProperties>,
) -> bool {
    &&& attempts_made(before, capacity, attempts)
    &&& after == recv_contents(attempts.last().reply, before.len())
    &&& r == recv_outcome(attempts.last().reply)
}

/// The record of requests for a message grew from `before` by these attempts, the answers to
/// which are ones that the operations can give.
pub open spec fn asked_for<G: ISteamGameCoordinator>(
    operations: G::Operations,
    before: Seq<Attempt>,
    after: Seq<Attempt>,
) -> bool {
    &&& after == before + since(before, after)
    &&& forall|k: int|
        before.len() <= k < after.len() ==> G::retrieves(operations, #[trigger] after[k])
}

/// Calls `Vec::capacity`: the number of bytes that the vector can hold without growing, which
/// is no less than what it does hold and no more than what any vector can. How much it is
/// depends on the allocator.
#[verifier::external_body]
fn capacity_of(v: &Vec<u8>) -> (capacity: usize)
    ensures
        v@.len() <= capacity <= isize::MAX,
{
    v.capacity()
}

/// Reading the vector's own capacity can give `capacity`.
pub closed spec fn has_room(v: Vec<u8>, capacity: usize) -> bool {
    call_ensures(capacity_of, (&v,), capacity)
}

/// What `read` says of the vector's room.
fn room_in<F: Fn(&Vec<u8>) -> usize>(read: F, v: &Vec<u8>) -> (capacity: usize)
    requires
        call_requires(read, (v,)),
    ensures
        call_ensures(read, (v,), capacity),
{
    read(v)
}

impl<G> GC<G> {
    /// The interface of the coordinator.
    fn get_vtable(&mut self) -> (vtable: &mut G)
        ensures
            *vtable == old(self).gc,
            *final(vtable) == final(self).gc,
    {
        &mut self.gc
    }
}

impl<G: Clone> Clone for GC<G> {
    /// Another connection to the same coordinator.
    fn clone(&self) -> (other: Self)
        ensures
            cloned(self.gc, other.gc),
    {
        GC { gc: self.gc.clone() }
    }
}

impl<G: ISteamGameCoordinator> GC<G> {
    /// Send an encoded message to the GC. Returns Ok(()) if the message was sent successfully,
    /// otherwise Err(EGCResults).
    /// Automatically prepends the 8-byte GC header
    pub fn send_message(&mut self, msg_type: u32, msg_data: &[u8]) -> (r: GCResult<()>)
        requires
            G::ready(old(self).gc.operations()),
            msg_data@.len() + HEADER_SIZE <= isize::MAX,
        ensures
            final(self).gc.operations() == old(self).gc.operations(),
            sent_once(old(self).gc.sent(), final(self).gc.sent(), msg_type, msg_data@),
            final(self).gc.polled() == old(self).gc.polled(),
            final(self).gc.asked() == old(self).gc.asked(),
            final(self).gc.made() == (
                old(self).gc.made().0 + 1,
                old(self).gc.made().1,
                old(self).gc.made().2,
            ),
            ({
                let m = final(self).gc.sent().last().data;
                &&& m.len() == msg_data@.len() + 8
                &&& m[0] + 0x100 * m[1] + 0x1_0000 * m[2] + 0x100_0000 * m[3] == msg_type
                &&& m[4] + 0x100 * m[5] + 0x1_0000 * m[6] + 0x100_0000 * m[7]
                    == msg_data@.len() % 0x1_0000_0000
                &&& m.skip(8) == msg_data@
                &&& final(self).gc.sent().last().size == m.len() % 0x1_0000_0000
            }),
            G::sends(old(self).gc.operations(), final(self).gc.sent().last()),
            r is Ok <==> final(self).gc.sent().last().result == EGCResults::k_EGCResultOK,
            r == send_outcome(final(self).gc.sent().last().result),
            r != Err::<(), EGCResults>(EGCResults::k_EGCResultOK),
    {
        let message = frame_message(msg_type, msg_data);
        let size: u32 = length_field(message.len());
        let result = self.get_vtable().send_message(msg_type, message.as_slice(), size);
        assert(self.gc.sent().drop_last() =~= old(self).gc.sent());
        proof {
            law_header_reads_back(msg_type, msg_data@);
        }
        if result == EGCResults::k_EGCResultOK {
            Ok(())
        } else {
            Err(result)
        }
    }

    /// Receive a message at the head of the queue. If Ok(), a message is written to out_vec
    /// and the properties of the message are returned.
    /// If the vector does not have enough capacity to hold the message, the vector is grown to
    /// fit the message and retried.
    /// It is preferable to use the message size returned from the GCMessageAvailable callback
    /// to reduce allocations
    pub fn recv_message(&mut self, out_vec: &mut Vec<u8>) -> (r: GCResult<RecvMessageProperties>)
        requires
            G::ready(old(self).gc.operations()),
        ensures
            final(self).gc.operations() == old(self).gc.operations(),
            final(self).gc.sent() == old(self).gc.sent(),
            final(self).gc.polled() == old(self).gc.polled(),
            final(self).gc.made().0 == old(self).gc.made().0,
            final(self).gc.made().1 == old(self).gc.made().1,
            final(self).gc.made().2 - old(self).gc.made().2 == final(self).gc.asked().len() - old(
                self,
            ).gc.asked().len(),
            asked_for::<G>(
                old(self).gc.operations(),
                old(self).gc.asked(),
                final(self).gc.asked(),
            ),
            exists|capacity: usize|
                has_room(*old(out_vec), capacity) && capacity >= old(out_vec)@.len()
                    && #[trigger] receives(
                        old(out_vec)@,
                        capacity as nat,
                        since(old(self).gc.asked(), final(self).gc.asked()),
                        final(out_vec)@,
                        r,
                    ),
            r != Err::<RecvMessageProperties, EGCResults>(EGCResults::k_EGCResultOK),
            r != Err::<RecvMessageProperties, EGCResults>(EGCResults::k_EGCResultBufferTooSmall),
    {
        let capacity: usize = room_in(capacity_of, out_vec);
        self.recv_message_with_capacity(out_vec, capacity)
    }

    /// Receive a message at the head of the queue into a vector that has room for `capacity`
    /// bytes.
    pub fn recv_message_with_capacity(&mut self, out_vec: &mut Vec<u8>, capacity: usize) -> (r:
        GCResult<RecvMessageProperties>)
        requires
            G::ready(old(self).gc.operations()),
            old(out_vec)@.len() <= capacity <= isize::MAX,
        ensures
            final(self).gc.operations() == old(self).gc.operations(),
            final(self).gc.sent() == old(self).gc.sent(),
            final(self).gc.polled() == old(self).gc.polled(),
            final(self).gc.made().0 == old(self).gc.made().0,
            final(self).gc.made().1 == old(self).gc.made().1,
            final(self).gc.made().2 - old(self).gc.made().2 == final(self).gc.asked().len() - old(
                self,
            ).gc.asked().len(),
            asked_for::<G>(
                old(self).gc.operations(),
                old(self).gc.asked(),
                final(self).gc.asked(),
            ),
            receives(
                old(out_vec)@,
                capacity as nat,
                since(old(self).gc.asked(), final(self).gc.asked()),
                final(out_vec)@,
                r,
            ),
            r != Err::<RecvMessageProperties, EGCResults>(EGCResults::k_EGCResultOK),
            r != Err::<RecvMessageProperties, EGCResults>(EGCResults::k_EGCResultBufferTooSmall),
    {
        let ghost before = out_vec@;
        let ghost operations = self.gc.operations();
        let ghost asked = self.gc.asked();
        let len: usize = out_vec.len();
        let mut room: usize = if capacity == 0 {
            DEFAULT_CAPACITY
        } else {
            capacity
        };
        let mut buffer: Vec<u8> = Vec::new();
        std::mem::swap(out_vec, &mut buffer);
        let ghost mut attempts: Seq<Attempt> = Seq::empty();
        assert(self.gc.asked() =~= asked + attempts);
        loop
            invariant
                before == old(out_vec)@,
                operations == old(self).gc.operations(),
                asked == old(self).gc.asked(),
                len == before.len(),
                G::ready(operations),
                self.gc.operations() == operations,
                self.gc.sent() == old(self).gc.sent(),
                self.gc.polled() == old(self).gc.polled(),
                self.gc.asked() == asked + attempts,
                self.gc.made().0 == old(self).gc.made().0,
                self.gc.made().1 == old(self).gc.made().1,
                self.gc.made().2 == old(self).gc.made().2 + attempts.len(),
                0 < room,
                room == attempt_capacity(capacity as nat, attempts.len()),
                buffer@ == (if attempts.len() == 0 {
                    before
                } else {
                    attempts.last().reply.buffer@
                }),
                forall|k: int| #![trigger attempts[k]]
                    0 <= k < attempts.len() ==> attempt_made(before, capacity as nat, attempts, k)
                        && G::retrieves(operations, attempts[k]) && attempts[k].reply.result
                        == EGCResults::k_EGCResultBufferTooSmall,
            decreases 0x2_0000_0000 - room,
        {
            let ghost held = buffer@;
            buffer.resize(room, 0);
            assert(buffer@ =~= resized(held, room as nat));
            let cub_dest: u32 = if room <= u32::MAX as usize {
                room as u32
            } else {
                u32::MAX
            };
            let ghost handed_over = buffer;
            let reply = self.get_vtable().retrieve_message(buffer, cub_dest);
            let ghost tried = attempts;
            proof {
                attempts = attempts.push(Attempt { buffer: handed_over, cub_dest, reply });
                assert(self.gc.asked() =~= asked + attempts);
                assert(since(asked, self.gc.asked()) =~= attempts);
                assert forall|k: int| #![trigger attempts[k]] 0 <= k < attempts.len() implies {
                    &&& attempt_made(before, capacity as nat, attempts, k)
                    &&& G::retrieves(operations, attempts[k])
                } by {
                    if k < tried.len() {
                        assert(attempts[k] == tried[k]);
                        if k > 0 {
                            assert(attempts[k - 1] == tried[k - 1]);
                        }
                    }
                }
                assert(reply.result != EGCResults::k_EGCResultBufferTooSmall ==> attempts_made(
                    before,
                    capacity as nat,
                    attempts,
                ));
                assert forall|k: int| asked.len() <= k < self.gc.asked().len() implies G::retrieves(
                    operations,
                    #[trigger] self.gc.asked()[k],
                ) by {
                    assert(self.gc.asked()[k] == attempts[k - asked.len()]);
                }
            }
            let props = RecvMessageProperties {
                msg_type: reply.msg_type,
                msg_size: reply.msg_size,
            };
            let result = reply.result;
            buffer = reply.buffer;
            if result == EGCResults::k_EGCResultOK {
                buffer.truncate(props.msg_size as usize);
                std::mem::swap(out_vec, &mut buffer);
                return Ok(props);
            } else if result == EGCResults::k_EGCResultBufferTooSmall {
                // the size of the message is not told until the buffer is large enough for it
                room = room * 2;
            } else {
                buffer.truncate(len);
                std::mem::swap(out_vec, &mut buffer);
                return Err(result);
            }
        }
    }

    /// Receives the message that `available` announces into a vector of the announced size.
    pub fn recv_available(&mut self, available: &GCMessageAvailable) -> (received: (
        GCResult<RecvMessageProperties>,
        Vec<u8>,
    ))
        requires
            G::ready(old(self).gc.operations()),
            available.message_size <= isize::MAX,
        ensures
            final(self).gc.operations() == old(self).gc.operations(),
            final(self).gc.sent() == old(self).gc.sent(),
            final(self).gc.polled() == old(self).gc.polled(),
            final(self).gc.made().0 == old(self).gc.made().0,
            final(self).gc.made().1 == old(self).gc.made().1,
            final(self).gc.made().2 - old(self).gc.made().2 == final(self).gc.asked().len() - old(
                self,
            ).gc.asked().len(),
            asked_for::<G>(
                old(self).gc.operations(),
                old(self).gc.asked(),
                final(self).gc.asked(),
            ),
            receives(
                Seq::<u8>::empty(),
                available.message_size as nat,
                since(old(self).gc.asked(), final(self).gc.asked()),
                received.1@,
                received.0,
            ),
    {
        let mut buffer: Vec<u8> = Vec::with_capacity(available.message_size as usize);
        let r = self.recv_message_with_capacity(&mut buffer, available.message_size as usize);
        (r, buffer)
    }

    /// Is there a gc message available in the queue? Returns Some(message_size).
    pub fn is_message_available(&mut self) -> (size: Option<u32>)
        requires
            G::ready(old(self).gc.operations()),
        ensures
            final(self).gc.operations() == old(self).gc.operations(),
            final(self).gc.sent() == old(self).gc.sent(),
            final(self).gc.asked() == old(self).gc.asked(),
            final(self).gc.polled() == old(self).gc.polled().push(
                final(self).gc.polled().last(),
            ),
            final(self).gc.made() == (
                old(self).gc.made().0,
                old(self).gc.made().1 + 1,
                old(self).gc.made().2,
            ),
            G::polls(old(self).gc.operations(), final(self).gc.polled().last()),
            size == (if final(self).gc.polled().last().0 {
                Some(final(self).gc.polled().last().1)
            } else {
                None
            }),
    {
        let reply = self.get_vtable().is_message_available();
        if reply.0 {
            Some(reply.1)
        } else {
            None
        }
    }
}

/// A message that was sent can be read back from the record: the record grew by one message,
/// which is eight bytes longer than the body, with the type in its first four bytes, the low 32
/// bits of the body's length in the next four, and the whole body after them; the size told to
/// the coordinator is the number of its bytes.
pub proof fn law_sent_message_reads_back(
    before: Seq<Sent>,
    after: Seq<Sent>,
    msg_type: u32,
    msg_data: Seq<u8>,
)
    requires
        sent_once(before, after, msg_type, msg_data),
    ensures
        after.len() == before.len() + 1,
        after.take(before.len() as int) == before,
        after.last().msg_type == msg_type,
        ({
            let m = after.last().data;
            &&& m.len() == msg_data.len() + 8
            &&& m[0] + 0x100 * m[1] + 0x1_0000 * m[2] + 0x100_0000 * m[3] == msg_type
            &&& m[4] + 0x100 * m[5] + 0x1_0000 * m[6] + 0x100_0000 * m[7] == msg_data.len()
                % 0x1_0000_0000
            &&& m.skip(8) == msg_data
            &&& after.last().size == m.len() % 0x1_0000_0000
            &&& m.len() <= u32::MAX ==> after.last().size == m.len()
        }),
{
    law_header_reads_back(msg_type, msg_data);
    assert(after.take(before.len() as int) =~= after.drop_last());
}

/// A send succeeds exactly if the coordinator answers OK; any other answer is the error.
pub proof fn law_send_reports_answer(result: EGCResults)
    ensures
        send_outcome(result) is Ok <==> result == EGCResults::k_EGCResultOK,
        send_outcome(result) matches Err(e) ==> e == result,
{
}

/// The record of requests only grows: what it held before stays in front, and what was added
/// is all that follows, each with an answer that the operations can give.
pub proof fn law_record_only_grows<G: ISteamGameCoordinator>(
    operations: G::Operations,
    before: Seq<Attempt>,
    after: Seq<Attempt>,
)
    requires
        asked_for::<G>(operations, before, after),
    ensures
        before.len() <= after.len(),
        after.take(before.len() as int) == before,
        since(before, after).len() == after.len() - before.len(),
        forall|k: int|
            before.len() <= k < after.len() ==> {
                &&& #[trigger] after[k] == since(before, after)[k - before.len()]
                &&& G::retrieves(operations, after[k])
            },
{
    assert(after.take(before.len() as int) =~= before);
}

/// The room of a vector is what reading its capacity gives: no less than what it holds and no
/// more than a vector can hold.
pub proof fn law_room_is_the_vectors_own(v: Vec<u8>, capacity: usize)
    requires
        has_room(v, capacity),
    ensures
        v@.len() <= capacity <= isize::MAX,
{
    lemma_room_is_read(v, capacity);
}

proof fn lemma_room_is_read(v: Vec<u8>, capacity: usize)
    requires
        has_room(v, capacity),
    ensures
        call_ensures(capacity_of, (&v,), capacity),
{
}

} // verus!
