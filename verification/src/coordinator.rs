//! The coordinator's interface, and the record of what goes through it.

use crate::counted::{Call, Counted};
use crate::header::low_32;
use crate::message::EGCResults;
use vstd::prelude::*;

verus! {

/// What the coordinator answers to one request for the message at the head of its queue.
pub struct Retrieved {
    /// Whether the message was handed out.
    pub result: EGCResults,
    /// Raw type of the message.
    pub msg_type: u32,
    /// Number of bytes of the buffer that the message takes.
    pub msg_size: u32,
    /// The buffer that was offered, with the message at its front.
    pub buffer: Vec<u8>,
}

/// One request for the message at the head of the queue, and the answer to it.
pub struct Attempt {
    /// The buffer that was handed over.
    pub buffer: Vec<u8>,
    /// The number of its bytes that were offered.
    pub cub_dest: u32,
    /// What came back.
    pub reply: Retrieved,
}

/// One message handed to the coordinator, and the answer to it.
pub struct Sent {
    /// Raw type of the message.
    pub msg_type: u32,
    /// The bytes that were handed over.
    pub data: Seq<u8>,
    /// Their number, as told to the coordinator.
    pub size: u32,
    /// What came back.
    pub result: EGCResults,
}

/// Steam's interface to the Game Coordinator. Each of its methods adds to a record of its uses,
/// in order: the messages sent, the answers to whether a message is waiting, and the requests
/// for the message at the head of the queue.
pub trait ISteamGameCoordinator: Sized {
    /// What stands behind the operations.
    type Operations;

    /// What stands behind the operations of this interface.
    spec fn operations(&self) -> Self::Operations;

    /// The operations can be used.
    spec fn ready(operations: Self::Operations) -> bool;

    /// The operations can give this answer to a message.
    spec fn sends(operations: Self::Operations, sent: Sent) -> bool;

    /// The operations can give this answer to whether a message is waiting.
    spec fn polls(operations: Self::Operations, reply: (bool, u32)) -> bool;

    /// The operations can give this answer to a request for a message.
    spec fn retrieves(operations: Self::Operations, attempt: Attempt) -> bool;

    /// The messages sent so far.
    spec fn sent(&self) -> Seq<Sent>;

    /// The answers so far to whether a message is waiting, and how large it is.
    spec fn polled(&self) -> Seq<(bool, u32)>;

    /// The requests so far for the message at the head of the queue.
    spec fn asked(&self) -> Seq<Attempt>;

    /// How often each operation was used: sending, availability, retrieving.
    spec fn made(&self) -> (nat, nat, nat);

    /// Sends bytes, of which there are `size`.
    fn send_message(&mut self, msg_type: u32, data: &[u8], size: u32) -> (result: EGCResults)
        requires
            Self::ready(old(self).operations()),
            size == low_32(data@.len()),
        ensures
            final(self).operations() == old(self).operations(),
            final(self).sent() == old(self).sent().push(
                (Sent { msg_type, data: data@, size, result }),
            ),
            final(self).polled() == old(self).polled(),
            final(self).asked() == old(self).asked(),
            final(self).made() == (
                old(self).made().0 + 1,
                old(self).made().1,
                old(self).made().2,
            ),
            Self::sends(
                old(self).operations(),
                (Sent { msg_type, data: data@, size, result }),
            ),
    ;

    /// Says whether a message is waiting, and how large it is.
    fn is_message_available(&mut self) -> (reply: (bool, u32))
        requires
            Self::ready(old(self).operations()),
        ensures
            final(self).operations() == old(self).operations(),
            final(self).sent() == old(self).sent(),
            final(self).polled() == old(self).polled().push(reply),
            final(self).asked() == old(self).asked(),
            final(self).made() == (
                old(self).made().0,
                old(self).made().1 + 1,
                old(self).made().2,
            ),
            Self::polls(old(self).operations(), reply),
    ;

    /// Fills a buffer, of which `cub_dest` bytes may be written, with the message at the head of
    /// the queue. A buffer is never called too small that cannot be made larger: not one with
    /// the largest size that a message can have, and not one whose double no vector can hold.
    fn retrieve_message(&mut self, buffer: Vec<u8>, cub_dest: u32) -> (reply: Retrieved)
        requires
            Self::ready(old(self).operations()),
            cub_dest <= buffer@.len(),
        ensures
            final(self).operations() == old(self).operations(),
            final(self).sent() == old(self).sent(),
            final(self).polled() == old(self).polled(),
            final(self).asked() == old(self).asked().push((Attempt { buffer, cub_dest, reply })),
            final(self).made() == (
                old(self).made().0,
                old(self).made().1,
                old(self).made().2 + 1,
            ),
            Self::retrieves(old(self).operations(), (Attempt { buffer, cub_dest, reply })),
            reply.result == EGCResults::k_EGCResultBufferTooSmall ==> cub_dest < u32::MAX && 2
                * cub_dest <= isize::MAX,
    ;
}

/// A call of the send function.
pub struct SendCall<'d> {
    pub msg_type: u32,
    pub data: &'d [u8],
    pub size: u32,
}

impl<'d, F: FnOnce(u32, &[u8], u32) -> EGCResults> Call<F, EGCResults> for SendCall<'d> {
    open spec fn callable(self, f: F) -> bool {
        call_requires(f, (self.msg_type, self.data, self.size))
    }

    open spec fn returned(self, f: F, out: EGCResults) -> bool {
        call_ensures(f, (self.msg_type, self.data, self.size), out)
    }

    fn run(self, f: F) -> (out: EGCResults) {
        f(self.msg_type, self.data, self.size)
    }
}

/// A call of the availability function.
pub struct PollCall {}

impl<F: FnOnce() -> (bool, u32)> Call<F, (bool, u32)> for PollCall {
    open spec fn callable(self, f: F) -> bool {
        call_requires(f, ())
    }

    open spec fn returned(self, f: F, out: (bool, u32)) -> bool {
        call_ensures(f, (), out)
    }

    fn run(self, f: F) -> (out: (bool, u32)) {
        f()
    }
}

/// A call of the retrieve function.
pub struct RetrieveCall {
    pub buffer: Vec<u8>,
    pub cub_dest: u32,
}

impl<F: FnOnce(Vec<u8>, u32) -> Retrieved> Call<F, Retrieved> for RetrieveCall {
    open spec fn callable(self, f: F) -> bool {
        call_requires(f, (self.buffer, self.cub_dest))
    }

    open spec fn returned(self, f: F, out: Retrieved) -> bool {
        call_ensures(f, (self.buffer, self.cub_dest), out)
    }

    fn run(self, f: F) -> (out: Retrieved) {
        f(self.buffer, self.cub_dest)
    }
}

/// The interface made of one function for each operation, with the record of its uses. The
/// functions can be reached only through their counters.
#[allow(non_camel_case_types)]
pub struct IGameCoordinator_vtable<S, A, R> {
    /// Sends bytes.
    pub send_message: Counted<S>,
    /// Says whether a message is waiting.
    pub is_message_available: Counted<A>,
    /// Fills a buffer with the message at the head of the queue.
    pub retrieve_message: Counted<R>,
    /// The messages sent.
    pub sent: Ghost<Seq<Sent>>,
    /// The answers on availability.
    pub polled: Ghost<Seq<(bool, u32)>>,
    /// The requests for a message.
    pub asked: Ghost<Seq<Attempt>>,
}

impl<S, A, R> IGameCoordinator_vtable<S, A, R> {
    /// The functions, in the order sending, availability, retrieving.
    pub open spec fn functions(&self) -> (S, A, R) {
        (
            self.send_message.function(),
            self.is_message_available.function(),
            self.retrieve_message.function(),
        )
    }

    /// The uses recorded so far: messages sent, answers on availability, requests.
    pub open spec fn record(&self) -> (Seq<Sent>, Seq<(bool, u32)>, Seq<Attempt>) {
        (self.sent@, self.polled@, self.asked@)
    }
}

impl<S, A, R> IGameCoordinator_vtable<S, A, R> where
    S: Fn(u32, &[u8], u32) -> EGCResults,
    A: Fn() -> (bool, u32),
    R: Fn(Vec<u8>, u32) -> Retrieved,
 {
    /// An interface through which nothing has gone yet.
    pub fn new(send_message: S, is_message_available: A, retrieve_message: R) -> (vtable: Self)
        ensures
            vtable.functions() == (send_message, is_message_available, retrieve_message),
            vtable.sent() == Seq::<Sent>::empty(),
            vtable.polled() == Seq::<(bool, u32)>::empty(),
            vtable.asked() == Seq::<Attempt>::empty(),
            vtable.made() == (0nat, 0nat, 0nat),
            Self::ready(vtable.operations()) == functions_ready(
                send_message,
                is_message_available,
                retrieve_message,
            ),
            forall|sent: Sent| #[trigger]
                Self::sends(vtable.operations(), sent) == can_send(send_message, sent),
            forall|reply: (bool, u32)| #[trigger]
                Self::polls(vtable.operations(), reply) == call_ensures(
                    is_message_available,
                    (),
                    reply,
                ),
            forall|attempt: Attempt| #[trigger]
                Self::retrieves(vtable.operations(), attempt) == can_retrieve(
                    retrieve_message,
                    attempt,
                ),
    {
        IGameCoordinator_vtable {
            send_message: Counted::new(send_message),
            is_message_available: Counted::new(is_message_available),
            retrieve_message: Counted::new(retrieve_message),
            sent: Ghost(Seq::empty()),
            polled: Ghost(Seq::empty()),
            asked: Ghost(Seq::empty()),
        }
    }
}

/// The functions can be called, and the last never calls a buffer too small that cannot be made
/// larger.
pub open spec fn functions_ready<S, A, R>(
    send_message: S,
    is_message_available: A,
    retrieve_message: R,
) -> bool where
    S: Fn(u32, &[u8], u32) -> EGCResults,
    A: Fn() -> (bool, u32),
    R: Fn(Vec<u8>, u32) -> Retrieved,
 {
    &&& forall|msg_type: u32, data: &[u8], size: u32|
        size == low_32(data@.len()) ==> #[trigger] call_requires(
            send_message,
            (msg_type, data, size),
        )
    &&& call_requires(is_message_available, ())
    &&& forall|buffer: Vec<u8>, cub_dest: u32|
        cub_dest <= buffer@.len() ==> #[trigger] call_requires(
            retrieve_message,
            (buffer, cub_dest),
        )
    &&& forall|buffer: Vec<u8>, cub_dest: u32, reply: Retrieved| #[trigger]
        call_ensures(retrieve_message, (buffer, cub_dest), reply) && cub_dest <= buffer@.len()
            && reply.result == EGCResults::k_EGCResultBufferTooSmall ==> cub_dest < u32::MAX && 2
            * cub_dest <= isize::MAX
}

/// The function can give this answer to a message.
pub open spec fn can_send<S: Fn(u32, &[u8], u32) -> EGCResults>(
    send_message: S,
    sent: Sent,
) -> bool {
    exists|data: &[u8]|
        data@ == sent.data && #[trigger] call_ensures(
            send_message,
            (sent.msg_type, data, sent.size),
            sent.result,
        )
}

/// The function can give this answer to a request for a message.
pub open spec fn can_retrieve<R: Fn(Vec<u8>, u32) -> Retrieved>(
    retrieve_message: R,
    attempt: Attempt,
) -> bool {
    call_ensures(retrieve_message, (attempt.buffer, attempt.cub_dest), attempt.reply)
}

impl<S: Clone, A: Clone, R: Clone> Clone for IGameCoordinator_vtable<S, A, R> {
    /// The same functions again; the record goes on from what has gone through this one.
    fn clone(&self) -> (other: Self)
        ensures
            cloned(self.functions().0, other.functions().0),
            cloned(self.functions().1, other.functions().1),
            cloned(self.functions().2, other.functions().2),
            other.record() == self.record(),
            other.send_message.uses() == self.send_message.uses(),
            other.is_message_available.uses() == self.is_message_available.uses(),
            other.retrieve_message.uses() == self.retrieve_message.uses(),
    {
        IGameCoordinator_vtable {
            send_message: self.send_message.clone(),
            is_message_available: self.is_message_available.clone(),
            retrieve_message: self.retrieve_message.clone(),
            sent: Ghost(self.sent@),
            polled: Ghost(self.polled@),
            asked: Ghost(self.asked@),
        }
    }
}

/// Each method makes one call of its function and records it: the record and the counts grow
/// together.
impl<S, A, R> ISteamGameCoordinator for IGameCoordinator_vtable<S, A, R> where
    S: Fn(u32, &[u8], u32) -> EGCResults,
    A: Fn() -> (bool, u32),
    R: Fn(Vec<u8>, u32) -> Retrieved,
 {
    type Operations = (S, A, R);

    open spec fn operations(&self) -> (S, A, R) {
        self.functions()
    }

    open spec fn ready(operations: (S, A, R)) -> bool {
        functions_ready(operations.0, operations.1, operations.2)
    }

    open spec fn sends(operations: (S, A, R), sent: Sent) -> bool {
        can_send(operations.0, sent)
    }

    open spec fn polls(operations: (S, A, R), reply: (bool, u32)) -> bool {
        call_ensures(operations.1, (), reply)
    }

    open spec fn retrieves(operations: (S, A, R), attempt: Attempt) -> bool {
        can_retrieve(operations.2, attempt)
    }

    open spec fn sent(&self) -> Seq<Sent> {
        self.record().0
    }

    open spec fn polled(&self) -> Seq<(bool, u32)> {
        self.record().1
    }

    open spec fn asked(&self) -> Seq<Attempt> {
        self.record().2
    }

    open spec fn made(&self) -> (nat, nat, nat) {
        (
            self.send_message.uses(),
            self.is_message_available.uses(),
            self.retrieve_message.uses(),
        )
    }

    fn send_message(&mut self, msg_type: u32, data: &[u8], size: u32) -> (result: EGCResults) {
        assert(call_requires(self.functions().0, (msg_type, data, size)));
        let result = self.send_message.make(SendCall { msg_type, data, size });
        let ghost sent = Sent { msg_type, data: data@, size, result };
        assert(call_ensures(
            old(self).functions().0,
            (sent.msg_type, data, sent.size),
            sent.result,
        ));
        self.sent = Ghost(self.sent@.push(sent));
        result
    }

    fn is_message_available(&mut self) -> (reply: (bool, u32)) {
        let reply = self.is_message_available.make(PollCall {  });
        self.polled = Ghost(self.polled@.push(reply));
        reply
    }

    fn retrieve_message(&mut self, buffer: Vec<u8>, cub_dest: u32) -> (reply: Retrieved) {
        let ghost handed_over = buffer;
        assert(call_requires(self.functions().2, (buffer, cub_dest)));
        let reply = self.retrieve_message.make(RetrieveCall { buffer, cub_dest });
        self.asked = Ghost(self.asked@.push(Attempt { buffer: handed_over, cub_dest, reply }));
        reply
    }
}

/// Everything that was done with the coordinator is in the record: each operation was used as
/// often as the record has entries for it.
pub open spec fn complete<G: ISteamGameCoordinator>(coordinator: G) -> bool {
    &&& coordinator.made().0 == coordinator.sent().len()
    &&& coordinator.made().1 == coordinator.polled().len()
    &&& coordinator.made().2 == coordinator.asked().len()
}

/// The record stays complete when each operation is used as often as the record of it grows, as
/// sending, asking for availability and receiving do; the record then has exactly the uses.
pub proof fn law_record_stays_complete<G: ISteamGameCoordinator>(before: G, after: G)
    requires
        complete(before),
        after.made().0 - before.made().0 == after.sent().len() - before.sent().len(),
        after.made().1 - before.made().1 == after.polled().len() - before.polled().len(),
        after.made().2 - before.made().2 == after.asked().len() - before.asked().len(),
    ensures
        after.sent().len() == after.made().0,
        after.polled().len() == after.made().1,
        after.asked().len() == after.made().2,
        complete(after),
{
}

/// The uses of an interface made of functions are the counted calls of those functions: none
/// is made that is not counted.
pub proof fn law_uses_are_calls<S, A, R>(vtable: IGameCoordinator_vtable<S, A, R>) where
    S: Fn(u32, &[u8], u32) -> EGCResults,
    A: Fn() -> (bool, u32),
    R: Fn(Vec<u8>, u32) -> Retrieved,

    ensures
        vtable.made().0 == vtable.send_message.uses(),
        vtable.made().1 == vtable.is_message_available.uses(),
        vtable.made().2 == vtable.retrieve_message.uses(),
        vtable.operations().0 == vtable.send_message.function(),
        vtable.operations().1 == vtable.is_message_available.function(),
        vtable.operations().2 == vtable.retrieve_message.function(),
{
}

/// An answer that the interface gives to a message is one that the send function gave when it
/// was called with that message's type, bytes and size.
pub proof fn law_send_answer_is_the_functions<S, A, R>(operations: (S, A, R), sent: Sent) where
    S: Fn(u32, &[u8], u32) -> EGCResults,
    A: Fn() -> (bool, u32),
    R: Fn(Vec<u8>, u32) -> Retrieved,

    requires
        <IGameCoordinator_vtable<S, A, R> as ISteamGameCoordinator>::sends(operations, sent),
    ensures
        exists|data: &[u8]|
            data@ == sent.data && #[trigger] call_ensures(
                operations.0,
                (sent.msg_type, data, sent.size),
                sent.result,
            ),
{
}

/// An answer that the interface gives on availability is one that the availability function
/// gave.
pub proof fn law_poll_answer_is_the_functions<S, A, R>(
    operations: (S, A, R),
    reply: (bool, u32),
) where
    S: Fn(u32, &[u8], u32) -> EGCResults,
    A: Fn() -> (bool, u32),
    R: Fn(Vec<u8>, u32) -> Retrieved,

    requires
        <IGameCoordinator_vtable<S, A, R> as ISteamGameCoordinator>::polls(operations, reply),
    ensures
        call_ensures(operations.1, (), reply),
{
}

/// An answer that the interface gives to a request is one that the retrieve function gave when
/// it was called with that buffer and size.
pub proof fn law_retrieve_answer_is_the_functions<S, A, R>(
    operations: (S, A, R),
    attempt: Attempt,
) where
    S: Fn(u32, &[u8], u32) -> EGCResults,
    A: Fn() -> (bool, u32),
    R: Fn(Vec<u8>, u32) -> Retrieved,

    requires
        <IGameCoordinator_vtable<S, A, R> as ISteamGameCoordinator>::retrieves(
            operations,
            attempt,
        ),
    ensures
        call_ensures(operations.2, (attempt.buffer, attempt.cub_dest), attempt.reply),
{
}

/// What a send call returns, of any function that can be called once, is what the function
/// returned for its arguments; and the call asks no more than that the function takes them.
pub proof fn law_send_call_is_one_call<F: FnOnce(u32, &[u8], u32) -> EGCResults>(
    call: SendCall<'_>,
    f: F,
    out: EGCResults,
)
    ensures
        Call::<F, EGCResults>::returned(call, f, out) ==> call_ensures(
            f,
            (call.msg_type, call.data, call.size),
            out,
        ),
        call_requires(f, (call.msg_type, call.data, call.size)) ==> Call::<
            F,
            EGCResults,
        >::callable(call, f),
{
}

/// What an availability call returns, of any function that can be called once, is what the
/// function returned; and the call asks no more than that the function can be called.
pub proof fn law_poll_call_is_one_call<F: FnOnce() -> (bool, u32)>(
    call: PollCall,
    f: F,
    out: (bool, u32),
)
    ensures
        Call::<F, (bool, u32)>::returned(call, f, out) ==> call_ensures(f, (), out),
        call_requires(f, ()) ==> Call::<F, (bool, u32)>::callable(call, f),
{
}

/// What a retrieve call returns, of any function that can be called once, is what the function
/// returned for its arguments; and the call asks no more than that the function takes them.
pub proof fn law_retrieve_call_is_one_call<F: FnOnce(Vec<u8>, u32) -> Retrieved>(
    call: RetrieveCall,
    f: F,
    out: Retrieved,
)
    ensures
        Call::<F, Retrieved>::returned(call, f, out) ==> call_ensures(
            f,
            (call.buffer, call.cub_dest),
            out,
        ),
        call_requires(f, (call.buffer, call.cub_dest)) ==> Call::<F, Retrieved>::callable(call, f),
{
}

/// Functions that can be called with any arguments, and of which the last calls no buffer too
/// small that cannot be made larger, are ready.
pub proof fn law_callable_functions_are_ready<S, A, R>(operations: (S, A, R)) where
    S: Fn(u32, &[u8], u32) -> EGCResults,
    A: Fn() -> (bool, u32),
    R: Fn(Vec<u8>, u32) -> Retrieved,

    requires
        forall|msg_type: u32, data: &[u8], size: u32| #[trigger]
            call_requires(operations.0, (msg_type, data, size)),
        call_requires(operations.1, ()),
        forall|buffer: Vec<u8>, cub_dest: u32| #[trigger]
            call_requires(operations.2, (buffer, cub_dest)),
        forall|buffer: Vec<u8>, cub_dest: u32, reply: Retrieved| #[trigger]
            call_ensures(operations.2, (buffer, cub_dest), reply) && reply.result
                == EGCResults::k_EGCResultBufferTooSmall ==> cub_dest < u32::MAX && 2 * cub_dest
                <= isize::MAX,
    ensures
        <IGameCoordinator_vtable<S, A, R> as ISteamGameCoordinator>::ready(operations),
{
}

} // verus!
