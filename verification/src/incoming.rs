//! What receiving gives, from a coordinator that holds messages in a queue.

use crate::coordinator::Attempt;
use crate::gc::{attempt_capacity, attempt_made, attempts_made, cut, offered, receives};
use crate::message::{EGCResults, GCResult, RecvMessageProperties};
use vstd::prelude::*;

verus! {

/// A message in the coordinator's queue.
pub struct Message {
    /// Raw type of the message.
    pub msg_type: u32,
    /// Its contents.
    pub bytes: Seq<u8>,
}

/// The properties with which a message is received.
pub open spec fn props_of(message: Message) -> RecvMessageProperties {
    RecvMessageProperties {
        msg_type: message.msg_type,
        msg_size: message.bytes.len() as u32,
    }
}

/// The request is answered by a coordinator that holds the messages of `queue`: it hands out
/// the message at the head if what is offered is enough for it; it calls the buffer too small
/// only if it is not; and it may report any other error.
pub open spec fn answered(queue: Seq<Message>, attempt: Attempt) -> bool {
    let reply = attempt.reply;
    if reply.result == EGCResults::k_EGCResultOK {
        &&& queue.len() > 0
        &&& queue[0].bytes.len() <= attempt.cub_dest
        &&& reply.msg_type == queue[0].msg_type
        &&& reply.msg_size == queue[0].bytes.len()
        &&& cut(reply.buffer@, queue[0].bytes.len()) == queue[0].bytes
    } else if reply.result == EGCResults::k_EGCResultBufferTooSmall {
        &&& queue.len() > 0
        &&& attempt.cub_dest < queue[0].bytes.len()
    } else {
        true
    }
}

/// What is left of `queue` after the attempts: each message that was handed out is gone.
pub open spec fn left(queue: Seq<Message>, attempts: Seq<Attempt>) -> Seq<Message>
    decreases attempts.len(),
{
    if attempts.len() == 0 {
        queue
    } else {
        let rest = left(queue, attempts.drop_last());
        if attempts.last().reply.result == EGCResults::k_EGCResultOK {
            rest.skip(1)
        } else {
            rest
        }
    }
}

/// The attempts are answered, one after the other, by a coordinator that at first holds the
/// messages of `queue` and removes each that it hands out.
pub open spec fn served(queue: Seq<Message>, attempts: Seq<Attempt>) -> bool
    decreases attempts.len(),
{
    attempts.len() > 0 ==> {
        &&& served(queue, attempts.drop_last())
        &&& answered(left(queue, attempts.drop_last()), attempts.last())
    }
}

/// The coordinator reports no error in these attempts.
pub open spec fn no_error(attempts: Seq<Attempt>) -> bool {
    forall|k: int|
        0 <= k < attempts.len() ==> {
            ||| (#[trigger] attempts[k]).reply.result == EGCResults::k_EGCResultOK
            ||| attempts[k].reply.result == EGCResults::k_EGCResultBufferTooSmall
        }
}

/// Attempts that all found the buffer too small take no message.
proof fn lemma_refused_attempts(queue: Seq<Message>, attempts: Seq<Attempt>)
    requires
        served(queue, attempts),
        forall|k: int|
            0 <= k < attempts.len() ==> (#[trigger] attempts[k]).reply.result
                == EGCResults::k_EGCResultBufferTooSmall,
    ensures
        left(queue, attempts) == queue,
        forall|k: int| 0 <= k < attempts.len() ==> answered(queue, #[trigger] attempts[k]),
    decreases attempts.len(),
{
    if attempts.len() > 0 {
        let earlier = attempts.drop_last();
        assert forall|k: int| 0 <= k < earlier.len() implies (#[trigger] earlier[k]).reply.result
            == EGCResults::k_EGCResultBufferTooSmall by {
            assert(earlier[k] == attempts[k]);
        }
        lemma_refused_attempts(queue, earlier);
        assert forall|k: int| 0 <= k < attempts.len() implies answered(
            queue,
            #[trigger] attempts[k],
        ) by {
            if k < earlier.len() {
                assert(attempts[k] == earlier[k]);
            }
        }
    }
}

/// All attempts of one receive are answered out of the same queue.
proof fn lemma_one_receive(
    queue: Seq<Message>,
    before: Seq<u8>,
    capacity: nat,
    attempts: Seq<Attempt>,
)
    requires
        attempts_made(before, capacity, attempts),
        served(queue, attempts),
    ensures
        left(queue, attempts.drop_last()) == queue,
        forall|k: int| 0 <= k < attempts.len() ==> answered(queue, #[trigger] attempts[k]),
        forall|k: int|
            0 <= k < attempts.len() ==> (#[trigger] attempts[k]).cub_dest == offered(
                attempt_capacity(capacity, k as nat),
            ),
{
    let earlier = attempts.drop_last();
    assert forall|k: int| 0 <= k < earlier.len() implies (#[trigger] earlier[k]).reply.result
        == EGCResults::k_EGCResultBufferTooSmall by {
        assert(earlier[k] == attempts[k]);
    }
    lemma_refused_attempts(queue, earlier);
    assert forall|k: int| 0 <= k < attempts.len() implies answered(
        queue,
        #[trigger] attempts[k],
    ) by {
        if k < earlier.len() {
            assert(attempts[k] == earlier[k]);
        }
    }
    assert forall|k: int| 0 <= k < attempts.len() implies (#[trigger] attempts[k]).cub_dest
        == offered(attempt_capacity(capacity, k as nat)) by {
        assert(attempt_made(before, capacity, attempts, k));
    }
}

/// What a receive takes is the message at the head of the queue, and that one only: after Ok
/// the vector holds it, its type and size are returned, and it is gone from the queue; after an
/// error nothing is gone.
pub proof fn law_receive_takes_head(
    queue: Seq<Message>,
    before: Seq<u8>,
    capacity: nat,
    attempts: Seq<Attempt>,
    after: Seq<u8>,
    r: GCResult<RecvMessageProperties>,
)
    requires
        receives(before, capacity, attempts, after, r),
        served(queue, attempts),
    ensures
        match r {
            Ok(props) => {
                &&& queue.len() > 0
                &&& queue[0].bytes.len() <= u32::MAX
                &&& props == props_of(queue[0])
                &&& props.msg_type == queue[0].msg_type
                &&& props.msg_size == queue[0].bytes.len()
                &&& after == queue[0].bytes
                &&& left(queue, attempts) == queue.skip(1)
            },
            Err(_) => left(queue, attempts) == queue,
        },
{
    lemma_one_receive(queue, before, capacity, attempts);
    assert(attempts[attempts.len() - 1] == attempts.last());
}

/// Whatever room the vector has at first, and whatever it holds, the message at the head of the
/// queue is received unless the coordinator reports an error.
pub proof fn law_message_is_received(
    queue: Seq<Message>,
    before: Seq<u8>,
    capacity: nat,
    attempts: Seq<Attempt>,
    after: Seq<u8>,
    r: GCResult<RecvMessageProperties>,
)
    requires
        receives(before, capacity, attempts, after, r),
        served(queue, attempts),
        no_error(attempts),
    ensures
        queue.len() > 0,
        r == Ok::<RecvMessageProperties, EGCResults>(props_of(queue[0])),
        r is Ok,
        r->Ok_0.msg_type == queue[0].msg_type,
        r->Ok_0.msg_size == queue[0].bytes.len(),
        after == queue[0].bytes,
        left(queue, attempts) == queue.skip(1),
{
    assert(attempts[attempts.len() - 1] == attempts.last());
    law_receive_takes_head(queue, before, capacity, attempts, after, r);
}

/// One call that receives a message.
pub struct Receive {
    /// What the vector held.
    pub before: Seq<u8>,
    /// The room that it had.
    pub capacity: nat,
    /// The requests that the call made.
    pub attempts: Seq<Attempt>,
    /// What the vector holds afterwards.
    pub after: Seq<u8>,
    /// What the call returned.
    pub r: GCResult<RecvMessageProperties>,
}

impl Receive {
    /// The call does what receiving does.
    pub open spec fn valid(self) -> bool {
        receives(self.before, self.capacity, self.attempts, self.after, self.r)
    }
}

/// The requests that successive calls make.
pub open spec fn requests_of(calls: Seq<Receive>) -> Seq<Attempt>
    decreases calls.len(),
{
    if calls.len() == 0 {
        Seq::empty()
    } else {
        requests_of(calls.drop_last()) + calls.last().attempts
    }
}

/// How many of the calls returned Ok.
pub open spec fn count_ok(calls: Seq<Receive>) -> nat
    decreases calls.len(),
{
    if calls.len() == 0 {
        0
    } else {
        count_ok(calls.drop_last()) + if calls.last().r is Ok {
            1nat
        } else {
            0nat
        }
    }
}

/// Attempts can be looked at in two parts, the second starting from what the first left.
proof fn lemma_served_in_parts(queue: Seq<Message>, first: Seq<Attempt>, second: Seq<Attempt>)
    ensures
        left(queue, first + second) == left(left(queue, first), second),
        served(queue, first + second) == (served(queue, first) && served(
            left(queue, first),
            second,
        )),
    decreases second.len(),
{
    if second.len() == 0 {
        assert(first + second =~= first);
    } else {
        let all = first + second;
        assert(all.drop_last() =~= first + second.drop_last());
        assert(all.last() == second.last());
        lemma_served_in_parts(queue, first, second.drop_last());
    }
}

/// Successive receives give successive messages, none lost and none repeated: the call that
/// returns Ok after `n` others that did gives message number `n` of the queue, and what is left
/// in the queue are the messages after those given.
pub proof fn law_messages_come_in_order(queue: Seq<Message>, calls: Seq<Receive>)
    requires
        forall|i: int| 0 <= i < calls.len() ==> (#[trigger] calls[i]).valid(),
        served(queue, requests_of(calls)),
    ensures
        count_ok(calls) <= queue.len(),
        left(queue, requests_of(calls)) == queue.skip(count_ok(calls) as int),
        forall|i: int|
            0 <= i < calls.len() && (#[trigger] calls[i]).r is Ok ==> {
                let n = count_ok(calls.take(i)) as int;
                &&& n < queue.len()
                &&& calls[i].r == Ok::<RecvMessageProperties, EGCResults>(props_of(queue[n]))
                &&& calls[i].r->Ok_0.msg_type == queue[n].msg_type
                &&& calls[i].r->Ok_0.msg_size == queue[n].bytes.len()
                &&& calls[i].after == queue[n].bytes
            },
    decreases calls.len(),
{
    if calls.len() == 0 {
        assert(queue.skip(0) =~= queue);
    } else {
        let earlier = calls.drop_last();
        let last = calls.last();
        assert(calls[calls.len() - 1] == last);
        assert(last.valid());
        assert forall|i: int| 0 <= i < earlier.len() implies (#[trigger] earlier[i]).valid() by {
            assert(earlier[i] == calls[i]);
        }
        lemma_served_in_parts(queue, requests_of(earlier), last.attempts);
        law_messages_come_in_order(queue, earlier);
        let given = count_ok(earlier) as int;
        let rest = queue.skip(given);
        law_receive_takes_head(
            rest,
            last.before,
            last.capacity,
            last.attempts,
            last.after,
            last.r,
        );
        if last.r is Ok {
            assert(rest.skip(1) =~= queue.skip(given + 1));
        }
        assert forall|i: int| 0 <= i < calls.len() && (#[trigger] calls[i]).r is Ok implies {
            let n = count_ok(calls.take(i)) as int;
            &&& n < queue.len()
            &&& calls[i].r == Ok::<RecvMessageProperties, EGCResults>(props_of(queue[n]))
            &&& calls[i].r->Ok_0.msg_type == queue[n].msg_type
            &&& calls[i].r->Ok_0.msg_size == queue[n].bytes.len()
            &&& calls[i].after == queue[n].bytes
        } by {
            if i < earlier.len() {
                assert(calls[i] == earlier[i]);
                assert(calls.take(i) =~= earlier.take(i));
            } else {
                assert(calls.take(i) =~= earlier);
            }
        }
    }
}

/// When every call returns Ok, call number `i` gives message number `i`.
pub proof fn law_every_call_gives_the_next_message(queue: Seq<Message>, calls: Seq<Receive>)
    requires
        forall|i: int|
            0 <= i < calls.len() ==> (#[trigger] calls[i]).valid() && calls[i].r is Ok,
        served(queue, requests_of(calls)),
    ensures
        calls.len() <= queue.len(),
        left(queue, requests_of(calls)) == queue.skip(calls.len() as int),
        forall|i: int|
            0 <= i < calls.len() ==> {
                &&& (#[trigger] calls[i]).r == Ok::<RecvMessageProperties, EGCResults>(
                    props_of(queue[i]),
                )
                &&& calls[i].r->Ok_0.msg_type == queue[i].msg_type
                &&& calls[i].r->Ok_0.msg_size == queue[i].bytes.len()
                &&& calls[i].after == queue[i].bytes
            },
{
    law_messages_come_in_order(queue, calls);
    lemma_all_ok(calls);
    assert forall|i: int| 0 <= i < calls.len() implies {
        &&& (#[trigger] calls[i]).r == Ok::<RecvMessageProperties, EGCResults>(props_of(queue[i]))
        &&& calls[i].r->Ok_0.msg_type == queue[i].msg_type
        &&& calls[i].r->Ok_0.msg_size == queue[i].bytes.len()
        &&& calls[i].after == queue[i].bytes
    } by {
        assert forall|j: int| 0 <= j < i implies (#[trigger] calls.take(i)[j]).r is Ok by {
            assert(calls.take(i)[j] == calls[j]);
        }
        lemma_all_ok(calls.take(i));
    }
}

proof fn lemma_all_ok(calls: Seq<Receive>)
    requires
        forall|i: int| 0 <= i < calls.len() ==> (#[trigger] calls[i]).r is Ok,
    ensures
        count_ok(calls) == calls.len(),
    decreases calls.len(),
{
    if calls.len() > 0 {
        let earlier = calls.drop_last();
        assert forall|i: int| 0 <= i < earlier.len() implies (#[trigger] earlier[i]).r is Ok by {
            assert(earlier[i] == calls[i]);
        }
        lemma_all_ok(earlier);
        assert(calls[calls.len() - 1] == calls.last());
    }
}

/// A buffer that is called too small for a message can always be made larger, as long as a
/// vector can hold twice the message.
pub proof fn law_refused_buffer_can_grow(queue: Seq<Message>, attempt: Attempt)
    requires
        answered(queue, attempt),
        attempt.reply.result == EGCResults::k_EGCResultBufferTooSmall,
        queue[0].bytes.len() <= u32::MAX,
        2 * queue[0].bytes.len() <= isize::MAX,
    ensures
        attempt.cub_dest < u32::MAX,
        2 * attempt.cub_dest <= isize::MAX,
{
}

/// Each further attempt at receiving a message has a larger buffer than every earlier one.
pub proof fn law_buffer_grows(capacity: nat, j: nat, k: nat)
    requires
        j < k,
    ensures
        0 < attempt_capacity(capacity, j) < attempt_capacity(capacity, k),
    decreases k,
{
    if j + 1 < k {
        law_buffer_grows(capacity, j, (k - 1) as nat);
    }
    if j > 0 {
        law_buffer_grows(capacity, 0, j);
    }
}

/// The first attempt offers the room that the vector has, or 4096 bytes if it has none, as far
/// as 32 bits can count it.
pub proof fn law_first_offer(before: Seq<u8>, capacity: nat, attempts: Seq<Attempt>)
    requires
        attempts_made(before, capacity, attempts),
    ensures
        attempts[0].cub_dest == offered(
            if capacity == 0 {
                4096
            } else {
                capacity
            },
        ),
        capacity == 0 ==> attempts[0].cub_dest == 4096,
        0 < capacity <= u32::MAX ==> attempts[0].cub_dest == capacity,
        capacity > u32::MAX ==> attempts[0].cub_dest == u32::MAX,
{
    assert(attempt_made(before, capacity, attempts, 0));
}

/// Every attempt hands over a buffer that has the room it offers, with what the vector held (in
/// later attempts: what came back) at its front and zeroes behind.
pub proof fn law_buffer_has_the_room(
    before: Seq<u8>,
    capacity: nat,
    attempts: Seq<Attempt>,
    k: int,
    i: int,
)
    requires
        attempts_made(before, capacity, attempts),
        0 <= k < attempts.len(),
        0 <= i < attempts[k].buffer@.len(),
    ensures
        attempts[k].cub_dest <= attempts[k].buffer@.len(),
        attempts[k].cub_dest < u32::MAX ==> attempts[k].cub_dest == attempts[k].buffer@.len(),
        ({
            let held = if k == 0 {
                before
            } else {
                attempts[k - 1].reply.buffer@
            };
            attempts[k].buffer@[i] == if i < held.len() {
                held[i]
            } else {
                0
            }
        }),
{
    assert(attempt_made(before, capacity, attempts, k));
}

/// A receive returns what the first answer other than "too small" says, and asks nothing after
/// it: Ok with the type and size of that answer, and its first bytes in the vector, if it is OK;
/// otherwise that answer as the error, and as many bytes in the vector as it held.
pub proof fn law_receive_reports_last_answer(
    before: Seq<u8>,
    capacity: nat,
    attempts: Seq<Attempt>,
    after: Seq<u8>,
    r: GCResult<RecvMessageProperties>,
)
    requires
        receives(before, capacity, attempts, after, r),
    ensures
        attempts.len() > 0,
        forall|k: int|
            0 <= k < attempts.len() ==> ((#[trigger] attempts[k]).reply.result
                == EGCResults::k_EGCResultBufferTooSmall <==> k < attempts.len() - 1),
        ({
            let reply = attempts.last().reply;
            match r {
                Ok(props) => {
                    &&& reply.result == EGCResults::k_EGCResultOK
                    &&& props.msg_type == reply.msg_type
                    &&& props.msg_size == reply.msg_size
                    &&& reply.msg_size <= reply.buffer@.len() ==> after == reply.buffer@.take(
                        reply.msg_size as int,
                    )
                    &&& reply.msg_size > reply.buffer@.len() ==> after == reply.buffer@
                },
                Err(e) => {
                    &&& reply.result == e
                    &&& e != EGCResults::k_EGCResultOK
                    &&& e != EGCResults::k_EGCResultBufferTooSmall
                    &&& before.len() <= reply.buffer@.len() ==> after == reply.buffer@.take(
                        before.len() as int,
                    )
                    &&& before.len() > reply.buffer@.len() ==> after == reply.buffer@
                },
            }
        }),
{
    assert(attempts[attempts.len() - 1] == attempts.last());
}

/// Each further attempt offers more than the one before: twice as much, as long as 32 bits can
/// count it.
pub proof fn law_offers_grow(before: Seq<u8>, capacity: nat, attempts: Seq<Attempt>, k: int)
    requires
        attempts_made(before, capacity, attempts),
        0 <= k < attempts.len() - 1,
        attempts[k].cub_dest < u32::MAX,
    ensures
        attempts[k].cub_dest < attempts[k + 1].cub_dest,
        2 * attempts[k].cub_dest <= u32::MAX ==> attempts[k + 1].cub_dest == 2
            * attempts[k].cub_dest,
{
    assert(attempt_made(before, capacity, attempts, k));
    assert(attempt_made(before, capacity, attempts, k + 1));
    law_buffer_grows(capacity, k as nat, (k + 1) as nat);
}

/// No attempt is made beyond the first that offers enough room for the message: a vector with
/// room for it takes one attempt.
pub proof fn law_no_needless_attempt(
    queue: Seq<Message>,
    before: Seq<u8>,
    capacity: nat,
    attempts: Seq<Attempt>,
)
    requires
        attempts_made(before, capacity, attempts),
        served(queue, attempts),
        queue.len() > 0,
    ensures
        forall|k: int|
            0 <= k < attempts.len() - 1 ==> (#[trigger] attempts[k]).cub_dest
                < queue[0].bytes.len(),
        queue[0].bytes.len() <= offered(attempt_capacity(capacity, 0)) ==> attempts.len() == 1,
{
    lemma_one_receive(queue, before, capacity, attempts);
    assert forall|k: int| 0 <= k < attempts.len() - 1 implies (#[trigger] attempts[k]).cub_dest
        < queue[0].bytes.len() by {
        assert(answered(queue, attempts[k]));
    }
    if attempts.len() > 1 {
        assert(attempts[0].cub_dest < queue[0].bytes.len());
    }
}

/// A message of any size that the interface can express is received within 33 attempts.
pub proof fn law_attempts_are_bounded(
    queue: Seq<Message>,
    before: Seq<u8>,
    capacity: nat,
    attempts: Seq<Attempt>,
)
    requires
        attempts_made(before, capacity, attempts),
        served(queue, attempts),
        queue.len() > 0,
        queue[0].bytes.len() <= u32::MAX,
    ensures
        attempts.len() <= 33,
{
    if attempts.len() > 33 {
        law_no_needless_attempt(queue, before, capacity, attempts);
        lemma_capacity_doubles(capacity, 32);
        assert(attempts[32].cub_dest < queue[0].bytes.len());
        assert(attempt_made(before, capacity, attempts, 32));
    }
}

proof fn lemma_capacity_doubles(capacity: nat, k: nat)
    ensures
        attempt_capacity(capacity, k) >= vstd::arithmetic::power2::pow2(k),
        k == 32 ==> attempt_capacity(capacity, k) >= 0x1_0000_0000,
    decreases k,
{
    vstd::arithmetic::power2::lemma2_to64();
    if k > 0 {
        lemma_capacity_doubles(capacity, (k - 1) as nat);
        vstd::arithmetic::power2::lemma_pow2_unfold(k);
    }
}

/// When the coordinator leaves the buffers alone and ends with an error, also after calling
/// some too small, that error is returned and the vector holds what it held before.
pub proof fn law_refusal_leaves_vector(
    before: Seq<u8>,
    capacity: nat,
    attempts: Seq<Attempt>,
    after: Seq<u8>,
    r: GCResult<RecvMessageProperties>,
)
    requires
        receives(before, capacity, attempts, after, r),
        before.len() <= capacity,
        attempts.last().reply.result != EGCResults::k_EGCResultOK,
        forall|k: int|
            0 <= k < attempts.len() ==> (#[trigger] attempts[k]).reply.buffer@
                == attempts[k].buffer@,
    ensures
        r == Err::<RecvMessageProperties, EGCResults>(attempts.last().reply.result),
        after == before,
{
    let last = attempts.len() - 1;
    lemma_contents_kept(before, capacity, attempts, last);
    assert(attempts[last] == attempts.last());
    assert(after =~= before);
}

proof fn lemma_contents_kept(before: Seq<u8>, capacity: nat, attempts: Seq<Attempt>, k: int)
    requires
        attempts_made(before, capacity, attempts),
        before.len() <= capacity,
        forall|k: int|
            0 <= k < attempts.len() ==> (#[trigger] attempts[k]).reply.buffer@
                == attempts[k].buffer@,
        0 <= k < attempts.len(),
    ensures
        attempts[k].reply.buffer@.len() >= before.len(),
        attempts[k].reply.buffer@.take(before.len() as int) == before,
    decreases k,
{
    assert(attempt_made(before, capacity, attempts, k));
    if k > 0 {
        lemma_contents_kept(before, capacity, attempts, k - 1);
        law_buffer_grows(capacity, 0, k as nat);
        let held = attempts[k - 1].reply.buffer@;
        assert forall|i: int| 0 <= i < before.len() implies attempts[k].buffer@[i]
            == before[i] by {
            assert(held.take(before.len() as int)[i] == held[i]);
        }
    }
    assert(attempts[k].reply.buffer@.take(before.len() as int) =~= before);
}

/// When the coordinator hands out no more than it was offered and gives the buffer back whole,
/// the vector holds as many bytes as the message is said to have.
pub proof fn law_size_is_length(
    before: Seq<u8>,
    capacity: nat,
    attempts: Seq<Attempt>,
    after: Seq<u8>,
    r: GCResult<RecvMessageProperties>,
)
    requires
        receives(before, capacity, attempts, after, r),
        r is Ok,
        attempts.last().reply.msg_size <= attempts.last().cub_dest,
        attempts.last().reply.buffer@.len() == attempts.last().buffer@.len(),
    ensures
        after.len() == r->Ok_0.msg_size,
{
    let last = attempts.len() - 1;
    assert(attempts[last] == attempts.last());
    assert(attempt_made(before, capacity, attempts, last));
}

/// Whatever a coordinator with this queue may answer counts as answered: the head of the queue
/// for an offer that is enough for it, "too small" for one that is not, and any other error.
pub proof fn law_every_honest_answer_counts(queue: Seq<Message>, attempt: Attempt)
    ensures
        queue.len() > 0 && queue[0].bytes.len() <= attempt.cub_dest && attempt.reply.result
            == EGCResults::k_EGCResultOK && attempt.reply.msg_type == queue[0].msg_type
            && attempt.reply.msg_size == queue[0].bytes.len() && queue[0].bytes.len()
            <= attempt.reply.buffer@.len() && attempt.reply.buffer@.take(
            queue[0].bytes.len() as int,
        ) == queue[0].bytes ==> answered(queue, attempt),
        queue.len() > 0 && attempt.cub_dest < queue[0].bytes.len() && attempt.reply.result
            == EGCResults::k_EGCResultBufferTooSmall ==> answered(queue, attempt),
        attempt.reply.result != EGCResults::k_EGCResultOK && attempt.reply.result
            != EGCResults::k_EGCResultBufferTooSmall ==> answered(queue, attempt),
{
}

/// The queue loses its head with every request that is answered OK, and nothing otherwise; each
/// request is answered out of what is left by those before it.
pub proof fn law_queue_loses_what_is_handed_out(
    queue: Seq<Message>,
    attempts: Seq<Attempt>,
    next: Attempt,
)
    ensures
        left(queue, Seq::<Attempt>::empty()) == queue,
        served(queue, Seq::<Attempt>::empty()),
        left(queue, attempts.push(next)) == if next.reply.result == EGCResults::k_EGCResultOK {
            left(queue, attempts).skip(1)
        } else {
            left(queue, attempts)
        },
        served(queue, attempts.push(next)) <==> served(queue, attempts) && answered(
            left(queue, attempts),
            next,
        ),
{
    assert(attempts.push(next).drop_last() =~= attempts);
}

} // verus!
