use std::cell::{Cell, RefCell};
use steamworks_gc::header::frame_message;
use steamworks_gc::{
    EGCResults, GCMessageAvailable, GCMessageFailed, GCResult, IGameCoordinator_vtable,
    RecvMessageProperties, Retrieved, GC,
};

const CLIENT_HELLO_MESSAGE_ID: u32 = 0x80000000 + 4006;
const CLIENT_WELCOME_MESSAGE_ID: u32 = 0x80000000 + 4004;

fn refuse_send(_: u32, _: &[u8], _: u32) -> EGCResults {
    EGCResults::k_EGCResultNotLoggedOn
}

fn nothing_available() -> (bool, u32) {
    (false, 17)
}

/// Answers as a coordinator that holds one message.
fn hand_out(mut buffer: Vec<u8>, cub_dest: u32, msg_type: u32, message: &[u8]) -> Retrieved {
    assert!(cub_dest as usize <= buffer.len());
    if (cub_dest as usize) < message.len() {
        return Retrieved {
            result: EGCResults::k_EGCResultBufferTooSmall,
            msg_type: 0,
            msg_size: 0,
            buffer,
        };
    }
    buffer[..message.len()].copy_from_slice(message);
    Retrieved {
        result: EGCResults::k_EGCResultOK,
        msg_type,
        msg_size: message.len() as u32,
        buffer,
    }
}

/// Receives `message` into `out`, and gives back the result and the sizes that were offered.
fn receive(out: &mut Vec<u8>, message: &[u8]) -> (GCResult<RecvMessageProperties>, Vec<u32>) {
    let offers: RefCell<Vec<u32>> = RefCell::new(Vec::new());
    let r = GC {
        gc: IGameCoordinator_vtable::new(
            refuse_send,
            nothing_available,
            |buffer: Vec<u8>, cub_dest: u32| {
                offers.borrow_mut().push(cub_dest);
                hand_out(buffer, cub_dest, CLIENT_WELCOME_MESSAGE_ID, message)
            },
        ),
    }
    .recv_message(out);
    (r, offers.into_inner())
}

/// Receives into `out` from a coordinator that answers every request with `error`.
fn receive_error(out: &mut Vec<u8>, error: EGCResults) -> GCResult<RecvMessageProperties> {
    GC {
        gc: IGameCoordinator_vtable::new(
            refuse_send,
            nothing_available,
            |buffer: Vec<u8>, _: u32| Retrieved {
                result: error,
                msg_type: 0,
                msg_size: 0,
                buffer,
            },
        ),
    }
    .recv_message(out)
}

#[test]
fn frame_of_a_short_message() {
    assert_eq!(
        frame_message(CLIENT_HELLO_MESSAGE_ID, &[1, 2, 3]),
        vec![0xa6, 0x0f, 0x00, 0x80, 3, 0, 0, 0, 1, 2, 3]
    );
}

#[test]
fn frame_of_an_empty_message_is_the_header() {
    assert_eq!(frame_message(0x01020304, &[]), vec![4, 3, 2, 1, 0, 0, 0, 0]);
}

#[test]
fn frame_length_field_is_little_endian() {
    let body = vec![7u8; 0x1_02_03];
    let message = frame_message(0, &body);
    assert_eq!(message.len(), body.len() + 8);
    assert_eq!(&message[..8], &[0, 0, 0, 0, 0x03, 0x02, 0x01, 0x00]);
    assert_eq!(&message[8..], &body[..]);
}

#[test]
fn frames_tell_messages_apart() {
    let messages: Vec<(u32, Vec<u8>)> =
        vec![(0, vec![]), (1, vec![]), (256, vec![]), (0, vec![0]), (0, vec![0, 0]), (0, vec![1])];
    for (i, a) in messages.iter().enumerate() {
        for (j, b) in messages.iter().enumerate() {
            assert_eq!(frame_message(a.0, &a.1) == frame_message(b.0, &b.1), i == j);
        }
    }
}

/// Sends one message to a coordinator that answers `answer`; gives back the result and what the
/// coordinator was handed.
fn send(answer: EGCResults, msg_type: u32, data: &[u8]) -> (GCResult<()>, Vec<(u32, Vec<u8>, u32)>) {
    let sent: RefCell<Vec<(u32, Vec<u8>, u32)>> = RefCell::new(Vec::new());
    let r = GC {
        gc: IGameCoordinator_vtable::new(
            |t: u32, bytes: &[u8], size: u32| {
                sent.borrow_mut().push((t, bytes.to_vec(), size));
                answer
            },
            nothing_available,
            |buffer: Vec<u8>, n: u32| hand_out(buffer, n, 0, &[]),
        ),
    }
    .send_message(msg_type, data);
    (r, sent.into_inner())
}

#[test]
fn send_hands_over_the_framed_message_once() {
    let (r, sent) = send(EGCResults::k_EGCResultOK, CLIENT_HELLO_MESSAGE_ID, &[9, 8]);
    assert_eq!(r, Ok(()));
    assert_eq!(
        sent,
        vec![(CLIENT_HELLO_MESSAGE_ID, vec![0xa6, 0x0f, 0x00, 0x80, 2, 0, 0, 0, 9, 8], 10)]
    );
}

#[test]
fn send_returns_the_coordinators_error() {
    for error in [
        EGCResults::k_EGCResultNoMessage,
        EGCResults::k_EGCResultBufferTooSmall,
        EGCResults::k_EGCResultNotLoggedOn,
        EGCResults::k_EGCResultInvalidMessage,
    ] {
        let (r, sent) = send(error, 5, &[]);
        assert_eq!(r, Err(error));
        assert_eq!(sent, vec![(5, vec![5, 0, 0, 0, 0, 0, 0, 0], 8)]);
    }
}

#[test]
fn recv_with_enough_room_takes_one_attempt() {
    let mut out: Vec<u8> = Vec::with_capacity(64);
    let capacity = out.capacity() as u32;
    let (r, offers) = receive(&mut out, &[1, 2, 3]);
    assert_eq!(
        r,
        Ok(RecvMessageProperties { msg_type: CLIENT_WELCOME_MESSAGE_ID, msg_size: 3 })
    );
    assert_eq!(out, vec![1, 2, 3]);
    assert_eq!(offers, vec![capacity]);
}

#[test]
fn recv_into_a_new_vector_offers_the_default_room() {
    let mut out: Vec<u8> = Vec::new();
    let (r, offers) = receive(&mut out, &[5]);
    assert_eq!(r.unwrap().msg_size, 1);
    assert_eq!(out, vec![5]);
    assert_eq!(offers, vec![4096]);
}

#[test]
fn recv_grows_the_vector_until_the_message_fits() {
    let message: Vec<u8> = (0..20000u32).map(|i| i as u8).collect();
    let mut out: Vec<u8> = Vec::new();
    let (r, offers) = receive(&mut out, &message);
    assert_eq!(r.unwrap().msg_size, 20000);
    assert_eq!(out, message);
    assert_eq!(offers, vec![4096, 8192, 16384, 32768]);
}

#[test]
fn recv_grows_a_vector_that_holds_nothing_but_has_room() {
    let message = vec![3u8; 1000];
    let mut out: Vec<u8> = Vec::with_capacity(100);
    let capacity = out.capacity() as u32;
    let (r, offers) = receive(&mut out, &message);
    assert_eq!(r.unwrap().msg_size, 1000);
    assert_eq!(out, message);
    assert_eq!(offers[0], capacity);
    for i in 1..offers.len() {
        assert_eq!(offers[i], 2 * offers[i - 1]);
    }
    assert!(offers[offers.len() - 1] >= 1000 && offers[offers.len() - 2] < 1000);
}

#[test]
fn recv_replaces_what_the_vector_held() {
    let mut out: Vec<u8> = vec![9; 50];
    let (r, _) = receive(&mut out, &[1, 2]);
    assert_eq!(r.unwrap().msg_size, 2);
    assert_eq!(out, vec![1, 2]);
}

#[test]
fn recv_of_an_empty_message() {
    let mut out: Vec<u8> = vec![9; 5];
    let (r, _) = receive(&mut out, &[]);
    assert_eq!(r.unwrap().msg_size, 0);
    assert_eq!(out, Vec::<u8>::new());
}

#[test]
fn recv_error_is_returned_and_leaves_the_vector() {
    for error in [
        EGCResults::k_EGCResultNoMessage,
        EGCResults::k_EGCResultNotLoggedOn,
        EGCResults::k_EGCResultInvalidMessage,
    ] {
        let mut out: Vec<u8> = vec![1, 2, 3];
        assert_eq!(receive_error(&mut out, error), Err(error));
        assert_eq!(out, vec![1, 2, 3]);
    }
}

#[test]
fn recv_available_offers_the_announced_size() {
    let offers: RefCell<Vec<u32>> = RefCell::new(Vec::new());
    let message = vec![4u8; 30];
    let mut gc = GC {
        gc: IGameCoordinator_vtable::new(
            refuse_send,
            nothing_available,
            |buffer: Vec<u8>, cub_dest: u32| {
                offers.borrow_mut().push(cub_dest);
                hand_out(buffer, cub_dest, 6, &message)
            },
        ),
    };
    let (r, bytes) = gc.recv_available(&GCMessageAvailable { message_size: 30 });
    assert_eq!(r, Ok(RecvMessageProperties { msg_type: 6, msg_size: 30 }));
    assert_eq!(bytes, message);
    let (r, bytes) = gc.recv_available(&GCMessageAvailable { message_size: 10 });
    assert_eq!(r, Ok(RecvMessageProperties { msg_type: 6, msg_size: 30 }));
    assert_eq!(bytes, message);
    let (_, bytes) = gc.recv_available(&GCMessageAvailable { message_size: 0 });
    assert_eq!(bytes, message);
    assert_eq!(*offers.borrow(), vec![30, 10, 20, 40, 4096]);
}

#[test]
fn availability_is_reported_with_the_size() {
    for (reply, expected) in [((false, 17), None), ((true, 17), Some(17)), ((true, 0), Some(0))] {
        let mut gc = GC {
            gc: IGameCoordinator_vtable::new(
                refuse_send,
                || reply,
                |buffer: Vec<u8>, n: u32| hand_out(buffer, n, 0, &[]),
            ),
        };
        assert_eq!(gc.is_message_available(), expected);
    }
}

#[test]
fn a_clone_talks_to_the_same_coordinator() {
    let sends: Cell<u32> = Cell::new(0);
    let mut gc = GC {
        gc: IGameCoordinator_vtable::new(
            |_: u32, _: &[u8], _: u32| {
                sends.set(sends.get() + 1);
                EGCResults::k_EGCResultOK
            },
            nothing_available,
            |buffer: Vec<u8>, n: u32| hand_out(buffer, n, 0, &[]),
        ),
    };
    let mut other = gc.clone();
    assert_eq!(gc.send_message(1, &[]), Ok(()));
    assert_eq!(other.send_message(1, &[]), Ok(()));
    assert_eq!(sends.get(), 2);
}

#[test]
fn result_codes() {
    let results = [
        EGCResults::k_EGCResultOK,
        EGCResults::k_EGCResultNoMessage,
        EGCResults::k_EGCResultBufferTooSmall,
        EGCResults::k_EGCResultNotLoggedOn,
        EGCResults::k_EGCResultInvalidMessage,
    ];
    for (code, result) in results.iter().enumerate() {
        assert_eq!(EGCResults::from_code(code as u32), Some(*result));
        assert_eq!(*result as u32, code as u32);
    }
    assert_eq!(EGCResults::from_code(5), None);
    assert_eq!(EGCResults::from_code(u32::MAX), None);
}

#[test]
fn callback_objects() {
    assert_eq!(GCMessageAvailable::ID, 1701);
    assert_eq!(GCMessageFailed::ID, 1702);
    assert_eq!(GCMessageAvailable::from_raw(77), GCMessageAvailable { message_size: 77 });
    assert_eq!(GCMessageFailed::from_raw(), GCMessageFailed {});
}

#[test]
fn successive_receives_give_successive_messages() {
    let queue: RefCell<Vec<(u32, Vec<u8>)>> =
        RefCell::new(vec![(1, vec![10]), (2, vec![20; 9000]), (1, vec![])]);
    let mut gc = GC {
        gc: IGameCoordinator_vtable::new(
            refuse_send,
            nothing_available,
            |buffer: Vec<u8>, cub_dest: u32| {
                if queue.borrow().is_empty() {
                    return Retrieved {
                        result: EGCResults::k_EGCResultNoMessage,
                        msg_type: 0,
                        msg_size: 0,
                        buffer,
                    };
                }
                let (msg_type, message) = queue.borrow()[0].clone();
                let reply = hand_out(buffer, cub_dest, msg_type, &message);
                if reply.result == EGCResults::k_EGCResultOK {
                    queue.borrow_mut().remove(0);
                }
                reply
            },
        ),
    };
    let mut out: Vec<u8> = Vec::new();
    let r = gc.recv_message(&mut out);
    assert_eq!(r, Ok(RecvMessageProperties { msg_type: 1, msg_size: 1 }));
    assert_eq!(out, vec![10]);
    let r = gc.recv_message(&mut out);
    assert_eq!(r, Ok(RecvMessageProperties { msg_type: 2, msg_size: 9000 }));
    assert_eq!(out, vec![20; 9000]);
    let r = gc.recv_message(&mut out);
    assert_eq!(r, Ok(RecvMessageProperties { msg_type: 1, msg_size: 0 }));
    assert_eq!(out, Vec::<u8>::new());
    assert_eq!(gc.recv_message(&mut out), Err(EGCResults::k_EGCResultNoMessage));
}

#[test]
fn recv_error_after_growing_leaves_the_vector() {
    let offers: RefCell<Vec<u32>> = RefCell::new(Vec::new());
    let mut gc = GC {
        gc: IGameCoordinator_vtable::new(
            refuse_send,
            nothing_available,
            |buffer: Vec<u8>, cub_dest: u32| {
                offers.borrow_mut().push(cub_dest);
                Retrieved {
                    result: if offers.borrow().len() < 3 {
                        EGCResults::k_EGCResultBufferTooSmall
                    } else {
                        EGCResults::k_EGCResultNotLoggedOn
                    },
                    msg_type: 0,
                    msg_size: 0,
                    buffer,
                }
            },
        ),
    };
    let mut out: Vec<u8> = vec![1, 2, 3];
    let r = gc.recv_message_with_capacity(&mut out, 3);
    assert_eq!(r, Err(EGCResults::k_EGCResultNotLoggedOn));
    assert_eq!(out, vec![1, 2, 3]);
    assert_eq!(*offers.borrow(), vec![3, 6, 12]);
}
