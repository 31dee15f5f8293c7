use std::cell::{Cell, RefCell};
use steamworks_gc::{
    EGCResults, GCMessageAvailable, GCMessageQueue, GCMessageQueueEntry, IGameCoordinator_vtable,
    PacketCallbacks, RecvMessageProperties, Retrieved, GC,
};

const CLIENT_HELLO_MESSAGE_ID: u32 = 0x80000000 + 4006;
const CLIENT_WELCOME_MESSAGE_ID: u32 = 0x80000000 + 4004;

type Callback<'a> = Box<dyn FnMut(GCMessageQueueEntry) + 'a>;
type Log = RefCell<Vec<(u32, u32, u32, Vec<u8>, bool)>>;

/// A callback that notes its own name and what it is called with.
fn noting<'a>(log: &'a Log, name: u32) -> Callback<'a> {
    Box::new(move |entry| {
        log.borrow_mut().push((
            name,
            entry.props.msg_type,
            entry.props.msg_size,
            entry.buffer,
            entry.error,
        ))
    })
}

fn props(msg_type: u32, msg_size: u32) -> RecvMessageProperties {
    RecvMessageProperties { msg_type, msg_size }
}

fn no_message(buffer: Vec<u8>, _: u32) -> Retrieved {
    Retrieved { result: EGCResults::k_EGCResultNoMessage, msg_type: 0, msg_size: 0, buffer }
}

fn accept(_: u32, _: &[u8], _: u32) -> EGCResults {
    EGCResults::k_EGCResultOK
}

fn nothing_available() -> (bool, u32) {
    (false, 0)
}

#[test]
fn hello_is_answered_with_welcome() {
    // the coordinator queues a welcome for every hello
    let pending: RefCell<Vec<(u32, Vec<u8>)>> = RefCell::new(Vec::new());
    let log: Log = RefCell::new(Vec::new());
    let mut gc = GC {
        gc: IGameCoordinator_vtable::new(
            |t: u32, bytes: &[u8], size: u32| {
                assert_eq!(bytes.len(), size as usize);
                if t == CLIENT_HELLO_MESSAGE_ID {
                    pending.borrow_mut().push((CLIENT_WELCOME_MESSAGE_ID, vec![1, 2, 3, 4]));
                }
                EGCResults::k_EGCResultOK
            },
            || match pending.borrow().first() {
                Some(m) => (true, m.1.len() as u32),
                None => (false, 0),
            },
            |mut buffer: Vec<u8>, cub_dest: u32| {
                let size = match pending.borrow().first() {
                    None => return no_message(buffer, cub_dest),
                    Some(m) => m.1.len(),
                };
                if (cub_dest as usize) < size {
                    return Retrieved {
                        result: EGCResults::k_EGCResultBufferTooSmall,
                        msg_type: 0,
                        msg_size: 0,
                        buffer,
                    };
                }
                let (msg_type, message) = pending.borrow_mut().remove(0);
                buffer[..size].copy_from_slice(&message);
                Retrieved {
                    result: EGCResults::k_EGCResultOK,
                    msg_type,
                    msg_size: size as u32,
                    buffer,
                }
            },
        ),
    };
    assert_eq!(None, gc.is_message_available());

    let mut queue = GCMessageQueue::new(gc);
    assert_eq!(queue.packet_callbacks.len(), 0);
    queue.install_global_callback(CLIENT_WELCOME_MESSAGE_ID, noting(&log, 1));
    assert!(queue.send_message(CLIENT_HELLO_MESSAGE_ID, &[]));
    assert_eq!(queue.gc.is_message_available(), Some(4));

    queue.on_message_available(GCMessageAvailable { message_size: 4 });
    assert_eq!(*log.borrow(), vec![(1, CLIENT_WELCOME_MESSAGE_ID, 4, vec![1, 2, 3, 4], false)]);
    assert_eq!(None, queue.gc.is_message_available());

    // nothing is left to receive, so nothing is called
    queue.on_message_available(GCMessageAvailable { message_size: 4 });
    assert_eq!(log.borrow().len(), 1);
    assert_eq!(queue.packet_callbacks.len(), 1);
}

#[test]
fn queue_send_reports_a_refusal() {
    for (answer, queued) in [
        (EGCResults::k_EGCResultOK, true),
        (EGCResults::k_EGCResultNoMessage, false),
        (EGCResults::k_EGCResultBufferTooSmall, false),
        (EGCResults::k_EGCResultNotLoggedOn, false),
        (EGCResults::k_EGCResultInvalidMessage, false),
    ] {
        let mut queue: GCMessageQueue<_, Callback> = GCMessageQueue::new(GC {
            gc: IGameCoordinator_vtable::new(
                |_: u32, bytes: &[u8], _: u32| {
                    assert_eq!(bytes, &[7, 0, 0, 0, 1, 0, 0, 0, 42]);
                    answer
                },
                nothing_available,
                no_message,
            ),
        });
        assert_eq!(queue.send_message(7, &[42]), queued);
    }
}

#[test]
fn a_message_too_large_for_its_announcement_arrives_whole() {
    let message = vec![6u8; 100];
    let attempts: Cell<u32> = Cell::new(0);
    let log: Log = RefCell::new(Vec::new());
    let mut queue = GCMessageQueue::new(GC {
        gc: IGameCoordinator_vtable::new(
            accept,
            nothing_available,
            |mut buffer: Vec<u8>, cub_dest: u32| {
                attempts.set(attempts.get() + 1);
                let fits = cub_dest >= 100;
                if fits {
                    buffer[..100].copy_from_slice(&message);
                }
                Retrieved {
                    result: if fits {
                        EGCResults::k_EGCResultOK
                    } else {
                        EGCResults::k_EGCResultBufferTooSmall
                    },
                    msg_type: 3,
                    msg_size: 100,
                    buffer,
                }
            },
        ),
    });
    queue.install_global_callback(3, noting(&log, 1));
    queue.on_message_available(GCMessageAvailable { message_size: 25 });
    assert_eq!(*log.borrow(), vec![(1, 3, 100, message.clone(), false)]);
    assert_eq!(attempts.get(), 3);
}

#[test]
fn callback_goes_with_its_handle() {
    let log: Log = RefCell::new(Vec::new());
    let mut queue = GCMessageQueue::new(GC {
        gc: IGameCoordinator_vtable::new(
            accept,
            nothing_available,
            no_message,
        ),
    });
    let mut handle = queue.install_callback(CLIENT_WELCOME_MESSAGE_ID, noting(&log, 1));
    assert_eq!(queue.packet_callbacks.len(), 1);
    PacketCallbacks::dispatch(
        Some(&mut queue.packet_callbacks),
        props(CLIENT_WELCOME_MESSAGE_ID, 1),
        vec![8],
    );
    assert_eq!(*log.borrow(), vec![(1, CLIENT_WELCOME_MESSAGE_ID, 1, vec![8], false)]);

    handle.drop(Some(&mut queue.packet_callbacks));
    assert_eq!(queue.packet_callbacks.len(), 0);
    assert!(!queue.remove_callback(CLIENT_WELCOME_MESSAGE_ID));
}

#[test]
fn a_handle_takes_a_later_callback_with_it() {
    let log: Log = RefCell::new(Vec::new());
    let mut table: PacketCallbacks<Callback> = PacketCallbacks::new();
    let mut handle = table.install_callback(1, noting(&log, 1));
    table.install_global_callback(1, noting(&log, 2));
    table.install_global_callback(2, noting(&log, 3));
    handle.drop(Some(&mut table));
    assert_eq!(table.len(), 1);
    assert!(!table.remove_callback(1));
    assert!(table.remove_callback(2));
}

#[test]
fn a_handle_without_its_table_does_nothing() {
    let log: Log = RefCell::new(Vec::new());
    let mut table: PacketCallbacks<Callback> = PacketCallbacks::new();
    let mut handle = table.install_callback(1, noting(&log, 1));
    handle.drop::<Callback>(None);
    PacketCallbacks::<Callback>::dispatch(None, props(1, 0), vec![]);
    assert_eq!(table.len(), 1);
    assert!(log.borrow().is_empty());
    assert!(table.remove_callback(1));
}

#[test]
fn a_later_callback_replaces_the_one_before() {
    let log: Log = RefCell::new(Vec::new());
    let mut table: PacketCallbacks<Callback> = PacketCallbacks::new();
    table.install_global_callback(4, noting(&log, 1));
    table.install_global_callback(4, noting(&log, 2));
    assert_eq!(table.len(), 1);
    PacketCallbacks::dispatch(Some(&mut table), props(4, 2), vec![1, 1]);
    assert_eq!(*log.borrow(), vec![(2, 4, 2, vec![1, 1], false)]);
}

#[test]
fn messages_go_to_the_callback_of_their_type() {
    let log: Log = RefCell::new(Vec::new());
    let mut table: PacketCallbacks<Callback> = PacketCallbacks::new();
    table.install_global_callback(1, noting(&log, 10));
    table.install_global_callback(2, noting(&log, 20));
    PacketCallbacks::dispatch(Some(&mut table), props(2, 1), vec![5]);
    PacketCallbacks::dispatch(Some(&mut table), props(3, 1), vec![6]);
    PacketCallbacks::dispatch(Some(&mut table), props(1, 1), vec![7]);
    assert_eq!(*log.borrow(), vec![(20, 2, 1, vec![5], false), (10, 1, 1, vec![7], false)]);
    assert_eq!(table.len(), 2);
}

#[test]
fn a_callback_keeps_its_state_between_messages() {
    let last: Cell<u32> = Cell::new(0);
    let mut count: u32 = 0;
    let mut table: PacketCallbacks<Callback> = PacketCallbacks::new();
    table.install_global_callback(
        1,
        Box::new(|_| {
            count += 1;
            last.set(count);
        }),
    );
    for _ in 0..3 {
        PacketCallbacks::dispatch(Some(&mut table), props(1, 0), vec![]);
    }
    assert_eq!(last.get(), 3);
}

#[test]
fn removal_is_reported_once() {
    let log: Log = RefCell::new(Vec::new());
    let mut queue = GCMessageQueue::new(GC {
        gc: IGameCoordinator_vtable::new(
            accept,
            nothing_available,
            no_message,
        ),
    });
    assert!(!queue.remove_callback(1));
    queue.install_global_callback(1, noting(&log, 1));
    queue.install_global_callback(2, noting(&log, 2));
    assert!(queue.remove_callback(1));
    assert!(!queue.remove_callback(1));
    assert_eq!(queue.packet_callbacks.len(), 1);
}

#[test]
fn a_refused_queue_send_is_not_repeated() {
    let sends: Cell<u32> = Cell::new(0);
    let mut queue: GCMessageQueue<_, Callback> = GCMessageQueue::new(GC {
        gc: IGameCoordinator_vtable::new(
            |_: u32, _: &[u8], _: u32| {
                sends.set(sends.get() + 1);
                EGCResults::k_EGCResultNotLoggedOn
            },
            nothing_available,
            no_message,
        ),
    });
    assert!(!queue.send_message(1, &[]));
    assert_eq!(sends.get(), 1);
}

#[test]
fn events_reach_callbacks_in_order() {
    let pending: RefCell<Vec<(u32, Vec<u8>)>> = RefCell::new(vec![
        (1, vec![11]),
        (2, vec![22, 22]),
        (3, vec![]),
        (1, vec![12]),
        (1, vec![13]),
        (2, vec![23]),
    ]);
    let log: Log = RefCell::new(Vec::new());
    let mut queue = GCMessageQueue::new(GC {
        gc: IGameCoordinator_vtable::new(
            accept,
            nothing_available,
            |mut buffer: Vec<u8>, cub_dest: u32| {
                let (msg_type, message) = pending.borrow_mut().remove(0);
                assert_eq!(cub_dest, 8);
                buffer[..message.len()].copy_from_slice(&message);
                Retrieved {
                    result: EGCResults::k_EGCResultOK,
                    msg_type,
                    msg_size: message.len() as u32,
                    buffer,
                }
            },
        ),
    });
    queue.install_global_callback(1, noting(&log, 10));
    queue.install_global_callback(2, noting(&log, 20));
    for _ in 0..4 {
        queue.on_message_available(GCMessageAvailable { message_size: 8 });
    }
    // a later callback takes over the type; the other type keeps its own
    queue.install_global_callback(1, noting(&log, 30));
    for _ in 0..2 {
        queue.on_message_available(GCMessageAvailable { message_size: 8 });
    }
    assert!(pending.borrow().is_empty());
    assert_eq!(
        *log.borrow(),
        vec![
            (10, 1, 1, vec![11], false),
            (20, 2, 2, vec![22, 22], false),
            (10, 1, 1, vec![12], false),
            (30, 1, 1, vec![13], false),
            (20, 2, 1, vec![23], false),
        ]
    );
    assert_eq!(queue.packet_callbacks.len(), 2);
}
