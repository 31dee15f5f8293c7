//! Result codes and the values that describe a received message.

use vstd::prelude::*;

verus! {

/// Result codes of the Game Coordinator interface, in the order of their numeric values.
#[allow(non_camel_case_types)]
#[derive(Clone, Copy, Debug, PartialEq, Eq, Structural)]
pub enum EGCResults {
    /// The operation succeeded.
    k_EGCResultOK,
    /// There is no message in the queue.
    k_EGCResultNoMessage,
    /// The buffer is too small for the requested message.
    k_EGCResultBufferTooSmall,
    /// The client is not logged onto Steam.
    k_EGCResultNotLoggedOn,
    /// Something was wrong with the message being sent.
    k_EGCResultInvalidMessage,
}

impl EGCResults {
    /// The number that the interface uses for the result.
    pub open spec fn code(self) -> u32 {
        match self {
            EGCResults::k_EGCResultOK => 0,
            EGCResults::k_EGCResultNoMessage => 1,
            EGCResults::k_EGCResultBufferTooSmall => 2,
            EGCResults::k_EGCResultNotLoggedOn => 3,
            EGCResults::k_EGCResultInvalidMessage => 4,
        }
    }

    /// The result that a number stands for, if it stands for one.
    pub fn from_code(code: u32) -> (result: Option<Self>)
        ensures
            match result {
                Some(r) => r.code() == code,
                None => forall|r: EGCResults| #[trigger] r.code() != code,
            },
    {
        match code {
            0 => Some(EGCResults::k_EGCResultOK),
            1 => Some(EGCResults::k_EGCResultNoMessage),
            2 => Some(EGCResults::k_EGCResultBufferTooSmall),
            3 => Some(EGCResults::k_EGCResultNotLoggedOn),
            4 => Some(EGCResults::k_EGCResultInvalidMessage),
            _ => None,
        }
    }
}

/// The outcome of a Game Coordinator operation.
pub type GCResult<T> = Result<T, EGCResults>;

/// Represents the properties of a received message
#[derive(Clone, Copy, Debug, PartialEq, Eq, Structural)]
pub struct RecvMessageProperties {
    /// Raw type of the message. If the MSB is set, this message is a proto message
    pub msg_type: u32,
    /// The size of the message buffer
    pub msg_size: u32,
}

/// Describes an entry in the message queue
#[derive(Debug)]
pub struct GCMessageQueueEntry {
    /// Properties of the message, such as length and type
    pub props: RecvMessageProperties,
    /// The buffer containing the actual message's contents
    pub buffer: Vec<u8>,
    /// If true, an error happened while receiving and the other fields are not valid
    pub error: bool,
}

/// Where the numbers of the Game Coordinator's callbacks start.
pub const CALLBACK_BASE: i32 = 1700;

/// Callback object to track when a GC message is available in the queue
#[derive(Clone, Copy, Debug, PartialEq, Eq, Structural)]
pub struct GCMessageAvailable {
    /// Size of the message that can be received.
    pub message_size: u32,
}

impl GCMessageAvailable {
    /// Number of the callback.
    pub const ID: i32 = CALLBACK_BASE + 1;

    /// The callback object for the size that the raw callback carries.
    pub fn from_raw(raw_message_size: u32) -> (available: Self)
        ensures
            available.message_size == raw_message_size,
    {
        GCMessageAvailable { message_size: raw_message_size }
    }
}

/// Callback object to track when a GC message failed to send/recv
#[derive(Clone, Copy, Debug, PartialEq, Eq, Structural)]
pub struct GCMessageFailed {}

impl GCMessageFailed {
    /// Number of the callback.
    pub const ID: i32 = CALLBACK_BASE + 2;

    /// The callback object; the raw callback carries nothing.
    pub fn from_raw() -> (failed: Self)
        ensures
            failed == (GCMessageFailed {  }),
    {
        GCMessageFailed {  }
    }
}

} // verus!
