//! Messaging with the Steam Game Coordinator (GC).
//!
//! [`GC`] sends messages to the coordinator, each with its header, and receives messages from
//! it into a vector that grows until they fit. [`GCMessageQueue`] receives the messages that
//! are announced and hands each to the callback for its type.

pub mod callbacks;
pub mod coordinator;
pub mod counted;
pub mod gc;
pub mod header;
pub mod incoming;
pub mod message;
pub mod queue;
pub mod servicing;

pub use callbacks::{PacketCallbacks, PktCallbackHandle};
pub use coordinator::{IGameCoordinator_vtable, ISteamGameCoordinator, Retrieved};
pub use gc::GC;
pub use message::{
    EGCResults, GCMessageAvailable, GCMessageFailed, GCMessageQueueEntry, GCResult,
    RecvMessageProperties,
};
pub use queue::GCMessageQueue;
