# steamworks_gc

Messaging with the Steam Game Coordinator (GC), verified with Verus.

- `src/header.rs`: the 8-byte header in front of an outgoing message.
- `src/message.rs`: result codes, message properties, callback objects.
- `src/coordinator.rs`: the coordinator's interface. Each of its methods adds one entry to a ghost
  record, and the contracts of all that use it say by what the record grows.
- `src/gc.rs`: `GC`, which sends messages and receives them into a vector that grows until the
  message fits.
- `src/callbacks.rs`: `PacketCallbacks`, one callback per message type, with a ghost record of
  the calls made.
- `src/queue.rs`: `GCMessageQueue`, which receives announced messages and fires the callback for
  their type.
- `src/incoming.rs`, `src/servicing.rs`: what holds of several operations together. From a
  coordinator that removes each message it hands out, successive receives give successive
  messages; a message of any size is received; each message reaches the callback for its type,
  once and in order; a callback goes with its handle.
- `app/`: the coordinator's C++ interface, and a queue that is shared between threads behind a
  lock.
