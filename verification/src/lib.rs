//! Room relay protocol for a small peer-to-peer text chat over UDP.
//!
//! One peer owns the room: it checks the key of whoever asks to join, keeps the
//! roster of members and relays what they say. The other peers are joiners. This
//! library holds the wire codec, the session settings, the owner's relay, the
//! joiner's handshake and the queue of received frames, each with its contract.
//! Sockets, threads and the terminal belong to the program around it.

pub mod addr;
pub mod buf;
pub mod client;
pub mod protocol;
pub mod server;
pub mod style;
pub mod util;
