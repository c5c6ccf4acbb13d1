//! Lockstep netplay core for a deterministic handheld emulator.
//!
//! Two peers run the same ROM and exchange one input per emulated tick.  This
//! crate holds the parts of that exchange that can be stated exactly: the
//! delayed pair queue that decides which ticks may advance, the battle and
//! match life cycle, the commit-reveal handshake, the byte formats spoken on
//! the wire and stored in replay files, and the rendezvous bookkeeping.
//! Sockets, threads, the emulator and the screen live with the caller.

pub mod arm_core;
pub mod audio;
pub mod battle;
pub mod encoder;
pub mod fastforwarder;
pub mod game;
pub mod handshake;
pub mod input;
pub mod matchmaking;
pub mod protocol;
pub mod replay;
pub mod thread;
pub mod video;
pub mod wire;
