//! Rendezvous: how two clients that know the same session id find each
//! other, and what they say to the server while they do.

pub mod protocol;
pub mod server;
