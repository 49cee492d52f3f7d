//! Authoritative real-time synchronisation server core.
//!
//! Many connections feed input events into one bounded queue; a single loop
//! owns the world state, applies the queued events once per tick and fans the
//! resulting snapshot out to every subscriber. The modules here hold the
//! decisions of that system, each with a machine-checked contract; sockets,
//! timers and task spawning live with the program that embeds the library.

pub mod acceptor;
pub mod authority;
pub mod channel;
pub mod codec;
pub mod config;
pub mod egress;
pub mod grid;
pub mod ingress;
pub mod world;
