//! Coordination core for synchronized audio playback across devices on a
//! local network.
//!
//! One node leads, any number of nodes follow, and all of them carry out
//! each transport command at the same instant. This crate holds what the
//! nodes decide and compute, free of any I/O; sockets, clocks, threads and
//! the audio output belong to the program around it.
//!
//! - [`message`]: the messages on the wire, their text, and reading it back.
//! - [`leader`]: the registry of members, the discovery phase, the fan-out.
//! - [`member`]: binding to a leader, requests, incoming messages.
//! - [`player`]: the playback state machine and the progress display.
//! - [`utils`]: target times, waits, and the readings of the clock.
//! - [`track`]: tracks, their order by name, the choice of a playlist.
//! - [`peer`]: peers and the datagrams addressed to them.
//! - [`text`]: characters, trimming, splitting, decimal numbers.

pub mod leader;
pub mod member;
pub mod message;
pub mod peer;
pub mod player;
pub mod text;
pub mod track;
pub mod utils;
