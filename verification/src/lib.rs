//! Tunnel process supervisor and guard library.
//!
//! The crate holds the verified core of a reverse-tunnel launcher: the
//! configuration codec that turns a structured tunnel request into the flat
//! config-file format the tunnel client consumes (and back), the registry of
//! running child processes, the log pipeline that scrubs secrets from child
//! output, and the guard state machine that restarts tunnels which die
//! without a manual stop.
//!
//! Everything that touches the operating system — spawning and signalling
//! processes, reading their pipes, file and network I/O, the clock — stays
//! with the embedding application, which hands the library plain values and
//! carries out the plans it returns.

pub mod codec;
pub mod codec_laws;
pub mod guard;
pub mod idmap;
pub mod ids;
pub mod laws;
pub mod platform;
pub mod registry;
pub mod sanitize;
pub mod supervisor;
pub mod text;
pub mod tunnels;
