//! Firmware core for a small network-connected LED-matrix clock.
//!
//! The heart of the crate is the Wi-Fi provisioning and connection manager
//! under [`wifimanager`]: a credential store over a fixed flash window, a
//! signal bus connecting portal workers to the supervisor, and the supervisor
//! state machine that sequences stored-credential attempts, captive-portal
//! provisioning, persistence and the hard-reset fail-safe.  The remaining
//! modules hold the pure parts of the display pipeline ([`display`], [`font`])
//! and the time-synchronisation arithmetic ([`timesync`]).
//!
//! Hardware access (radio, flash, SPI, sockets, timers) lives outside this
//! crate; everything here is plain data in, plain data out.

pub mod display;
pub mod font;
pub mod timesync;
pub mod wifimanager;
