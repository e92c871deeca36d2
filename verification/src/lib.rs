//! A pacing relay for MIDI-style messages.
//!
//! Messages arrive from one input endpoint at any rate and are forwarded to one
//! output endpoint no more often than a fixed minimum interval apart, in the
//! order in which they arrived. This crate holds the decisions of such a relay:
//! which port a name stands for, and what the relay does next at a given time.
//! Reading the clock, waiting, and talking to the devices is left to the caller.
//!
//! - [`message`]: the unit that is forwarded.
//! - [`ports`]: finding a port by its name, and listing the names there are.
//! - [`relay`]: the pacing state machine.
//! - [`history`]: what holds of every run of that state machine.
//! - [`error`]: the conditions that end the relay.

pub mod error;
pub mod history;
pub mod message;
pub mod ports;
pub mod relay;
