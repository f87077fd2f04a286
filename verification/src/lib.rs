//! Firmware operations over UART for CH55x series microcontrollers.
//!
//! The library holds everything the programmer decides: how frames look, how
//! the bootloader generation is told, how the session key is derived, and
//! which request follows which reply. It never touches a serial port. Each
//! operation hands out the frame to send; the caller performs the exchange
//! and hands back the bytes that arrived.
//!
//! - [`sequence`] and [`definitions`]: the registries of command templates
//!   and chip profiles.
//! - [`frame`]: preamble, payload and checksum.
//! - [`key`], [`erase`], [`flash`], [`reset`]: the requests of each operation.
//! - [`step`] and [`transition`]: the steps of an operation and the rules
//!   that lead from one to the next.
//! - [`protocol`]: the engine that follows the rules.
//! - [`run`] and [`procedure`]: what whole operations send, proved from the
//!   rules.

pub mod definitions;
pub mod erase;
pub mod flash;
pub mod frame;
pub mod key;
pub mod procedure;
pub mod protocol;
pub mod reset;
pub mod run;
pub mod sequence;
pub mod step;
pub mod transition;
