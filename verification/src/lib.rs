//! Protocol decoding for two environmental sensors attached to a microcontroller:
//! a single-wire humidity and temperature sensor that encodes its bits in pulse
//! widths, and a CO2 sensor that answers framed commands over a serial link.
//!
//! The hardware is reached only through the capabilities in [`capability`]; all
//! that is decided from what the hardware answers is verified here.

pub mod capability;
pub mod dht22;
pub mod mh_z19;
pub mod pulse;
pub mod trace;
