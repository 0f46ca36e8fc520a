//! The hardware capabilities the sensor drivers consume.
//!
//! Nothing is promised about what a capability answers: a driver is verified
//! for every answer the hardware may give.

use vstd::prelude::*;

verus! {

/// A bidirectional digital line with exclusive direction control.
pub trait DigitalPin {
    /// The fault the line reports when it cannot be driven or sampled.
    type Error;

    /// Drives the line low.
    fn set_low(&mut self) -> Result<(), Self::Error>;

    /// Releases the line to its pull-up.
    fn set_high(&mut self) -> Result<(), Self::Error>;

    /// Samples the line: is it high?
    fn is_high(&mut self) -> Result<bool, Self::Error>;

    /// Samples the line: is it low?
    fn is_low(&mut self) -> Result<bool, Self::Error>;
}

/// A blocking delay with microsecond resolution.
pub trait MicrosecondDelay {
    /// Blocks the caller for at least `us` microseconds.
    fn sleep_us(&mut self, us: u32);
}

/// A byte-oriented serial transport with its own read timeout.
pub trait ByteTransport {
    /// The fault the transport reports when a transfer fails.
    type Error;

    /// Sends all of `bytes`.
    fn write(&mut self, bytes: &[u8]) -> Result<(), Self::Error>;

    /// Fills all of `buffer` with received bytes, or fails.
    fn read(&mut self, buffer: &mut [u8]) -> Result<(), Self::Error>;
}

} // verus!
