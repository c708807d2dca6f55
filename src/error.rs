use vstd::prelude::*;

verus! {

/// Failures of the strip driver.
#[derive(Debug, Clone, PartialEq, Eq)]
pub enum Ws2812Error {
    /// The spidev device node is absent.
    SpiDeviceNotFound(String),
    /// Configuring the bus or transferring a frame failed.
    SpiError(String),
    /// An LED index at or past the strip's length.
    IndexOutOfRange { index: usize, len: usize },
    /// A breathing cycle would have fewer than the minimum number of frames.
    FrequencyTooHigh { frames_per_cycle: usize },
    /// An animation frequency of zero.
    ZeroFrequency,
    /// A command that enables the strip but carries no status.
    MissingStatus,
}

} // verus!
