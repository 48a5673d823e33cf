//! The byte-channel boundary the protocol engine drives: read whatever
//! bytes are available or learn that the channel timed out, closed or
//! failed; write and flush outbound bytes. Implementations adapt a concrete
//! channel (a serial port, a test fixture). The trait promises nothing of
//! what a call returns: the engine is verified for every outcome.

use vstd::prelude::*;

verus! {

/// What one read attempt on the channel produced.
pub enum ReadOutcome {
    /// Bytes arrived.
    Data(Vec<u8>),
    /// The channel reported zero bytes with no error: idle or closed.
    Closed,
    /// No bytes arrived within the channel's configured timeout.
    TimedOut,
    /// The channel failed, with the failure's detail text.
    Failed(String),
}

/// An abstract duplex byte channel with a caller-configured read timeout.
pub trait Transport {
    /// Reads whatever bytes are available, blocking up to the channel's
    /// configured timeout.
    fn read_chunk(&mut self) -> ReadOutcome;

    /// Writes all the given bytes.
    fn write_all_bytes(&mut self, bytes: &[u8]) -> Result<(), String>;

    /// Flushes buffered outbound bytes towards the device.
    fn flush_channel(&mut self) -> Result<(), String>;
}

} // verus!
