//! The output callback traits that use plain values.

use vstd::prelude::*;

verus! {

/// Reports the total number of bytes this output has delivered.
pub trait GetTotalBytesOutput: Sized {
    /// Returns the cumulative number of bytes sent or written.
    fn get_total_bytes(&self) -> u64;
}

/// Reports the number of frames this output has dropped.
pub trait GetDroppedFramesOutput: Sized {
    /// Returns the cumulative number of dropped frames.
    fn get_dropped_frames(&self) -> i32;
}

/// Reports the time taken to establish the output's connection.
pub trait GetConnectTimeMsOutput: Sized {
    /// Returns the connection time, in milliseconds.
    fn get_connect_time_ms(&self) -> i32;
}

} // verus!
