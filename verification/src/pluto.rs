//! What the receiver fixes about its SDR front-end: the size of a hardware
//! buffer, the scale of its samples, and the rule that one stream runs at a
//! time.
use vstd::prelude::*;

verus! {

/// The number of samples in one hardware buffer.  The front-end drops
/// samples with any other size.
pub const PLUTO_SDR_STREAM_SIZE: usize = 1048576;

/// Full scale of the front-end's 12-bit samples, as delivered in 16 bits.
pub const PLUTO_SDR_SCALE: i16 = 4096;

/// Why a stream could not be started.
#[derive(Debug, PartialEq, Eq)]
pub enum StreamError {
    /// A stream is running already.
    AlreadyStreaming,
}

/// Whether the front-end is streaming.
pub struct StreamState {
    streaming: bool,
}

impl StreamState {
    /// Whether a stream is running.
    pub closed spec fn streaming(&self) -> bool {
        self.streaming
    }

    /// The state of a front-end that is not streaming.
    pub fn new() -> (state: Self)
        ensures
            !state.streaming(),
    {
        StreamState { streaming: false }
    }

    /// Whether a stream is running.
    pub fn is_streaming(&self) -> (streaming: bool)
        ensures
            streaming == self.streaming(),
    {
        self.streaming
    }

    /// Claims the front-end for a new stream.  Fails, and changes nothing,
    /// while a stream is running.
    pub fn start(&mut self) -> (claimed: Result<(), StreamError>)
        ensures
            final(self).streaming(),
            claimed is Ok <==> !old(self).streaming(),
            claimed is Err ==> claimed == Err::<(), StreamError>(StreamError::AlreadyStreaming),
    {
        if self.streaming {
            Err(StreamError::AlreadyStreaming)
        } else {
            self.streaming = true;
            Ok(())
        }
    }

    /// Gives the front-end up, whether or not a stream was running.
    pub fn stop(&mut self)
        ensures
            !final(self).streaming(),
    {
        self.streaming = false;
    }
}

} // verus!
