//! Streaming signal chain of a broadcast FM receiver: pull-based stages over
//! sample streams, rate changers, and the bounded buffer pool that couples
//! the producer, worker and consumer threads.
pub mod biquad;
pub mod buffer;
pub mod deemphasis;
pub mod downmix;
pub mod filterable;
pub mod interleaver;
pub mod pipeline;
pub mod playback;
pub mod pluto;
pub mod queue;
pub mod resample;
pub mod sigmf;
pub mod source;
pub mod spy;
pub mod wideband_fm_audio;
