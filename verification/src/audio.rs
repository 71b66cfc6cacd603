//! Audio stream configuration and the backend interface the host implements,
//! plus the placeholder drum-strike classifier's handle.

use vstd::prelude::*;

use crate::error::DomainError;

verus! {

/// Requested stream parameters.
#[derive(Clone, Copy, Debug, PartialEq, Eq, Structural)]
pub struct StreamConfig {
    pub sample_rate: u32,
    pub channels: u16,
    pub buffer_size: u32,
}

impl Default for StreamConfig {
    /// 48 kHz stereo with a 512-frame buffer.
    fn default() -> (c: StreamConfig)
        ensures
            c.sample_rate == 48_000,
            c.channels == 2,
            c.buffer_size == 512,
    {
        StreamConfig { sample_rate: 48_000, channels: 2, buffer_size: 512 }
    }
}

/// A handle to an opened stream, remembering the configuration it carries.
#[derive(Clone, Copy, Debug)]
pub struct StreamHandle {
    config: StreamConfig,
}

impl StreamHandle {
    /// View of the carried configuration.
    pub closed spec fn view(&self) -> StreamConfig {
        self.config
    }

    /// The configuration the stream was opened with.
    pub fn config(&self) -> (c: StreamConfig)
        ensures
            c == self@,
    {
        self.config
    }
}

/// An audio backend the host implements: it opens streams and can measure
/// output latency.
pub trait AudioBackend: Send + Sync {
    /// Open a stream with the given configuration.
    fn open_stream(&self, config: &StreamConfig) -> Result<StreamHandle, DomainError>;

    /// Round-trip output latency, microseconds.
    fn measure_latency(&self, handle: &StreamHandle) -> Result<u64, DomainError> {
        let _ = handle;
        Ok(5_000)
    }
}

/// A backend that opens nothing: the handle merely echoes the configuration.
#[derive(Clone, Copy, Debug)]
pub struct NullBackend;

impl AudioBackend for NullBackend {
    fn open_stream(&self, config: &StreamConfig) -> Result<StreamHandle, DomainError> {
        Ok(StreamHandle { config: *config })
    }
}

impl NullBackend {
    /// The null backend's stream carries exactly the configuration asked for.
    pub fn open_null_stream(&self, config: &StreamConfig) -> (r: StreamHandle)
        ensures
            r@ == *config,
    {
        StreamHandle { config: *config }
    }
}

/// A placeholder strike classifier; inference happens in the host, which owns
/// the feature extraction.
#[derive(Clone, Copy, Debug)]
pub struct MockClassifier;

/// Load the placeholder classifier; the path is accepted and ignored.
pub fn load_mock_classifier(path: &str) -> (r: Result<MockClassifier, DomainError>)
    ensures
        r is Ok,
{
    let _ = path;
    Ok(MockClassifier)
}

} // verus!
