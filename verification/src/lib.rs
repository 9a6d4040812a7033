//! A verified render pipeline for composable signal-processing graphs.
//!
//! A mutable [`SignalGraph`] owns a set of processing nodes and an explicit
//! output-routing table.  After validation (`check`) the graph is compiled
//! (`commit`) into an immutable [`RenderBackend`] snapshot, which fills a
//! lane-structured [`LaneBuffer`] block by block.  A [`FrameConverter`]
//! transcodes lane-structured blocks into the flat interleaved sample stream
//! a device consumes, and a [`Runner`] composes the pieces for one playback
//! session.

use vstd::prelude::*;

pub mod backend;
pub mod buffer;
pub mod frame;
pub mod graph;
pub mod node;
pub mod runner;

pub use backend::RenderBackend;
pub use frame::FrameConverter;
pub use buffer::LaneBuffer;
pub use graph::{NodeId, SignalGraph, TopologyError, UncommittedBackendError};
pub use node::ProcessingNode;
pub use runner::{DeviceNotFoundError, Runner, RunnerBackend};

verus! {

/// Number of samples in one SIMD-width lane group.
pub const LANE_WIDTH: usize = 8;

/// Number of lane groups a backend fills per channel on every call.
pub const LANES_PER_BLOCK: usize = 8;

/// Samples produced per channel by a single `process` call.
pub const BLOCK_SIZE: usize = LANE_WIDTH * LANES_PER_BLOCK;

/// Output channel count of the stereo device a run is wired for.
pub const CHANNELS: usize = 2;

/// Sample rate a runner configures when none is given.
pub const DEFAULT_SAMPLE_RATE: u32 = 48000;

/// Frames the device layer is asked to deliver per callback.
pub const DEVICE_BUFFER_FRAMES: u32 = 1024;

} // verus!
