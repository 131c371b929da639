//! Verified core of a compositor-free DRM/KMS rendering framework.
//!
//! The crate holds the decisions of the display pipeline: which kernel
//! messages count as a hot-plug, how CRTCs and planes are handed out to
//! connectors, what an atomic request for a frame contains, how the three
//! display modes of a monitor evolve, and when the fastest refresh-rate
//! group has completed a cycle. Device access itself is left to the caller,
//! which feeds the results of its system calls into these functions.

pub mod hotplug;
pub mod text;
pub mod mode;
pub mod atomic;
pub mod properties;
pub mod gles_context;
pub mod monitor;
pub mod identity;
pub mod groups;
pub mod allocation;
pub mod orchestrator;
pub mod poll;

pub use gles_context::{GlesContext, GlesContextError};
pub use mode::Mode;
pub use monitor::{Monitor, MonitorSetupError};
pub use orchestrator::{EasyDRM, EasyDRMError};
