//! Audience-event lighting pipeline: decoding of pushed events, resolution of
//! the configured light effect, a bounded event queue, and the step-by-step
//! plan that drives a lighting controller through an effect and back to its
//! baseline.

pub mod apply;
pub mod color;
pub mod config;
pub mod amount;
pub mod error;
pub mod event;
pub mod pipeline;
pub mod queue;
