//! Frame-production core of an LED animation engine: world model, animation
//! registry, auxiliary data, per-frame state aggregation, the GPU pipeline's
//! bookkeeping, the frame loop and the frame resolver.

pub mod animation;
pub mod auxiliary_data;
pub mod bytes;
pub mod config;
pub mod devices;
pub mod event_loop;
pub mod frame;
pub mod frame_resolver;
pub mod id;
pub mod led;
pub mod opqueue;
pub mod pipeline;
pub mod state;
pub mod table;
pub mod world;
