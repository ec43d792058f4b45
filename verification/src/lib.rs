//! Verified core of the Vulkan device layer: lock accounting, command and
//! descriptor pool bookkeeping, staging arenas, pipeline descriptions and
//! caches, render pass bookkeeping, timeline tasks and particle buffers.
//!
//! Every Vulkan driver call is made by the caller; the functions here decide
//! what to call and take the driver's answers back as plain values.
use vstd::prelude::*;

pub mod locks;
pub mod commands;
pub mod fnv;
pub mod pipelines;
pub mod resources;
pub mod sun;
pub mod archetypes;
pub mod particles;
pub mod memory;
pub mod descriptors;
pub mod submission;
pub mod renderpasses;
pub mod trajectories;
pub mod queues;
pub mod sky;
pub mod setup;
pub mod recording;
pub mod tasks;
pub mod snapshot;
pub mod discardables;
pub mod billboards;
pub mod gizmos;
pub mod downloads;

verus! {

} // verus!
