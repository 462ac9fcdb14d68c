//! A verified model of a reference-counted graphics engine's context layer:
//! a hierarchy of GPU contexts (base, recording, direct), their resource
//! caches and lifecycle, and GL interfaces assembled from a loader. The
//! engine's objects live in a `NativeHeap` that this crate keeps itself;
//! what a device or driver decides (work finished, entry point addresses,
//! the clock) comes in as arguments.
pub mod native;
pub mod context;
pub mod gl_interface;
pub mod direct_context;
