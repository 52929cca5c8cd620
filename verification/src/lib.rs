//! A per-frame GPU rendering core for a compositing display server.
//!
//! The library owns the bookkeeping that makes a Vulkan-style frame
//! renderer safe to drive: a bounded allocation tracker, a pool of
//! transient staging buffers, a cache of render passes keyed by pixel
//! format, the currently bound render target, and the fence-based
//! protocol that orders GPU completion before CPU reuse. Device calls
//! themselves are represented at their interface boundary by an explicit
//! [`device::Device`] value, so that every decision the renderer makes --
//! which call is issued, in which state, and what must hold before it --
//! is verified.

pub mod device;
pub mod error;
pub mod instance;
pub mod renderer;
pub mod renderpass;
pub mod staging;
pub mod tracker;
pub mod version;
