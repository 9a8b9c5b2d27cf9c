//! Virtio devices over the MMIO transport.
pub mod blk;
pub mod chain;
pub mod console;
pub mod device;
pub mod edid;
pub mod gpu;
pub mod gpu2d;
pub mod input;
pub mod mmio;
pub mod net;
pub mod snd;
pub mod virgl;
pub mod virtq;
