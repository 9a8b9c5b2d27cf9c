//! The host network backend: what the library decides about the vmnet helper.
pub mod helper;
