//! Device models and boot-time logic of a small AArch64 virtual machine monitor.
use vstd::prelude::*;

pub mod audio;
pub mod bytes;
pub mod clipboard;
pub mod config;
pub mod cpu;
pub mod devices;
pub mod display;
pub mod irq;
pub mod keymap;
pub mod linux;
pub mod machine;
pub mod memory;
pub mod net;
pub mod runtime;
pub mod stdio;
pub mod sys_reg;
pub mod uart;
pub mod virtio;
