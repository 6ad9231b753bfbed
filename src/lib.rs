//! System-information report for a small kernel: CPU identity, memory size
//! and uptime, rendered as a coloured text block.

pub mod color;
pub mod writer;
pub mod format;
pub mod cpu;
pub mod probe;
pub mod hex_fetch;
