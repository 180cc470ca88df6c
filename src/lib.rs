//! A small stack-oriented bytecode virtual machine with an event subsystem.

pub mod common;
pub mod config;
pub mod utils;
pub mod vm;
