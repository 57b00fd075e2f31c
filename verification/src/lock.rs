//! Kernel state records that live behind the kernel's locks.
pub mod state;
