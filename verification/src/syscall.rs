//! The syscall layer: thin validating adapters between trap-delivered raw
//! arguments and the task and file operations, translating their outcomes
//! into the kernel's signed-integer return convention.
pub mod fs;
pub mod process;
