//! Process- and memory-management core of a small teaching operating-system
//! kernel: task control blocks with their virtual address-space bookkeeping,
//! a stride scheduler, the memory-management syscall layer, and the file
//! syscall layer's validation logic.

pub mod config;
pub mod fs;
pub mod kernel;
pub mod syscall;
pub mod manager;
pub mod mm;
pub mod task;
