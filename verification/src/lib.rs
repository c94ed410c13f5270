//! A minimal preemptive multitasking kernel for a single-core microcontroller.
//!
//! The scheduler, its task table and the context-switch protocol are written
//! against an explicit model of the processor and of the stack memory, so that
//! every rule of the kernel is stated in a contract and proved.

pub mod kernel;
