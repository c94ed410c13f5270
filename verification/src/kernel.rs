//! Kernel-wide constants and the error type of the two setup calls.

use vstd::prelude::*;

pub mod arena;
pub mod context;
pub mod cpu;
pub mod frame;
pub mod model;
pub mod scheduler;
pub mod selector;
pub mod task;

verus! {

/// Capacity of the task table.
pub const MAX_TASK_NUM: u32 = 2;

/// Smallest stack, in words, that the arena must be able to give every task.
pub const MIN_STACK_SIZE_PER_TASK: u32 = 128;

/// Errors of the two setup calls.
#[derive(Clone, Copy, Debug, PartialEq, Eq)]
pub enum RsOsErr {
    /// The stack arena is too small to give every task its minimum stack.
    NoEnoughStack,
    /// The task table is full.
    ToMuchTasks,
}

} // verus!
