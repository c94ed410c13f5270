//! The task control block.

use vstd::prelude::*;

verus! {

/// Slot flag: the task is eligible for dispatch.
pub const READY_MSK: u32 = 0x0000_0001;

/// Slot flag: the task is not eligible for dispatch.
pub const BLOCKED_MSK: u32 = 0x0000_0002;

/// Slot flag: the slot holds a task.
pub const IN_USE_FLAG: u32 = 0x0000_0004;

/// Task control block: one per task, stored by value in the task table.
#[derive(Clone, Copy, Debug, PartialEq, Eq)]
pub struct Task {
    /// Address of the task's entry function, `None` in an empty slot.
    pub func: Option<u32>,
    /// Argument handed to the entry function on first dispatch.
    pub fn_arg: u32,
    /// Saved top-of-stack address of the task.
    pub stack_pointer: u32,
    /// Size in bytes of the task's stack region.
    pub stack_size: u32,
    /// Task priority; stored, not consulted by the round-robin policy.
    pub priority: u32,
    /// Status flags.
    pub st_flags: u32,
}

impl Task {
    /// The content of a slot that holds no task.
    pub open spec fn empty() -> Task {
        Task { func: None, fn_arg: 0, stack_pointer: 0, stack_size: 0, priority: 0, st_flags: 0 }
    }

    /// The task is eligible for dispatch.
    pub open spec fn is_ready(self) -> bool {
        self.st_flags & READY_MSK != 0
    }

    /// The task is not eligible for dispatch.
    pub open spec fn is_blocked(self) -> bool {
        self.st_flags & BLOCKED_MSK != 0
    }

    /// The slot holds a task.
    pub open spec fn is_in_use(self) -> bool {
        self.st_flags & IN_USE_FLAG != 0
    }

    /// The flags are those of an occupied slot: in use, and either ready or
    /// blocked but not both.
    pub open spec fn is_occupied(self) -> bool {
        &&& self.is_in_use()
        &&& self.is_ready() != self.is_blocked()
    }

    /// A task that is ready to be registered, with the entry function at the
    /// address `fp`.
    pub fn new(fp: u32, arg: u32, stack_size: u32, prio: u32) -> (t: Task)
        ensures
            t == (Task {
                func: Some(fp),
                fn_arg: arg,
                stack_pointer: 0,
                stack_size: stack_size,
                priority: prio,
                st_flags: READY_MSK,
            }),
    {
        Task {
            func: Some(fp),
            fn_arg: arg,
            stack_pointer: 0,
            stack_size,
            priority: prio,
            st_flags: READY_MSK,
        }
    }
}

impl Default for Task {
    /// The content of a slot that holds no task.
    fn default() -> (t: Task)
        ensures
            t == Task::empty(),
    {
        Task { func: None, fn_arg: 0, stack_pointer: 0, stack_size: 0, priority: 0, st_flags: 0 }
    }
}

/// What the flag bits of the three slot states decode to: a READY task, a
/// BLOCKED task and an empty slot.
pub proof fn lemma_flag_bits()
    ensures
        READY_MSK | IN_USE_FLAG == 5,
        BLOCKED_MSK | IN_USE_FLAG == 6,
        forall|t: Task|
            #![trigger t.is_ready()]
            #![trigger t.is_blocked()]
            #![trigger t.is_in_use()]
            t.st_flags == 5 ==> t.is_ready() && !t.is_blocked() && t.is_in_use(),
        forall|t: Task|
            #![trigger t.is_ready()]
            #![trigger t.is_blocked()]
            #![trigger t.is_in_use()]
            t.st_flags == 6 ==> !t.is_ready() && t.is_blocked() && t.is_in_use(),
        forall|t: Task|
            #![trigger t.is_ready()]
            #![trigger t.is_blocked()]
            #![trigger t.is_in_use()]
            t.st_flags == 0 ==> !t.is_ready() && !t.is_blocked() && !t.is_in_use(),
{
    assert(1u32 | 4 == 5 && 2u32 | 4 == 6) by (bit_vector);
    assert(0u32 & 1 == 0 && 0u32 & 2 == 0 && 0u32 & 4 == 0) by (bit_vector);
    assert(5u32 & 4 != 0 && 5u32 & 1 != 0 && 5u32 & 2 == 0) by (bit_vector);
    assert(6u32 & 4 != 0 && 6u32 & 1 == 0 && 6u32 & 2 != 0) by (bit_vector);
}

} // verus!
