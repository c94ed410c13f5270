//! The scheduler as a state machine over plain values: what the state is,
//! when it is well formed, and what each operation makes of it.

use vstd::prelude::*;
use crate::kernel::arena::ArenaView;
use crate::kernel::cpu::{Cpu, THREAD_RETURN};
use crate::kernel::frame::{HwStackFrame, SwStackFrame, FRAME_WORDS, HW_FRAME_SIZE, SW_FRAME_SIZE};
use crate::kernel::selector::{
    cyclic_distance, first_slots_ready, has_ready, lemma_round_robin_order,
    lemma_round_visits_each_once, lemma_selection_reads_ready_flags, lemma_skips_not_ready,
    next_ready, selected_after,
};
use crate::kernel::task::{lemma_flag_bits, Task, IN_USE_FLAG, READY_MSK};
use crate::kernel::{MAX_TASK_NUM, MIN_STACK_SIZE_PER_TASK};

verus! {

/// What the deferred interrupt has to do when it runs next.
#[derive(Clone, Copy, Debug, PartialEq, Eq)]
pub enum Syscall {
    /// Dispatch the first task.
    Start,
    /// Switch from the task that was running to the task that was selected.
    ContextSwitching,
}

/// Size in bytes of the two frames that lie at the top of a suspended
/// task's stack.
pub const FRAMES_SIZE: u32 = HW_FRAME_SIZE + SW_FRAME_SIZE;

/// Number of words in the two frames together.
pub const FRAMES_WORDS: u32 = 2 * FRAME_WORDS;

/// The state of the scheduler.
pub struct SchedulerView {
    /// The task table: every slot, occupied or not.
    pub tasks: Seq<Task>,
    /// Number of registered tasks; they occupy the first slots.
    pub count: int,
    /// Slot of the task whose context is live, or is about to be.
    pub current: int,
    /// Slot of the task that was current before the last selection.
    pub previous: int,
    /// The scheduler has been started and not stopped since.
    pub started: bool,
    /// What the deferred interrupt has to do next.
    pub pending: Syscall,
    /// The stack arena.
    pub arena: ArenaView,
    /// The address up to which the arena is given out to task stacks.
    pub stack_top: int,
}

/// Bytes of stack given to the first `count` tasks of the table together.
pub open spec fn stack_bytes(tasks: Seq<Task>, count: int) -> int
    decreases count,
{
    if count <= 0 {
        0
    } else {
        stack_bytes(tasks, count - 1) + tasks[count - 1].stack_size
    }
}

/// A control block is that of a registered task: it has an entry function,
/// the flags of an occupied slot, a stack made of whole words that is large
/// enough for the two frames, and a saved stack pointer with both frames
/// above it inside the arena.
pub open spec fn tcb_wf(task: Task, arena: ArenaView) -> bool {
    &&& task.func is Some
    &&& task.is_occupied()
    &&& task.stack_size % 4 == 0
    &&& task.stack_size >= FRAMES_SIZE
    &&& arena.holds(task.stack_pointer as int, FRAMES_WORDS as int)
}

impl SchedulerView {
    /// The state right after initialization with the given arena: no task,
    /// nothing given out, not started.
    pub open spec fn initial(base: int, words: Seq<u32>) -> SchedulerView {
        SchedulerView {
            tasks: Seq::new(MAX_TASK_NUM as nat, |i: int| Task::empty()),
            count: 0,
            current: 0,
            previous: 0,
            started: false,
            pending: Syscall::Start,
            arena: ArenaView { base, words },
            stack_top: base,
        }
    }

    /// Lowest address of the stack region of the task in slot `i`: the
    /// regions follow each other from the arena's base in registration order.
    pub open spec fn region_low(self, i: int) -> int {
        self.arena.base + stack_bytes(self.tasks, i)
    }

    /// The address just above the stack region of the task in slot `i`.
    pub open spec fn region_high(self, i: int) -> int {
        self.region_low(i) + self.tasks[i].stack_size
    }

    /// The state is well formed.
    pub open spec fn wf(self) -> bool {
        &&& self.tasks.len() == MAX_TASK_NUM
        &&& 0 <= self.count <= MAX_TASK_NUM
        &&& 0 <= self.current < MAX_TASK_NUM
        &&& self.current < self.count || self.current == 0
        &&& 0 <= self.previous < MAX_TASK_NUM
        &&& self.previous < self.count || self.previous == 0
        &&& self.pending is ContextSwitching ==> self.count >= 1
        &&& self.arena.wf()
        &&& self.arena.words.len() >= MAX_TASK_NUM * MIN_STACK_SIZE_PER_TASK
        &&& self.stack_top == self.region_low(self.count)
        &&& self.stack_top <= self.arena.end()
        &&& forall|i: int| 0 <= i < self.count ==> tcb_wf(#[trigger] self.tasks[i], self.arena)
        &&& forall|i: int|
            self.count <= i < MAX_TASK_NUM ==> #[trigger] self.tasks[i] == Task::empty()
    }

    /// The task table is full.
    pub open spec fn is_full(self) -> bool {
        self.count >= MAX_TASK_NUM
    }

    /// A stack of `stack_size` bytes can be given out next: it is made of
    /// whole words, it is large enough for the two frames, and the arena has
    /// that much left.
    pub open spec fn stack_fits(self, stack_size: u32) -> bool {
        &&& stack_size % 4 == 0
        &&& stack_size >= FRAMES_SIZE
        &&& self.stack_top + stack_size <= self.arena.end()
    }

    /// The control block that registration stores for `task`: the stack
    /// pointer lies below the two frames at the top of the new region, and
    /// the task is READY.
    pub open spec fn new_tcb(self, task: Task) -> Task {
        Task {
            stack_pointer: (self.stack_top + task.stack_size - FRAMES_SIZE) as u32,
            st_flags: READY_MSK | IN_USE_FLAG,
            ..task
        }
    }

    /// The state after `task` is registered. Its stack region is the next
    /// `task.stack_size` bytes of the arena; the frame of its first dispatch
    /// lies at the top of the region, and the software frame below it is left
    /// as it was.
    pub open spec fn registered(self, task: Task) -> SchedulerView {
        let top: int = self.stack_top + task.stack_size;
        SchedulerView {
            tasks: self.tasks.update(self.count, self.new_tcb(task)),
            count: self.count + 1,
            arena: self.arena.store_words(
                top - HW_FRAME_SIZE,
                HwStackFrame::first_dispatch(task.func.unwrap(), task.fn_arg).words(),
            ),
            stack_top: top,
            ..self
        }
    }

    /// The state after the tasks of `tasks` are registered one after the
    /// other.
    pub open spec fn registered_all(self, tasks: Seq<Task>) -> SchedulerView
        decreases tasks.len(),
    {
        if tasks.len() == 0 {
            self
        } else {
            self.registered_all(tasks.drop_last()).registered(tasks.last())
        }
    }

    /// The tasks of `tasks` can be registered one after the other: the table
    /// has a slot for each, each has an entry function and a stack that can
    /// be given out, and the arena has room for all the stacks.
    pub open spec fn all_fit(self, tasks: Seq<Task>) -> bool {
        &&& self.count + tasks.len() <= MAX_TASK_NUM
        &&& forall|i: int|
            0 <= i < tasks.len() ==> (#[trigger] tasks[i]).func is Some && tasks[i].stack_size % 4
                == 0 && tasks[i].stack_size >= FRAMES_SIZE
        &&& self.stack_top + stack_bytes(tasks, tasks.len() as int) <= self.arena.end()
    }

    /// The state after the selector has run.
    pub open spec fn selected(self) -> SchedulerView {
        SchedulerView { current: next_ready(self.tasks, self.current), ..self }
    }

    /// The state after a timer tick that counts: the current task is noted
    /// as the outgoing one, the next READY task becomes current, and a switch
    /// is pending.
    pub open spec fn ticked(self) -> SchedulerView {
        SchedulerView {
            previous: self.current,
            current: next_ready(self.tasks, self.current),
            pending: Syscall::ContextSwitching,
            ..self
        }
    }

    /// The state after the callee-saved registers of `cpu` are pushed onto
    /// the task stack.
    pub open spec fn context_saved(self, cpu: Cpu) -> SchedulerView {
        SchedulerView {
            arena: self.arena.store_words(cpu.psp - SW_FRAME_SIZE, cpu.sw_frame().words()),
            ..self
        }
    }

    /// The processor after its callee-saved registers are pushed onto the
    /// task stack.
    pub open spec fn cpu_context_saved(cpu: Cpu) -> Cpu {
        Cpu { psp: (cpu.psp - SW_FRAME_SIZE) as u32, ..cpu }
    }

    /// The processor after its callee-saved registers are popped from the
    /// task stack.
    pub open spec fn cpu_context_loaded(self, cpu: Cpu) -> Cpu {
        Cpu {
            psp: (cpu.psp + SW_FRAME_SIZE) as u32,
            ..cpu.with_sw_frame(
                SwStackFrame::from_words(self.arena.load_words(cpu.psp as int, FRAME_WORDS as int)),
            )
        }
    }

    /// The state after a switch from the task in slot `outgoing`, which runs
    /// on `cpu`, to the task in slot `incoming`: the callee-saved registers
    /// lie on the outgoing task's stack, below the hardware frame, and its
    /// control block holds the resulting stack pointer.
    pub open spec fn switched(self, cpu: Cpu, outgoing: int, incoming: int) -> SchedulerView {
        let saved = self.context_saved(cpu);
        SchedulerView {
            tasks: self.tasks.update(
                outgoing,
                Task { stack_pointer: (cpu.psp - SW_FRAME_SIZE) as u32, ..self.tasks[outgoing] },
            ),
            ..saved
        }
    }

    /// The processor after a switch from the task in slot `outgoing`, which
    /// runs on `cpu`, to the task in slot `incoming`: the callee-saved
    /// registers are those found at the incoming task's saved stack pointer,
    /// the task stack pointer lies above them, at the incoming task's
    /// hardware frame, interrupts are unmasked, and the exception returns to
    /// thread mode on the task stack.
    pub open spec fn cpu_switched(self, cpu: Cpu, outgoing: int, incoming: int) -> Cpu {
        let after = self.switched(cpu, outgoing, incoming);
        let loaded = after.cpu_context_loaded(
            Cpu { psp: after.tasks[incoming].stack_pointer, ..cpu },
        );
        Cpu { lr: THREAD_RETURN, primask: false, ..loaded }
    }

    /// The state after the processor, running a task on `cpu`, has taken an
    /// exception: the hardware frame lies on the task stack.
    pub open spec fn exception_entered(self, cpu: Cpu) -> SchedulerView {
        SchedulerView {
            arena: self.arena.store_words(cpu.psp - HW_FRAME_SIZE, cpu.hw_frame().words()),
            ..self
        }
    }

    /// The processor after it has taken an exception while running a task:
    /// the task stack pointer lies at the hardware frame, and the handler
    /// will return to thread mode on the task stack.
    pub open spec fn cpu_exception_entered(cpu: Cpu) -> Cpu {
        Cpu { psp: (cpu.psp - HW_FRAME_SIZE) as u32, lr: THREAD_RETURN, ..cpu }
    }

    /// The processor after it has returned from an exception to thread mode
    /// on the task stack: the hardware frame is popped into its registers.
    pub open spec fn cpu_exception_returned(self, cpu: Cpu) -> Cpu {
        Cpu {
            psp: (cpu.psp + HW_FRAME_SIZE) as u32,
            ..cpu.with_hw_frame(
                HwStackFrame::from_words(self.arena.load_words(cpu.psp as int, FRAME_WORDS as int)),
            )
        }
    }

    /// The state after the first dispatch: where the first slot holds a
    /// task, that task is current.
    pub open spec fn first_dispatched(self) -> SchedulerView {
        if self.count == 0 {
            self
        } else {
            SchedulerView { current: 0, ..self }
        }
    }

    /// The processor after the first dispatch. Where the first slot holds no
    /// task, nothing happens. Otherwise the callee-saved registers are popped
    /// from the first task's stack, the task stack pointer lies at its
    /// hardware frame, the timer runs, and the exception returns to thread
    /// mode on the task stack.
    pub open spec fn cpu_first_dispatched(self, cpu: Cpu) -> Cpu {
        if self.count == 0 {
            cpu
        } else {
            let loaded = self.cpu_context_loaded(Cpu { psp: self.tasks[0].stack_pointer, ..cpu });
            Cpu { lr: THREAD_RETURN, ..loaded.with_timer_running() }
        }
    }
}

/// An arena that is large enough, starts on a word boundary and ends inside
/// the address space gives a well-formed initial state.
pub proof fn lemma_initial_wf(base: int, words: Seq<u32>)
    requires
        0 <= base,
        base % 4 == 0,
        base + 4 * words.len() <= u32::MAX,
        words.len() >= MAX_TASK_NUM * MIN_STACK_SIZE_PER_TASK,
    ensures
        SchedulerView::initial(base, words).wf(),
{
}

/// The stack given to the first tasks depends on those tasks' sizes alone.
pub proof fn lemma_stack_bytes_of_sizes(before: Seq<Task>, after: Seq<Task>, count: int)
    requires
        count <= before.len(),
        count <= after.len(),
        forall|i: int| 0 <= i < count ==> before[i].stack_size == after[i].stack_size,
    ensures
        stack_bytes(before, count) == stack_bytes(after, count),
    decreases count,
{
    if count > 0 {
        lemma_stack_bytes_of_sizes(before, after, count - 1);
    }
}

/// The stack given to the first tasks grows with their number, and is made
/// of whole words where every stack is.
pub proof fn lemma_stack_bytes_grow(tasks: Seq<Task>, fewer: int, more: int)
    requires
        0 <= fewer <= more <= tasks.len(),
        forall|i: int| 0 <= i < more ==> (#[trigger] tasks[i]).stack_size % 4 == 0,
    ensures
        0 <= stack_bytes(tasks, fewer) <= stack_bytes(tasks, more),
        stack_bytes(tasks, fewer) % 4 == 0,
        stack_bytes(tasks, more) % 4 == 0,
    decreases more,
{
    if more > 0 {
        assert(tasks[more - 1].stack_size % 4 == 0);
        if fewer < more {
            lemma_stack_bytes_grow(tasks, fewer, more - 1);
        } else {
            lemma_stack_bytes_grow(tasks, fewer - 1, more - 1);
        }
    }
}

/// Registration keeps the state well formed.
pub proof fn lemma_registered_wf(state: SchedulerView, task: Task)
    requires
        state.wf(),
        !state.is_full(),
        task.func is Some,
        state.stack_fits(task.stack_size),
    ensures
        state.registered(task).wf(),
{
    let after = state.registered(task);
    lemma_flag_bits();
    lemma_stack_bytes_of_sizes(state.tasks, after.tasks, state.count);
    assert forall|i: int| 0 <= i < state.count implies (#[trigger] state.tasks[i]).stack_size % 4
        == 0 by {
        assert(tcb_wf(state.tasks[i], state.arena));
    }
    lemma_stack_bytes_grow(state.tasks, 0, state.count);
    assert(after.tasks[state.count] == state.new_tcb(task));
    assert forall|i: int| 0 <= i < after.count implies tcb_wf(
        #[trigger] after.tasks[i],
        after.arena,
    ) by {
        if i < state.count {
            assert(tcb_wf(state.tasks[i], state.arena));
        }
    }
}

/// A switch changes no task's flags, so the selector goes on as if no switch
/// had been made.
pub proof fn lemma_switched_keeps_selection(
    state: SchedulerView,
    cpu: Cpu,
    outgoing: int,
    incoming: int,
    rounds: nat,
)
    requires
        state.wf(),
        has_ready(state.tasks),
        0 <= outgoing < state.count,
        0 <= incoming < state.count,
    ensures
        state.switched(cpu, outgoing, incoming).current == state.current,
        selected_after(state.switched(cpu, outgoing, incoming).tasks, state.current, rounds)
            == selected_after(state.tasks, state.current, rounds),
{
    lemma_selection_reads_ready_flags(
        state.tasks,
        state.switched(cpu, outgoing, incoming).tasks,
        state.current,
        rounds,
    );
}

/// A switch keeps the state well formed.
pub proof fn lemma_switched_wf(state: SchedulerView, cpu: Cpu, outgoing: int, incoming: int)
    requires
        state.wf(),
        0 <= outgoing < state.count,
        0 <= incoming < state.count,
        state.arena.holds(cpu.psp - SW_FRAME_SIZE, FRAMES_WORDS as int),
    ensures
        state.switched(cpu, outgoing, incoming).wf(),
{
    let after = state.switched(cpu, outgoing, incoming);
    lemma_stack_bytes_of_sizes(state.tasks, after.tasks, state.count);
    assert forall|i: int| 0 <= i < after.count implies tcb_wf(
        #[trigger] after.tasks[i],
        after.arena,
    ) by {
        assert(tcb_wf(state.tasks[i], state.arena));
    }
}

/// Capacity: registration after registration, each task gets the next slot
/// of the table and the next bytes of the arena, in the order of
/// registration, until the table is full. The table is full exactly when as
/// many tasks are registered as it has slots; from then on registration
/// fails.
pub proof fn lemma_registration_fills_table(state: SchedulerView, tasks: Seq<Task>)
    requires
        state.wf(),
        state.all_fit(tasks),
    ensures
        state.registered_all(tasks).wf(),
        state.registered_all(tasks).count == state.count + tasks.len(),
        state.registered_all(tasks).stack_top == state.stack_top + stack_bytes(
            tasks,
            tasks.len() as int,
        ),
        state.registered_all(tasks).is_full() <==> state.count + tasks.len() == MAX_TASK_NUM,
        state.registered_all(tasks).arena.base == state.arena.base,
        state.registered_all(tasks).arena.end() == state.arena.end(),
        forall|i: int|
            0 <= i < tasks.len() ==> {
                let tcb = #[trigger] state.registered_all(tasks).tasks[state.count + i];
                &&& tcb.func == tasks[i].func
                &&& tcb.fn_arg == tasks[i].fn_arg
                &&& tcb.stack_size == tasks[i].stack_size
                &&& tcb.priority == tasks[i].priority
                &&& tcb.is_ready()
            },
    decreases tasks.len(),
{
    if tasks.len() > 0 {
        let earlier = tasks.drop_last();
        let before = state.registered_all(earlier);
        let after = state.registered_all(tasks);
        lemma_stack_bytes_of_sizes(earlier, tasks, earlier.len() as int);
        assert(tasks.last().stack_size >= 0);
        assert(state.all_fit(earlier)) by {
            assert forall|i: int| 0 <= i < earlier.len() implies (#[trigger] earlier[i]).func is Some
                && earlier[i].stack_size % 4 == 0 && earlier[i].stack_size >= FRAMES_SIZE by {
                assert(earlier[i] == tasks[i]);
            }
        }
        lemma_registration_fills_table(state, earlier);
        assert(tasks.last() == tasks[tasks.len() - 1]);
        assert(stack_bytes(tasks, tasks.len() as int) == stack_bytes(tasks, tasks.len() - 1)
            + tasks.last().stack_size);
        lemma_registered_wf(before, tasks.last());
        lemma_flag_bits();
        assert forall|i: int| 0 <= i < tasks.len() implies {
            let tcb = #[trigger] after.tasks[state.count + i];
            &&& tcb.func == tasks[i].func
            &&& tcb.fn_arg == tasks[i].fn_arg
            &&& tcb.stack_size == tasks[i].stack_size
            &&& tcb.priority == tasks[i].priority
            &&& tcb.is_ready()
        } by {
            if i < earlier.len() {
                assert(after.tasks[state.count + i] == before.tasks[state.count + i]);
                assert(earlier[i] == tasks[i]);
            }
        }
    }
}

/// Stack-region disjointness: the stack regions of two registered tasks do
/// not overlap. Each region is as large as its task's stack size, and lies
/// inside the arena.
pub proof fn lemma_stack_regions_disjoint(state: SchedulerView, i: int, j: int)
    requires
        state.wf(),
        0 <= i < state.count,
        0 <= j < state.count,
        i != j,
    ensures
        i < j ==> state.region_high(i) <= state.region_low(j),
        j < i ==> state.region_high(j) <= state.region_low(i),
        state.region_high(i) - state.region_low(i) == state.tasks[i].stack_size,
        state.arena.base <= state.region_low(i),
        state.region_high(i) <= state.arena.end(),
{
    assert forall|k: int| 0 <= k < state.count implies (#[trigger] state.tasks[k]).stack_size % 4
        == 0 by {
        assert(tcb_wf(state.tasks[k], state.arena));
    }
    lemma_stack_bytes_grow(state.tasks, 0, i);
    lemma_stack_bytes_grow(state.tasks, i + 1, state.count);
    if i < j {
        lemma_stack_bytes_grow(state.tasks, i + 1, j);
    } else {
        lemma_stack_bytes_grow(state.tasks, j + 1, i);
    }
}

/// What registration gives the new task and leaves to the others. The new
/// region begins where the arena was given out up to, and is as large as the
/// stack size asked for. The new task's saved stack pointer lies inside its
/// region, with the two frames between it and the region's top. The other
/// tasks keep their control blocks and their regions, and no word below the
/// new region changes.
pub proof fn lemma_registered_region(state: SchedulerView, task: Task)
    requires
        state.wf(),
        !state.is_full(),
        task.func is Some,
        state.stack_fits(task.stack_size),
    ensures
        state.registered(task).region_low(state.count) == state.stack_top,
        state.registered(task).region_high(state.count) == state.stack_top + task.stack_size,
        state.registered(task).tasks[state.count].stack_size == task.stack_size,
        state.registered(task).tasks[state.count].stack_pointer >= state.stack_top,
        state.registered(task).tasks[state.count].stack_pointer + FRAMES_SIZE == state.stack_top
            + task.stack_size,
        forall|i: int|
            0 <= i < state.count ==> #[trigger] state.registered(task).tasks[i] == state.tasks[i]
                && state.registered(task).region_low(i) == state.region_low(i),
        forall|addr: int|
            state.arena.holds(addr, 1) && addr < state.stack_top ==> #[trigger] state.registered(
                task,
            ).arena.load(addr) == state.arena.load(addr),
{
    let after = state.registered(task);
    lemma_registered_wf(state, task);
    lemma_stack_bytes_of_sizes(state.tasks, after.tasks, state.count);
    assert forall|i: int| 0 <= i < state.count implies #[trigger] after.tasks[i] == state.tasks[i]
        && after.region_low(i) == state.region_low(i) by {
        lemma_stack_bytes_of_sizes(state.tasks, after.tasks, i);
    }
}

/// Skip-blocked: a BLOCKED task is never made current, however many times
/// the selector runs, as long as the task table stays as it is.
pub proof fn lemma_blocked_is_never_selected(state: SchedulerView, blocked: int, rounds: nat)
    requires
        state.wf(),
        has_ready(state.tasks),
        0 <= blocked < MAX_TASK_NUM,
        state.tasks[blocked].is_blocked(),
        rounds >= 1,
    ensures
        state.selected().current == selected_after(state.tasks, state.current, 1),
        selected_after(state.tasks, state.current, rounds) != blocked,
{
    lemma_flag_bits();
    assert(state.tasks[blocked] != Task::empty());
    assert(tcb_wf(state.tasks[blocked], state.arena));
    lemma_skips_not_ready(state.tasks, state.current, rounds, blocked);
    assert(selected_after(state.tasks, state.current, 0) == state.current);
}

/// Round-robin fairness: with every registered task READY, the selector
/// makes the tasks current one after the other in increasing cyclic order,
/// beginning with the task after the current one; as many selections as
/// there are tasks visit each task exactly once.
pub proof fn lemma_registered_tasks_take_turns(state: SchedulerView, rounds: nat)
    requires
        state.wf(),
        state.count >= 1,
        forall|i: int| 0 <= i < state.count ==> (#[trigger] state.tasks[i]).is_ready(),
    ensures
        selected_after(state.tasks, state.current, rounds) == (state.current + rounds)
            % state.count,
        forall|i: int|
            0 <= i < state.count ==> #[trigger] selected_after(
                state.tasks,
                state.current,
                cyclic_distance(state.current, i, state.count) as nat,
            ) == i,
        forall|j: nat, k: nat|
            1 <= j < k <= state.count ==> #[trigger] selected_after(state.tasks, state.current, j)
                != #[trigger] selected_after(state.tasks, state.current, k),
{
    lemma_flag_bits();
    assert(first_slots_ready(state.tasks, state.count));
    lemma_round_robin_order(state.tasks, state.count, state.current, rounds);
    lemma_round_visits_each_once(state.tasks, state.count, state.current);
}

} // verus!
