//! The scheduler: task registration, the round-robin selector, and the two
//! interrupt handlers that switch the processor from one task to the next.
//!
//! All scheduler state lives in one `Scheduler` value, which the caller owns
//! and hands to every operation together with the processor state.

use vstd::prelude::*;
use crate::kernel::arena::StackArena;
use crate::kernel::cpu::{
    Cpu, SCB_ICSR_PENDSVSET, SYST_CSR_ENABLE, SYST_CSR_TICKINT, SYST_RVR_MASK, THREAD_RETURN,
};
use crate::kernel::frame::{HwStackFrame, SwStackFrame, FRAME_WORDS, HW_FRAME_SIZE, SW_FRAME_SIZE};
use crate::kernel::model::{
    lemma_initial_wf, lemma_registered_wf, lemma_switched_wf, tcb_wf, SchedulerView, Syscall,
    FRAMES_SIZE, FRAMES_WORDS,
};
use crate::kernel::selector::{has_ready, next_ready_task};
use crate::kernel::task::{lemma_flag_bits, Task, IN_USE_FLAG, READY_MSK};
use crate::kernel::{RsOsErr, MAX_TASK_NUM, MIN_STACK_SIZE_PER_TASK};

verus! {

/// The scheduler: the task table, the stack arena, and what the two
/// interrupt handlers have to remember between their runs.
pub struct Scheduler {
    task_table: Vec<Task>,
    tasks_cntr: u32,
    current_task: u32,
    previous_task: u32,
    sched_started: bool,
    syscall_num: Syscall,
    stack: StackArena,
    stack_top: u32,
}

impl View for Scheduler {
    type V = SchedulerView;

    closed spec fn view(&self) -> SchedulerView {
        SchedulerView {
            tasks: self.task_table@,
            count: self.tasks_cntr as int,
            current: self.current_task as int,
            previous: self.previous_task as int,
            started: self.sched_started,
            pending: self.syscall_num,
            arena: self.stack@,
            stack_top: self.stack_top as int,
        }
    }
}

impl Scheduler {
    /// The scheduler is well formed: its state is.
    pub open spec fn wf(&self) -> bool {
        self@.wf()
    }

    /// Number of registered tasks.
    pub fn tasks_count(&self) -> (count: u32)
        ensures
            count == self@.count,
    {
        self.tasks_cntr
    }

    /// Slot of the task whose context is live, or is about to be.
    pub fn current_task(&self) -> (slot: u32)
        ensures
            slot == self@.current,
    {
        self.current_task
    }

    /// Slot of the task that was current before the last selection.
    pub fn previous_task(&self) -> (slot: u32)
        ensures
            slot == self@.previous,
    {
        self.previous_task
    }

    /// Whether the scheduler has been started and not stopped since.
    pub fn is_started(&self) -> (started: bool)
        ensures
            started == self@.started,
    {
        self.sched_started
    }

    /// What the deferred interrupt has to do next.
    pub fn pending(&self) -> (pending: Syscall)
        ensures
            pending == self@.pending,
    {
        self.syscall_num
    }

    /// The control block in slot `slot` of the task table.
    pub fn task(&self, slot: u32) -> (task: Task)
        requires
            self.wf(),
            slot < MAX_TASK_NUM,
        ensures
            task == self@.tasks[slot as int],
    {
        self.task_table[slot as usize]
    }

    /// Whether `count` words starting at `addr` lie inside the stack arena.
    pub fn stack_holds(&self, addr: u32, count: u32) -> (inside: bool)
        requires
            self.wf(),
        ensures
            inside == self@.arena.holds(addr as int, count as int),
    {
        self.stack.holds(addr, count)
    }

    /// Reads the word of the stack arena at `addr`.
    pub fn stack_word(&self, addr: u32) -> (value: u32)
        requires
            self.wf(),
            self@.arena.holds(addr as int, 1),
        ensures
            value == self@.arena.load(addr as int),
    {
        self.stack.load(addr)
    }
}

/// Sets up a scheduler over the stack arena `stack_storage`, whose first word
/// has the address `stack_base`, and programs the timer's reload value from
/// `tick`.
///
/// An arena with fewer words than every task's minimum stack together is
/// refused, and the processor is left as it was.
pub fn init(cpu: &mut Cpu, stack_storage: Vec<u32>, stack_base: u32, tick: u32) -> (r: Result<
    Scheduler,
    RsOsErr,
>)
    requires
        stack_storage.len() >= MAX_TASK_NUM * MIN_STACK_SIZE_PER_TASK ==> stack_base % 4 == 0
            && stack_base + 4 * stack_storage.len() <= u32::MAX,
    ensures
        stack_storage.len() < MAX_TASK_NUM * MIN_STACK_SIZE_PER_TASK ==> (r matches Err(e) && e
            == RsOsErr::NoEnoughStack) && *final(cpu) == *old(cpu),
        stack_storage.len() >= MAX_TASK_NUM * MIN_STACK_SIZE_PER_TASK ==> (r matches Ok(sched)
            && sched.wf() && sched@ == SchedulerView::initial(stack_base as int, stack_storage@))
            && *final(cpu) == old(cpu).with_reload(tick),
{
    if stack_storage.len() < (MAX_TASK_NUM * MIN_STACK_SIZE_PER_TASK) as usize {
        return Err(RsOsErr::NoEnoughStack);
    }
    let mut task_table: Vec<Task> = Vec::new();
    let mut slot: u32 = 0;
    while slot < MAX_TASK_NUM
        invariant
            slot <= MAX_TASK_NUM,
            task_table.len() == slot,
            forall|i: int| 0 <= i < slot ==> #[trigger] task_table@[i] == Task::empty(),
        decreases MAX_TASK_NUM - slot,
    {
        task_table.push(Task::default());
        slot = slot + 1;
    }
    cpu.syst_rvr = tick & SYST_RVR_MASK;
    let sched = Scheduler {
        task_table,
        tasks_cntr: 0,
        current_task: 0,
        previous_task: 0,
        sched_started: false,
        syscall_num: Syscall::Start,
        stack: StackArena::new(stack_base, stack_storage),
        stack_top: stack_base,
    };
    proof {
        assert(sched@.tasks =~= SchedulerView::initial(stack_base as int, stack_storage@).tasks);
        lemma_initial_wf(stack_base as int, stack_storage@);
    }
    Ok(sched)
}

/// Whether a stack of `stack_size` bytes can be given to the next task.
pub fn stack_fits(sched: &Scheduler, stack_size: u32) -> (fits: bool)
    requires
        sched.wf(),
    ensures
        fits == sched@.stack_fits(stack_size),
{
    let end: u64 = sched.stack.base() as u64 + 4 * (sched.stack.len() as u64);
    stack_size % 4 == 0 && stack_size >= FRAMES_SIZE && sched.stack_top as u64 + stack_size as u64
        <= end
}

/// Registers `t` as the next task and returns its index in the task table.
///
/// The task gets the next `t.stack_size` bytes of the arena as its stack. The
/// hardware frame of its first dispatch is written at the top of that stack,
/// room for the software frame is left below it, and the stored control block
/// points below both and is READY. Where the scheduler has been started, the
/// table is changed inside a critical section.
///
/// With the table full nothing changes and the call fails. Otherwise the task
/// must have an entry function and a stack that can be given out (see
/// `stack_fits`): the frame is written inside the arena or not at all.
pub fn add_task(sched: &mut Scheduler, cpu: &mut Cpu, t: Task) -> (r: Result<u32, RsOsErr>)
    requires
        old(sched).wf(),
        !old(sched)@.is_full() ==> t.func is Some && old(sched)@.stack_fits(t.stack_size),
    ensures
        final(sched).wf(),
        old(sched)@.is_full() ==> r == Err::<u32, RsOsErr>(RsOsErr::ToMuchTasks) && final(sched)@
            == old(sched)@ && *final(cpu) == *old(cpu),
        !old(sched)@.is_full() ==> r == Ok::<u32, RsOsErr>(old(sched)@.count as u32)
            && final(sched)@ == old(sched)@.registered(t),
        !old(sched)@.is_full() && !old(sched)@.started ==> *final(cpu) == *old(cpu),
        !old(sched)@.is_full() && old(sched)@.started ==> *final(cpu) == old(
            cpu,
        ).with_tick_disabled().with_tick_enabled(),
{
    if sched.tasks_cntr >= MAX_TASK_NUM {
        return Err(RsOsErr::ToMuchTasks);
    }
    if sched.sched_started {
        enter_critical_section(cpu);
    }
    proof {
        lemma_registered_wf(sched@, t);
        assert(tcb_wf(sched@.registered(t).tasks[sched@.count], sched@.arena));
    }
    let index: u32 = sched.tasks_cntr;
    let top: u32 = sched.stack_top + t.stack_size;
    let frame = HwStackFrame::new_first_dispatch(t.func.unwrap(), t.fn_arg);
    frame.store(&mut sched.stack, top - HW_FRAME_SIZE);
    let mut tcb = t;
    tcb.stack_pointer = top - FRAMES_SIZE;
    tcb.st_flags = READY_MSK | IN_USE_FLAG;
    sched.task_table[index as usize] = tcb;
    sched.tasks_cntr = index + 1;
    sched.stack_top = top;
    assert(sched@.tasks =~= old(sched)@.registered(t).tasks);
    if sched.sched_started {
        leave_critical_section(cpu);
    }
    Ok(index)
}

/// Starts the scheduler: the deferred interrupt is raised with the first
/// dispatch pending.
pub fn start(sched: &mut Scheduler, cpu: &mut Cpu)
    requires
        old(sched).wf(),
    ensures
        final(sched).wf(),
        final(sched)@ == (SchedulerView { started: true, pending: Syscall::Start, ..old(sched)@ }),
        *final(cpu) == old(cpu).with_pendsv_pending(),
{
    sched.syscall_num = Syscall::Start;
    sched.sched_started = true;
    fire_pendsv(cpu);
}

/// Stops the scheduler: the timer is halted and its interrupt turned off.
/// Every task's saved context stays where it is.
pub fn stop(sched: &mut Scheduler, cpu: &mut Cpu)
    requires
        old(sched).wf(),
    ensures
        final(sched).wf(),
        final(sched)@ == (SchedulerView { started: false, ..old(sched)@ }),
        *final(cpu) == old(cpu).with_timer_halted(),
{
    cpu.syst_csr = cpu.syst_csr & !(SYST_CSR_ENABLE | SYST_CSR_TICKINT);
    sched.sched_started = false;
}

/// Enters a critical section: the timer no longer raises its interrupt, and
/// goes on counting. Critical sections do not nest.
pub fn enter_critical_section(cpu: &mut Cpu)
    ensures
        *final(cpu) == old(cpu).with_tick_disabled(),
{
    cpu.syst_csr = cpu.syst_csr & !SYST_CSR_TICKINT;
}

/// Leaves the critical section: the timer raises its interrupt again.
pub fn leave_critical_section(cpu: &mut Cpu)
    ensures
        *final(cpu) == old(cpu).with_tick_enabled(),
{
    cpu.syst_csr = cpu.syst_csr | SYST_CSR_TICKINT;
}

/// Raises the deferred interrupt.
pub fn fire_pendsv(cpu: &mut Cpu)
    ensures
        *final(cpu) == old(cpu).with_pendsv_pending(),
{
    cpu.scb_icsr = cpu.scb_icsr | SCB_ICSR_PENDSVSET;
}

/// Reads the main stack pointer.
pub fn read_stack_ptr(cpu: &Cpu) -> (ptr: u32)
    ensures
        ptr == cpu.msp,
{
    cpu.msp
}

/// Reads the task stack pointer.
pub fn read_thread_stack_ptr(cpu: &Cpu) -> (ptr: u32)
    ensures
        ptr == cpu.psp,
{
    cpu.psp
}

/// Points the task stack pointer at `ptr`.
pub fn write_thread_stack_ptr(cpu: &mut Cpu, ptr: u32)
    ensures
        *final(cpu) == (Cpu { psp: ptr, ..*old(cpu) }),
{
    cpu.psp = ptr;
}

/// Pushes the callee-saved registers onto the task stack.
pub fn save_context(sched: &mut Scheduler, cpu: &mut Cpu)
    requires
        old(sched).wf(),
        old(sched)@.arena.holds(old(cpu).psp - SW_FRAME_SIZE, FRAME_WORDS as int),
    ensures
        final(sched).wf(),
        final(sched)@ == old(sched)@.context_saved(*old(cpu)),
        *final(cpu) == SchedulerView::cpu_context_saved(*old(cpu)),
{
    let ptr: u32 = read_thread_stack_ptr(cpu) - SW_FRAME_SIZE;
    let frame = cpu.get_sw_frame();
    frame.store(&mut sched.stack, ptr);
    write_thread_stack_ptr(cpu, ptr);
}

/// Pops the callee-saved registers from the task stack.
pub fn load_context(sched: &Scheduler, cpu: &mut Cpu)
    requires
        sched.wf(),
        sched@.arena.holds(old(cpu).psp as int, FRAME_WORDS as int),
    ensures
        *final(cpu) == sched@.cpu_context_loaded(*old(cpu)),
{
    let ptr: u32 = read_thread_stack_ptr(cpu);
    let frame = SwStackFrame::load(&sched.stack, ptr);
    cpu.set_sw_frame(&frame);
    write_thread_stack_ptr(cpu, ptr + SW_FRAME_SIZE);
}

/// What the processor does when an exception interrupts a task: it pushes the
/// hardware frame onto the task stack and enters the handler, which will
/// return to thread mode on the task stack.
pub fn exception_entry(sched: &mut Scheduler, cpu: &mut Cpu)
    requires
        old(sched).wf(),
        old(sched)@.arena.holds(old(cpu).psp - HW_FRAME_SIZE, FRAME_WORDS as int),
    ensures
        final(sched).wf(),
        final(sched)@ == old(sched)@.exception_entered(*old(cpu)),
        *final(cpu) == SchedulerView::cpu_exception_entered(*old(cpu)),
{
    let ptr: u32 = cpu.psp - HW_FRAME_SIZE;
    let frame = cpu.get_hw_frame();
    frame.store(&mut sched.stack, ptr);
    cpu.psp = ptr;
    cpu.lr = THREAD_RETURN;
}

/// What the processor does when a handler returns to thread mode on the task
/// stack: it pops the hardware frame, and the task goes on at the program
/// counter found there.
pub fn exception_return(sched: &Scheduler, cpu: &mut Cpu)
    requires
        sched.wf(),
        old(cpu).lr == THREAD_RETURN,
        sched@.arena.holds(old(cpu).psp as int, FRAME_WORDS as int),
    ensures
        *final(cpu) == sched@.cpu_exception_returned(*old(cpu)),
{
    let ptr: u32 = cpu.psp;
    let frame = HwStackFrame::load(&sched.stack, ptr);
    cpu.set_hw_frame(&frame);
    cpu.psp = ptr + HW_FRAME_SIZE;
}

/// Whether some task is READY.
pub fn has_ready_task(sched: &Scheduler) -> (found: bool)
    requires
        sched.wf(),
    ensures
        found == has_ready(sched@.tasks),
{
    let mut slot: usize = 0;
    while slot < sched.task_table.len()
        invariant
            slot <= sched.task_table.len(),
            forall|i: int| 0 <= i < slot ==> !(#[trigger] sched.task_table@[i]).is_ready(),
        decreases sched.task_table.len() - slot,
    {
        if sched.task_table[slot].st_flags & READY_MSK != 0 {
            return true;
        }
        slot = slot + 1;
    }
    false
}

/// The round-robin selector: makes the next READY task after the current one,
/// in strict cyclic order, the current task.
///
/// With no READY task there is nothing to select; such a table is a
/// configuration error and is not accepted.
pub fn schedule_next_task(sched: &mut Scheduler)
    requires
        old(sched).wf(),
        has_ready(old(sched)@.tasks),
    ensures
        final(sched).wf(),
        final(sched)@ == old(sched)@.selected(),
        final(sched)@.tasks[final(sched)@.current].is_ready(),
        forall|k: int|
            0 <= k < MAX_TASK_NUM && (#[trigger] old(sched)@.tasks[k]).is_blocked()
                ==> final(sched)@.current != k,
{
    let next: u32 = next_ready_task(&sched.task_table, sched.current_task);
    proof {
        lemma_flag_bits();
        assert(sched@.tasks[next as int].is_ready());
    }
    sched.current_task = next;
}

/// The timer interrupt. The tick is taken only if it is genuine: the timer's
/// control register must show that counting down to zero raises this
/// interrupt, which guards against a spurious entry, and against one inside a
/// critical section. Then the current task is noted as the outgoing one, the
/// selector picks the next task, and the deferred interrupt is raised to
/// switch to it. The registers of the interrupted task are not touched.
///
/// A genuine tick with no READY task is a configuration error and is not
/// accepted.
pub fn systick_handler(sched: &mut Scheduler, cpu: &mut Cpu)
    requires
        old(sched).wf(),
        old(cpu).tick_enabled() ==> has_ready(old(sched)@.tasks),
    ensures
        final(sched).wf(),
        !old(cpu).tick_enabled() ==> final(sched)@ == old(sched)@ && *final(cpu) == *old(cpu),
        old(cpu).tick_enabled() ==> final(sched)@ == old(sched)@.ticked() && *final(cpu) == old(
            cpu,
        ).with_pendsv_pending(),
        old(cpu).tick_enabled() ==> final(sched)@.tasks[final(sched)@.current].is_ready(),
{
    if cpu.syst_csr & SYST_CSR_TICKINT != 0 {
        proof {
            lemma_flag_bits();
            let ready: int = choose|i: int|
                0 <= i < sched@.tasks.len() && (#[trigger] sched@.tasks[i]).is_ready();
            assert(ready < sched@.count);
        }
        sched.previous_task = sched.current_task;
        schedule_next_task(sched);
        sched.syscall_num = Syscall::ContextSwitching;
        fire_pendsv(cpu);
    }
}

/// Switches the processor from the task in slot `outgoing`, which it was
/// running when the interrupt came, to the task in slot `incoming`.
///
/// With interrupts masked, the callee-saved registers are pushed onto the
/// outgoing task's stack, below the hardware frame that the processor pushed
/// on interrupt entry, and the resulting stack pointer is stored in the
/// outgoing task's control block. Then the incoming task's stack pointer is
/// loaded from its control block, its callee-saved registers are popped, and
/// the task stack pointer is left at its hardware frame. Interrupts are
/// unmasked, and the exception returns to thread mode on the task stack.
pub fn switch_context(sched: &mut Scheduler, cpu: &mut Cpu, outgoing: u32, incoming: u32)
    requires
        old(sched).wf(),
        outgoing < old(sched)@.count,
        incoming < old(sched)@.count,
        old(sched)@.arena.holds(old(cpu).psp - SW_FRAME_SIZE, FRAMES_WORDS as int),
    ensures
        final(sched).wf(),
        final(sched)@ == old(sched)@.switched(*old(cpu), outgoing as int, incoming as int),
        *final(cpu) == old(sched)@.cpu_switched(*old(cpu), outgoing as int, incoming as int),
{
    cpu.primask = true;
    save_context(sched, cpu);
    let mut tcb = sched.task_table[outgoing as usize];
    tcb.stack_pointer = read_thread_stack_ptr(cpu);
    sched.task_table[outgoing as usize] = tcb;
    proof {
        lemma_switched_wf(old(sched)@, *old(cpu), outgoing as int, incoming as int);
    }
    write_thread_stack_ptr(cpu, sched.task_table[incoming as usize].stack_pointer);
    load_context(sched, cpu);
    cpu.lr = THREAD_RETURN;
    cpu.primask = false;
}

/// The deferred interrupt: does what is pending.
///
/// The first dispatch returns at once where the first slot holds no task.
/// Otherwise it makes the first task current, points the task stack pointer
/// at its saved context, pops the callee-saved registers, starts the timer,
/// and returns to thread mode on the task stack. The hardware frame that
/// registration wrote is then what the processor pops, so the task begins at
/// its entry function with its argument in place.
///
/// A switch goes from the task that was current before the last tick to the
/// task that the selector picked then.
pub fn pensv_handler(sched: &mut Scheduler, cpu: &mut Cpu)
    requires
        old(sched).wf(),
        old(sched)@.pending is ContextSwitching ==> old(sched)@.arena.holds(
            old(cpu).psp - SW_FRAME_SIZE,
            FRAMES_WORDS as int,
        ),
    ensures
        final(sched).wf(),
        old(sched)@.pending is Start ==> final(sched)@ == old(sched)@.first_dispatched()
            && *final(cpu) == old(sched)@.cpu_first_dispatched(*old(cpu)),
        old(sched)@.pending is ContextSwitching ==> final(sched)@ == old(sched)@.switched(
            *old(cpu),
            old(sched)@.previous,
            old(sched)@.current,
        ) && *final(cpu) == old(sched)@.cpu_switched(
            *old(cpu),
            old(sched)@.previous,
            old(sched)@.current,
        ),
{
    match sched.syscall_num {
        Syscall::Start => {
            proof {
                lemma_flag_bits();
                if sched@.count > 0 {
                    assert(tcb_wf(sched@.tasks[0], sched@.arena));
                }
            }
            if sched.task_table[0].st_flags == 0 {
                return ;
            }
            sched.current_task = 0;
            write_thread_stack_ptr(cpu, sched.task_table[0].stack_pointer);
            load_context(sched, cpu);
            cpu.syst_csr = cpu.syst_csr | (SYST_CSR_ENABLE | SYST_CSR_TICKINT);
            cpu.lr = THREAD_RETURN;
        },
        Syscall::ContextSwitching => {
            let outgoing: u32 = sched.previous_task;
            let incoming: u32 = sched.current_task;
            switch_context(sched, cpu, outgoing, incoming);
        },
    }
}

} // verus!
