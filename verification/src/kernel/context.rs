//! What the switch protocol guarantees to a task: that its first dispatch
//! begins at its entry function, and that it gets back the registers it was
//! interrupted with.

use vstd::prelude::*;
use crate::kernel::arena::lemma_store_then_load;
use crate::kernel::cpu::Cpu;
use crate::kernel::frame::{
    lemma_hw_frame_round_trip, lemma_sw_frame_round_trip, HwStackFrame, FRAME_WORDS, HW_FRAME_SIZE,
    INITIAL_PSR, SW_FRAME_SIZE,
};
use crate::kernel::model::{
    lemma_registered_region, lemma_registered_wf, lemma_switched_wf, tcb_wf, SchedulerView,
    FRAMES_SIZE, FRAMES_WORDS,
};
use crate::kernel::task::Task;

verus! {

/// First-dispatch frame: when the processor returns from an exception with
/// the task stack pointer at the hardware frame of a freshly registered task,
/// the task's argument is in the first argument register, the program counter
/// is at the task's entry function, and the task's stack is empty.
pub proof fn lemma_first_dispatch_frame(state: SchedulerView, task: Task, cpu: Cpu)
    requires
        state.wf(),
        !state.is_full(),
        task.func is Some,
        state.stack_fits(task.stack_size),
    ensures
        ({
            let after = state.registered(task);
            let frame_at: int = after.tasks[state.count].stack_pointer + SW_FRAME_SIZE;
            let resumed = after.cpu_exception_returned(Cpu { psp: frame_at as u32, ..cpu });
            &&& resumed.r0 == task.fn_arg
            &&& resumed.pc == task.func.unwrap()
            &&& resumed.psr == INITIAL_PSR
            &&& resumed.hw_frame() == HwStackFrame::first_dispatch(
                task.func.unwrap(),
                task.fn_arg,
            )
            &&& resumed.sw_frame() == cpu.sw_frame()
            &&& resumed.psp == after.region_high(state.count)
        }),
{
    let after = state.registered(task);
    let frame = HwStackFrame::first_dispatch(task.func.unwrap(), task.fn_arg);
    let frame_at: int = state.stack_top + task.stack_size - HW_FRAME_SIZE;
    lemma_registered_wf(state, task);
    lemma_registered_region(state, task);
    lemma_hw_frame_round_trip(frame, frame.words());
    assert(tcb_wf(after.tasks[state.count], after.arena));
    assert(state.arena.holds(frame_at, FRAME_WORDS as int));
    lemma_store_then_load(state.arena, frame_at, frame.words(), 0);
}

/// The first task starts at its entry function: where the first slot holds a
/// task, the first dispatch followed by the exception return leaves the
/// processor with the hardware frame found above the task's saved stack
/// pointer, and with the task stack pointer above both frames.
pub proof fn lemma_first_dispatch_resumes_first_task(state: SchedulerView, cpu: Cpu)
    requires
        state.wf(),
        state.count >= 1,
    ensures
        ({
            let first = state.tasks[0];
            let dispatched = state.cpu_first_dispatched(cpu);
            let resumed = state.first_dispatched().cpu_exception_returned(dispatched);
            &&& state.first_dispatched().current == 0
            &&& dispatched.psp == first.stack_pointer + SW_FRAME_SIZE
            &&& resumed.hw_frame() == HwStackFrame::from_words(
                state.arena.load_words(
                    first.stack_pointer + SW_FRAME_SIZE,
                    FRAME_WORDS as int,
                ),
            )
            &&& resumed.psp == first.stack_pointer + FRAMES_SIZE
        }),
{
    assert(tcb_wf(state.tasks[0], state.arena));
}

/// Context round trip: a switch from task `a` to task `b` and straight back
/// gives the processor the callee-saved registers and the task stack pointer
/// that it had before the first switch, and the way back changes neither the
/// task table nor the arena.
pub proof fn lemma_switch_round_trip(state: SchedulerView, cpu: Cpu, a: int, b: int)
    requires
        state.wf(),
        0 <= a < state.count,
        0 <= b < state.count,
        state.arena.holds(cpu.psp - SW_FRAME_SIZE, FRAMES_WORDS as int),
    ensures
        ({
            let away = state.switched(cpu, a, b);
            let away_cpu = state.cpu_switched(cpu, a, b);
            let back = away.switched(away_cpu, b, a);
            let back_cpu = away.cpu_switched(away_cpu, b, a);
            &&& away.wf()
            &&& away.arena.holds(away_cpu.psp - SW_FRAME_SIZE, FRAMES_WORDS as int)
            &&& back_cpu.sw_frame() == cpu.sw_frame()
            &&& back_cpu.psp == cpu.psp
            &&& back_cpu == away_cpu.with_sw_frame(cpu.sw_frame()).with_psp(cpu.psp)
            &&& back.tasks == away.tasks
            &&& back.arena == away.arena
        }),
{
    let away = state.switched(cpu, a, b);
    let away_cpu = state.cpu_switched(cpu, a, b);
    let back = away.switched(away_cpu, b, a);
    let back_cpu = away.cpu_switched(away_cpu, b, a);
    lemma_switched_wf(state, cpu, a, b);
    assert(tcb_wf(away.tasks[a], away.arena));
    assert(tcb_wf(away.tasks[b], away.arena));
    let there: int = away.tasks[b].stack_pointer as int;
    let here: int = cpu.psp - SW_FRAME_SIZE;
    // The way back pushes what the way there popped, where it lay.
    lemma_sw_frame_round_trip(cpu.sw_frame(), away.arena.load_words(there, FRAME_WORDS as int));
    assert(back.arena.words =~= away.arena.words);
    assert(back.tasks =~= away.tasks);
    // And pops what the way there pushed.
    lemma_store_then_load(state.arena, here, cpu.sw_frame().words(), 0);
    lemma_sw_frame_round_trip(cpu.sw_frame(), cpu.sw_frame().words());
}

/// A task resumes as it was interrupted. Task `a` runs on `cpu` when an
/// exception comes, and is switched out for task `b`. Later, with task `c`
/// interrupted on `later_cpu`, task `a` is switched in again and the
/// exception returns. If the control block of `a` still holds the stack
/// pointer saved then, the two frames above it are untouched, and the
/// registers of `c` are not pushed over them, the processor has all sixteen
/// registers of `cpu` again.
pub proof fn lemma_task_resumes_as_interrupted(
    before: SchedulerView,
    cpu: Cpu,
    a: int,
    b: int,
    later: SchedulerView,
    later_cpu: Cpu,
    c: int,
)
    requires
        before.wf(),
        0 <= a < before.count,
        0 <= b < before.count,
        before.arena.holds(cpu.psp - FRAMES_SIZE, FRAMES_WORDS as int),
        later.wf(),
        0 <= a < later.count,
        0 <= c < later.count,
        c != a,
        later.arena.base == before.arena.base,
        later.tasks[a].stack_pointer == cpu.psp - FRAMES_SIZE,
        later.arena.load_words(cpu.psp - FRAMES_SIZE, FRAMES_WORDS as int)
            == before.exception_entered(cpu).switched(
            SchedulerView::cpu_exception_entered(cpu),
            a,
            b,
        ).arena.load_words(cpu.psp - FRAMES_SIZE, FRAMES_WORDS as int),
        later.arena.holds(later_cpu.psp - SW_FRAME_SIZE, FRAMES_WORDS as int),
        later_cpu.psp <= cpu.psp - FRAMES_SIZE || cpu.psp <= later_cpu.psp - SW_FRAME_SIZE,
    ensures
        before.exception_entered(cpu).switched(
            SchedulerView::cpu_exception_entered(cpu),
            a,
            b,
        ).tasks[a].stack_pointer == cpu.psp - FRAMES_SIZE,
        later.switched(later_cpu, c, a).cpu_exception_returned(
            later.cpu_switched(later_cpu, c, a),
        ).same_registers(cpu),
{
    let low: int = cpu.psp - FRAMES_SIZE;
    let middle: int = cpu.psp - HW_FRAME_SIZE;
    let entered = before.exception_entered(cpu);
    let entered_cpu = SchedulerView::cpu_exception_entered(cpu);
    let away = entered.switched(entered_cpu, a, b);
    let back = later.switched(later_cpu, c, a);
    let back_cpu = later.cpu_switched(later_cpu, c, a);
    lemma_hw_frame_round_trip(cpu.hw_frame(), cpu.hw_frame().words());
    lemma_sw_frame_round_trip(cpu.sw_frame(), cpu.sw_frame().words());
    // What lies in the two frames after the switch out.
    let saved = away.arena.load_words(low, FRAMES_WORDS as int);
    assert(saved.subrange(0, 8) =~= cpu.sw_frame().words());
    assert(saved.subrange(8, 16) =~= cpu.hw_frame().words());
    // The switch in leaves the two frames alone, and reads them.
    assert(back.arena.load_words(low, FRAME_WORDS as int) =~= saved.subrange(0, 8));
    assert(back.arena.load_words(middle, FRAME_WORDS as int) =~= saved.subrange(8, 16));
}

} // verus!
