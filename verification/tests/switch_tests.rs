//! Frames in memory, the context switch, and whole runs of the kernel.

use rsos::kernel::arena::StackArena;
use rsos::kernel::cpu::{Cpu, SYST_CSR_ENABLE, SYST_CSR_TICKINT, THREAD_RETURN};
use rsos::kernel::frame::{HwStackFrame, SwStackFrame};
use rsos::kernel::model::Syscall;
use rsos::kernel::scheduler::{
    add_task, exception_entry, exception_return, init, load_context, pensv_handler, save_context,
    start, stop, switch_context, systick_handler, Scheduler,
};
use rsos::kernel::task::Task;

const BASE: u32 = 0x2000_0000;
const ENTRY_A: u32 = 0x0800_0101;
const ENTRY_B: u32 = 0x0800_0201;

fn two_tasks() -> (Scheduler, Cpu) {
    let mut cpu = Cpu::new();
    let mut sched = match init(&mut cpu, vec![0u32; 256], BASE, 5000) {
        Ok(sched) => sched,
        Err(_) => panic!("the arena is large enough"),
    };
    assert_eq!(add_task(&mut sched, &mut cpu, Task::new(ENTRY_A, 0xA, 128, 0)), Ok(0));
    assert_eq!(add_task(&mut sched, &mut cpu, Task::new(ENTRY_B, 0xB, 128, 0)), Ok(1));
    (sched, cpu)
}

/// Gives every register of the running code a value of its own.
fn scramble(cpu: &mut Cpu, seed: u32) {
    cpu.r0 = seed;
    cpu.r1 = seed + 1;
    cpu.r2 = seed + 2;
    cpu.r3 = seed + 3;
    cpu.r4 = seed + 4;
    cpu.r5 = seed + 5;
    cpu.r6 = seed + 6;
    cpu.r7 = seed + 7;
    cpu.r8 = seed + 8;
    cpu.r9 = seed + 9;
    cpu.r10 = seed + 10;
    cpu.r11 = seed + 11;
    cpu.r12 = seed + 12;
    cpu.lr = seed + 14;
    cpu.pc = seed + 15;
    cpu.psr = seed + 16;
}

/// One timer tick as the processor takes it: exception entry, the timer
/// handler, the deferred handler, exception return.
fn tick(sched: &mut Scheduler, cpu: &mut Cpu) {
    exception_entry(sched, cpu);
    systick_handler(sched, cpu);
    pensv_handler(sched, cpu);
    exception_return(sched, cpu);
}

#[test]
fn arena_stores_and_loads_words() {
    let mut arena = StackArena::new(BASE, vec![0u32; 16]);
    assert_eq!(arena.base(), BASE);
    assert_eq!(arena.len(), 16);
    assert!(arena.holds(BASE, 16));
    assert!(!arena.holds(BASE, 17));
    assert!(!arena.holds(BASE - 4, 1));
    assert!(!arena.holds(BASE + 2, 1));
    assert!(arena.holds(BASE + 60, 1));
    assert!(!arena.holds(BASE + 64, 1));
    arena.store(BASE + 8, 0x1234);
    assert_eq!(arena.load(BASE + 8), 0x1234);
    assert_eq!(arena.load(BASE + 4), 0);
    assert_eq!(arena.load(BASE + 12), 0);
}

#[test]
fn hardware_frame_lies_in_register_order() {
    let mut arena = StackArena::new(BASE, vec![0u32; 16]);
    let frame = HwStackFrame {
        r0: 10,
        r1: 11,
        r2: 12,
        r3: 13,
        r12: 14,
        lr: 15,
        pc: 16,
        psr: 17,
    };
    frame.store(&mut arena, BASE + 16);
    for i in 0..8u32 {
        assert_eq!(arena.load(BASE + 16 + 4 * i), 10 + i);
    }
    assert_eq!(arena.load(BASE + 12), 0);
    assert_eq!(arena.load(BASE + 48), 0);
    assert_eq!(HwStackFrame::load(&arena, BASE + 16), frame);
}

#[test]
fn software_frame_lies_in_register_order() {
    let mut arena = StackArena::new(BASE, vec![0u32; 16]);
    let frame = SwStackFrame { r4: 4, r5: 5, r6: 6, r7: 7, r8: 8, r9: 9, r10: 10, r11: 11 };
    frame.store(&mut arena, BASE);
    for i in 0..8u32 {
        assert_eq!(arena.load(BASE + 4 * i), 4 + i);
    }
    assert_eq!(arena.load(BASE + 32), 0);
    assert_eq!(SwStackFrame::load(&arena, BASE), frame);
}

#[test]
fn save_context_pushes_below_the_stack_pointer() {
    let (mut sched, mut cpu) = two_tasks();
    scramble(&mut cpu, 100);
    cpu.psp = BASE + 96;
    save_context(&mut sched, &mut cpu);
    assert_eq!(cpu.psp, BASE + 64);
    for i in 0..8u32 {
        assert_eq!(sched.stack_word(BASE + 64 + 4 * i), 104 + i);
    }
    // The first-dispatch frame above is untouched.
    assert_eq!(sched.stack_word(BASE + 96), 0xA);
}

#[test]
fn load_context_pops_what_save_context_pushed() {
    let (mut sched, mut cpu) = two_tasks();
    scramble(&mut cpu, 100);
    cpu.psp = BASE + 96;
    let before = cpu;
    save_context(&mut sched, &mut cpu);
    scramble(&mut cpu, 500);
    load_context(&sched, &mut cpu);
    assert_eq!(cpu.psp, BASE + 96);
    assert_eq!(cpu.get_sw_frame(), before.get_sw_frame());
    // The other registers are not those of the software frame.
    assert_eq!(cpu.r0, 500);
    assert_eq!(cpu.r12, 512);
}

#[test]
fn exception_entry_and_return_are_inverse() {
    let (mut sched, mut cpu) = two_tasks();
    scramble(&mut cpu, 100);
    cpu.psp = BASE + 96;
    let before = cpu;
    exception_entry(&mut sched, &mut cpu);
    assert_eq!(cpu.psp, BASE + 64);
    assert_eq!(cpu.lr, THREAD_RETURN);
    assert_eq!(sched.stack_word(BASE + 64), 100); // r0 lowest
    assert_eq!(sched.stack_word(BASE + 64 + 24), 115); // pc
    exception_return(&sched, &mut cpu);
    assert_eq!(cpu, before);
}

#[test]
fn freshly_registered_task_is_restored_at_its_entry_with_its_argument() {
    let (sched, mut cpu) = two_tasks();
    for (slot, entry, arg) in [(0u32, ENTRY_A, 0xAu32), (1u32, ENTRY_B, 0xBu32)] {
        let tcb = sched.task(slot);
        cpu.psp = tcb.stack_pointer + 32;
        cpu.lr = THREAD_RETURN;
        exception_return(&sched, &mut cpu);
        assert_eq!(cpu.r0, arg);
        assert_eq!(cpu.pc, entry);
        assert_eq!(cpu.psr, 0x2100_0000);
        assert_eq!(cpu.psp, tcb.stack_pointer + 64);
    }
}

#[test]
fn first_dispatch_enters_the_first_task() {
    let (mut sched, mut cpu) = two_tasks();
    start(&mut sched, &mut cpu);
    pensv_handler(&mut sched, &mut cpu);
    assert_eq!(sched.current_task(), 0);
    assert_eq!(cpu.psp, BASE + 128 - 32);
    assert_eq!(cpu.lr, THREAD_RETURN);
    assert_eq!(cpu.syst_csr, SYST_CSR_ENABLE | SYST_CSR_TICKINT);
    exception_return(&sched, &mut cpu);
    assert_eq!(cpu.pc, ENTRY_A);
    assert_eq!(cpu.r0, 0xA);
    assert_eq!(cpu.psp, BASE + 128);
}

#[test]
fn switch_saves_the_outgoing_and_loads_the_incoming_task() {
    let (mut sched, mut cpu) = two_tasks();
    scramble(&mut cpu, 100);
    cpu.psp = BASE + 96; // task 0 interrupted: its hardware frame lies at BASE + 96
    cpu.primask = false;
    let incoming_sp = sched.task(1).stack_pointer;
    switch_context(&mut sched, &mut cpu, 0, 1);
    // The outgoing task's registers lie below its hardware frame.
    assert_eq!(sched.task(0).stack_pointer, BASE + 64);
    for i in 0..8u32 {
        assert_eq!(sched.stack_word(BASE + 64 + 4 * i), 104 + i);
    }
    // The incoming task's registers come from its stack; the frame was never written.
    assert_eq!(sched.task(1).stack_pointer, incoming_sp);
    assert_eq!(cpu.psp, incoming_sp + 32);
    assert_eq!(cpu.get_sw_frame(), SwStackFrame { r4: 0, r5: 0, r6: 0, r7: 0, r8: 0, r9: 0, r10: 0, r11: 0 });
    assert_eq!(cpu.lr, THREAD_RETURN);
    assert!(!cpu.primask);
}

#[test]
fn context_round_trip_restores_the_saved_registers() {
    let (mut sched, mut cpu) = two_tasks();
    scramble(&mut cpu, 100);
    cpu.psp = BASE + 96;
    let saved = cpu;
    switch_context(&mut sched, &mut cpu, 0, 1);
    assert_ne!(cpu.get_sw_frame(), saved.get_sw_frame());
    switch_context(&mut sched, &mut cpu, 1, 0);
    assert_eq!(cpu.get_sw_frame(), saved.get_sw_frame());
    assert_eq!(cpu.psp, saved.psp);
    assert_eq!(
        cpu.get_sw_frame(),
        SwStackFrame { r4: 104, r5: 105, r6: 106, r7: 107, r8: 108, r9: 109, r10: 110, r11: 111 }
    );
}

#[test]
fn task_resumes_with_all_its_registers_after_the_other_ran() {
    let (mut sched, mut cpu) = two_tasks();
    start(&mut sched, &mut cpu);
    pensv_handler(&mut sched, &mut cpu);
    exception_return(&sched, &mut cpu);
    // Task 0 runs for a while and uses some stack.
    scramble(&mut cpu, 100);
    cpu.psp = BASE + 128 - 16;
    let task0 = cpu;
    tick(&mut sched, &mut cpu);
    assert_eq!(sched.current_task(), 1);
    assert_eq!(cpu.pc, ENTRY_B);
    // Task 1 runs for a while.
    scramble(&mut cpu, 900);
    cpu.psp = BASE + 256 - 24;
    let task1 = cpu;
    tick(&mut sched, &mut cpu);
    assert_eq!(sched.current_task(), 0);
    assert_eq!(cpu.get_hw_frame(), task0.get_hw_frame());
    assert_eq!(cpu.get_sw_frame(), task0.get_sw_frame());
    assert_eq!(cpu.psp, task0.psp);
    tick(&mut sched, &mut cpu);
    assert_eq!(sched.current_task(), 1);
    assert_eq!(cpu.get_hw_frame(), task1.get_hw_frame());
    assert_eq!(cpu.get_sw_frame(), task1.get_sw_frame());
    assert_eq!(cpu.psp, task1.psp);
}

#[test]
fn tick_notes_the_outgoing_task_before_selecting() {
    let (mut sched, mut cpu) = two_tasks();
    cpu.syst_csr = SYST_CSR_ENABLE | SYST_CSR_TICKINT;
    systick_handler(&mut sched, &mut cpu);
    assert_eq!(sched.previous_task(), 0);
    assert_eq!(sched.current_task(), 1);
    assert_eq!(sched.pending(), Syscall::ContextSwitching);
    assert_eq!(cpu.scb_icsr, 0x1000_0000);
    systick_handler(&mut sched, &mut cpu);
    assert_eq!(sched.previous_task(), 1);
    assert_eq!(sched.current_task(), 0);
}

#[test]
fn single_task_is_switched_to_itself() {
    let mut cpu = Cpu::new();
    let mut sched = match init(&mut cpu, vec![0u32; 256], BASE, 5000) {
        Ok(sched) => sched,
        Err(_) => panic!("the arena is large enough"),
    };
    assert_eq!(add_task(&mut sched, &mut cpu, Task::new(ENTRY_A, 1, 256, 0)), Ok(0));
    start(&mut sched, &mut cpu);
    pensv_handler(&mut sched, &mut cpu);
    exception_return(&sched, &mut cpu);
    scramble(&mut cpu, 40);
    let running = cpu;
    tick(&mut sched, &mut cpu);
    assert_eq!(sched.current_task(), 0);
    assert_eq!(sched.previous_task(), 0);
    assert_eq!(cpu.get_hw_frame(), running.get_hw_frame());
    assert_eq!(cpu.get_sw_frame(), running.get_sw_frame());
    assert_eq!(cpu.psp, running.psp);
}

#[test]
fn end_to_end_two_tasks_alternate() {
    let mut cpu = Cpu::new();
    let mut sched = match init(&mut cpu, vec![0u32; 256], BASE, 5000) {
        Ok(sched) => sched,
        Err(_) => panic!("an arena of 256 words is large enough"),
    };
    assert_eq!(add_task(&mut sched, &mut cpu, Task::new(ENTRY_A, 0, 128, 0)), Ok(0));
    assert_eq!(add_task(&mut sched, &mut cpu, Task::new(ENTRY_B, 0, 128, 0)), Ok(1));
    let mut selected = Vec::new();

    start(&mut sched, &mut cpu);
    pensv_handler(&mut sched, &mut cpu);
    exception_return(&sched, &mut cpu);
    selected.push(sched.current_task());
    assert_eq!(cpu.pc, ENTRY_A);

    tick(&mut sched, &mut cpu);
    selected.push(sched.current_task());
    assert_eq!(cpu.pc, ENTRY_B);

    tick(&mut sched, &mut cpu);
    selected.push(sched.current_task());
    assert_eq!(cpu.pc, ENTRY_A);

    assert_eq!(selected, vec![0, 1, 0]);
}

#[test]
fn stop_freezes_the_tasks_where_they_are() {
    let (mut sched, mut cpu) = two_tasks();
    start(&mut sched, &mut cpu);
    pensv_handler(&mut sched, &mut cpu);
    exception_return(&sched, &mut cpu);
    tick(&mut sched, &mut cpu);
    let first = sched.task(0);
    let second = sched.task(1);
    stop(&mut sched, &mut cpu);
    assert!(!sched.is_started());
    assert_eq!(cpu.syst_csr & (SYST_CSR_ENABLE | SYST_CSR_TICKINT), 0);
    assert_eq!(sched.task(0), first);
    assert_eq!(sched.task(1), second);
    assert_eq!(sched.current_task(), 1);
    // With the timer's interrupt off, a tick no longer counts.
    systick_handler(&mut sched, &mut cpu);
    assert_eq!(sched.current_task(), 1);
}
