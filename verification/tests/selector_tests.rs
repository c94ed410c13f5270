//! The round-robin selector.

use rsos::kernel::cpu::{Cpu, SYST_CSR_TICKINT};
use rsos::kernel::scheduler::{add_task, init, schedule_next_task, Scheduler};
use rsos::kernel::selector::next_ready_task;
use rsos::kernel::task::{Task, BLOCKED_MSK, IN_USE_FLAG, READY_MSK};

fn ready() -> Task {
    let mut t = Task::new(0x101, 0, 128, 0);
    t.st_flags = READY_MSK | IN_USE_FLAG;
    t
}

fn blocked() -> Task {
    let mut t = Task::new(0x101, 0, 128, 0);
    t.st_flags = BLOCKED_MSK | IN_USE_FLAG;
    t
}

fn two_tasks() -> (Scheduler, Cpu) {
    let mut cpu = Cpu::new();
    let mut sched = match init(&mut cpu, vec![0u32; 256], 0x2000_0000, 5000) {
        Ok(sched) => sched,
        Err(_) => panic!("the arena is large enough"),
    };
    assert_eq!(add_task(&mut sched, &mut cpu, Task::new(0x101, 0, 128, 0)), Ok(0));
    assert_eq!(add_task(&mut sched, &mut cpu, Task::new(0x201, 0, 128, 0)), Ok(1));
    cpu.syst_csr = SYST_CSR_TICKINT;
    (sched, cpu)
}

#[test]
fn selector_takes_the_task_after_the_current_one() {
    let table = vec![ready(), ready(), ready()];
    assert_eq!(next_ready_task(&table, 0), 1);
    assert_eq!(next_ready_task(&table, 1), 2);
    assert_eq!(next_ready_task(&table, 2), 0);
}

#[test]
fn a_full_turn_visits_every_ready_task_once_in_cyclic_order() {
    let table = vec![ready(), ready(), ready(), ready(), ready()];
    let mut current = 3;
    let mut visited = Vec::new();
    for _ in 0..5 {
        current = next_ready_task(&table, current);
        visited.push(current);
    }
    assert_eq!(visited, vec![4, 0, 1, 2, 3]);
}

#[test]
fn selector_skips_a_blocked_task() {
    let table = vec![ready(), blocked(), ready()];
    assert_eq!(next_ready_task(&table, 0), 2);
    assert_eq!(next_ready_task(&table, 2), 0);
    let mut current = 0;
    for _ in 0..20 {
        current = next_ready_task(&table, current);
        assert_ne!(current, 1);
    }
}

#[test]
fn selector_skips_empty_slots() {
    let table = vec![ready(), ready(), Task::default(), Task::default()];
    assert_eq!(next_ready_task(&table, 0), 1);
    assert_eq!(next_ready_task(&table, 1), 0);
}

#[test]
fn selector_comes_back_to_the_only_ready_task() {
    let table = vec![blocked(), ready(), blocked()];
    assert_eq!(next_ready_task(&table, 1), 1);
    assert_eq!(next_ready_task(&table, 0), 1);
    assert_eq!(next_ready_task(&table, 2), 1);
}

#[test]
fn selector_picks_up_a_task_that_became_ready() {
    let mut table = vec![ready(), blocked(), ready()];
    assert_eq!(next_ready_task(&table, 0), 2);
    table[1].st_flags = READY_MSK | IN_USE_FLAG;
    assert_eq!(next_ready_task(&table, 0), 1);
}

#[test]
fn schedule_next_task_alternates_between_two_tasks() {
    let (mut sched, _cpu) = two_tasks();
    assert_eq!(sched.current_task(), 0);
    schedule_next_task(&mut sched);
    assert_eq!(sched.current_task(), 1);
    schedule_next_task(&mut sched);
    assert_eq!(sched.current_task(), 0);
    schedule_next_task(&mut sched);
    assert_eq!(sched.current_task(), 1);
}

#[test]
fn schedule_next_task_stays_on_a_single_task() {
    let mut cpu = Cpu::new();
    let mut sched = match init(&mut cpu, vec![0u32; 256], 0x2000_0000, 5000) {
        Ok(sched) => sched,
        Err(_) => panic!("the arena is large enough"),
    };
    assert_eq!(add_task(&mut sched, &mut cpu, Task::new(0x101, 0, 128, 0)), Ok(0));
    schedule_next_task(&mut sched);
    assert_eq!(sched.current_task(), 0);
    schedule_next_task(&mut sched);
    assert_eq!(sched.current_task(), 0);
}
