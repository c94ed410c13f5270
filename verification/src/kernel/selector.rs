//! The round-robin selector: the next READY task in strict cyclic order.

use vstd::prelude::*;
use vstd::arithmetic::div_mod::{
    lemma_add_mod_noop, lemma_mod_add_multiples_vanish, lemma_mod_pos_bound, lemma_mod_self_0,
    lemma_small_mod,
};
use crate::kernel::task::{Task, READY_MSK};

verus! {

/// Number of steps from slot `from` forward to slot `to` in a table of `len`
/// slots that wraps around; a full turn for `to == from`.
pub open spec fn cyclic_distance(from: int, to: int, len: int) -> int {
    if to > from {
        to - from
    } else {
        to - from + len
    }
}

/// Some slot of the table is READY.
pub open spec fn has_ready(tasks: Seq<Task>) -> bool {
    exists|i: int| 0 <= i < tasks.len() && (#[trigger] tasks[i]).is_ready()
}

/// `next` is the READY slot that comes first after `current` in cyclic order.
pub open spec fn is_next_ready(tasks: Seq<Task>, current: int, next: int) -> bool {
    &&& 0 <= next < tasks.len()
    &&& tasks[next].is_ready()
    &&& forall|i: int|
        0 <= i < tasks.len() && (#[trigger] tasks[i]).is_ready() ==> cyclic_distance(
            current,
            next,
            tasks.len() as int,
        ) <= cyclic_distance(current, i, tasks.len() as int)
}

/// The READY slot that comes first after `current` in cyclic order.
pub open spec fn next_ready(tasks: Seq<Task>, current: int) -> int {
    choose|next: int| is_next_ready(tasks, current, next)
}

/// The slot that is current after `rounds` selections, starting from `current`.
pub open spec fn selected_after(tasks: Seq<Task>, current: int, rounds: nat) -> int
    decreases rounds,
{
    if rounds == 0 {
        current
    } else {
        next_ready(tasks, selected_after(tasks, current, (rounds - 1) as nat))
    }
}

/// At most one slot is the next READY one, so `next_ready` is that slot.
pub proof fn lemma_next_ready_is(tasks: Seq<Task>, current: int, next: int)
    requires
        0 <= current < tasks.len(),
        is_next_ready(tasks, current, next),
    ensures
        next_ready(tasks, current) == next,
{
    let chosen: int = next_ready(tasks, current);
    assert(is_next_ready(tasks, current, chosen));
    assert(tasks[next].is_ready());
    assert(tasks[chosen].is_ready());
}

/// The slot that lies `distance` steps after `from`.
pub open spec fn slot_at(from: int, distance: int, len: int) -> int {
    if from + distance < len {
        from + distance
    } else {
        from + distance - len
    }
}

/// Looks for the next READY slot from `distance` steps after `current` on,
/// given that no nearer slot is READY.
proof fn lemma_scan_finds_next(tasks: Seq<Task>, current: int, distance: int, witness: int)
    requires
        0 <= current < tasks.len(),
        0 <= witness < tasks.len(),
        tasks[witness].is_ready(),
        1 <= distance <= cyclic_distance(current, witness, tasks.len() as int),
        forall|i: int|
            0 <= i < tasks.len() && cyclic_distance(current, i, tasks.len() as int) < distance
                ==> !(#[trigger] tasks[i]).is_ready(),
    ensures
        exists|next: int| is_next_ready(tasks, current, next),
    decreases cyclic_distance(current, witness, tasks.len() as int) - distance,
{
    let slot: int = slot_at(current, distance, tasks.len() as int);
    assert(cyclic_distance(current, slot, tasks.len() as int) == distance);
    if tasks[slot].is_ready() {
        assert(is_next_ready(tasks, current, slot));
    } else {
        lemma_scan_finds_next(tasks, current, distance + 1, witness);
    }
}

/// Where some slot is READY, one of them is the next, and `next_ready` is
/// that slot: it is READY, and no READY slot lies nearer after `current`.
pub proof fn lemma_next_ready_exists(tasks: Seq<Task>, current: int)
    requires
        0 <= current < tasks.len(),
        has_ready(tasks),
    ensures
        is_next_ready(tasks, current, next_ready(tasks, current)),
{
    let witness: int = choose|i: int| 0 <= i < tasks.len() && (#[trigger] tasks[i]).is_ready();
    lemma_scan_finds_next(tasks, current, 1, witness);
}

/// Every selection lands on a READY slot of the table, however many rounds
/// are made.
pub proof fn lemma_selected_is_ready(tasks: Seq<Task>, current: int, rounds: nat)
    requires
        0 <= current < tasks.len(),
        has_ready(tasks),
        rounds >= 1,
    ensures
        0 <= selected_after(tasks, current, rounds) < tasks.len(),
        tasks[selected_after(tasks, current, rounds)].is_ready(),
    decreases rounds,
{
    if rounds > 1 {
        lemma_selected_is_ready(tasks, current, (rounds - 1) as nat);
    }
    lemma_next_ready_exists(tasks, selected_after(tasks, current, (rounds - 1) as nat));
}

/// A slot that is not READY is never selected, however many rounds are made,
/// as long as its flags stay as they are.
pub proof fn lemma_skips_not_ready(tasks: Seq<Task>, current: int, rounds: nat, skipped: int)
    requires
        0 <= current < tasks.len(),
        has_ready(tasks),
        rounds >= 1,
        0 <= skipped < tasks.len(),
        !tasks[skipped].is_ready(),
    ensures
        selected_after(tasks, current, rounds) != skipped,
{
    lemma_selected_is_ready(tasks, current, rounds);
}

/// The selector looks at nothing but the READY flags: two tables of one
/// length whose slots are READY alike give the same selections.
pub proof fn lemma_selection_reads_ready_flags(
    tasks: Seq<Task>,
    others: Seq<Task>,
    current: int,
    rounds: nat,
)
    requires
        0 <= current < tasks.len(),
        has_ready(tasks),
        tasks.len() == others.len(),
        forall|i: int|
            0 <= i < tasks.len() ==> (#[trigger] tasks[i]).is_ready() == (
            #[trigger] others[i]).is_ready(),
    ensures
        has_ready(others),
        selected_after(others, current, rounds) == selected_after(tasks, current, rounds),
    decreases rounds,
{
    let witness: int = choose|i: int| 0 <= i < tasks.len() && (#[trigger] tasks[i]).is_ready();
    assert(others[witness].is_ready());
    if rounds > 0 {
        lemma_selection_reads_ready_flags(tasks, others, current, (rounds - 1) as nat);
        let before: int = selected_after(tasks, current, (rounds - 1) as nat);
        if rounds > 1 {
            lemma_selected_is_ready(tasks, current, (rounds - 1) as nat);
        }
        lemma_next_ready_exists(tasks, before);
        let next: int = next_ready(tasks, before);
        assert(others[next].is_ready());
        assert forall|i: int| 0 <= i < others.len() && (#[trigger] others[i]).is_ready() implies
            cyclic_distance(before, next, others.len() as int) <= cyclic_distance(
            before,
            i,
            others.len() as int,
        ) by {
            assert(tasks[i].is_ready());
        }
        lemma_next_ready_is(others, before, next);
    }
}

/// The first `ready` slots of the table are READY and no other slot is.
pub open spec fn first_slots_ready(tasks: Seq<Task>, ready: int) -> bool {
    &&& 1 <= ready <= tasks.len()
    &&& forall|i: int| 0 <= i < ready ==> (#[trigger] tasks[i]).is_ready()
    &&& forall|i: int| ready <= i < tasks.len() ==> !(#[trigger] tasks[i]).is_ready()
}

/// Round-robin fairness: with `ready` tasks, all READY, the selector walks
/// through the task indices in increasing cyclic order, beginning with the
/// task after the current one.
pub proof fn lemma_round_robin_order(tasks: Seq<Task>, ready: int, current: int, rounds: nat)
    requires
        first_slots_ready(tasks, ready),
        0 <= current < ready,
    ensures
        selected_after(tasks, current, rounds) == (current + rounds) % ready,
    decreases rounds,
{
    if rounds == 0 {
        lemma_small_mod(current as nat, ready as nat);
    } else {
        lemma_round_robin_order(tasks, ready, current, (rounds - 1) as nat);
        let before: int = selected_after(tasks, current, (rounds - 1) as nat);
        let after: int = (current + rounds) % ready;
        lemma_mod_pos_bound(current + rounds - 1, ready);
        lemma_mod_pos_bound(current + rounds, ready);
        assert(after == (if before + 1 < ready { before + 1 } else { 0 })) by {
            lemma_add_mod_noop(current + rounds - 1, 1, ready);
            if ready > 1 {
                lemma_small_mod(1, ready as nat);
                if before + 1 < ready {
                    lemma_small_mod((before + 1) as nat, ready as nat);
                } else {
                    lemma_mod_self_0(ready);
                }
            }
        }
        assert(tasks[after].is_ready());
        assert(is_next_ready(tasks, before, after));
        lemma_next_ready_is(tasks, before, after);
    }
}

/// Round-robin fairness: with `ready` tasks, all READY, that many selections
/// in a row visit each task index exactly once. Task `i` is visited in the
/// round that its cyclic distance from the current task gives, and no two
/// rounds of the turn visit the same task.
pub proof fn lemma_round_visits_each_once(tasks: Seq<Task>, ready: int, current: int)
    requires
        first_slots_ready(tasks, ready),
        0 <= current < ready,
    ensures
        forall|i: int|
            0 <= i < ready ==> #[trigger] selected_after(
                tasks,
                current,
                cyclic_distance(current, i, ready) as nat,
            ) == i,
        forall|j: nat, k: nat|
            1 <= j < k <= ready ==> #[trigger] selected_after(tasks, current, j)
                != #[trigger] selected_after(tasks, current, k),
{
    assert forall|i: int| 0 <= i < ready implies #[trigger] selected_after(
        tasks,
        current,
        cyclic_distance(current, i, ready) as nat,
    ) == i by {
        lemma_round_robin_order(tasks, ready, current, cyclic_distance(current, i, ready) as nat);
        lemma_small_mod(i as nat, ready as nat);
        if i <= current {
            lemma_mod_add_multiples_vanish(i, ready);
        }
    }
    assert forall|j: nat, k: nat| 1 <= j < k <= ready implies #[trigger] selected_after(
        tasks,
        current,
        j,
    ) != #[trigger] selected_after(tasks, current, k) by {
        lemma_round_robin_order(tasks, ready, current, j);
        lemma_round_robin_order(tasks, ready, current, k);
        lemma_residues_differ(current + j, current + k, ready);
    }
}

/// Two numbers less than `modulus` apart leave different remainders.
proof fn lemma_residues_differ(low: int, high: int, modulus: int)
    requires
        0 <= low < high < low + modulus,
    ensures
        low % modulus != high % modulus,
{
    vstd::arithmetic::div_mod::lemma_fundamental_div_mod(low, modulus);
    vstd::arithmetic::div_mod::lemma_fundamental_div_mod(high, modulus);
    lemma_mod_pos_bound(low, modulus);
    lemma_mod_pos_bound(high, modulus);
    if low % modulus == high % modulus {
        let difference: int = high / modulus - low / modulus;
        assert(high - low == modulus * difference) by (nonlinear_arith)
            requires
                high == modulus * (high / modulus) + (high % modulus),
                low == modulus * (low / modulus) + (low % modulus),
                low % modulus == high % modulus,
                difference == high / modulus - low / modulus,
        ;
        assert(false) by (nonlinear_arith)
            requires
                high - low == modulus * difference,
                0 < high - low < modulus,
        ;
    }
}

/// Selects the next READY task after `current` in strict cyclic order.
///
/// A table without a READY task is a configuration error: there is nothing
/// to select, and such a table is not accepted.
pub fn next_ready_task(table: &Vec<Task>, current: u32) -> (next: u32)
    requires
        table.len() <= u32::MAX,
        current < table.len(),
        has_ready(table@),
    ensures
        is_next_ready(table@, current as int, next as int),
        next == next_ready(table@, current as int),
{
    let len: u32 = table.len() as u32;
    let ghost witness: int = choose|i: int| 0 <= i < table@.len() && (#[trigger] table@[i]).is_ready();
    let ghost mut steps: int = 0;
    let mut slot: u32 = current;
    loop
        invariant
            len == table.len(),
            current < len,
            slot < len,
            0 <= witness < len,
            table@[witness].is_ready(),
            0 <= steps < cyclic_distance(current as int, witness, len as int),
            steps == 0 ==> slot == current,
            steps > 0 ==> steps == cyclic_distance(current as int, slot as int, len as int),
            forall|i: int|
                0 <= i < len && cyclic_distance(current as int, i, len as int) <= steps ==> !(
                #[trigger] table@[i]).is_ready(),
        decreases cyclic_distance(current as int, witness, len as int) - steps,
    {
        slot = slot + 1;
        if slot == len {
            slot = 0;
        }
        proof {
            steps = steps + 1;
        }
        if table[slot as usize].st_flags & READY_MSK != 0 {
            proof {
                lemma_next_ready_is(table@, current as int, slot as int);
            }
            return slot;
        }
    }
}

} // verus!
