//! The two stack-frame layouts of the switch protocol, as typed records with
//! their encoding into arena words.
//!
//! The hardware frame is what the processor itself pushes on exception entry
//! and pops on exception return. The software frame holds the callee-saved
//! registers, which the switch protocol saves and restores by hand; it lies
//! directly below the hardware frame.

use vstd::prelude::*;
use crate::kernel::arena::StackArena;

verus! {

/// Number of words in either frame.
pub const FRAME_WORDS: u32 = 8;

/// Size in bytes of the hardware frame.
pub const HW_FRAME_SIZE: u32 = 32;

/// Size in bytes of the software frame.
pub const SW_FRAME_SIZE: u32 = 32;

/// Status word of a task that has never run: Thumb state, no flags.
pub const INITIAL_PSR: u32 = 0x2100_0000;

/// The registers that the processor saves and restores by itself, in the
/// order in which they lie in memory, lowest address first.
#[derive(Clone, Copy, Debug, PartialEq, Eq)]
pub struct HwStackFrame {
    pub r0: u32,
    pub r1: u32,
    pub r2: u32,
    pub r3: u32,
    pub r12: u32,
    pub lr: u32,
    pub pc: u32,
    pub psr: u32,
}

/// The callee-saved registers, in the order in which they lie in memory,
/// lowest address first.
#[derive(Clone, Copy, Debug, PartialEq, Eq)]
pub struct SwStackFrame {
    pub r4: u32,
    pub r5: u32,
    pub r6: u32,
    pub r7: u32,
    pub r8: u32,
    pub r9: u32,
    pub r10: u32,
    pub r11: u32,
}

impl HwStackFrame {
    /// The frame as it lies in memory.
    pub open spec fn words(self) -> Seq<u32> {
        seq![self.r0, self.r1, self.r2, self.r3, self.r12, self.lr, self.pc, self.psr]
    }

    /// The frame that eight words of memory stand for.
    pub open spec fn from_words(words: Seq<u32>) -> HwStackFrame {
        HwStackFrame {
            r0: words[0],
            r1: words[1],
            r2: words[2],
            r3: words[3],
            r12: words[4],
            lr: words[5],
            pc: words[6],
            psr: words[7],
        }
    }

    /// The frame from which a task whose entry function lies at `entry` is
    /// dispatched for the first time with the argument `arg`.
    pub open spec fn first_dispatch(entry: u32, arg: u32) -> HwStackFrame {
        HwStackFrame { r0: arg, r1: 1, r2: 2, r3: 3, r12: 12, lr: 0, pc: entry, psr: INITIAL_PSR }
    }

    /// Builds the frame of a task's first dispatch. The argument goes where
    /// the calling convention expects the first parameter, the program counter
    /// to the entry function. The return address is zero: a task must not
    /// return from its entry function.
    pub fn new_first_dispatch(entry: u32, arg: u32) -> (frame: HwStackFrame)
        ensures
            frame == HwStackFrame::first_dispatch(entry, arg),
            frame.r0 == arg,
            frame.pc == entry,
    {
        HwStackFrame { r0: arg, r1: 1, r2: 2, r3: 3, r12: 12, lr: 0, pc: entry, psr: INITIAL_PSR }
    }

    /// Reads the frame whose lowest word lies at `addr`.
    pub fn load(arena: &StackArena, addr: u32) -> (frame: HwStackFrame)
        requires
            arena@.wf(),
            arena@.holds(addr as int, FRAME_WORDS as int),
        ensures
            frame == HwStackFrame::from_words(arena@.load_words(addr as int, FRAME_WORDS as int)),
    {
        HwStackFrame {
            r0: arena.load(addr),
            r1: arena.load(addr + 4),
            r2: arena.load(addr + 8),
            r3: arena.load(addr + 12),
            r12: arena.load(addr + 16),
            lr: arena.load(addr + 20),
            pc: arena.load(addr + 24),
            psr: arena.load(addr + 28),
        }
    }

    /// Writes the frame so that its lowest word lies at `addr`.
    pub fn store(&self, arena: &mut StackArena, addr: u32)
        requires
            old(arena)@.wf(),
            old(arena)@.holds(addr as int, FRAME_WORDS as int),
        ensures
            final(arena)@ == old(arena)@.store_words(addr as int, self.words()),
    {
        arena.store(addr, self.r0);
        arena.store(addr + 4, self.r1);
        arena.store(addr + 8, self.r2);
        arena.store(addr + 12, self.r3);
        arena.store(addr + 16, self.r12);
        arena.store(addr + 20, self.lr);
        arena.store(addr + 24, self.pc);
        arena.store(addr + 28, self.psr);
        assert(arena@.words =~= old(arena)@.store_words(addr as int, self.words()).words);
    }
}

impl SwStackFrame {
    /// The frame as it lies in memory.
    pub open spec fn words(self) -> Seq<u32> {
        seq![self.r4, self.r5, self.r6, self.r7, self.r8, self.r9, self.r10, self.r11]
    }

    /// The frame that eight words of memory stand for.
    pub open spec fn from_words(words: Seq<u32>) -> SwStackFrame {
        SwStackFrame {
            r4: words[0],
            r5: words[1],
            r6: words[2],
            r7: words[3],
            r8: words[4],
            r9: words[5],
            r10: words[6],
            r11: words[7],
        }
    }

    /// Reads the frame whose lowest word lies at `addr`.
    pub fn load(arena: &StackArena, addr: u32) -> (frame: SwStackFrame)
        requires
            arena@.wf(),
            arena@.holds(addr as int, FRAME_WORDS as int),
        ensures
            frame == SwStackFrame::from_words(arena@.load_words(addr as int, FRAME_WORDS as int)),
    {
        SwStackFrame {
            r4: arena.load(addr),
            r5: arena.load(addr + 4),
            r6: arena.load(addr + 8),
            r7: arena.load(addr + 12),
            r8: arena.load(addr + 16),
            r9: arena.load(addr + 20),
            r10: arena.load(addr + 24),
            r11: arena.load(addr + 28),
        }
    }

    /// Writes the frame so that its lowest word lies at `addr`.
    pub fn store(&self, arena: &mut StackArena, addr: u32)
        requires
            old(arena)@.wf(),
            old(arena)@.holds(addr as int, FRAME_WORDS as int),
        ensures
            final(arena)@ == old(arena)@.store_words(addr as int, self.words()),
    {
        arena.store(addr, self.r4);
        arena.store(addr + 4, self.r5);
        arena.store(addr + 8, self.r6);
        arena.store(addr + 12, self.r7);
        arena.store(addr + 16, self.r8);
        arena.store(addr + 20, self.r9);
        arena.store(addr + 24, self.r10);
        arena.store(addr + 28, self.r11);
        assert(arena@.words =~= old(arena)@.store_words(addr as int, self.words()).words);
    }
}

/// Encoding a hardware frame and decoding the words gives the frame back,
/// and decoding eight words and encoding the frame gives the words back.
pub proof fn lemma_hw_frame_round_trip(frame: HwStackFrame, words: Seq<u32>)
    requires
        words.len() == FRAME_WORDS,
    ensures
        frame.words().len() == FRAME_WORDS,
        HwStackFrame::from_words(frame.words()) == frame,
        HwStackFrame::from_words(words).words() == words,
{
    assert(HwStackFrame::from_words(words).words() =~= words);
}

/// Encoding a software frame and decoding the words gives the frame back,
/// and decoding eight words and encoding the frame gives the words back.
pub proof fn lemma_sw_frame_round_trip(frame: SwStackFrame, words: Seq<u32>)
    requires
        words.len() == FRAME_WORDS,
    ensures
        frame.words().len() == FRAME_WORDS,
        SwStackFrame::from_words(frame.words()) == frame,
        SwStackFrame::from_words(words).words() == words,
{
    assert(SwStackFrame::from_words(words).words() =~= words);
}

} // verus!
