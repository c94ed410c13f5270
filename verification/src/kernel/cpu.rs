//! The processor as the kernel sees it: the register file, the two stack
//! pointers, the interrupt mask, and the three system registers that the
//! scheduler programs.
//!
//! A `Cpu` is a snapshot of plain values. The kernel's functions say how they
//! change it; whoever runs them on a real processor carries the values over.

use vstd::prelude::*;
use crate::kernel::frame::{HwStackFrame, SwStackFrame};

verus! {

/// SysTick control and status register: the counter runs.
pub const SYST_CSR_ENABLE: u32 = 0x0000_0001;

/// SysTick control and status register: counting down to zero raises the
/// timer interrupt.
pub const SYST_CSR_TICKINT: u32 = 0x0000_0002;

/// The bits of the SysTick reload value register that exist.
pub const SYST_RVR_MASK: u32 = 0x00FF_FFFF;

/// Interrupt control and state register: sets the deferred interrupt pending.
pub const SCB_ICSR_PENDSVSET: u32 = 0x1000_0000;

/// Exception return value: back to thread mode on the main stack.
pub const MAIN_RETURN: u32 = 0xFFFF_FFF9;

/// Exception return value: back to thread mode on the task stack.
pub const THREAD_RETURN: u32 = 0xFFFF_FFFD;

/// The state of the processor.
#[derive(Clone, Copy, Debug, PartialEq, Eq)]
pub struct Cpu {
    pub r0: u32,
    pub r1: u32,
    pub r2: u32,
    pub r3: u32,
    pub r4: u32,
    pub r5: u32,
    pub r6: u32,
    pub r7: u32,
    pub r8: u32,
    pub r9: u32,
    pub r10: u32,
    pub r11: u32,
    pub r12: u32,
    /// Link register; inside a handler, the exception return value.
    pub lr: u32,
    pub pc: u32,
    pub psr: u32,
    /// Main stack pointer.
    pub msp: u32,
    /// Task stack pointer.
    pub psp: u32,
    /// Interrupts are masked.
    pub primask: bool,
    /// SysTick control and status register.
    pub syst_csr: u32,
    /// SysTick reload value register.
    pub syst_rvr: u32,
    /// Interrupt control and state register.
    pub scb_icsr: u32,
}

impl Cpu {
    /// The processor with every register zero and interrupts unmasked.
    pub open spec fn reset() -> Cpu {
        Cpu {
            r0: 0,
            r1: 0,
            r2: 0,
            r3: 0,
            r4: 0,
            r5: 0,
            r6: 0,
            r7: 0,
            r8: 0,
            r9: 0,
            r10: 0,
            r11: 0,
            r12: 0,
            lr: 0,
            pc: 0,
            psr: 0,
            msp: 0,
            psp: 0,
            primask: false,
            syst_csr: 0,
            syst_rvr: 0,
            scb_icsr: 0,
        }
    }

    /// The registers that the processor stacks by itself.
    pub open spec fn hw_frame(self) -> HwStackFrame {
        HwStackFrame {
            r0: self.r0,
            r1: self.r1,
            r2: self.r2,
            r3: self.r3,
            r12: self.r12,
            lr: self.lr,
            pc: self.pc,
            psr: self.psr,
        }
    }

    /// The callee-saved registers.
    pub open spec fn sw_frame(self) -> SwStackFrame {
        SwStackFrame {
            r4: self.r4,
            r5: self.r5,
            r6: self.r6,
            r7: self.r7,
            r8: self.r8,
            r9: self.r9,
            r10: self.r10,
            r11: self.r11,
        }
    }

    /// The processor after `frame` is loaded into the registers that the
    /// processor stacks by itself.
    pub open spec fn with_hw_frame(self, frame: HwStackFrame) -> Cpu {
        Cpu {
            r0: frame.r0,
            r1: frame.r1,
            r2: frame.r2,
            r3: frame.r3,
            r12: frame.r12,
            lr: frame.lr,
            pc: frame.pc,
            psr: frame.psr,
            ..self
        }
    }

    /// The processor after `frame` is loaded into the callee-saved registers.
    pub open spec fn with_sw_frame(self, frame: SwStackFrame) -> Cpu {
        Cpu {
            r4: frame.r4,
            r5: frame.r5,
            r6: frame.r6,
            r7: frame.r7,
            r8: frame.r8,
            r9: frame.r9,
            r10: frame.r10,
            r11: frame.r11,
            ..self
        }
    }

    /// The whole register file of the running code: sixteen registers, with
    /// the task stack pointer as the stack pointer.
    pub open spec fn same_registers(self, other: Cpu) -> bool {
        &&& self.hw_frame() == other.hw_frame()
        &&& self.sw_frame() == other.sw_frame()
        &&& self.psp == other.psp
    }

    /// The processor with the task stack pointer at `ptr`.
    pub open spec fn with_psp(self, ptr: u32) -> Cpu {
        Cpu { psp: ptr, ..self }
    }

    /// The processor after the timer's reload value is set from `tick`.
    pub open spec fn with_reload(self, tick: u32) -> Cpu {
        Cpu { syst_rvr: tick & SYST_RVR_MASK, ..self }
    }

    /// The processor after the deferred interrupt is set pending.
    pub open spec fn with_pendsv_pending(self) -> Cpu {
        Cpu { scb_icsr: self.scb_icsr | SCB_ICSR_PENDSVSET, ..self }
    }

    /// The processor after the timer is kept from raising its interrupt; the
    /// counter goes on counting.
    pub open spec fn with_tick_disabled(self) -> Cpu {
        Cpu { syst_csr: self.syst_csr & !SYST_CSR_TICKINT, ..self }
    }

    /// The processor after the timer is allowed to raise its interrupt.
    pub open spec fn with_tick_enabled(self) -> Cpu {
        Cpu { syst_csr: self.syst_csr | SYST_CSR_TICKINT, ..self }
    }

    /// The processor after the timer is started with its interrupt on.
    pub open spec fn with_timer_running(self) -> Cpu {
        Cpu { syst_csr: self.syst_csr | (SYST_CSR_ENABLE | SYST_CSR_TICKINT), ..self }
    }

    /// The processor after the timer is halted with its interrupt off.
    pub open spec fn with_timer_halted(self) -> Cpu {
        Cpu { syst_csr: self.syst_csr & !(SYST_CSR_ENABLE | SYST_CSR_TICKINT), ..self }
    }

    /// The timer is allowed to raise its interrupt.
    pub open spec fn tick_enabled(self) -> bool {
        self.syst_csr & SYST_CSR_TICKINT != 0
    }

    /// The processor with every register zero and interrupts unmasked.
    pub fn new() -> (cpu: Cpu)
        ensures
            cpu == Cpu::reset(),
    {
        Cpu {
            r0: 0,
            r1: 0,
            r2: 0,
            r3: 0,
            r4: 0,
            r5: 0,
            r6: 0,
            r7: 0,
            r8: 0,
            r9: 0,
            r10: 0,
            r11: 0,
            r12: 0,
            lr: 0,
            pc: 0,
            psr: 0,
            msp: 0,
            psp: 0,
            primask: false,
            syst_csr: 0,
            syst_rvr: 0,
            scb_icsr: 0,
        }
    }

    /// Reads the registers that the processor stacks by itself.
    pub fn get_hw_frame(&self) -> (frame: HwStackFrame)
        ensures
            frame == self.hw_frame(),
    {
        HwStackFrame {
            r0: self.r0,
            r1: self.r1,
            r2: self.r2,
            r3: self.r3,
            r12: self.r12,
            lr: self.lr,
            pc: self.pc,
            psr: self.psr,
        }
    }

    /// Reads the callee-saved registers.
    pub fn get_sw_frame(&self) -> (frame: SwStackFrame)
        ensures
            frame == self.sw_frame(),
    {
        SwStackFrame {
            r4: self.r4,
            r5: self.r5,
            r6: self.r6,
            r7: self.r7,
            r8: self.r8,
            r9: self.r9,
            r10: self.r10,
            r11: self.r11,
        }
    }

    /// Loads `frame` into the registers that the processor stacks by itself.
    pub fn set_hw_frame(&mut self, frame: &HwStackFrame)
        ensures
            *final(self) == old(self).with_hw_frame(*frame),
    {
        self.r0 = frame.r0;
        self.r1 = frame.r1;
        self.r2 = frame.r2;
        self.r3 = frame.r3;
        self.r12 = frame.r12;
        self.lr = frame.lr;
        self.pc = frame.pc;
        self.psr = frame.psr;
    }

    /// Loads `frame` into the callee-saved registers.
    pub fn set_sw_frame(&mut self, frame: &SwStackFrame)
        ensures
            *final(self) == old(self).with_sw_frame(*frame),
    {
        self.r4 = frame.r4;
        self.r5 = frame.r5;
        self.r6 = frame.r6;
        self.r7 = frame.r7;
        self.r8 = frame.r8;
        self.r9 = frame.r9;
        self.r10 = frame.r10;
        self.r11 = frame.r11;
    }
}

/// What the timer's two control bits do. Inside a critical section the
/// timer does not raise its interrupt and goes on counting as before; leaving
/// the section turns the interrupt on, and gives back the control register as
/// it was where the interrupt was on before. A running timer raises its
/// interrupt, a halted one does not count and raises none.
pub proof fn lemma_timer_bits(cpu: Cpu)
    ensures
        !cpu.with_tick_disabled().tick_enabled(),
        cpu.with_tick_disabled().syst_csr & SYST_CSR_ENABLE == cpu.syst_csr & SYST_CSR_ENABLE,
        cpu.with_tick_enabled().tick_enabled(),
        cpu.with_tick_enabled().syst_csr & SYST_CSR_ENABLE == cpu.syst_csr & SYST_CSR_ENABLE,
        cpu.with_tick_disabled().with_tick_enabled() == cpu.with_tick_enabled(),
        cpu.tick_enabled() ==> cpu.with_tick_enabled() == cpu,
        cpu.with_timer_running().tick_enabled(),
        cpu.with_timer_running().syst_csr & SYST_CSR_ENABLE != 0,
        !cpu.with_timer_halted().tick_enabled(),
        cpu.with_timer_halted().syst_csr & SYST_CSR_ENABLE == 0,
{
    let csr: u32 = cpu.syst_csr;
    assert((csr & !2u32) & 2 == 0 && (csr & !2u32) & 1 == csr & 1) by (bit_vector);
    assert((csr | 2u32) & 2 != 0 && (csr | 2u32) & 1 == csr & 1) by (bit_vector);
    assert((csr & !2u32) | 2 == csr | 2) by (bit_vector);
    assert(csr & 2 != 0 ==> csr | 2 == csr) by (bit_vector);
    assert((csr | (1u32 | 2)) & 2 != 0 && (csr | (1u32 | 2)) & 1 != 0) by (bit_vector);
    assert((csr & !(1u32 | 2)) & 2 == 0 && (csr & !(1u32 | 2)) & 1 == 0) by (bit_vector);
}

/// What programming the timer and raising the deferred interrupt leave in
/// their registers: a reload value of at most 24 bits, which is the tick
/// itself where that has no more, and the pending bit set.
pub proof fn lemma_reload_and_pendsv_bits(cpu: Cpu, tick: u32)
    ensures
        cpu.with_reload(tick).syst_rvr <= SYST_RVR_MASK,
        tick <= SYST_RVR_MASK ==> cpu.with_reload(tick).syst_rvr == tick,
        cpu.with_pendsv_pending().scb_icsr & SCB_ICSR_PENDSVSET != 0,
{
    let icsr: u32 = cpu.scb_icsr;
    assert(tick & 0x00FF_FFFFu32 <= 0x00FF_FFFFu32) by (bit_vector);
    assert(tick <= 0x00FF_FFFFu32 ==> tick & 0x00FF_FFFFu32 == tick) by (bit_vector);
    assert((icsr | 0x1000_0000u32) & 0x1000_0000u32 != 0) by (bit_vector);
}

} // verus!
