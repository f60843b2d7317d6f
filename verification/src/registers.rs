//! The register file: sixteen 8-bit general registers V0..VF, the 16-bit
//! index register I, the program counter, and the two 8-bit timers.
//!
//! VF doubles as the flag register for carry, borrow and collision
//! outcomes. The timers decrement at a fixed 60 Hz cadence through `tick`,
//! independently of instruction execution.

use vstd::prelude::*;

verus! {

/// Number of general registers.
pub const NUM_REGS: usize = 16;

/// Index of the flag register VF.
pub const FLAG_REG: usize = 15;

/// Mathematical view of a register file.
#[verifier::ext_equal]
pub ghost struct RegsView {
    /// The sixteen general registers V0..VF.
    pub v: Seq<u8>,
    /// The index register I.
    pub i: u16,
    /// The program counter.
    pub pc: u16,
    /// The delay timer.
    pub delay: u8,
    /// The sound timer.
    pub sound: u8,
}

/// A register file after one 60 Hz tick: each timer that is above zero
/// drops by one; nothing else moves.
pub open spec fn ticked(r: RegsView) -> RegsView {
    RegsView {
        delay: if r.delay > 0 {
            (r.delay - 1) as u8
        } else {
            0
        },
        sound: if r.sound > 0 {
            (r.sound - 1) as u8
        } else {
            0
        },
        ..r
    }
}

/// The general registers, index register, program counter and timers.
pub struct RegisterFile {
    v: Vec<u8>,
    i: u16,
    pc: u16,
    delay: u8,
    sound: u8,
}

impl View for RegisterFile {
    type V = RegsView;

    closed spec fn view(&self) -> RegsView {
        RegsView { v: self.v@, i: self.i, pc: self.pc, delay: self.delay, sound: self.sound }
    }
}

impl RegisterFile {
    /// A register file holds exactly sixteen general registers.
    pub open spec fn wf(&self) -> bool {
        self@.v.len() == NUM_REGS
    }

    /// A fresh register file: all registers and timers zero, program
    /// counter at the program start address 0x200.
    pub fn new() -> (r: RegisterFile)
        ensures
            r.wf(),
            r@ == initial_regs(),
    {
        let mut v: Vec<u8> = Vec::new();
        let mut k: usize = 0;
        while k < NUM_REGS
            invariant
                k == v@.len(),
                k <= NUM_REGS,
                forall|j: int| 0 <= j < k ==> v@[j] == 0,
            decreases NUM_REGS - k,
        {
            v.push(0);
            k = k + 1;
        }
        let r = RegisterFile { v, i: 0, pc: 0x200, delay: 0, sound: 0 };
        proof {
            assert(r@.v =~= initial_regs().v);
            assert(r@ =~= initial_regs());
        }
        r
    }

    /// The general register `Vx`.
    pub fn get_v(&self, x: usize) -> (r: u8)
        requires
            self.wf(),
            x < NUM_REGS,
        ensures
            r == self@.v[x as int],
    {
        self.v[x]
    }

    /// Store `value` into the general register `Vx`.
    pub fn set_v(&mut self, x: usize, value: u8)
        requires
            old(self).wf(),
            x < NUM_REGS,
        ensures
            final(self).wf(),
            final(self)@ == (RegsView { v: old(self)@.v.update(x as int, value), ..old(self)@ }),
    {
        self.v.set(x, value);
    }

    /// The index register I.
    pub fn get_i(&self) -> (r: u16)
        ensures
            r == self@.i,
    {
        self.i
    }

    /// Store `value` into the index register I.
    pub fn set_i(&mut self, value: u16)
        ensures
            final(self)@ == (RegsView { i: value, ..old(self)@ }),
    {
        self.i = value;
    }

    /// The program counter.
    pub fn get_pc(&self) -> (r: u16)
        ensures
            r == self@.pc,
    {
        self.pc
    }

    /// Store `value` into the program counter.
    pub fn set_pc(&mut self, value: u16)
        ensures
            final(self)@ == (RegsView { pc: value, ..old(self)@ }),
    {
        self.pc = value;
    }

    /// The delay timer.
    pub fn get_delay(&self) -> (r: u8)
        ensures
            r == self@.delay,
    {
        self.delay
    }

    /// Store `value` into the delay timer.
    pub fn set_delay(&mut self, value: u8)
        ensures
            final(self)@ == (RegsView { delay: value, ..old(self)@ }),
    {
        self.delay = value;
    }

    /// The sound timer.
    pub fn get_sound(&self) -> (r: u8)
        ensures
            r == self@.sound,
    {
        self.sound
    }

    /// Store `value` into the sound timer.
    pub fn set_sound(&mut self, value: u8)
        ensures
            final(self)@ == (RegsView { sound: value, ..old(self)@ }),
    {
        self.sound = value;
    }

    /// One 60 Hz timer step: each timer that is above zero drops by one.
    /// Registers, I and the program counter are untouched.
    pub fn tick(&mut self)
        ensures
            final(self)@ == ticked(old(self)@),
    {
        if self.delay > 0 {
            self.delay = self.delay - 1;
        }
        if self.sound > 0 {
            self.sound = self.sound - 1;
        }
    }
}

/// The view of a fresh register file.
pub open spec fn initial_regs() -> RegsView {
    RegsView { v: Seq::new(NUM_REGS as nat, |j: int| 0u8), i: 0, pc: 0x200, delay: 0, sound: 0 }
}

} // verus!
