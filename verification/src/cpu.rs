//! The interpreter: fetch, decode, execute, and the opcode semantics table.
//!
//! The whole machine is modelled by the ghost `CpuModel`, and one total
//! specification function, `step_model`, defines what a single call of
//! `exec` does in every state, for every opcode and every random byte.
//! `exec` is proved to return a machine whose view equals `step_model` of
//! the old view; each opcode handler is proved against its own slice of
//! that specification.

use vstd::prelude::*;

use vstd::arithmetic::div_mod::lemma_fundamental_div_mod_converse;

use crate::decode::{decode, decode_spec, Instr};
use crate::display::{draw_collides, drawn, Display, DISPLAY_PIXELS};
use crate::errors::CpuError;
use crate::keypad::{first_pressed, Keypad, NUM_KEYS};
use crate::mem::{
    font_byte, font_rows, initial_mem, loaded_mem, with_fonts, Memory, MEM_SIZE,
    PROGRAM_START,
};
use crate::registers::{initial_regs, ticked, RegisterFile, RegsView, FLAG_REG, NUM_REGS};
use crate::stack::{Stack, STACK_CAPACITY};

verus! {

/// What to do with an opcode word that matches no instruction pattern:
/// halt the machine, or skip the word and continue.
#[derive(Clone, Copy, Debug, PartialEq, Eq, Structural)]
pub enum Policy {
    /// Halt with `InvalidOpcode`.
    Halt,
    /// Advance the program counter by 2 and continue.
    SkipAndContinue,
}

/// The interpreter's control state.
#[derive(Clone, Copy, Debug, PartialEq, Eq, Structural)]
pub enum CpuState {
    /// Executing instructions.
    Running,
    /// Blocked on a key press that will be stored into the given register.
    WaitingForKey(u8),
    /// Stopped by a fault; terminal until a reset.
    Halted(CpuError),
}

/// Mathematical view of the whole machine.
#[verifier::ext_equal]
pub ghost struct CpuModel {
    /// The 4096 memory bytes.
    pub ram: Seq<u8>,
    /// Registers, index register, program counter and timers.
    pub regs: RegsView,
    /// The return-address stack, oldest first.
    pub stack: Seq<u16>,
    /// The framebuffer pixels, row-major.
    pub grid: Seq<bool>,
    /// The sixteen key states.
    pub keys: Seq<bool>,
    /// The control state.
    pub state: CpuState,
    /// The unknown-opcode policy.
    pub policy: Policy,
}

/// A 17-bit value reduced to 16 bits; used for program-counter and index
/// arithmetic, whose operands never exceed one wraparound.
pub open spec fn wrap16(v: int) -> u16 {
    if v > 0xFFFF {
        (v - 0x10000) as u16
    } else {
        v as u16
    }
}

/// An all-off framebuffer.
pub open spec fn blank_grid() -> Seq<bool> {
    Seq::new(DISPLAY_PIXELS as nat, |j: int| false)
}

/// The machine with its program counter replaced.
pub open spec fn with_pc(m: CpuModel, pc: u16) -> CpuModel {
    CpuModel { regs: RegsView { pc, ..m.regs }, ..m }
}

/// The machine with register `Vx` replaced.
pub open spec fn with_v(m: CpuModel, x: int, value: u8) -> CpuModel {
    CpuModel { regs: RegsView { v: m.regs.v.update(x, value), ..m.regs }, ..m }
}

/// The machine with the flag register VF replaced.
pub open spec fn with_vf(m: CpuModel, flag: u8) -> CpuModel {
    with_v(m, FLAG_REG as int, flag)
}

/// The machine advanced past a normal two-byte instruction.
pub open spec fn sem_adv(m: CpuModel) -> CpuModel {
    with_pc(m, wrap16(m.regs.pc + 2))
}

/// The machine advanced by 4 when `cond` holds (a satisfied skip), by 2
/// otherwise.
pub open spec fn sem_skip_if(m: CpuModel, cond: bool) -> CpuModel {
    with_pc(m, wrap16(m.regs.pc + if cond { 4int } else { 2int }))
}

/// The machine halted by the given fault.
pub open spec fn sem_halt(m: CpuModel, e: CpuError) -> CpuModel {
    CpuModel { state: CpuState::Halted(e), ..m }
}

/// 00E0: clear the framebuffer.
pub open spec fn sem_cls(m: CpuModel) -> CpuModel {
    sem_adv(CpuModel { grid: blank_grid(), ..m })
}

/// 00EE: return: restore the exact program counter pushed by the call, or
/// halt with `StackUnderflow` on an empty stack.
pub open spec fn sem_ret(m: CpuModel) -> CpuModel {
    if m.stack.len() == 0 {
        sem_halt(m, CpuError::StackUnderflow)
    } else {
        CpuModel { stack: m.stack.drop_last(), regs: RegsView { pc: m.stack.last(), ..m.regs }, ..m }
    }
}

/// 1NNN: jump.
pub open spec fn sem_jp(m: CpuModel, nnn: u16) -> CpuModel {
    with_pc(m, nnn)
}

/// 2NNN: call: push the address of the next instruction, then jump, or
/// halt with `StackOverflow` on a full stack.
pub open spec fn sem_call(m: CpuModel, nnn: u16) -> CpuModel {
    if m.stack.len() >= STACK_CAPACITY {
        sem_halt(m, CpuError::StackOverflow)
    } else {
        CpuModel {
            stack: m.stack.push(wrap16(m.regs.pc + 2)),
            regs: RegsView { pc: nnn, ..m.regs },
            ..m
        }
    }
}

/// 3XNN: skip when `Vx == nn`.
pub open spec fn sem_se_imm(m: CpuModel, x: int, nn: u8) -> CpuModel {
    sem_skip_if(m, m.regs.v[x] == nn)
}

/// 4XNN: skip when `Vx != nn`.
pub open spec fn sem_sne_imm(m: CpuModel, x: int, nn: u8) -> CpuModel {
    sem_skip_if(m, m.regs.v[x] != nn)
}

/// 5XY0: skip when `Vx == Vy`.
pub open spec fn sem_se_reg(m: CpuModel, x: int, y: int) -> CpuModel {
    sem_skip_if(m, m.regs.v[x] == m.regs.v[y])
}

/// 6XNN: load the immediate.
pub open spec fn sem_ld_imm(m: CpuModel, x: int, nn: u8) -> CpuModel {
    sem_adv(with_v(m, x, nn))
}

/// 7XNN: add the immediate modulo 256; VF is never touched.
pub open spec fn sem_add_imm(m: CpuModel, x: int, nn: u8) -> CpuModel {
    sem_adv(with_v(m, x, ((m.regs.v[x] + nn) % 256) as u8))
}

/// 8XY0: copy `Vy` into `Vx`.
pub open spec fn sem_ld_reg(m: CpuModel, x: int, y: int) -> CpuModel {
    sem_adv(with_v(m, x, m.regs.v[y]))
}

/// 8XY1: bitwise OR.
pub open spec fn sem_or(m: CpuModel, x: int, y: int) -> CpuModel {
    sem_adv(with_v(m, x, m.regs.v[x] | m.regs.v[y]))
}

/// 8XY2: bitwise AND.
pub open spec fn sem_and(m: CpuModel, x: int, y: int) -> CpuModel {
    sem_adv(with_v(m, x, m.regs.v[x] & m.regs.v[y]))
}

/// 8XY3: bitwise XOR.
pub open spec fn sem_xor(m: CpuModel, x: int, y: int) -> CpuModel {
    sem_adv(with_v(m, x, m.regs.v[x] ^ m.regs.v[y]))
}

/// 8XY4: `Vx := (Vx + Vy) mod 256`; VF becomes 1 exactly when the 8-bit
/// sum overflows, and is written after the sum.
pub open spec fn sem_add(m: CpuModel, x: int, y: int) -> CpuModel {
    let s = m.regs.v[x] + m.regs.v[y];
    sem_adv(with_vf(with_v(m, x, (s % 256) as u8), if s > 255 { 1u8 } else { 0u8 }))
}

/// 8XY5: `Vx := (Vx - Vy) mod 256`; VF becomes 1 exactly when no borrow
/// occurs (`Vx >= Vy`), and is written after the difference.
pub open spec fn sem_sub(m: CpuModel, x: int, y: int) -> CpuModel {
    let d = m.regs.v[x] - m.regs.v[y] + 256;
    sem_adv(
        with_vf(
            with_v(m, x, (d % 256) as u8),
            if m.regs.v[x] >= m.regs.v[y] { 1u8 } else { 0u8 },
        ),
    )
}

/// 8XY6: shift `Vx` right by one; VF receives the old low bit.
pub open spec fn sem_shr(m: CpuModel, x: int) -> CpuModel {
    sem_adv(with_vf(with_v(m, x, (m.regs.v[x] / 2) as u8), (m.regs.v[x] % 2) as u8))
}

/// 8XY7: `Vx := (Vy - Vx) mod 256`; VF becomes 1 exactly when no borrow
/// occurs (`Vy >= Vx`).
pub open spec fn sem_subn(m: CpuModel, x: int, y: int) -> CpuModel {
    let d = m.regs.v[y] - m.regs.v[x] + 256;
    sem_adv(
        with_vf(
            with_v(m, x, (d % 256) as u8),
            if m.regs.v[y] >= m.regs.v[x] { 1u8 } else { 0u8 },
        ),
    )
}

/// 8XYE: shift `Vx` left by one modulo 256; VF receives the old high bit.
pub open spec fn sem_shl(m: CpuModel, x: int) -> CpuModel {
    sem_adv(with_vf(with_v(m, x, ((m.regs.v[x] * 2) % 256) as u8), (m.regs.v[x] / 128) as u8))
}

/// 9XY0: skip when `Vx != Vy`.
pub open spec fn sem_sne_reg(m: CpuModel, x: int, y: int) -> CpuModel {
    sem_skip_if(m, m.regs.v[x] != m.regs.v[y])
}

/// ANNN: load the index register.
pub open spec fn sem_ld_i(m: CpuModel, nnn: u16) -> CpuModel {
    sem_adv(CpuModel { regs: RegsView { i: nnn, ..m.regs }, ..m })
}

/// BNNN: jump to `nnn + V0`.
pub open spec fn sem_jp_v0(m: CpuModel, nnn: u16) -> CpuModel {
    with_pc(m, wrap16(nnn + m.regs.v[0]))
}

/// CXNN: load the host-supplied random byte masked with `nn`.
pub open spec fn sem_rnd(m: CpuModel, x: int, nn: u8, rnd: u8) -> CpuModel {
    sem_adv(with_v(m, x, rnd & nn))
}

/// DXYN: XOR-draw the `n`-byte sprite at `I` to `(Vx, Vy)` with
/// wraparound; VF reports the collision; I is unmodified. Halts with
/// `OutOfBoundsMemoryAccess` when the sprite bytes lie beyond memory.
pub open spec fn sem_drw(m: CpuModel, x: int, y: int, n: int) -> CpuModel {
    let i = m.regs.i as int;
    if i + n > MEM_SIZE {
        sem_halt(m, CpuError::OutOfBoundsMemoryAccess)
    } else {
        let spr = m.ram.subrange(i, i + n);
        let vx = m.regs.v[x] as int;
        let vy = m.regs.v[y] as int;
        let flag: u8 = if draw_collides(m.grid, vx, vy, spr) {
            1
        } else {
            0
        };
        sem_adv(with_vf(CpuModel { grid: drawn(m.grid, vx, vy, spr), ..m }, flag))
    }
}

/// EX9E: skip when the key numbered by the low nibble of `Vx` is pressed.
pub open spec fn sem_skp(m: CpuModel, x: int) -> CpuModel {
    sem_skip_if(m, m.keys[m.regs.v[x] as int % 16])
}

/// EXA1: skip when the key numbered by the low nibble of `Vx` is not
/// pressed.
pub open spec fn sem_sknp(m: CpuModel, x: int) -> CpuModel {
    sem_skip_if(m, !m.keys[m.regs.v[x] as int % 16])
}

/// FX07: load the delay timer into `Vx`.
pub open spec fn sem_ld_dt(m: CpuModel, x: int) -> CpuModel {
    sem_adv(with_v(m, x, m.regs.delay))
}

/// FX0A: enter the key-wait state; the program counter stays on this
/// instruction until a key press resumes the machine.
pub open spec fn sem_wait_key(m: CpuModel, x: int) -> CpuModel {
    CpuModel { state: CpuState::WaitingForKey(x as u8), ..m }
}

/// FX15: load `Vx` into the delay timer.
pub open spec fn sem_set_dt(m: CpuModel, x: int) -> CpuModel {
    sem_adv(CpuModel { regs: RegsView { delay: m.regs.v[x], ..m.regs }, ..m })
}

/// FX18: load `Vx` into the sound timer.
pub open spec fn sem_set_st(m: CpuModel, x: int) -> CpuModel {
    sem_adv(CpuModel { regs: RegsView { sound: m.regs.v[x], ..m.regs }, ..m })
}

/// FX1E: add `Vx` to the index register modulo 65536; VF is untouched.
pub open spec fn sem_add_i(m: CpuModel, x: int) -> CpuModel {
    sem_adv(CpuModel { regs: RegsView { i: wrap16(m.regs.i + m.regs.v[x]), ..m.regs }, ..m })
}

/// FX29: load into I the font address of the low nibble of `Vx`: glyph `d`
/// lives at `5 * d`.
pub open spec fn sem_ld_f(m: CpuModel, x: int) -> CpuModel {
    sem_adv(CpuModel { regs: RegsView { i: (5 * (m.regs.v[x] % 16)) as u16, ..m.regs }, ..m })
}

/// FX33: store the hundreds, tens and ones digits of `Vx` at `I`, `I+1`,
/// `I+2`. Halts with `OutOfBoundsMemoryAccess` when the target runs past
/// the end of memory or into the reserved region below 0x200.
pub open spec fn sem_bcd(m: CpuModel, x: int) -> CpuModel {
    let i = m.regs.i as int;
    if i < PROGRAM_START || i + 3 > MEM_SIZE {
        sem_halt(m, CpuError::OutOfBoundsMemoryAccess)
    } else {
        let vx = m.regs.v[x];
        sem_adv(
            CpuModel {
                ram: m.ram.update(i, (vx / 100) as u8).update(i + 1, ((vx / 10) % 10) as u8).update(
                    i + 2,
                    (vx % 10) as u8,
                ),
                ..m
            },
        )
    }
}

/// FX55: store `V0..=Vx` at `I..`; I is unmodified. Halts with
/// `OutOfBoundsMemoryAccess` when the target runs past the end of memory
/// or into the reserved region below 0x200.
pub open spec fn sem_dump(m: CpuModel, x: int) -> CpuModel {
    let i = m.regs.i as int;
    if i < PROGRAM_START || i + x + 1 > MEM_SIZE {
        sem_halt(m, CpuError::OutOfBoundsMemoryAccess)
    } else {
        sem_adv(
            CpuModel {
                ram: Seq::new(
                    m.ram.len(),
                    |a: int|
                        if i <= a <= i + x {
                            m.regs.v[a - i]
                        } else {
                            m.ram[a]
                        },
                ),
                ..m
            },
        )
    }
}

/// FX65: load `V0..=Vx` from `I..`; I is unmodified. Halts with
/// `OutOfBoundsMemoryAccess` when the source runs past the end of memory.
pub open spec fn sem_fill(m: CpuModel, x: int) -> CpuModel {
    let i = m.regs.i as int;
    if i + x + 1 > MEM_SIZE {
        sem_halt(m, CpuError::OutOfBoundsMemoryAccess)
    } else {
        sem_adv(
            CpuModel {
                regs: RegsView {
                    v: Seq::new(
                        NUM_REGS as nat,
                        |j: int|
                            if j <= x {
                                m.ram[i + j]
                            } else {
                                m.regs.v[j]
                            },
                    ),
                    ..m.regs
                },
                ..m
            },
        )
    }
}

/// An opcode word that matches no pattern: halt or skip, per policy.
pub open spec fn sem_unknown(m: CpuModel) -> CpuModel {
    match m.policy {
        Policy::Halt => sem_halt(m, CpuError::InvalidOpcode),
        Policy::SkipAndContinue => sem_adv(m),
    }
}

/// The machine after executing one decoded instruction while running.
pub open spec fn step_instr(m: CpuModel, instr: Instr, rnd: u8) -> CpuModel {
    match instr {
        Instr::Cls => sem_cls(m),
        Instr::Ret => sem_ret(m),
        Instr::Jp { nnn } => sem_jp(m, nnn),
        Instr::Call { nnn } => sem_call(m, nnn),
        Instr::SeImm { x, nn } => sem_se_imm(m, x as int, nn),
        Instr::SneImm { x, nn } => sem_sne_imm(m, x as int, nn),
        Instr::SeReg { x, y } => sem_se_reg(m, x as int, y as int),
        Instr::LdImm { x, nn } => sem_ld_imm(m, x as int, nn),
        Instr::AddImm { x, nn } => sem_add_imm(m, x as int, nn),
        Instr::LdReg { x, y } => sem_ld_reg(m, x as int, y as int),
        Instr::Or { x, y } => sem_or(m, x as int, y as int),
        Instr::And { x, y } => sem_and(m, x as int, y as int),
        Instr::Xor { x, y } => sem_xor(m, x as int, y as int),
        Instr::Add { x, y } => sem_add(m, x as int, y as int),
        Instr::Sub { x, y } => sem_sub(m, x as int, y as int),
        Instr::Shr { x, y: _ } => sem_shr(m, x as int),
        Instr::Subn { x, y } => sem_subn(m, x as int, y as int),
        Instr::Shl { x, y: _ } => sem_shl(m, x as int),
        Instr::SneReg { x, y } => sem_sne_reg(m, x as int, y as int),
        Instr::LdI { nnn } => sem_ld_i(m, nnn),
        Instr::JpV0 { nnn } => sem_jp_v0(m, nnn),
        Instr::Rnd { x, nn } => sem_rnd(m, x as int, nn, rnd),
        Instr::Drw { x, y, n } => sem_drw(m, x as int, y as int, n as int),
        Instr::Skp { x } => sem_skp(m, x as int),
        Instr::Sknp { x } => sem_sknp(m, x as int),
        Instr::LdDt { x } => sem_ld_dt(m, x as int),
        Instr::WaitKey { x } => sem_wait_key(m, x as int),
        Instr::SetDt { x } => sem_set_dt(m, x as int),
        Instr::SetSt { x } => sem_set_st(m, x as int),
        Instr::AddI { x } => sem_add_i(m, x as int),
        Instr::LdF { x } => sem_ld_f(m, x as int),
        Instr::Bcd { x } => sem_bcd(m, x as int),
        Instr::Dump { x } => sem_dump(m, x as int),
        Instr::Fill { x } => sem_fill(m, x as int),
        Instr::Unknown { op: _ } => sem_unknown(m),
    }
}

/// The 16-bit word fetched at the program counter, big-endian.
pub open spec fn fetch(m: CpuModel) -> u16 {
    (m.ram[m.regs.pc as int] * 256 + m.ram[m.regs.pc as int + 1]) as u16
}

/// The machine resumed from the key-wait state by key `k`: the key number
/// goes into the target register, the program counter moves past the wait
/// instruction, and the machine runs again.
pub open spec fn sem_key_resume(m: CpuModel, x: int, k: u8) -> CpuModel {
    CpuModel { state: CpuState::Running, ..sem_adv(with_v(m, x, k)) }
}

/// One call of `exec`: a halted machine is unchanged; a waiting machine
/// consumes the smallest pressed key or stays put; a running machine
/// fetches at the program counter (halting when the two-byte fetch would
/// leave memory), decodes, and executes one instruction.
pub open spec fn step_model(m: CpuModel, rnd: u8) -> CpuModel {
    match m.state {
        CpuState::Halted(_) => m,
        CpuState::WaitingForKey(x) => match first_pressed(m.keys) {
            Option::None => m,
            Option::Some(k) => sem_key_resume(m, x as int, k),
        },
        CpuState::Running => if m.regs.pc as int + 2 > MEM_SIZE {
            sem_halt(m, CpuError::OutOfBoundsMemoryAccess)
        } else {
            step_instr(m, decode_spec(fetch(m)), rnd)
        },
    }
}

/// The machine after one 60 Hz timer tick: each timer above zero drops by
/// one; everything else, the control state included, is unchanged.
pub open spec fn tick_model(m: CpuModel) -> CpuModel {
    CpuModel { regs: ticked(m.regs), ..m }
}

/// The machine after `n` 60 Hz timer ticks in a row.
pub open spec fn ticked_n(m: CpuModel, n: nat) -> CpuModel
    decreases n,
{
    if n == 0 {
        m
    } else {
        tick_model(ticked_n(m, (n - 1) as nat))
    }
}

/// Timer ticks are pure countdown: `n` ticks lower a delay timer of at
/// least `n` by exactly `n` (and a sound timer likewise), and leave every
/// other part of the machine untouched. The tick count alone decides the
/// timers; instruction execution is clocked separately.
pub proof fn lemma_ticks_lower_timers(m: CpuModel, n: nat)
    requires
        m.regs.delay >= n,
    ensures
        ticked_n(m, n).regs.delay == m.regs.delay - n,
        m.regs.sound >= n ==> ticked_n(m, n).regs.sound == m.regs.sound - n,
        ticked_n(m, n).regs.v == m.regs.v,
        ticked_n(m, n).regs.i == m.regs.i,
        ticked_n(m, n).regs.pc == m.regs.pc,
        ticked_n(m, n).ram == m.ram,
        ticked_n(m, n).stack == m.stack,
        ticked_n(m, n).grid == m.grid,
        ticked_n(m, n).keys == m.keys,
        ticked_n(m, n).state == m.state,
        ticked_n(m, n).policy == m.policy,
    decreases n,
{
    if n > 0 {
        lemma_ticks_lower_timers(m, (n - 1) as nat);
    }
}

/// An `exec` step never moves the timers, except that a machine running
/// into the set-delay-timer or set-sound-timer opcode loads the named
/// timer from `Vx`: the instruction clock cannot make the timers count.
pub proof fn lemma_step_keeps_timers(m: CpuModel, rnd: u8)
    ensures
        (match m.state {
            CpuState::Running => m.regs.pc as int + 2 <= MEM_SIZE && !(decode_spec(fetch(m))
                is SetDt),
            _ => true,
        }) ==> step_model(m, rnd).regs.delay == m.regs.delay,
        (match m.state {
            CpuState::Running => m.regs.pc as int + 2 <= MEM_SIZE && !(decode_spec(fetch(m))
                is SetSt),
            _ => true,
        }) ==> step_model(m, rnd).regs.sound == m.regs.sound,
{
}

/// A freshly constructed or reset machine: font table in memory, all
/// registers and timers zero, program counter at 0x200, empty stack, blank
/// framebuffer, no key pressed, running.
pub open spec fn initial_model(policy: Policy) -> CpuModel {
    CpuModel {
        ram: initial_mem(),
        regs: initial_regs(),
        stack: Seq::empty(),
        grid: blank_grid(),
        keys: Seq::new(NUM_KEYS as nat, |j: int| false),
        state: CpuState::Running,
        policy,
    }
}

/// A host-readable snapshot of registers, index register, program
/// counter, timers, stack depth and control state.
pub struct CpuSnapshot {
    /// Copies of V0..VF.
    pub v: Vec<u8>,
    /// The index register I.
    pub i: u16,
    /// The program counter.
    pub pc: u16,
    /// The delay timer.
    pub delay_timer: u8,
    /// The sound timer.
    pub sound_timer: u8,
    /// The call-stack depth.
    pub stack_depth: usize,
    /// The control state, carrying the fault of a halted machine.
    pub state: CpuState,
}

/// The interpreter: memory, registers, call stack, framebuffer, keypad,
/// control state and unknown-opcode policy.
pub struct Cpu {
    mem: Memory,
    regs: RegisterFile,
    stack: Stack,
    display: Display,
    keypad: Keypad,
    state: CpuState,
    policy: Policy,
}

impl View for Cpu {
    type V = CpuModel;

    closed spec fn view(&self) -> CpuModel {
        CpuModel {
            ram: self.mem@,
            regs: self.regs@,
            stack: self.stack@,
            grid: self.display@,
            keys: self.keypad@,
            state: self.state,
            policy: self.policy,
        }
    }
}

impl Cpu {
    /// Every component is well-formed and a key-wait state names a real
    /// register.
    pub closed spec fn wf(&self) -> bool {
        &&& self.mem.wf()
        &&& self.regs.wf()
        &&& self.stack.wf()
        &&& self.display.wf()
        &&& self.keypad.wf()
        &&& match self@.state {
            CpuState::WaitingForKey(x) => x < 16,
            _ => true,
        }
    }

    /// A fresh machine with the default unknown-opcode policy, halting.
    pub fn new() -> (cpu: Cpu)
        ensures
            cpu.wf(),
            cpu@ == initial_model(Policy::Halt),
    {
        Cpu::new_with_policy(Policy::Halt)
    }

    /// A fresh machine with the given unknown-opcode policy.
    pub fn new_with_policy(policy: Policy) -> (cpu: Cpu)
        ensures
            cpu.wf(),
            cpu@ == initial_model(policy),
    {
        let mut mem = Memory::new();
        Cpu::load_fonts(&mut mem);
        let cpu = Cpu {
            mem,
            regs: RegisterFile::new(),
            stack: Stack::new(),
            display: Display::new(),
            keypad: Keypad::new(),
            state: CpuState::Running,
            policy,
        };
        proof {
            assert(cpu@.ram =~= initial_mem());
            assert(cpu@ =~~= initial_model(policy));
        }
        cpu
    }

    /// Return the machine to its initial state, keeping the policy.
    pub fn reset(&mut self)
        ensures
            final(self).wf(),
            final(self)@ == initial_model(old(self)@.policy),
    {
        let mut mem = Memory::new();
        Cpu::load_fonts(&mut mem);
        self.mem = mem;
        self.regs = RegisterFile::new();
        self.stack = Stack::new();
        self.display = Display::new();
        self.keypad = Keypad::new();
        self.state = CpuState::Running;
        proof {
            assert(self@.ram =~= initial_mem());
            assert(self@ =~~= initial_model(old(self)@.policy));
        }
    }

    /// Write the canonical 16-glyph hexadecimal font set, five bytes per
    /// glyph, over the first 80 bytes of memory.
    pub fn load_fonts(mem: &mut Memory)
        requires
            old(mem).wf(),
        ensures
            final(mem).wf(),
            final(mem)@ == with_fonts(old(mem)@),
    {
        let ghost r0 = mem@;
        let mut d: usize = 0;
        while d < 16
            invariant
                mem.wf(),
                d <= 16,
                r0.len() == MEM_SIZE,
                forall|a: int| 5 * d <= a < MEM_SIZE ==> mem@[a] == r0[a],
                forall|a: int| 0 <= a < 5 * d ==> mem@[a] == font_byte(a),
            decreases 16 - d,
        {
            let (w0, w1, w2, w3, w4) = font_rows(d as u8);
            let base: usize = 5 * d;
            mem.set_byte(base, w0);
            mem.set_byte(base + 1, w1);
            mem.set_byte(base + 2, w2);
            mem.set_byte(base + 3, w3);
            mem.set_byte(base + 4, w4);
            proof {
                assert forall|a: int| 0 <= a < 5 * (d + 1) implies mem@[a] == font_byte(a) by {
                    if 5 * d <= a {
                        lemma_fundamental_div_mod_converse(a, 5, d as int, a - 5 * (d as int));
                    }
                }
            }
            d = d + 1;
        }
        proof {
            assert(mem@ =~= with_fonts(r0));
        }
    }

    /// The font address of glyph `font`: glyph `d` lives at `5 * d`; only
    /// the low nibble of the argument selects the glyph.
    pub fn font_address(&self, font: u8) -> (r: u16)
        ensures
            r == 5 * (font % 16),
    {
        5 * ((font % 16) as u16)
    }

    /// Copy a program image into memory at 0x200. An image that does not
    /// fit halts the machine with `ProgramTooLarge` and leaves memory
    /// unchanged.
    pub fn load_program(&mut self, program: &Vec<u8>) -> (ok: bool)
        requires
            old(self).wf(),
        ensures
            final(self).wf(),
            PROGRAM_START + program@.len() <= MEM_SIZE ==> ok && final(self)@ == (CpuModel {
                ram: loaded_mem(old(self)@.ram, program@),
                ..old(self)@
            }),
            PROGRAM_START + program@.len() > MEM_SIZE ==> !ok && final(self)@ == sem_halt(
                old(self)@,
                CpuError::ProgramTooLarge,
            ),
    {
        let ghost m0 = self@;
        match self.mem.load_program(program) {
            Ok(_) => {
                proof {
                    assert(self@ =~~= (CpuModel { ram: loaded_mem(m0.ram, program@), ..m0 }));
                }
                true
            },
            Err(e) => {
                self.state = CpuState::Halted(e);
                proof {
                    assert(self@ =~~= sem_halt(m0, CpuError::ProgramTooLarge));
                }
                false
            },
        }
    }

    /// One 60 Hz timer step: each timer above zero drops by one; nothing
    /// else moves, whatever the control state.
    pub fn tick(&mut self)
        requires
            old(self).wf(),
        ensures
            final(self).wf(),
            final(self)@ == tick_model(old(self)@),
    {
        let ghost m0 = self@;
        self.regs.tick();
        proof {
            assert(self@ =~~= tick_model(m0));
        }
    }

    /// Whether the sound timer is above zero.
    pub fn is_sound_active(&self) -> (r: bool)
        ensures
            r == (self@.regs.sound > 0),
    {
        self.regs.get_sound() > 0
    }

    /// Record a host key event.
    pub fn submit_key_event(&mut self, key: u8, pressed: bool)
        requires
            old(self).wf(),
            key < 16,
        ensures
            final(self).wf(),
            final(self)@ == (CpuModel { keys: old(self)@.keys.update(key as int, pressed), ..old(
                self,
            )@ }),
    {
        let ghost m0 = self@;
        self.keypad.set_key_state(key, pressed);
        proof {
            assert(self@ =~~= (CpuModel { keys: m0.keys.update(key as int, pressed), ..m0 }));
        }
    }

    /// A copy of the framebuffer pixels, row-major.
    pub fn framebuffer_snapshot(&self) -> (r: Vec<bool>)
        requires
            self.wf(),
        ensures
            r@ == self@.grid,
    {
        self.display.snapshot()
    }

    /// The byte at `addr`, or a fault if the address is out of bounds.
    pub fn read_byte(&self, addr: usize) -> (r: Result<u8, CpuError>)
        requires
            self.wf(),
        ensures
            addr < MEM_SIZE ==> r == Ok::<u8, CpuError>(self@.ram[addr as int]),
            addr >= MEM_SIZE ==> r == Err::<u8, CpuError>(CpuError::OutOfBoundsMemoryAccess),
    {
        self.mem.read_byte(addr)
    }

    /// A snapshot of registers, I, program counter, timers, stack depth
    /// and control state.
    pub fn inspect_state(&self) -> (s: CpuSnapshot)
        requires
            self.wf(),
        ensures
            s.v@ == self@.regs.v,
            s.i == self@.regs.i,
            s.pc == self@.regs.pc,
            s.delay_timer == self@.regs.delay,
            s.sound_timer == self@.regs.sound,
            s.stack_depth == self@.stack.len(),
            s.state == self@.state,
    {
        let mut v: Vec<u8> = Vec::new();
        let mut k: usize = 0;
        while k < NUM_REGS
            invariant
                self.wf(),
                k == v@.len(),
                k <= NUM_REGS,
                forall|j: int| 0 <= j < k ==> v@[j] == self@.regs.v[j],
            decreases NUM_REGS - k,
        {
            v.push(self.regs.get_v(k));
            k = k + 1;
        }
        proof {
            assert(v@ =~= self@.regs.v);
        }
        CpuSnapshot {
            v,
            i: self.regs.get_i(),
            pc: self.regs.get_pc(),
            delay_timer: self.regs.get_delay(),
            sound_timer: self.regs.get_sound(),
            stack_depth: self.stack.depth(),
            state: self.state,
        }
    }

    /// Whether the machine has not halted.
    fn not_halted(&self) -> (r: bool)
        ensures
            r == !(self@.state is Halted),
    {
        match self.state {
            CpuState::Halted(_) => false,
            _ => true,
        }
    }

    /// Advance the program counter by `delta` (2 or 4), wrapping at 16
    /// bits.
    fn advance_pc(&mut self, delta: u16)
        requires
            old(self).wf(),
            delta <= 4,
        ensures
            final(self).wf(),
            final(self)@ == with_pc(old(self)@, wrap16(old(self)@.regs.pc + delta)),
    {
        let ghost m0 = self@;
        let pc = self.regs.get_pc();
        let npc = wrap_add16(pc, delta);
        self.regs.set_pc(npc);
        proof {
            assert(self@ =~~= with_pc(m0, wrap16(m0.regs.pc + delta)));
        }
    }

    /// 00E0: clear the framebuffer and advance.
    pub fn op_00e0(&mut self) -> (ok: bool)
        requires
            old(self).wf(),
        ensures
            final(self).wf(),
            final(self)@ == sem_cls(old(self)@),
            ok == !(final(self)@.state is Halted),
    {
        let ghost m0 = self@;
        self.display.clear();
        self.advance_pc(2);
        proof {
            assert(self@ =~~= sem_cls(m0));
        }
        self.not_halted()
    }

    /// 00EE: return from a subroutine: the program counter becomes exactly
    /// the address pushed by the matching call. An empty stack halts the
    /// machine with `StackUnderflow`.
    pub fn op_00ee(&mut self) -> (ok: bool)
        requires
            old(self).wf(),
        ensures
            final(self).wf(),
            final(self)@ == sem_ret(old(self)@),
            ok == !(final(self)@.state is Halted),
    {
        let ghost m0 = self@;
        match self.stack.pop() {
            Ok(addr) => {
                self.regs.set_pc(addr);
                proof {
                    assert(self@ =~~= sem_ret(m0));
                }
            },
            Err(e) => {
                self.state = CpuState::Halted(e);
                proof {
                    assert(self@ =~~= sem_ret(m0));
                }
            },
        }
        self.not_halted()
    }

    /// 1NNN: jump to `nnn`.
    pub fn op_1nnn(&mut self, nnn: u16) -> (ok: bool)
        requires
            old(self).wf(),
        ensures
            final(self).wf(),
            final(self)@ == sem_jp(old(self)@, nnn),
            ok == !(final(self)@.state is Halted),
    {
        let ghost m0 = self@;
        self.regs.set_pc(nnn);
        proof {
            assert(self@ =~~= sem_jp(m0, nnn));
        }
        self.not_halted()
    }

    /// 2NNN: call the subroutine at `nnn`: push the address of the next
    /// instruction and jump. A full stack halts the machine with
    /// `StackOverflow`.
    pub fn op_2nnn(&mut self, nnn: u16) -> (ok: bool)
        requires
            old(self).wf(),
        ensures
            final(self).wf(),
            final(self)@ == sem_call(old(self)@, nnn),
            ok == !(final(self)@.state is Halted),
    {
        let ghost m0 = self@;
        let pc = self.regs.get_pc();
        let ret = wrap_add16(pc, 2);
        match self.stack.push(ret) {
            Ok(_) => {
                self.regs.set_pc(nnn);
                proof {
                    assert(self@ =~~= sem_call(m0, nnn));
                }
            },
            Err(e) => {
                self.state = CpuState::Halted(e);
                proof {
                    assert(self@ =~~= sem_call(m0, nnn));
                }
            },
        }
        self.not_halted()
    }

    /// 3XNN: skip the next instruction when `Vx == nn`.
    pub fn op_3xnn(&mut self, x: usize, nn: u8) -> (ok: bool)
        requires
            old(self).wf(),
            x < 16,
        ensures
            final(self).wf(),
            final(self)@ == sem_se_imm(old(self)@, x as int, nn),
            ok == !(final(self)@.state is Halted),
    {
        let ghost m0 = self@;
        let cond = self.regs.get_v(x) == nn;
        self.advance_pc(if cond { 4 } else { 2 });
        proof {
            assert(self@ =~~= sem_se_imm(m0, x as int, nn));
        }
        self.not_halted()
    }

    /// 4XNN: skip the next instruction when `Vx != nn`.
    pub fn op_4xnn(&mut self, x: usize, nn: u8) -> (ok: bool)
        requires
            old(self).wf(),
            x < 16,
        ensures
            final(self).wf(),
            final(self)@ == sem_sne_imm(old(self)@, x as int, nn),
            ok == !(final(self)@.state is Halted),
    {
        let ghost m0 = self@;
        let cond = self.regs.get_v(x) != nn;
        self.advance_pc(if cond { 4 } else { 2 });
        proof {
            assert(self@ =~~= sem_sne_imm(m0, x as int, nn));
        }
        self.not_halted()
    }

    /// 5XY0: skip the next instruction when `Vx == Vy`.
    pub fn op_5xy0(&mut self, x: usize, y: usize) -> (ok: bool)
        requires
            old(self).wf(),
            x < 16,
            y < 16,
        ensures
            final(self).wf(),
            final(self)@ == sem_se_reg(old(self)@, x as int, y as int),
            ok == !(final(self)@.state is Halted),
    {
        let ghost m0 = self@;
        let cond = self.regs.get_v(x) == self.regs.get_v(y);
        self.advance_pc(if cond { 4 } else { 2 });
        proof {
            assert(self@ =~~= sem_se_reg(m0, x as int, y as int));
        }
        self.not_halted()
    }

    /// 6XNN: load `nn` into `Vx`.
    pub fn op_6xnn(&mut self, x: usize, nn: u8) -> (ok: bool)
        requires
            old(self).wf(),
            x < 16,
        ensures
            final(self).wf(),
            final(self)@ == sem_ld_imm(old(self)@, x as int, nn),
            ok == !(final(self)@.state is Halted),
    {
        let ghost m0 = self@;
        self.regs.set_v(x, nn);
        self.advance_pc(2);
        proof {
            assert(self@ =~~= sem_ld_imm(m0, x as int, nn));
        }
        self.not_halted()
    }

    /// 7XNN: add `nn` to `Vx` modulo 256; the flag register is untouched.
    pub fn op_7xnn(&mut self, x: usize, nn: u8) -> (ok: bool)
        requires
            old(self).wf(),
            x < 16,
        ensures
            final(self).wf(),
            final(self)@ == sem_add_imm(old(self)@, x as int, nn),
            ok == !(final(self)@.state is Halted),
    {
        let ghost m0 = self@;
        let sum: u16 = self.regs.get_v(x) as u16 + nn as u16;
        self.regs.set_v(x, (sum % 256) as u8);
        self.advance_pc(2);
        proof {
            assert(self@ =~~= sem_add_imm(m0, x as int, nn));
        }
        self.not_halted()
    }

    /// 8XY0: copy `Vy` into `Vx`.
    pub fn op_8xy0(&mut self, x: usize, y: usize) -> (ok: bool)
        requires
            old(self).wf(),
            x < 16,
            y < 16,
        ensures
            final(self).wf(),
            final(self)@ == sem_ld_reg(old(self)@, x as int, y as int),
            ok == !(final(self)@.state is Halted),
    {
        let ghost m0 = self@;
        let vy = self.regs.get_v(y);
        self.regs.set_v(x, vy);
        self.advance_pc(2);
        proof {
            assert(self@ =~~= sem_ld_reg(m0, x as int, y as int));
        }
        self.not_halted()
    }

    /// 8XY1: bitwise OR of `Vy` into `Vx`.
    pub fn op_8xy1(&mut self, x: usize, y: usize) -> (ok: bool)
        requires
            old(self).wf(),
            x < 16,
            y < 16,
        ensures
            final(self).wf(),
            final(self)@ == sem_or(old(self)@, x as int, y as int),
            ok == !(final(self)@.state is Halted),
    {
        let ghost m0 = self@;
        let r = self.regs.get_v(x) | self.regs.get_v(y);
        self.regs.set_v(x, r);
        self.advance_pc(2);
        proof {
            assert(self@ =~~= sem_or(m0, x as int, y as int));
        }
        self.not_halted()
    }

    /// 8XY2: bitwise AND of `Vy` into `Vx`.
    pub fn op_8xy2(&mut self, x: usize, y: usize) -> (ok: bool)
        requires
            old(self).wf(),
            x < 16,
            y < 16,
        ensures
            final(self).wf(),
            final(self)@ == sem_and(old(self)@, x as int, y as int),
            ok == !(final(self)@.state is Halted),
    {
        let ghost m0 = self@;
        let r = self.regs.get_v(x) & self.regs.get_v(y);
        self.regs.set_v(x, r);
        self.advance_pc(2);
        proof {
            assert(self@ =~~= sem_and(m0, x as int, y as int));
        }
        self.not_halted()
    }

    /// 8XY3: bitwise XOR of `Vy` into `Vx`.
    pub fn op_8xy3(&mut self, x: usize, y: usize) -> (ok: bool)
        requires
            old(self).wf(),
            x < 16,
            y < 16,
        ensures
            final(self).wf(),
            final(self)@ == sem_xor(old(self)@, x as int, y as int),
            ok == !(final(self)@.state is Halted),
    {
        let ghost m0 = self@;
        let r = self.regs.get_v(x) ^ self.regs.get_v(y);
        self.regs.set_v(x, r);
        self.advance_pc(2);
        proof {
            assert(self@ =~~= sem_xor(m0, x as int, y as int));
        }
        self.not_halted()
    }

    /// 8XY4: add `Vy` to `Vx`. For every register pair, `Vx` receives the
    /// sum modulo 256 and VF becomes 1 exactly when the sum exceeds 255,
    /// else 0; VF is written after the sum.
    pub fn op_8xy4(&mut self, x: usize, y: usize) -> (ok: bool)
        requires
            old(self).wf(),
            x < 16,
            y < 16,
        ensures
            final(self).wf(),
            final(self)@ == sem_add(old(self)@, x as int, y as int),
            x != FLAG_REG ==> final(self)@.regs.v[x as int] == ((old(self)@.regs.v[x as int] + old(
                self,
            )@.regs.v[y as int]) % 256) as u8,
            final(self)@.regs.v[FLAG_REG as int] == (if old(self)@.regs.v[x as int] + old(
                self,
            )@.regs.v[y as int] > 255 {
                1u8
            } else {
                0u8
            }),
            ok == !(final(self)@.state is Halted),
    {
        let ghost m0 = self@;
        let sum: u16 = self.regs.get_v(x) as u16 + self.regs.get_v(y) as u16;
        self.regs.set_v(x, (sum % 256) as u8);
        self.regs.set_v(FLAG_REG, if sum > 255 { 1 } else { 0 });
        self.advance_pc(2);
        proof {
            assert(self@ =~~= sem_add(m0, x as int, y as int));
        }
        self.not_halted()
    }

    /// 8XY5: subtract `Vy` from `Vx`. For every register pair, `Vx`
    /// receives the difference modulo 256 and VF becomes 1 exactly when no
    /// borrow occurs (`Vx >= Vy`), else 0; VF is written after the
    /// difference.
    pub fn op_8xy5(&mut self, x: usize, y: usize) -> (ok: bool)
        requires
            old(self).wf(),
            x < 16,
            y < 16,
        ensures
            final(self).wf(),
            final(self)@ == sem_sub(old(self)@, x as int, y as int),
            x != FLAG_REG ==> final(self)@.regs.v[x as int] == ((old(self)@.regs.v[x as int] - old(
                self,
            )@.regs.v[y as int] + 256) % 256) as u8,
            final(self)@.regs.v[FLAG_REG as int] == (if old(self)@.regs.v[x as int] >= old(
                self,
            )@.regs.v[y as int] {
                1u8
            } else {
                0u8
            }),
            ok == !(final(self)@.state is Halted),
    {
        let ghost m0 = self@;
        let vx = self.regs.get_v(x);
        let vy = self.regs.get_v(y);
        let diff: u16 = (vx as u16 + 256 - vy as u16) % 256;
        self.regs.set_v(x, diff as u8);
        self.regs.set_v(FLAG_REG, if vx >= vy { 1 } else { 0 });
        self.advance_pc(2);
        proof {
            assert(self@ =~~= sem_sub(m0, x as int, y as int));
        }
        self.not_halted()
    }

    /// 8XY6: shift `Vx` right by one; VF receives the shifted-out low bit.
    pub fn op_8xy6(&mut self, x: usize) -> (ok: bool)
        requires
            old(self).wf(),
            x < 16,
        ensures
            final(self).wf(),
            final(self)@ == sem_shr(old(self)@, x as int),
            ok == !(final(self)@.state is Halted),
    {
        let ghost m0 = self@;
        let vx = self.regs.get_v(x);
        self.regs.set_v(x, vx / 2);
        self.regs.set_v(FLAG_REG, vx % 2);
        self.advance_pc(2);
        proof {
            assert(self@ =~~= sem_shr(m0, x as int));
        }
        self.not_halted()
    }

    /// 8XY7: store `Vy - Vx` into `Vx` modulo 256; VF becomes 1 exactly
    /// when no borrow occurs (`Vy >= Vx`).
    pub fn op_8xy7(&mut self, x: usize, y: usize) -> (ok: bool)
        requires
            old(self).wf(),
            x < 16,
            y < 16,
        ensures
            final(self).wf(),
            final(self)@ == sem_subn(old(self)@, x as int, y as int),
            ok == !(final(self)@.state is Halted),
    {
        let ghost m0 = self@;
        let vx = self.regs.get_v(x);
        let vy = self.regs.get_v(y);
        let diff: u16 = (vy as u16 + 256 - vx as u16) % 256;
        self.regs.set_v(x, diff as u8);
        self.regs.set_v(FLAG_REG, if vy >= vx { 1 } else { 0 });
        self.advance_pc(2);
        proof {
            assert(self@ =~~= sem_subn(m0, x as int, y as int));
        }
        self.not_halted()
    }

    /// 8XYE: shift `Vx` left by one modulo 256; VF receives the
    /// shifted-out high bit.
    pub fn op_8xye(&mut self, x: usize) -> (ok: bool)
        requires
            old(self).wf(),
            x < 16,
        ensures
            final(self).wf(),
            final(self)@ == sem_shl(old(self)@, x as int),
            ok == !(final(self)@.state is Halted),
    {
        let ghost m0 = self@;
        let vx = self.regs.get_v(x);
        let doubled: u16 = (vx as u16 * 2) % 256;
        self.regs.set_v(x, doubled as u8);
        self.regs.set_v(FLAG_REG, vx / 128);
        self.advance_pc(2);
        proof {
            assert(self@ =~~= sem_shl(m0, x as int));
        }
        self.not_halted()
    }

    /// 9XY0: skip the next instruction when `Vx != Vy`.
    pub fn op_9xnn(&mut self, x: usize, y: usize) -> (ok: bool)
        requires
            old(self).wf(),
            x < 16,
            y < 16,
        ensures
            final(self).wf(),
            final(self)@ == sem_sne_reg(old(self)@, x as int, y as int),
            ok == !(final(self)@.state is Halted),
    {
        let ghost m0 = self@;
        let cond = self.regs.get_v(x) != self.regs.get_v(y);
        self.advance_pc(if cond { 4 } else { 2 });
        proof {
            assert(self@ =~~= sem_sne_reg(m0, x as int, y as int));
        }
        self.not_halted()
    }

    /// ANNN: load `nnn` into the index register I.
    pub fn op_annn(&mut self, nnn: u16) -> (ok: bool)
        requires
            old(self).wf(),
        ensures
            final(self).wf(),
            final(self)@ == sem_ld_i(old(self)@, nnn),
            ok == !(final(self)@.state is Halted),
    {
        let ghost m0 = self@;
        self.regs.set_i(nnn);
        self.advance_pc(2);
        proof {
            assert(self@ =~~= sem_ld_i(m0, nnn));
        }
        self.not_halted()
    }

    /// BNNN: jump to `nnn + V0`.
    pub fn op_bnnn(&mut self, nnn: u16) -> (ok: bool)
        requires
            old(self).wf(),
            nnn < 0x1000,
        ensures
            final(self).wf(),
            final(self)@ == sem_jp_v0(old(self)@, nnn),
            ok == !(final(self)@.state is Halted),
    {
        let ghost m0 = self@;
        let v0 = self.regs.get_v(0);
        let target = wrap_add16(nnn, v0 as u16);
        self.regs.set_pc(target);
        proof {
            assert(self@ =~~= sem_jp_v0(m0, nnn));
        }
        self.not_halted()
    }

    /// CXNN: load the host-supplied random byte masked with `nn` into
    /// `Vx`.
    pub fn op_cxnn(&mut self, x: usize, nn: u8, random_byte: u8) -> (ok: bool)
        requires
            old(self).wf(),
            x < 16,
        ensures
            final(self).wf(),
            final(self)@ == sem_rnd(old(self)@, x as int, nn, random_byte),
            ok == !(final(self)@.state is Halted),
    {
        let ghost m0 = self@;
        self.regs.set_v(x, random_byte & nn);
        self.advance_pc(2);
        proof {
            assert(self@ =~~= sem_rnd(m0, x as int, nn, random_byte));
        }
        self.not_halted()
    }

    /// DXYN: XOR-draw the `n`-byte sprite read from memory at `I` to
    /// position `(Vx, Vy)` with wraparound; VF reports whether any pixel
    /// flipped from on to off; I is unmodified. A sprite running past the
    /// end of memory halts the machine with `OutOfBoundsMemoryAccess`.
    pub fn op_dxyn(&mut self, x: usize, y: usize, n: usize) -> (ok: bool)
        requires
            old(self).wf(),
            x < 16,
            y < 16,
            n <= 15,
        ensures
            final(self).wf(),
            final(self)@ == sem_drw(old(self)@, x as int, y as int, n as int),
            ok == !(final(self)@.state is Halted),
    {
        let ghost m0 = self@;
        let i = self.regs.get_i() as usize;
        if i + n > MEM_SIZE {
            self.state = CpuState::Halted(CpuError::OutOfBoundsMemoryAccess);
            proof {
                assert(self@ =~~= sem_drw(m0, x as int, y as int, n as int));
            }
            return self.not_halted();
        }
        let mut sprite: Vec<u8> = Vec::new();
        let mut k: usize = 0;
        while k < n
            invariant
                self.wf(),
                self@ == m0,
                k <= n,
                i + n <= MEM_SIZE,
                k == sprite@.len(),
                forall|j: int| 0 <= j < k ==> sprite@[j] == m0.ram[i + j],
            decreases n - k,
        {
            let byte = self.mem.byte_at(i + k);
            sprite.push(byte);
            k = k + 1;
        }
        proof {
            assert(sprite@ =~= m0.ram.subrange(i as int, i as int + n as int));
        }
        let vx = self.regs.get_v(x);
        let vy = self.regs.get_v(y);
        let collision = self.display.draw(vx, vy, &sprite);
        self.regs.set_v(FLAG_REG, if collision { 1 } else { 0 });
        self.advance_pc(2);
        proof {
            assert(self@ =~~= sem_drw(m0, x as int, y as int, n as int));
        }
        self.not_halted()
    }

    /// EX9E: skip the next instruction when the key numbered by the low
    /// nibble of `Vx` is pressed.
    pub fn op_ex9e(&mut self, x: usize) -> (ok: bool)
        requires
            old(self).wf(),
            x < 16,
        ensures
            final(self).wf(),
            final(self)@ == sem_skp(old(self)@, x as int),
            ok == !(final(self)@.state is Halted),
    {
        let ghost m0 = self@;
        let key = self.regs.get_v(x) % 16;
        let cond = self.keypad.is_pressed(key);
        self.advance_pc(if cond { 4 } else { 2 });
        proof {
            assert(self@ =~~= sem_skp(m0, x as int));
        }
        self.not_halted()
    }

    /// EXA1: skip the next instruction when the key numbered by the low
    /// nibble of `Vx` is not pressed.
    pub fn op_exa1(&mut self, x: usize) -> (ok: bool)
        requires
            old(self).wf(),
            x < 16,
        ensures
            final(self).wf(),
            final(self)@ == sem_sknp(old(self)@, x as int),
            ok == !(final(self)@.state is Halted),
    {
        let ghost m0 = self@;
        let key = self.regs.get_v(x) % 16;
        let cond = !self.keypad.is_pressed(key);
        self.advance_pc(if cond { 4 } else { 2 });
        proof {
            assert(self@ =~~= sem_sknp(m0, x as int));
        }
        self.not_halted()
    }

    /// FX07: load the delay timer into `Vx`.
    pub fn op_fx07(&mut self, x: usize) -> (ok: bool)
        requires
            old(self).wf(),
            x < 16,
        ensures
            final(self).wf(),
            final(self)@ == sem_ld_dt(old(self)@, x as int),
            ok == !(final(self)@.state is Halted),
    {
        let ghost m0 = self@;
        let d = self.regs.get_delay();
        self.regs.set_v(x, d);
        self.advance_pc(2);
        proof {
            assert(self@ =~~= sem_ld_dt(m0, x as int));
        }
        self.not_halted()
    }

    /// FX0A: enter the key-wait state; the program counter stays on this
    /// instruction, and a later `exec` with a key pressed stores the key
    /// into `Vx` and resumes.
    pub fn op_fx0a(&mut self, x: usize) -> (ok: bool)
        requires
            old(self).wf(),
            x < 16,
        ensures
            final(self).wf(),
            final(self)@ == sem_wait_key(old(self)@, x as int),
            ok == !(final(self)@.state is Halted),
    {
        let ghost m0 = self@;
        self.state = CpuState::WaitingForKey(x as u8);
        proof {
            assert(self@ =~~= sem_wait_key(m0, x as int));
        }
        self.not_halted()
    }

    /// FX15: load `Vx` into the delay timer.
    pub fn op_fx15(&mut self, x: usize) -> (ok: bool)
        requires
            old(self).wf(),
            x < 16,
        ensures
            final(self).wf(),
            final(self)@ == sem_set_dt(old(self)@, x as int),
            ok == !(final(self)@.state is Halted),
    {
        let ghost m0 = self@;
        let vx = self.regs.get_v(x);
        self.regs.set_delay(vx);
        self.advance_pc(2);
        proof {
            assert(self@ =~~= sem_set_dt(m0, x as int));
        }
        self.not_halted()
    }

    /// FX18: load `Vx` into the sound timer.
    pub fn op_fx18(&mut self, x: usize) -> (ok: bool)
        requires
            old(self).wf(),
            x < 16,
        ensures
            final(self).wf(),
            final(self)@ == sem_set_st(old(self)@, x as int),
            ok == !(final(self)@.state is Halted),
    {
        let ghost m0 = self@;
        let vx = self.regs.get_v(x);
        self.regs.set_sound(vx);
        self.advance_pc(2);
        proof {
            assert(self@ =~~= sem_set_st(m0, x as int));
        }
        self.not_halted()
    }

    /// FX1E: add `Vx` to the index register I modulo 65536; VF is
    /// untouched.
    pub fn op_fx1e(&mut self, x: usize) -> (ok: bool)
        requires
            old(self).wf(),
            x < 16,
        ensures
            final(self).wf(),
            final(self)@ == sem_add_i(old(self)@, x as int),
            ok == !(final(self)@.state is Halted),
    {
        let ghost m0 = self@;
        let i = self.regs.get_i();
        let vx = self.regs.get_v(x);
        let ni = wrap_add16(i, vx as u16);
        self.regs.set_i(ni);
        self.advance_pc(2);
        proof {
            assert(self@ =~~= sem_add_i(m0, x as int));
        }
        self.not_halted()
    }

    /// FX29: load into I the font address of the glyph named by the low
    /// nibble of `Vx`.
    pub fn op_fx29(&mut self, x: usize) -> (ok: bool)
        requires
            old(self).wf(),
            x < 16,
        ensures
            final(self).wf(),
            final(self)@ == sem_ld_f(old(self)@, x as int),
            ok == !(final(self)@.state is Halted),
    {
        let ghost m0 = self@;
        let vx = self.regs.get_v(x);
        let addr = self.font_address(vx);
        self.regs.set_i(addr);
        self.advance_pc(2);
        proof {
            assert(self@ =~~= sem_ld_f(m0, x as int));
        }
        self.not_halted()
    }

    /// FX33: store the hundreds, tens and ones digits of `Vx` at `I`,
    /// `I+1`, `I+2`. A target past the end of memory or inside the
    /// reserved region halts the machine with `OutOfBoundsMemoryAccess`.
    pub fn op_fx33(&mut self, x: usize) -> (ok: bool)
        requires
            old(self).wf(),
            x < 16,
        ensures
            final(self).wf(),
            final(self)@ == sem_bcd(old(self)@, x as int),
            ok == !(final(self)@.state is Halted),
    {
        let ghost m0 = self@;
        let i = self.regs.get_i() as usize;
        if i < PROGRAM_START || i + 3 > MEM_SIZE {
            self.state = CpuState::Halted(CpuError::OutOfBoundsMemoryAccess);
            proof {
                assert(self@ =~~= sem_bcd(m0, x as int));
            }
            return self.not_halted();
        }
        let vx = self.regs.get_v(x);
        self.mem.set_byte(i, vx / 100);
        self.mem.set_byte(i + 1, (vx / 10) % 10);
        self.mem.set_byte(i + 2, vx % 10);
        self.advance_pc(2);
        proof {
            assert(self@ =~~= sem_bcd(m0, x as int));
        }
        self.not_halted()
    }

    /// FX55: store `V0..=Vx` into memory starting at `I`; I is
    /// unmodified. A target past the end of memory or inside the reserved
    /// region halts the machine with `OutOfBoundsMemoryAccess`.
    pub fn op_fx55(&mut self, x: usize) -> (ok: bool)
        requires
            old(self).wf(),
            x < 16,
        ensures
            final(self).wf(),
            final(self)@ == sem_dump(old(self)@, x as int),
            ok == !(final(self)@.state is Halted),
    {
        let ghost m0 = self@;
        let i = self.regs.get_i() as usize;
        if i < PROGRAM_START || i + x + 1 > MEM_SIZE {
            self.state = CpuState::Halted(CpuError::OutOfBoundsMemoryAccess);
            proof {
                assert(self@ =~~= sem_dump(m0, x as int));
            }
            return self.not_halted();
        }
        let mut k: usize = 0;
        while k <= x
            invariant
                self.wf(),
                x < 16,
                k <= x + 1,
                PROGRAM_START <= i,
                i + x + 1 <= MEM_SIZE,
                self@.regs == m0.regs,
                self@.stack == m0.stack,
                self@.grid == m0.grid,
                self@.keys == m0.keys,
                self@.state == m0.state,
                self@.policy == m0.policy,
                self@.ram.len() == MEM_SIZE,
                m0.ram.len() == MEM_SIZE,
                forall|a: int|
                    0 <= a < MEM_SIZE && !(i <= a < i + k) ==> self@.ram[a] == m0.ram[a],
                forall|a: int| i <= a < i + k ==> self@.ram[a] == m0.regs.v[a - i],
            decreases x + 1 - k,
        {
            let val = self.regs.get_v(k);
            self.mem.set_byte(i + k, val);
            k = k + 1;
        }
        self.advance_pc(2);
        proof {
            assert(self@ =~~= sem_dump(m0, x as int));
        }
        self.not_halted()
    }

    /// FX65: load `V0..=Vx` from memory starting at `I`; I is
    /// unmodified. A source past the end of memory halts the machine with
    /// `OutOfBoundsMemoryAccess`.
    pub fn op_fx65(&mut self, x: usize) -> (ok: bool)
        requires
            old(self).wf(),
            x < 16,
        ensures
            final(self).wf(),
            final(self)@ == sem_fill(old(self)@, x as int),
            ok == !(final(self)@.state is Halted),
    {
        let ghost m0 = self@;
        let i = self.regs.get_i() as usize;
        if i + x + 1 > MEM_SIZE {
            self.state = CpuState::Halted(CpuError::OutOfBoundsMemoryAccess);
            proof {
                assert(self@ =~~= sem_fill(m0, x as int));
            }
            return self.not_halted();
        }
        let mut k: usize = 0;
        while k <= x
            invariant
                self.wf(),
                x < 16,
                k <= x + 1,
                i + x + 1 <= MEM_SIZE,
                self@.ram == m0.ram,
                self@.stack == m0.stack,
                self@.grid == m0.grid,
                self@.keys == m0.keys,
                self@.state == m0.state,
                self@.policy == m0.policy,
                self@.regs.i == m0.regs.i,
                self@.regs.pc == m0.regs.pc,
                self@.regs.delay == m0.regs.delay,
                self@.regs.sound == m0.regs.sound,
                self@.regs.v.len() == NUM_REGS,
                m0.regs.v.len() == NUM_REGS,
                forall|j: int| 0 <= j < k ==> self@.regs.v[j] == m0.ram[i + j],
                forall|j: int| k <= j < NUM_REGS ==> self@.regs.v[j] == m0.regs.v[j],
            decreases x + 1 - k,
        {
            let byte = self.mem.byte_at(i + k);
            self.regs.set_v(k, byte);
            k = k + 1;
        }
        self.advance_pc(2);
        proof {
            assert(self@ =~~= sem_fill(m0, x as int));
        }
        self.not_halted()
    }

    /// An opcode word that matches no pattern: halt with `InvalidOpcode`
    /// or skip it, per the construction-time policy.
    fn handle_unknown(&mut self) -> (ok: bool)
        requires
            old(self).wf(),
        ensures
            final(self).wf(),
            final(self)@ == sem_unknown(old(self)@),
            ok == !(final(self)@.state is Halted),
    {
        let ghost m0 = self@;
        match self.policy {
            Policy::Halt => {
                self.state = CpuState::Halted(CpuError::InvalidOpcode);
            },
            Policy::SkipAndContinue => {
                self.advance_pc(2);
            },
        }
        proof {
            assert(self@ =~~= sem_unknown(m0));
        }
        self.not_halted()
    }

    /// One fetch-decode-execute step, equal to `step_model` of the prior
    /// machine: a halted machine is unchanged; a waiting machine consumes
    /// the smallest pressed key or stays put; a running machine fetches the
    /// two bytes at the program counter (halting when the fetch would leave
    /// memory), decodes them and executes the instruction. The random byte
    /// is supplied by the host and consumed only by the randomize opcode.
    /// Returns whether the machine has not halted.
    pub fn exec(&mut self, random_byte: u8) -> (running: bool)
        requires
            old(self).wf(),
        ensures
            final(self).wf(),
            final(self)@ == step_model(old(self)@, random_byte),
            running == !(final(self)@.state is Halted),
    {
        let ghost m0 = self@;
        match self.state {
            CpuState::Halted(_) => {
                return false;
            },
            CpuState::WaitingForKey(x) => {
                match self.keypad.first_pressed_key() {
                    None => {
                        return true;
                    },
                    Some(k) => {
                        self.regs.set_v(x as usize, k);
                        self.advance_pc(2);
                        self.state = CpuState::Running;
                        proof {
                            assert(self@ =~~= sem_key_resume(m0, x as int, k));
                        }
                        return true;
                    },
                }
            },
            CpuState::Running => {},
        }
        let pc = self.regs.get_pc();
        if pc as usize + 2 > MEM_SIZE {
            self.state = CpuState::Halted(CpuError::OutOfBoundsMemoryAccess);
            proof {
                assert(self@ =~~= sem_halt(m0, CpuError::OutOfBoundsMemoryAccess));
            }
            return false;
        }
        let hi = self.mem.byte_at(pc as usize);
        let lo = self.mem.byte_at(pc as usize + 1);
        let op: u16 = (hi as u16) * 256 + (lo as u16);
        proof {
            assert(op == fetch(m0));
            crate::decode::lemma_decode_round_trip(op);
        }
        let instr = decode(op);
        match instr {
            Instr::Cls => self.op_00e0(),
            Instr::Ret => self.op_00ee(),
            Instr::Jp { nnn } => self.op_1nnn(nnn),
            Instr::Call { nnn } => self.op_2nnn(nnn),
            Instr::SeImm { x, nn } => self.op_3xnn(x as usize, nn),
            Instr::SneImm { x, nn } => self.op_4xnn(x as usize, nn),
            Instr::SeReg { x, y } => self.op_5xy0(x as usize, y as usize),
            Instr::LdImm { x, nn } => self.op_6xnn(x as usize, nn),
            Instr::AddImm { x, nn } => self.op_7xnn(x as usize, nn),
            Instr::LdReg { x, y } => self.op_8xy0(x as usize, y as usize),
            Instr::Or { x, y } => self.op_8xy1(x as usize, y as usize),
            Instr::And { x, y } => self.op_8xy2(x as usize, y as usize),
            Instr::Xor { x, y } => self.op_8xy3(x as usize, y as usize),
            Instr::Add { x, y } => self.op_8xy4(x as usize, y as usize),
            Instr::Sub { x, y } => self.op_8xy5(x as usize, y as usize),
            Instr::Shr { x, y: _ } => self.op_8xy6(x as usize),
            Instr::Subn { x, y } => self.op_8xy7(x as usize, y as usize),
            Instr::Shl { x, y: _ } => self.op_8xye(x as usize),
            Instr::SneReg { x, y } => self.op_9xnn(x as usize, y as usize),
            Instr::LdI { nnn } => self.op_annn(nnn),
            Instr::JpV0 { nnn } => self.op_bnnn(nnn),
            Instr::Rnd { x, nn } => self.op_cxnn(x as usize, nn, random_byte),
            Instr::Drw { x, y, n } => self.op_dxyn(x as usize, y as usize, n as usize),
            Instr::Skp { x } => self.op_ex9e(x as usize),
            Instr::Sknp { x } => self.op_exa1(x as usize),
            Instr::LdDt { x } => self.op_fx07(x as usize),
            Instr::WaitKey { x } => self.op_fx0a(x as usize),
            Instr::SetDt { x } => self.op_fx15(x as usize),
            Instr::SetSt { x } => self.op_fx18(x as usize),
            Instr::AddI { x } => self.op_fx1e(x as usize),
            Instr::LdF { x } => self.op_fx29(x as usize),
            Instr::Bcd { x } => self.op_fx33(x as usize),
            Instr::Dump { x } => self.op_fx55(x as usize),
            Instr::Fill { x } => self.op_fx65(x as usize),
            Instr::Unknown { op: _ } => self.handle_unknown(),
        }
    }
}

/// `a + b` reduced to 16 bits; `b` must be small enough that at most one
/// wraparound occurs.
fn wrap_add16(a: u16, b: u16) -> (r: u16)
    ensures
        r == wrap16(a as int + b as int),
{
    if b <= 0xFFFF - a {
        a + b
    } else {
        a - (0xFFFF - b) - 1
    }
}

} // verus!
