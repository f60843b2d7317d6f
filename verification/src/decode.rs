//! Decoding of 16-bit opcode words into instructions.
//!
//! An opcode is split into four 4-bit nibbles; the high nibble (together with
//! the low nibble or low byte where needed) selects one of the canonical
//! instruction kinds, and the remaining bits carry the operands: a 12-bit
//! address, an 8-bit immediate, register indices and a 4-bit count.

use vstd::prelude::*;

verus! {

/// High nibble of an opcode (bits 12..16).
pub open spec fn nib_h(op: u16) -> u16 {
    op / 0x1000
}

/// Second nibble of an opcode (bits 8..12), the register index x.
pub open spec fn nib_x(op: u16) -> u16 {
    (op / 0x100) % 16
}

/// Third nibble of an opcode (bits 4..8), the register index y.
pub open spec fn nib_y(op: u16) -> u16 {
    (op / 16) % 16
}

/// Low nibble of an opcode (bits 0..4), the 4-bit immediate n.
pub open spec fn nib_n(op: u16) -> u16 {
    op % 16
}

/// The 12-bit address field of an opcode (bits 0..12).
pub open spec fn addr_of(op: u16) -> u16 {
    op % 0x1000
}

/// The 8-bit immediate field of an opcode (bits 0..8).
pub open spec fn imm_of(op: u16) -> u8 {
    (op % 0x100) as u8
}

/// The canonical instruction kinds, plus `Unknown` for every word that
/// matches no pattern. Operand fields are already extracted: `x` and `y`
/// are register indices below 16, `nnn` is a 12-bit address, `nn` an 8-bit
/// immediate and `n` a 4-bit sprite height.
#[derive(Clone, Copy, Debug, PartialEq, Eq, Structural)]
pub enum Instr {
    /// 00E0: clear the framebuffer.
    Cls,
    /// 00EE: return from a subroutine.
    Ret,
    /// 1NNN: jump to `nnn`.
    Jp { nnn: u16 },
    /// 2NNN: call the subroutine at `nnn`.
    Call { nnn: u16 },
    /// 3XNN: skip the next instruction if `Vx == nn`.
    SeImm { x: u8, nn: u8 },
    /// 4XNN: skip the next instruction if `Vx != nn`.
    SneImm { x: u8, nn: u8 },
    /// 5XY0: skip the next instruction if `Vx == Vy`.
    SeReg { x: u8, y: u8 },
    /// 6XNN: load `nn` into `Vx`.
    LdImm { x: u8, nn: u8 },
    /// 7XNN: add `nn` to `Vx` modulo 256; the flag register is untouched.
    AddImm { x: u8, nn: u8 },
    /// 8XY0: load `Vy` into `Vx`.
    LdReg { x: u8, y: u8 },
    /// 8XY1: bitwise OR of `Vy` into `Vx`.
    Or { x: u8, y: u8 },
    /// 8XY2: bitwise AND of `Vy` into `Vx`.
    And { x: u8, y: u8 },
    /// 8XY3: bitwise XOR of `Vy` into `Vx`.
    Xor { x: u8, y: u8 },
    /// 8XY4: add `Vy` to `Vx`; VF becomes 1 exactly when the 8-bit sum overflows.
    Add { x: u8, y: u8 },
    /// 8XY5: subtract `Vy` from `Vx`; VF becomes 1 exactly when no borrow occurs.
    Sub { x: u8, y: u8 },
    /// 8XY6: shift `Vx` right by one; VF receives the shifted-out low bit.
    Shr { x: u8, y: u8 },
    /// 8XY7: store `Vy - Vx` into `Vx`; VF becomes 1 exactly when no borrow occurs.
    Subn { x: u8, y: u8 },
    /// 8XYE: shift `Vx` left by one; VF receives the shifted-out high bit.
    Shl { x: u8, y: u8 },
    /// 9XY0: skip the next instruction if `Vx != Vy`.
    SneReg { x: u8, y: u8 },
    /// ANNN: load `nnn` into the index register I.
    LdI { nnn: u16 },
    /// BNNN: jump to `nnn + V0`.
    JpV0 { nnn: u16 },
    /// CXNN: load a random byte masked with `nn` into `Vx`.
    Rnd { x: u8, nn: u8 },
    /// DXYN: XOR-draw the `n`-byte sprite at `I` to position `(Vx, Vy)`;
    /// VF reports whether any pixel flipped from on to off.
    Drw { x: u8, y: u8, n: u8 },
    /// EX9E: skip the next instruction if the key numbered by `Vx` is pressed.
    Skp { x: u8 },
    /// EXA1: skip the next instruction if the key numbered by `Vx` is not pressed.
    Sknp { x: u8 },
    /// FX07: load the delay timer into `Vx`.
    LdDt { x: u8 },
    /// FX0A: wait for a key press and store the key number into `Vx`.
    WaitKey { x: u8 },
    /// FX15: load `Vx` into the delay timer.
    SetDt { x: u8 },
    /// FX18: load `Vx` into the sound timer.
    SetSt { x: u8 },
    /// FX1E: add `Vx` to the index register I modulo 65536.
    AddI { x: u8 },
    /// FX29: load into I the address of the font glyph for the low nibble of `Vx`.
    LdF { x: u8 },
    /// FX33: store the decimal digits of `Vx` at `I`, `I+1`, `I+2`.
    Bcd { x: u8 },
    /// FX55: store `V0..=Vx` into memory starting at `I`; I is unmodified.
    Dump { x: u8 },
    /// FX65: load `V0..=Vx` from memory starting at `I`; I is unmodified.
    Fill { x: u8 },
    /// Any word that matches no canonical pattern.
    Unknown { op: u16 },
}

/// The instruction denoted by an opcode word.
pub open spec fn decode_spec(op: u16) -> Instr {
    let h = nib_h(op);
    let x = nib_x(op) as u8;
    let y = nib_y(op) as u8;
    let n = nib_n(op) as u8;
    let nn = imm_of(op);
    let nnn = addr_of(op);
    if h == 0x0 {
        if op == 0x00E0 {
            Instr::Cls
        } else if op == 0x00EE {
            Instr::Ret
        } else {
            Instr::Unknown { op }
        }
    } else if h == 0x1 {
        Instr::Jp { nnn }
    } else if h == 0x2 {
        Instr::Call { nnn }
    } else if h == 0x3 {
        Instr::SeImm { x, nn }
    } else if h == 0x4 {
        Instr::SneImm { x, nn }
    } else if h == 0x5 {
        if n == 0 {
            Instr::SeReg { x, y }
        } else {
            Instr::Unknown { op }
        }
    } else if h == 0x6 {
        Instr::LdImm { x, nn }
    } else if h == 0x7 {
        Instr::AddImm { x, nn }
    } else if h == 0x8 {
        if n == 0x0 {
            Instr::LdReg { x, y }
        } else if n == 0x1 {
            Instr::Or { x, y }
        } else if n == 0x2 {
            Instr::And { x, y }
        } else if n == 0x3 {
            Instr::Xor { x, y }
        } else if n == 0x4 {
            Instr::Add { x, y }
        } else if n == 0x5 {
            Instr::Sub { x, y }
        } else if n == 0x6 {
            Instr::Shr { x, y }
        } else if n == 0x7 {
            Instr::Subn { x, y }
        } else if n == 0xE {
            Instr::Shl { x, y }
        } else {
            Instr::Unknown { op }
        }
    } else if h == 0x9 {
        if n == 0 {
            Instr::SneReg { x, y }
        } else {
            Instr::Unknown { op }
        }
    } else if h == 0xA {
        Instr::LdI { nnn }
    } else if h == 0xB {
        Instr::JpV0 { nnn }
    } else if h == 0xC {
        Instr::Rnd { x, nn }
    } else if h == 0xD {
        Instr::Drw { x, y, n }
    } else if h == 0xE {
        if nn == 0x9E {
            Instr::Skp { x }
        } else if nn == 0xA1 {
            Instr::Sknp { x }
        } else {
            Instr::Unknown { op }
        }
    } else {
        if nn == 0x07 {
            Instr::LdDt { x }
        } else if nn == 0x0A {
            Instr::WaitKey { x }
        } else if nn == 0x15 {
            Instr::SetDt { x }
        } else if nn == 0x18 {
            Instr::SetSt { x }
        } else if nn == 0x1E {
            Instr::AddI { x }
        } else if nn == 0x29 {
            Instr::LdF { x }
        } else if nn == 0x33 {
            Instr::Bcd { x }
        } else if nn == 0x55 {
            Instr::Dump { x }
        } else if nn == 0x65 {
            Instr::Fill { x }
        } else {
            Instr::Unknown { op }
        }
    }
}

/// Decode an opcode word into its instruction.
pub fn decode(op: u16) -> (instr: Instr)
    ensures
        instr == decode_spec(op),
{
    let h: u16 = op / 0x1000;
    let x: u8 = ((op / 0x100) % 16) as u8;
    let y: u8 = ((op / 16) % 16) as u8;
    let n: u8 = (op % 16) as u8;
    let nn: u8 = (op % 0x100) as u8;
    let nnn: u16 = op % 0x1000;
    if h == 0x0 {
        if op == 0x00E0 {
            Instr::Cls
        } else if op == 0x00EE {
            Instr::Ret
        } else {
            Instr::Unknown { op }
        }
    } else if h == 0x1 {
        Instr::Jp { nnn }
    } else if h == 0x2 {
        Instr::Call { nnn }
    } else if h == 0x3 {
        Instr::SeImm { x, nn }
    } else if h == 0x4 {
        Instr::SneImm { x, nn }
    } else if h == 0x5 {
        if n == 0 {
            Instr::SeReg { x, y }
        } else {
            Instr::Unknown { op }
        }
    } else if h == 0x6 {
        Instr::LdImm { x, nn }
    } else if h == 0x7 {
        Instr::AddImm { x, nn }
    } else if h == 0x8 {
        if n == 0x0 {
            Instr::LdReg { x, y }
        } else if n == 0x1 {
            Instr::Or { x, y }
        } else if n == 0x2 {
            Instr::And { x, y }
        } else if n == 0x3 {
            Instr::Xor { x, y }
        } else if n == 0x4 {
            Instr::Add { x, y }
        } else if n == 0x5 {
            Instr::Sub { x, y }
        } else if n == 0x6 {
            Instr::Shr { x, y }
        } else if n == 0x7 {
            Instr::Subn { x, y }
        } else if n == 0xE {
            Instr::Shl { x, y }
        } else {
            Instr::Unknown { op }
        }
    } else if h == 0x9 {
        if n == 0 {
            Instr::SneReg { x, y }
        } else {
            Instr::Unknown { op }
        }
    } else if h == 0xA {
        Instr::LdI { nnn }
    } else if h == 0xB {
        Instr::JpV0 { nnn }
    } else if h == 0xC {
        Instr::Rnd { x, nn }
    } else if h == 0xD {
        Instr::Drw { x, y, n }
    } else if h == 0xE {
        if nn == 0x9E {
            Instr::Skp { x }
        } else if nn == 0xA1 {
            Instr::Sknp { x }
        } else {
            Instr::Unknown { op }
        }
    } else {
        if nn == 0x07 {
            Instr::LdDt { x }
        } else if nn == 0x0A {
            Instr::WaitKey { x }
        } else if nn == 0x15 {
            Instr::SetDt { x }
        } else if nn == 0x18 {
            Instr::SetSt { x }
        } else if nn == 0x1E {
            Instr::AddI { x }
        } else if nn == 0x29 {
            Instr::LdF { x }
        } else if nn == 0x33 {
            Instr::Bcd { x }
        } else if nn == 0x55 {
            Instr::Dump { x }
        } else if nn == 0x65 {
            Instr::Fill { x }
        } else {
            Instr::Unknown { op }
        }
    }
}

/// Nibble decomposition round-trips: reassembling the four decoded nibbles,
/// whether by place-value arithmetic or by shifting and or-ing, reproduces
/// the original opcode word, and the address and immediate fields are the
/// corresponding nibble groups.
pub proof fn lemma_decode_round_trip(op: u16)
    ensures
        nib_h(op) * 0x1000 + nib_x(op) * 0x100 + nib_y(op) * 16 + nib_n(op) == op,
        (nib_h(op) << 12) | (nib_x(op) << 8) | (nib_y(op) << 4) | nib_n(op) == op,
        addr_of(op) == nib_x(op) * 0x100 + nib_y(op) * 16 + nib_n(op),
        imm_of(op) == nib_y(op) * 16 + nib_n(op),
        nib_h(op) < 16 && nib_x(op) < 16 && nib_y(op) < 16 && nib_n(op) < 16,
        addr_of(op) < 0x1000,
{
    assert(op / 0x1000 * 0x1000 + (op / 0x100) % 16 * 0x100 + (op / 16) % 16 * 16 + op % 16
        == op) by (bit_vector);
    assert((op / 0x1000) << 12 | ((op / 0x100) % 16) << 8 | ((op / 16) % 16) << 4 | op % 16
        == op) by (bit_vector);
    assert(op % 0x1000 == (op / 0x100) % 16 * 0x100 + (op / 16) % 16 * 16 + op % 16)
        by (bit_vector);
    assert((op % 0x100) as u8 == (op / 16) % 16 * 16 + op % 16) by (bit_vector);
    assert(op / 0x1000 < 16 && (op / 0x100) % 16 < 16 && (op / 16) % 16 < 16 && op % 16 < 16)
        by (bit_vector);
    assert(op % 0x1000 < 0x1000) by (bit_vector);
}

} // verus!
