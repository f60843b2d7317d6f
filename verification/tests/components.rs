use chip8::decode::decode;
use chip8::{CpuError, Display, Instr, Keypad, Memory, RegisterFile, Stack};

#[test]
fn decode_control_flow_words() {
    assert_eq!(decode(0x00E0), Instr::Cls);
    assert_eq!(decode(0x00EE), Instr::Ret);
    assert_eq!(decode(0x1ABC), Instr::Jp { nnn: 0xABC });
    assert_eq!(decode(0x2204), Instr::Call { nnn: 0x204 });
    assert_eq!(decode(0xB123), Instr::JpV0 { nnn: 0x123 });
}

#[test]
fn decode_operand_fields() {
    assert_eq!(decode(0x6A02), Instr::LdImm { x: 0xA, nn: 0x02 });
    assert_eq!(decode(0x7B1F), Instr::AddImm { x: 0xB, nn: 0x1F });
    assert_eq!(decode(0x3C44), Instr::SeImm { x: 0xC, nn: 0x44 });
    assert_eq!(decode(0x4C44), Instr::SneImm { x: 0xC, nn: 0x44 });
    assert_eq!(decode(0x5120), Instr::SeReg { x: 1, y: 2 });
    assert_eq!(decode(0x9340), Instr::SneReg { x: 3, y: 4 });
    assert_eq!(decode(0xA321), Instr::LdI { nnn: 0x321 });
    assert_eq!(decode(0xC7F0), Instr::Rnd { x: 7, nn: 0xF0 });
    assert_eq!(decode(0xD125), Instr::Drw { x: 1, y: 2, n: 5 });
}

#[test]
fn decode_alu_words() {
    assert_eq!(decode(0x8120), Instr::LdReg { x: 1, y: 2 });
    assert_eq!(decode(0x8121), Instr::Or { x: 1, y: 2 });
    assert_eq!(decode(0x8122), Instr::And { x: 1, y: 2 });
    assert_eq!(decode(0x8123), Instr::Xor { x: 1, y: 2 });
    assert_eq!(decode(0x8124), Instr::Add { x: 1, y: 2 });
    assert_eq!(decode(0x8125), Instr::Sub { x: 1, y: 2 });
    assert_eq!(decode(0x8126), Instr::Shr { x: 1, y: 2 });
    assert_eq!(decode(0x8127), Instr::Subn { x: 1, y: 2 });
    assert_eq!(decode(0x812E), Instr::Shl { x: 1, y: 2 });
}

#[test]
fn decode_key_and_timer_words() {
    assert_eq!(decode(0xE19E), Instr::Skp { x: 1 });
    assert_eq!(decode(0xE1A1), Instr::Sknp { x: 1 });
    assert_eq!(decode(0xF107), Instr::LdDt { x: 1 });
    assert_eq!(decode(0xF10A), Instr::WaitKey { x: 1 });
    assert_eq!(decode(0xF115), Instr::SetDt { x: 1 });
    assert_eq!(decode(0xF118), Instr::SetSt { x: 1 });
    assert_eq!(decode(0xF11E), Instr::AddI { x: 1 });
    assert_eq!(decode(0xF129), Instr::LdF { x: 1 });
    assert_eq!(decode(0xF133), Instr::Bcd { x: 1 });
    assert_eq!(decode(0xF155), Instr::Dump { x: 1 });
    assert_eq!(decode(0xF165), Instr::Fill { x: 1 });
}

#[test]
fn decode_unknown_words() {
    assert_eq!(decode(0x0123), Instr::Unknown { op: 0x0123 });
    assert_eq!(decode(0x5121), Instr::Unknown { op: 0x5121 });
    assert_eq!(decode(0x8128), Instr::Unknown { op: 0x8128 });
    assert_eq!(decode(0x9341), Instr::Unknown { op: 0x9341 });
    assert_eq!(decode(0xE1FF), Instr::Unknown { op: 0xE1FF });
    assert_eq!(decode(0xF1FF), Instr::Unknown { op: 0xF1FF });
    assert_eq!(decode(0xFFFF), Instr::Unknown { op: 0xFFFF });
}

#[test]
fn stack_sixteen_pushes_then_overflow() {
    let mut s = Stack::new();
    for k in 0..16u16 {
        assert_eq!(s.push(0x200 + k), Ok(()));
    }
    assert_eq!(s.depth(), 16);
    assert_eq!(s.push(0x999), Err(CpuError::StackOverflow));
    assert_eq!(s.depth(), 16);
}

#[test]
fn stack_pops_in_reverse_order_then_underflow() {
    let mut s = Stack::new();
    for k in 0..16u16 {
        assert_eq!(s.push(0x200 + k), Ok(()));
    }
    for k in (0..16u16).rev() {
        assert_eq!(s.pop(), Ok(0x200 + k));
    }
    assert_eq!(s.pop(), Err(CpuError::StackUnderflow));
}

#[test]
fn memory_bounds_checked() {
    let mut m = Memory::new();
    assert_eq!(m.write_byte(4095, 0xAB), Ok(()));
    assert_eq!(m.read_byte(4095), Ok(0xAB));
    assert_eq!(m.write_byte(4096, 1), Err(CpuError::OutOfBoundsMemoryAccess));
    assert_eq!(m.read_byte(4096), Err(CpuError::OutOfBoundsMemoryAccess));
}

#[test]
fn memory_program_just_fits() {
    let mut m = Memory::new();
    let image = vec![0x77u8; 4096 - 0x200];
    assert_eq!(m.load_program(&image), Ok(()));
    assert_eq!(m.read_byte(0x200), Ok(0x77));
    assert_eq!(m.read_byte(4095), Ok(0x77));
}

#[test]
fn memory_program_too_large() {
    let mut m = Memory::new();
    let image = vec![0u8; 4096 - 0x200 + 1];
    assert_eq!(m.load_program(&image), Err(CpuError::ProgramTooLarge));
    assert_eq!(m.read_byte(0x200), Ok(0));
}

#[test]
fn keypad_states_and_first_pressed() {
    let mut k = Keypad::new();
    assert_eq!(k.first_pressed_key(), None);
    k.set_key_state(0xB, true);
    k.set_key_state(0x4, true);
    assert!(k.is_pressed(0xB));
    assert!(k.is_pressed(0x4));
    assert!(!k.is_pressed(0x0));
    assert_eq!(k.first_pressed_key(), Some(0x4));
    k.set_key_state(0x4, false);
    assert_eq!(k.first_pressed_key(), Some(0xB));
}

#[test]
fn register_file_tick_stops_at_zero() {
    let mut r = RegisterFile::new();
    r.set_delay(2);
    r.set_sound(1);
    r.tick();
    assert_eq!(r.get_delay(), 1);
    assert_eq!(r.get_sound(), 0);
    r.tick();
    assert_eq!(r.get_delay(), 0);
    assert_eq!(r.get_sound(), 0);
    r.tick();
    assert_eq!(r.get_delay(), 0);
}

#[test]
fn display_draw_reports_collision_and_double_draw_restores() {
    let mut d = Display::new();
    let sprite = vec![0xFFu8, 0x81];
    let first = d.draw(3, 5, &sprite);
    assert!(!first);
    assert!(d.pixel(3, 5));
    assert!(d.pixel(10, 5));
    assert!(d.pixel(3, 6));
    assert!(!d.pixel(4, 6));
    assert!(d.pixel(10, 6));
    let second = d.draw(3, 5, &sprite);
    assert!(second);
    let snap = d.snapshot();
    for px in snap {
        assert!(!px);
    }
}

#[test]
fn display_draw_wraps_around_edges() {
    let mut d = Display::new();
    let sprite = vec![0xC0u8];
    let hit = d.draw(63, 31, &sprite);
    assert!(!hit);
    assert!(d.pixel(63, 31));
    assert!(d.pixel(0, 31));
    let below = d.draw(0, 32, &sprite);
    assert!(!below);
    assert!(d.pixel(0, 0));
    assert!(d.pixel(1, 0));
}

#[test]
fn display_clear_turns_everything_off() {
    let mut d = Display::new();
    let sprite = vec![0xFFu8];
    d.draw(0, 0, &sprite);
    d.clear();
    for px in d.snapshot() {
        assert!(!px);
    }
}
