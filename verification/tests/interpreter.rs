use chip8::{Cpu, CpuError, CpuState, Policy};

#[test]
fn load_immediate_then_add_immediate() {
    let mut cpu = Cpu::new();
    assert!(cpu.load_program(&vec![0x60, 0x0A, 0x70, 0x05]));
    assert!(cpu.exec(0));
    assert!(cpu.exec(0));
    let snap = cpu.inspect_state();
    assert_eq!(snap.v[0], 15);
    assert_eq!(snap.pc, 0x204);
    assert!(matches!(snap.state, CpuState::Running));
}

#[test]
fn call_then_return_restores_pc() {
    let mut cpu = Cpu::new();
    assert!(cpu.load_program(&vec![0x22, 0x04, 0x00, 0xEE, 0x00, 0xEE]));
    assert!(cpu.exec(0));
    let mid = cpu.inspect_state();
    assert_eq!(mid.pc, 0x204);
    assert_eq!(mid.stack_depth, 1);
    assert!(cpu.exec(0));
    let done = cpu.inspect_state();
    assert_eq!(done.pc, 0x202);
    assert_eq!(done.stack_depth, 0);
}

#[test]
fn add_registers_sets_carry_flag() {
    let mut cpu = Cpu::new();
    cpu.op_6xnn(0, 200);
    cpu.op_6xnn(1, 100);
    cpu.op_8xy4(0, 1);
    let snap = cpu.inspect_state();
    assert_eq!(snap.v[0], 44);
    assert_eq!(snap.v[15], 1);

    cpu.op_6xnn(2, 10);
    cpu.op_6xnn(3, 20);
    cpu.op_8xy4(2, 3);
    let snap = cpu.inspect_state();
    assert_eq!(snap.v[2], 30);
    assert_eq!(snap.v[15], 0);
}

#[test]
fn sub_registers_sets_no_borrow_flag() {
    let mut cpu = Cpu::new();
    cpu.op_6xnn(0, 10);
    cpu.op_6xnn(1, 20);
    cpu.op_8xy5(0, 1);
    let snap = cpu.inspect_state();
    assert_eq!(snap.v[0], 246);
    assert_eq!(snap.v[15], 0);

    cpu.op_6xnn(2, 20);
    cpu.op_6xnn(3, 10);
    cpu.op_8xy5(2, 3);
    let snap = cpu.inspect_state();
    assert_eq!(snap.v[2], 10);
    assert_eq!(snap.v[15], 1);

    cpu.op_6xnn(4, 7);
    cpu.op_6xnn(5, 7);
    cpu.op_8xy5(4, 5);
    let snap = cpu.inspect_state();
    assert_eq!(snap.v[4], 0);
    assert_eq!(snap.v[15], 1);
}

#[test]
fn subn_shifts_and_logic_ops() {
    let mut cpu = Cpu::new();
    cpu.op_6xnn(0, 5);
    cpu.op_6xnn(1, 12);
    cpu.op_8xy7(0, 1);
    let snap = cpu.inspect_state();
    assert_eq!(snap.v[0], 7);
    assert_eq!(snap.v[15], 1);

    cpu.op_6xnn(2, 5);
    cpu.op_8xy6(2);
    let snap = cpu.inspect_state();
    assert_eq!(snap.v[2], 2);
    assert_eq!(snap.v[15], 1);

    cpu.op_6xnn(3, 0x81);
    cpu.op_8xye(3);
    let snap = cpu.inspect_state();
    assert_eq!(snap.v[3], 0x02);
    assert_eq!(snap.v[15], 1);

    cpu.op_6xnn(4, 0b1100);
    cpu.op_6xnn(5, 0b1010);
    cpu.op_8xy1(4, 5);
    assert_eq!(cpu.inspect_state().v[4], 0b1110);
    cpu.op_6xnn(4, 0b1100);
    cpu.op_8xy2(4, 5);
    assert_eq!(cpu.inspect_state().v[4], 0b1000);
    cpu.op_6xnn(4, 0b1100);
    cpu.op_8xy3(4, 5);
    assert_eq!(cpu.inspect_state().v[4], 0b0110);
}

#[test]
fn add_immediate_never_touches_flag() {
    let mut cpu = Cpu::new();
    cpu.op_6xnn(15, 7);
    cpu.op_6xnn(0, 250);
    cpu.op_7xnn(0, 10);
    let snap = cpu.inspect_state();
    assert_eq!(snap.v[0], 4);
    assert_eq!(snap.v[15], 7);
}

#[test]
fn bcd_splits_decimal_digits() {
    let mut cpu = Cpu::new();
    cpu.op_6xnn(0, 157);
    cpu.op_annn(0x300);
    cpu.op_fx33(0);
    assert_eq!(cpu.read_byte(0x300), Ok(1));
    assert_eq!(cpu.read_byte(0x301), Ok(5));
    assert_eq!(cpu.read_byte(0x302), Ok(7));
    assert!(matches!(cpu.inspect_state().state, CpuState::Running));
}

#[test]
fn bcd_into_reserved_region_halts() {
    let mut cpu = Cpu::new();
    cpu.op_6xnn(0, 42);
    cpu.op_annn(0x100);
    assert!(!cpu.op_fx33(0));
    assert!(matches!(
        cpu.inspect_state().state,
        CpuState::Halted(CpuError::OutOfBoundsMemoryAccess)
    ));
}

#[test]
fn register_dump_and_fill_round_trip() {
    let mut cpu = Cpu::new();
    cpu.op_6xnn(0, 11);
    cpu.op_6xnn(1, 22);
    cpu.op_6xnn(2, 33);
    cpu.op_annn(0x300);
    cpu.op_fx55(2);
    assert_eq!(cpu.read_byte(0x300), Ok(11));
    assert_eq!(cpu.read_byte(0x301), Ok(22));
    assert_eq!(cpu.read_byte(0x302), Ok(33));
    assert_eq!(cpu.inspect_state().i, 0x300);
    cpu.op_6xnn(0, 0);
    cpu.op_6xnn(1, 0);
    cpu.op_6xnn(2, 0);
    cpu.op_fx65(2);
    let snap = cpu.inspect_state();
    assert_eq!(snap.v[0], 11);
    assert_eq!(snap.v[1], 22);
    assert_eq!(snap.v[2], 33);
    assert_eq!(snap.i, 0x300);
}

#[test]
fn register_dump_into_reserved_region_halts() {
    let mut cpu = Cpu::new();
    cpu.op_annn(0x1FF);
    assert!(!cpu.op_fx55(0));
    assert!(matches!(
        cpu.inspect_state().state,
        CpuState::Halted(CpuError::OutOfBoundsMemoryAccess)
    ));
}

#[test]
fn register_fill_past_memory_end_halts() {
    let mut cpu = Cpu::new();
    cpu.op_annn(0xFFE);
    assert!(!cpu.op_fx65(3));
    assert!(matches!(
        cpu.inspect_state().state,
        CpuState::Halted(CpuError::OutOfBoundsMemoryAccess)
    ));
}

#[test]
fn draw_sets_pixels_and_collision_flag() {
    let mut cpu = Cpu::new();
    cpu.op_annn(0);
    cpu.op_6xnn(0, 0);
    cpu.op_6xnn(1, 0);
    cpu.op_dxyn(0, 1, 5);
    let snap = cpu.inspect_state();
    assert_eq!(snap.v[15], 0);
    let fb = cpu.framebuffer_snapshot();
    assert!(fb[0] && fb[1] && fb[2] && fb[3]);
    assert!(!fb[4]);
    assert!(fb[64] && !fb[65] && !fb[66] && fb[67]);
    cpu.op_dxyn(0, 1, 5);
    let snap = cpu.inspect_state();
    assert_eq!(snap.v[15], 1);
    for px in cpu.framebuffer_snapshot() {
        assert!(!px);
    }
}

#[test]
fn draw_past_memory_end_halts() {
    let mut cpu = Cpu::new();
    cpu.op_annn(0xFFF);
    cpu.op_6xnn(0, 0);
    assert!(!cpu.op_dxyn(0, 0, 5));
    assert!(matches!(
        cpu.inspect_state().state,
        CpuState::Halted(CpuError::OutOfBoundsMemoryAccess)
    ));
}

#[test]
fn timer_decoupled_from_cycles() {
    let mut cpu = Cpu::new();
    assert!(cpu.load_program(&vec![0x60, 200, 0xF0, 0x15, 0x12, 0x04]));
    assert!(cpu.exec(0));
    assert!(cpu.exec(0));
    assert_eq!(cpu.inspect_state().delay_timer, 200);
    for k in 0..60 {
        for _ in 0..(k % 3) {
            assert!(cpu.exec(0));
        }
        cpu.tick();
    }
    assert_eq!(cpu.inspect_state().delay_timer, 140);
}

#[test]
fn sound_timer_drives_sound_active() {
    let mut cpu = Cpu::new();
    cpu.op_6xnn(0, 2);
    cpu.op_fx18(0);
    assert!(cpu.is_sound_active());
    cpu.tick();
    assert!(cpu.is_sound_active());
    cpu.tick();
    assert!(!cpu.is_sound_active());
}

#[test]
fn wait_key_blocks_until_key_event() {
    let mut cpu = Cpu::new();
    assert!(cpu.load_program(&vec![0xF3, 0x0A]));
    assert!(cpu.exec(0));
    assert!(matches!(cpu.inspect_state().state, CpuState::WaitingForKey(3)));
    assert!(cpu.exec(0));
    let snap = cpu.inspect_state();
    assert_eq!(snap.pc, 0x200);
    assert!(matches!(snap.state, CpuState::WaitingForKey(3)));
    cpu.submit_key_event(0xC, true);
    cpu.submit_key_event(0x7, true);
    assert!(cpu.exec(0));
    let snap = cpu.inspect_state();
    assert_eq!(snap.v[3], 0x7);
    assert_eq!(snap.pc, 0x202);
    assert!(matches!(snap.state, CpuState::Running));
}

#[test]
fn key_skip_opcodes_follow_keypad() {
    let mut cpu = Cpu::new();
    cpu.op_6xnn(0, 0xA);
    cpu.submit_key_event(0xA, true);
    let pc = cpu.inspect_state().pc;
    cpu.op_ex9e(0);
    assert_eq!(cpu.inspect_state().pc, pc + 4);
    let pc = cpu.inspect_state().pc;
    cpu.op_exa1(0);
    assert_eq!(cpu.inspect_state().pc, pc + 2);
    cpu.submit_key_event(0xA, false);
    let pc = cpu.inspect_state().pc;
    cpu.op_ex9e(0);
    assert_eq!(cpu.inspect_state().pc, pc + 2);
    let pc = cpu.inspect_state().pc;
    cpu.op_exa1(0);
    assert_eq!(cpu.inspect_state().pc, pc + 4);
}

#[test]
fn skip_opcodes_compare_correctly() {
    let mut cpu = Cpu::new();
    cpu.op_6xnn(0, 9);
    cpu.op_6xnn(1, 9);
    cpu.op_6xnn(2, 5);
    let pc = cpu.inspect_state().pc;
    cpu.op_3xnn(0, 9);
    assert_eq!(cpu.inspect_state().pc, pc + 4);
    let pc = cpu.inspect_state().pc;
    cpu.op_3xnn(0, 8);
    assert_eq!(cpu.inspect_state().pc, pc + 2);
    let pc = cpu.inspect_state().pc;
    cpu.op_4xnn(0, 8);
    assert_eq!(cpu.inspect_state().pc, pc + 4);
    let pc = cpu.inspect_state().pc;
    cpu.op_5xy0(0, 1);
    assert_eq!(cpu.inspect_state().pc, pc + 4);
    let pc = cpu.inspect_state().pc;
    cpu.op_5xy0(0, 2);
    assert_eq!(cpu.inspect_state().pc, pc + 2);
    let pc = cpu.inspect_state().pc;
    cpu.op_9xnn(0, 2);
    assert_eq!(cpu.inspect_state().pc, pc + 4);
    let pc = cpu.inspect_state().pc;
    cpu.op_9xnn(0, 1);
    assert_eq!(cpu.inspect_state().pc, pc + 2);
}

#[test]
fn random_opcode_masks_host_byte() {
    let mut cpu = Cpu::new();
    cpu.op_cxnn(0, 0x0F, 0xAB);
    assert_eq!(cpu.inspect_state().v[0], 0x0B);
    cpu.op_cxnn(1, 0x00, 0xFF);
    assert_eq!(cpu.inspect_state().v[1], 0);
}

#[test]
fn jump_with_offset_adds_v0() {
    let mut cpu = Cpu::new();
    cpu.op_6xnn(0, 4);
    cpu.op_bnnn(0x300);
    assert_eq!(cpu.inspect_state().pc, 0x304);
}

#[test]
fn index_register_opcodes() {
    let mut cpu = Cpu::new();
    cpu.op_annn(0x123);
    assert_eq!(cpu.inspect_state().i, 0x123);
    cpu.op_6xnn(0, 0x10);
    cpu.op_fx1e(0);
    assert_eq!(cpu.inspect_state().i, 0x133);
    cpu.op_6xnn(1, 0x0F);
    cpu.op_fx29(1);
    assert_eq!(cpu.inspect_state().i, 75);
    assert_eq!(cpu.font_address(0x12), 10);
}

#[test]
fn delay_timer_opcodes_round_trip() {
    let mut cpu = Cpu::new();
    cpu.op_6xnn(0, 33);
    cpu.op_fx15(0);
    cpu.op_fx07(5);
    assert_eq!(cpu.inspect_state().v[5], 33);
    assert_eq!(cpu.inspect_state().delay_timer, 33);
}

#[test]
fn font_data_is_loaded_and_glyphs_differ() {
    let cpu = Cpu::new();
    assert_eq!(cpu.read_byte(0), Ok(0xF0));
    assert_eq!(cpu.read_byte(4), Ok(0xF0));
    assert_eq!(cpu.read_byte(5), Ok(0x20));
    assert_eq!(cpu.read_byte(9), Ok(0x70));
    assert_eq!(cpu.read_byte(79), Ok(0x80));
    let mut glyphs = Vec::new();
    for d in 0..16usize {
        let mut g = Vec::new();
        for r in 0..5usize {
            g.push(cpu.read_byte(5 * d + r).unwrap());
        }
        glyphs.push(g);
    }
    for a in 0..16usize {
        for b in (a + 1)..16usize {
            assert_ne!(glyphs[a], glyphs[b]);
        }
    }
}

#[test]
fn unknown_opcode_halts_by_default() {
    let mut cpu = Cpu::new();
    assert!(cpu.load_program(&vec![0xFF, 0xFF]));
    assert!(!cpu.exec(0));
    assert!(matches!(
        cpu.inspect_state().state,
        CpuState::Halted(CpuError::InvalidOpcode)
    ));
    assert!(!cpu.exec(0));
    assert_eq!(cpu.inspect_state().pc, 0x200);
}

#[test]
fn unknown_opcode_skipped_under_skip_policy() {
    let mut cpu = Cpu::new_with_policy(Policy::SkipAndContinue);
    assert!(cpu.load_program(&vec![0xFF, 0xFF, 0x60, 0x09]));
    assert!(cpu.exec(0));
    assert_eq!(cpu.inspect_state().pc, 0x202);
    assert!(cpu.exec(0));
    assert_eq!(cpu.inspect_state().v[0], 9);
}

#[test]
fn call_stack_overflow_halts() {
    let mut cpu = Cpu::new();
    assert!(cpu.load_program(&vec![0x22, 0x00]));
    for _ in 0..16 {
        assert!(cpu.exec(0));
    }
    assert_eq!(cpu.inspect_state().stack_depth, 16);
    assert!(!cpu.exec(0));
    assert!(matches!(
        cpu.inspect_state().state,
        CpuState::Halted(CpuError::StackOverflow)
    ));
}

#[test]
fn return_on_empty_stack_halts() {
    let mut cpu = Cpu::new();
    assert!(cpu.load_program(&vec![0x00, 0xEE]));
    assert!(!cpu.exec(0));
    assert!(matches!(
        cpu.inspect_state().state,
        CpuState::Halted(CpuError::StackUnderflow)
    ));
}

#[test]
fn oversized_program_halts_loader() {
    let mut cpu = Cpu::new();
    let image = vec![0u8; 4096 - 0x200 + 1];
    assert!(!cpu.load_program(&image));
    assert!(matches!(
        cpu.inspect_state().state,
        CpuState::Halted(CpuError::ProgramTooLarge)
    ));
}

#[test]
fn reset_restores_initial_state() {
    let mut cpu = Cpu::new();
    assert!(cpu.load_program(&vec![0x60, 0x11, 0xFF, 0xFF]));
    assert!(cpu.exec(0));
    assert!(!cpu.exec(0));
    cpu.reset();
    let snap = cpu.inspect_state();
    assert!(matches!(snap.state, CpuState::Running));
    assert_eq!(snap.pc, 0x200);
    assert_eq!(snap.v, vec![0u8; 16]);
    assert_eq!(snap.stack_depth, 0);
    assert_eq!(cpu.read_byte(0x200), Ok(0));
    assert_eq!(cpu.read_byte(0), Ok(0xF0));
}

#[test]
fn clear_screen_opcode_blanks_framebuffer() {
    let mut cpu = Cpu::new();
    cpu.op_annn(0);
    cpu.op_6xnn(0, 1);
    cpu.op_dxyn(0, 0, 5);
    let pc = cpu.inspect_state().pc;
    cpu.op_00e0();
    for px in cpu.framebuffer_snapshot() {
        assert!(!px);
    }
    assert_eq!(cpu.inspect_state().pc, pc + 2);
}

#[test]
fn fetch_past_memory_end_halts() {
    let mut cpu = Cpu::new();
    cpu.op_1nnn(0xFFF);
    assert!(!cpu.exec(0));
    assert!(matches!(
        cpu.inspect_state().state,
        CpuState::Halted(CpuError::OutOfBoundsMemoryAccess)
    ));
}
