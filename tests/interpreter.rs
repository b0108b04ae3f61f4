use chip_8::chip8::debugger::{Debugger, Propagate, TraceRecord};
use chip_8::chip8::{ExecError, LoadError, CPU, MAX_PROGRAM_LEN, PROGRAM_START};

fn cpu_with(program: &[u8]) -> CPU {
    let mut cpu = CPU::new();
    assert_eq!(cpu.load_rom(program), Ok(()));
    cpu
}

fn tick(cpu: &mut CPU, times: usize) {
    for _ in 0..times {
        assert!(cpu.run().is_ok());
    }
}

#[test]
fn new_cpu_starts_at_program_start() {
    let cpu = CPU::new();
    assert_eq!(cpu.get_pc(), 0x200);
    assert_eq!(cpu.get_stack_pointer(), 0);
    assert_eq!(cpu.get_index_register(), 0);
    assert_eq!(cpu.get_delay_timer(), 0);
    assert_eq!(cpu.get_sound_timer(), 0);
    for x in 0..16 {
        assert_eq!(cpu.get_register(x), 0);
        assert!(!cpu.is_key_pressed(x));
    }
    assert!(cpu.frame_buffer().iter().all(|c| !*c));
    assert_eq!(*cpu.debugger().get_status(), Propagate::Enable);
}

#[test]
fn load_immediate_then_tick() {
    let mut cpu = cpu_with(&[0x60, 0x05]);
    tick(&mut cpu, 1);
    assert_eq!(cpu.get_register(0), 5);
    assert_eq!(cpu.get_pc(), 0x202);
}

#[test]
fn load_index_then_tick() {
    let mut cpu = cpu_with(&[0xA2, 0x00]);
    tick(&mut cpu, 1);
    assert_eq!(cpu.get_index_register(), 0x200);
    assert_eq!(cpu.get_pc(), 0x202);
}

#[test]
fn add_immediate_wraps_and_keeps_vf() {
    // V3 = 0xF0, VF = 7, V3 += 0x20
    let mut cpu = cpu_with(&[0x63, 0xF0, 0x6F, 0x07, 0x73, 0x20]);
    tick(&mut cpu, 3);
    assert_eq!(cpu.get_register(3), 0x10);
    assert_eq!(cpu.get_register(0xF), 7);
}

#[test]
fn add_registers_with_carry() {
    // V1 = 200, V2 = 100, V1 += V2
    let mut cpu = cpu_with(&[0x61, 200, 0x62, 100, 0x81, 0x24]);
    tick(&mut cpu, 3);
    assert_eq!(cpu.get_register(1), 44);
    assert_eq!(cpu.get_register(0xF), 1);
}

#[test]
fn add_registers_without_carry() {
    // VF = 9, V1 = 100, V2 = 155, V1 += V2
    let mut cpu = cpu_with(&[0x6F, 9, 0x61, 100, 0x62, 155, 0x81, 0x24]);
    tick(&mut cpu, 4);
    assert_eq!(cpu.get_register(1), 255);
    assert_eq!(cpu.get_register(0xF), 0);
}

#[test]
fn subtract_sets_not_borrow() {
    // V1 = 5, V2 = 7, V1 -= V2
    let mut cpu = cpu_with(&[0x61, 5, 0x62, 7, 0x81, 0x25]);
    tick(&mut cpu, 3);
    assert_eq!(cpu.get_register(1), 254);
    assert_eq!(cpu.get_register(0xF), 0);
    // V3 = 7, V4 = 7, V3 -= V4
    let mut cpu = cpu_with(&[0x63, 7, 0x64, 7, 0x83, 0x45]);
    tick(&mut cpu, 3);
    assert_eq!(cpu.get_register(3), 0);
    assert_eq!(cpu.get_register(0xF), 1);
}

#[test]
fn reverse_subtract() {
    // V1 = 10, V2 = 3, V1 = V2 - V1
    let mut cpu = cpu_with(&[0x61, 10, 0x62, 3, 0x81, 0x27]);
    tick(&mut cpu, 3);
    assert_eq!(cpu.get_register(1), 249);
    assert_eq!(cpu.get_register(0xF), 0);
}

#[test]
fn shifts_set_vf_from_the_lost_bit() {
    // V1 = 0x81, V1 >>= 1
    let mut cpu = cpu_with(&[0x61, 0x81, 0x81, 0x06]);
    tick(&mut cpu, 2);
    assert_eq!(cpu.get_register(1), 0x40);
    assert_eq!(cpu.get_register(0xF), 1);
    // V1 = 0x81, V1 <<= 1
    let mut cpu = cpu_with(&[0x61, 0x81, 0x81, 0x0E]);
    tick(&mut cpu, 2);
    assert_eq!(cpu.get_register(1), 0x02);
    assert_eq!(cpu.get_register(0xF), 1);
    // V1 = 0x40, V1 <<= 1
    let mut cpu = cpu_with(&[0x61, 0x40, 0x81, 0x0E]);
    tick(&mut cpu, 2);
    assert_eq!(cpu.get_register(1), 0x80);
    assert_eq!(cpu.get_register(0xF), 0);
}

#[test]
fn bitwise_and_move() {
    // V1 = 0x0C, V2 = 0x0A; V3 = V1 | V2; V4 = V1 & V2; V5 = V1 ^ V2 (via moves)
    let mut cpu = cpu_with(&[
        0x61, 0x0C, 0x62, 0x0A, 0x83, 0x10, 0x83, 0x21, 0x84, 0x10, 0x84, 0x22, 0x85, 0x10,
        0x85, 0x23,
    ]);
    tick(&mut cpu, 8);
    assert_eq!(cpu.get_register(3), 0x0E);
    assert_eq!(cpu.get_register(4), 0x08);
    assert_eq!(cpu.get_register(5), 0x06);
}

#[test]
fn unknown_alu_selector_is_a_no_op() {
    let mut cpu = cpu_with(&[0x61, 0x33, 0x81, 0x28]);
    tick(&mut cpu, 2);
    assert_eq!(cpu.get_register(1), 0x33);
    assert_eq!(cpu.get_pc(), 0x204);
}

#[test]
fn clear_screen_clears_every_cell() {
    // draw the font-less sprite at I = 0x200 (bytes 0xA2 0x00 themselves), then clear
    let mut cpu = cpu_with(&[0xA2, 0x00, 0xD0, 0x02, 0x00, 0xE0]);
    tick(&mut cpu, 2);
    assert!(cpu.frame_buffer().iter().any(|c| *c));
    tick(&mut cpu, 1);
    assert!(cpu.frame_buffer().iter().all(|c| !*c));
    assert_eq!(cpu.get_pc(), 0x206);
}

#[test]
fn call_then_return_resumes_after_call() {
    // 0x200: CALL 0x206; 0x202: V1 = 1; 0x206: RET
    let mut cpu = cpu_with(&[0x22, 0x06, 0x61, 0x01, 0x00, 0x00, 0x00, 0xEE]);
    tick(&mut cpu, 1);
    assert_eq!(cpu.get_pc(), 0x206);
    assert_eq!(cpu.get_stack_pointer(), 1);
    tick(&mut cpu, 1);
    assert_eq!(cpu.get_pc(), 0x202);
    assert_eq!(cpu.get_stack_pointer(), 0);
    tick(&mut cpu, 1);
    assert_eq!(cpu.get_register(1), 1);
}

#[test]
fn return_on_empty_stack_is_underflow() {
    let mut cpu = cpu_with(&[0x00, 0xEE]);
    assert_eq!(cpu.run(), Err(ExecError::StackUnderflow));
    assert_eq!(cpu.get_pc(), 0x200);
    assert_eq!(cpu.get_stack_pointer(), 0);
}

#[test]
fn call_on_full_stack_is_overflow() {
    // CALL 0x200 forever: every call pushes one more return address
    let mut cpu = cpu_with(&[0x22, 0x00]);
    tick(&mut cpu, 64);
    assert_eq!(cpu.get_stack_pointer(), 64);
    assert_eq!(cpu.run(), Err(ExecError::StackOverflow));
    assert_eq!(cpu.get_stack_pointer(), 64);
    assert_eq!(cpu.get_pc(), 0x200);
}

#[test]
fn jump_lands_on_target() {
    let mut cpu = cpu_with(&[0x13, 0x45]);
    tick(&mut cpu, 1);
    assert_eq!(cpu.get_pc(), 0x345);
}

#[test]
fn jump_with_offset_adds_v0() {
    let mut cpu = cpu_with(&[0x60, 0x10, 0xB3, 0x00]);
    tick(&mut cpu, 2);
    assert_eq!(cpu.get_pc(), 0x310);
}

#[test]
fn skips_advance_by_four() {
    // V1 = 5; skip if V1 == 5
    let mut cpu = cpu_with(&[0x61, 0x05, 0x31, 0x05]);
    tick(&mut cpu, 2);
    assert_eq!(cpu.get_pc(), 0x206);
    // V1 = 5; skip if V1 == 6 (no skip)
    let mut cpu = cpu_with(&[0x61, 0x05, 0x31, 0x06]);
    tick(&mut cpu, 2);
    assert_eq!(cpu.get_pc(), 0x204);
    // V1 = 5; skip if V1 != 6
    let mut cpu = cpu_with(&[0x61, 0x05, 0x41, 0x06]);
    tick(&mut cpu, 2);
    assert_eq!(cpu.get_pc(), 0x206);
    // V1 = 5, V2 = 5; skip if V1 == V2; then skip if V1 != V2 (no skip)
    let mut cpu = cpu_with(&[0x61, 0x05, 0x62, 0x05, 0x51, 0x20, 0x00, 0x00, 0x91, 0x20]);
    tick(&mut cpu, 4);
    assert_eq!(cpu.get_pc(), 0x20A);
}

#[test]
fn random_byte_is_masked() {
    for _ in 0..50 {
        let mut cpu = cpu_with(&[0xC1, 0x0F, 0xC2, 0x00]);
        tick(&mut cpu, 2);
        assert!(cpu.get_register(1) <= 0x0F);
        assert_eq!(cpu.get_register(2), 0);
        assert_eq!(cpu.get_pc(), 0x204);
    }
}

#[test]
fn draw_twice_clears_and_sets_collision() {
    // I = 0x20A (sprite 0xF0 0x90), V1 = 3, V2 = 4, draw 2 rows twice
    let mut cpu = cpu_with(&[0xA2, 0x0A, 0x61, 0x03, 0x62, 0x04, 0xD1, 0x22, 0xD1, 0x22, 0xF0, 0x90]);
    tick(&mut cpu, 4);
    assert_eq!(cpu.get_register(0xF), 0);
    for col in 0..4 {
        assert!(cpu.pixel(3 + col, 4));
    }
    assert!(cpu.pixel(3, 5));
    assert!(!cpu.pixel(4, 5));
    assert!(cpu.pixel(6, 5));
    assert_eq!(cpu.frame_buffer().iter().filter(|c| **c).count(), 6);
    tick(&mut cpu, 1);
    assert_eq!(cpu.get_register(0xF), 1);
    assert!(cpu.frame_buffer().iter().all(|c| !*c));
}

#[test]
fn draw_wraps_around_the_edges() {
    // I = 0x20A (sprite 0xFF), V1 = 62, V2 = 31, draw 1 row
    let mut cpu = cpu_with(&[0xA2, 0x0A, 0x61, 62, 0x62, 31, 0xD1, 0x21, 0x00, 0x00, 0xFF]);
    tick(&mut cpu, 4);
    assert!(cpu.pixel(62, 31));
    assert!(cpu.pixel(63, 31));
    for col in 0..6 {
        assert!(cpu.pixel(col, 31));
    }
    assert!(!cpu.pixel(6, 31));
    assert_eq!(cpu.frame_buffer().iter().filter(|c| **c).count(), 8);
}

#[test]
fn timers_stop_at_zero() {
    let mut cpu = CPU::new();
    cpu.update_timers();
    assert_eq!(cpu.get_delay_timer(), 0);
    assert_eq!(cpu.get_sound_timer(), 0);
}

#[test]
fn timers_drop_by_one_per_update() {
    let mut cpu = CPU::default();
    cpu.set_timers(2, 1);
    cpu.update_timers();
    assert_eq!(cpu.get_delay_timer(), 1);
    assert_eq!(cpu.get_sound_timer(), 0);
    cpu.update_timers();
    assert_eq!(cpu.get_delay_timer(), 0);
    assert_eq!(cpu.get_sound_timer(), 0);
    cpu.update_timers();
    assert_eq!(cpu.get_delay_timer(), 0);
    assert_eq!(cpu.get_pc(), 0x200);
}

#[test]
fn load_rom_too_large_leaves_memory() {
    let mut cpu = cpu_with(&[0x12, 0x34]);
    let big = vec![0xAB; MAX_PROGRAM_LEN + 1];
    assert_eq!(cpu.load_rom(&big), Err(LoadError::RomTooLarge));
    assert_eq!(cpu.read_memory(PROGRAM_START), 0x12);
    assert_eq!(cpu.read_memory(PROGRAM_START + 1), 0x34);
    assert_eq!(cpu.read_memory(PROGRAM_START + 2), 0);
    assert_eq!(cpu.read_memory(4095), 0);
}

#[test]
fn load_rom_largest_fits() {
    let mut cpu = CPU::new();
    let big = vec![0xCD; MAX_PROGRAM_LEN];
    assert_eq!(cpu.load_rom(&big), Ok(()));
    assert_eq!(cpu.read_memory(PROGRAM_START - 1), 0);
    assert_eq!(cpu.read_memory(PROGRAM_START), 0xCD);
    assert_eq!(cpu.read_memory(4095), 0xCD);
}

#[test]
fn keypad_press_and_release() {
    let mut cpu = CPU::new();
    cpu.set_key(0xA, true);
    assert!(cpu.is_key_pressed(0xA));
    assert!(!cpu.is_key_pressed(0xB));
    cpu.set_key(0xA, false);
    assert!(!cpu.is_key_pressed(0xA));
}

#[test]
fn run_returns_trace_record() {
    let mut cpu = cpu_with(&[0x60, 0x05]);
    let rec = cpu.run().unwrap();
    assert_eq!(
        rec,
        Some(TraceRecord { opcode: 0x6005, first_byte: 0x60, second_byte: 0x05, pc: 0x200, sp: 0 })
    );
    cpu.set_trace(Propagate::Disable);
    assert_eq!(cpu.run(), Ok(None));
    assert_eq!(cpu.debugger().history_len(), 1);
}

#[test]
fn debugger_toggles() {
    let mut d = Debugger::new();
    assert_eq!(*d.get_status(), Propagate::Enable);
    d.disable();
    assert_eq!(*d.get_status(), Propagate::Disable);
    assert_eq!(d.propagate(0x200, 0x60, 0x05, 0x6005, 0), None);
    assert_eq!(d.history_len(), 0);
    d.enable();
    assert_eq!(*d.get_status(), Propagate::Enable);
    assert_eq!(*Debugger::default().get_status(), Propagate::Disable);
    assert_eq!(Propagate::default(), Propagate::Disable);
}

#[test]
fn debugger_collapses_repeats() {
    let mut d = Debugger::new();
    let rec = TraceRecord { opcode: 0x1200, first_byte: 0x12, second_byte: 0x00, pc: 0x200, sp: 0 };
    for _ in 0..3 {
        assert_eq!(d.propagate(0x200, 0x12, 0x00, 0x1200, 0), Some(rec));
    }
    assert_eq!(d.propagate(0x200, 0x12, 0x00, 0x1200, 0), None);
    assert_eq!(d.propagate(0x200, 0x12, 0x00, 0x1200, 0), None);
    assert_eq!(d.propagate(0x202, 0x12, 0x00, 0x1200, 0).map(|r| r.pc), Some(0x202));
}

#[test]
fn debugger_keeps_twenty_records() {
    let mut d = Debugger::new();
    for pc in 0..25u16 {
        assert!(d.propagate(pc, 0, 0, 0, 0).is_some());
        assert_eq!(d.history_len(), (pc as usize + 1).min(20));
    }
}
