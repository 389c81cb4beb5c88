use chip8::machine::{FONT_SIZE, MAX_ROM_SIZE, MEMORY_SIZE, PROGRAM_START, SCREEN_COLS, SCREEN_SIZE};
use chip8::{decode, Cpu, Fault, Instruction};

const FONT: [u8; 80] = [
    0xF0, 0x90, 0x90, 0x90, 0xF0, 0x20, 0x60, 0x20, 0x20, 0x70, 0xF0, 0x10, 0xF0, 0x80, 0xF0, 0xF0,
    0x10, 0xF0, 0x10, 0xF0, 0x90, 0x90, 0xF0, 0x10, 0x10, 0xF0, 0x80, 0xF0, 0x10, 0xF0, 0xF0, 0x80,
    0xF0, 0x90, 0xF0, 0xF0, 0x10, 0x20, 0x40, 0x40, 0xF0, 0x90, 0xF0, 0x90, 0xF0, 0xF0, 0x90, 0xF0,
    0x10, 0xF0, 0xF0, 0x90, 0xF0, 0x90, 0x90, 0xE0, 0x90, 0xE0, 0x90, 0xE0, 0xF0, 0x80, 0x80, 0x80,
    0xF0, 0xE0, 0x90, 0x90, 0x90, 0xE0, 0xF0, 0x80, 0xF0, 0x80, 0xF0, 0xF0, 0x80, 0xF0, 0x80, 0x80,
];

fn booted(rom: &[u8]) -> Cpu {
    let mut cpu = Cpu::new();
    cpu.initialize();
    cpu.load_rom(rom).unwrap();
    cpu
}

fn run(cpu: &mut Cpu, opcodes: &[u16]) {
    for &op in opcodes {
        cpu.process_opcode(op, 0).unwrap();
    }
}

#[test]
fn add_program_end_to_end() {
    let mut cpu = booted(&[0x60, 0x05, 0x61, 0x03, 0x80, 0x14]);
    for _ in 0..3 {
        cpu.execute_cycle(0).unwrap();
    }
    assert_eq!(cpu.register(0), 8);
    assert_eq!(cpu.register(1), 3);
    assert_eq!(cpu.register(15), 0);
    assert_eq!(cpu.pc() as usize, PROGRAM_START + 6);
}

#[test]
fn clear_after_draw_blanks_screen() {
    let mut cpu = booted(&[]);
    run(&mut cpu, &[0x6008, 0xA000, 0xD005, 0xD105]);
    assert!(cpu.screen().iter().any(|&p| p == 1));
    cpu.frame_taken();
    assert!(!cpu.should_draw());
    cpu.process_opcode(0x00E0, 0).unwrap();
    assert!(cpu.screen().iter().all(|&p| p == 0));
    assert_eq!(cpu.screen().len(), SCREEN_SIZE);
    assert!(cpu.should_draw());
}

#[test]
fn add_byte_wraps_and_keeps_flag() {
    let mut cpu = booted(&[]);
    run(&mut cpu, &[0x60FF, 0x6F05, 0x7001]);
    assert_eq!(cpu.register(0), 0);
    assert_eq!(cpu.register(15), 5);
    run(&mut cpu, &[0x7A10, 0x7A20]);
    assert_eq!(cpu.register(10), 0x30);
}

#[test]
fn add_register_sets_carry() {
    let mut cpu = booted(&[]);
    run(&mut cpu, &[0x60C8, 0x6164, 0x8014]);
    assert_eq!(cpu.register(0), 44);
    assert_eq!(cpu.register(15), 1);
    run(&mut cpu, &[0x6201, 0x6302, 0x8234]);
    assert_eq!(cpu.register(2), 3);
    assert_eq!(cpu.register(15), 0);
    run(&mut cpu, &[0x64FF, 0x6501, 0x8454]);
    assert_eq!(cpu.register(4), 0);
    assert_eq!(cpu.register(15), 1);
}

#[test]
fn sub_register_sets_no_borrow() {
    let mut cpu = booted(&[]);
    run(&mut cpu, &[0x6005, 0x6103, 0x8015]);
    assert_eq!(cpu.register(0), 2);
    assert_eq!(cpu.register(15), 1);
    run(&mut cpu, &[0x6203, 0x6305, 0x8235]);
    assert_eq!(cpu.register(2), 254);
    assert_eq!(cpu.register(15), 0);
    run(&mut cpu, &[0x6407, 0x6507, 0x8455]);
    assert_eq!(cpu.register(4), 0);
    assert_eq!(cpu.register(15), 1);
}

#[test]
fn sub_reversed_sets_no_borrow() {
    let mut cpu = booted(&[]);
    run(&mut cpu, &[0x6003, 0x6105, 0x8017]);
    assert_eq!(cpu.register(0), 2);
    assert_eq!(cpu.register(15), 1);
    run(&mut cpu, &[0x6205, 0x6303, 0x8237]);
    assert_eq!(cpu.register(2), 254);
    assert_eq!(cpu.register(15), 0);
}

#[test]
fn shifts_flag_the_bit_shifted_out() {
    let mut cpu = booted(&[]);
    run(&mut cpu, &[0x6081, 0x8006]);
    assert_eq!(cpu.register(0), 0x40);
    assert_eq!(cpu.register(15), 1);
    run(&mut cpu, &[0x8006]);
    assert_eq!(cpu.register(0), 0x20);
    assert_eq!(cpu.register(15), 0);
    run(&mut cpu, &[0x6181, 0x810E]);
    assert_eq!(cpu.register(1), 0x02);
    assert_eq!(cpu.register(15), 1);
    run(&mut cpu, &[0x6240, 0x820E]);
    assert_eq!(cpu.register(2), 0x80);
    assert_eq!(cpu.register(15), 0);
}

#[test]
fn bitwise_and_move() {
    let mut cpu = booted(&[]);
    run(&mut cpu, &[0x60F0, 0x613C, 0x8011]);
    assert_eq!(cpu.register(0), 0xFC);
    run(&mut cpu, &[0x60F0, 0x8012]);
    assert_eq!(cpu.register(0), 0x30);
    run(&mut cpu, &[0x60F0, 0x8013]);
    assert_eq!(cpu.register(0), 0xCC);
    run(&mut cpu, &[0x8210]);
    assert_eq!(cpu.register(2), 0x3C);
}

#[test]
fn drawing_twice_restores_and_collides() {
    let mut cpu = booted(&[]);
    run(&mut cpu, &[0x6003, 0x6102, 0xA000]);
    let before: Vec<u8> = cpu.screen().to_vec();
    cpu.process_opcode(0xD015, 0).unwrap();
    assert_eq!(cpu.register(15), 0);
    // Glyph 0: top row 0xF0 at (3, 2).
    for c in 0..4 {
        assert_eq!(cpu.screen()[2 * SCREEN_COLS + 3 + c], 1);
    }
    assert_eq!(cpu.screen()[2 * SCREEN_COLS + 7], 0);
    assert_eq!(cpu.screen()[3 * SCREEN_COLS + 3], 1);
    assert_eq!(cpu.screen()[3 * SCREEN_COLS + 4], 0);
    cpu.process_opcode(0xD015, 0).unwrap();
    assert_eq!(cpu.register(15), 1);
    assert_eq!(cpu.screen(), &before[..]);
}

#[test]
fn drawing_clips_at_the_edges() {
    let mut cpu = booted(&[]);
    run(&mut cpu, &[0x603E, 0x611F, 0xA000, 0xD015]);
    assert_eq!(cpu.screen()[31 * SCREEN_COLS + 62], 1);
    assert_eq!(cpu.screen()[31 * SCREEN_COLS + 63], 1);
    assert_eq!(cpu.screen().iter().filter(|&&p| p == 1).count(), 2);
    assert_eq!(cpu.register(15), 0);
}

#[test]
fn fetch_after_load_is_big_endian() {
    let cpu = booted(&[0xAB, 0xCD, 0x12]);
    assert_eq!(cpu.fetch_opcode(), 0xABCD);
    assert_eq!(cpu.pc() as usize, PROGRAM_START);
}

#[test]
fn load_keeps_font_and_reserved_area() {
    let cpu = booted(&[0xFF; MAX_ROM_SIZE]);
    for a in 0..FONT_SIZE {
        assert_eq!(cpu.memory_at(a), FONT[a]);
    }
    for a in FONT_SIZE..PROGRAM_START {
        assert_eq!(cpu.memory_at(a), 0);
    }
    assert_eq!(cpu.memory_at(PROGRAM_START), 0xFF);
    assert_eq!(cpu.memory_at(MEMORY_SIZE - 1), 0xFF);
}

#[test]
fn oversized_rom_is_refused() {
    let mut cpu = Cpu::new();
    cpu.initialize();
    let rom = vec![0x11u8; MAX_ROM_SIZE + 1];
    assert_eq!(cpu.load_rom(&rom), Err(Fault::RomTooLarge(MAX_ROM_SIZE + 1)));
    assert_eq!(cpu.memory_at(PROGRAM_START), 0);
}

#[test]
fn wait_key_holds_until_pressed() {
    let mut cpu = booted(&[0xF3, 0x0A, 0x12, 0x00]);
    for _ in 0..5 {
        cpu.execute_cycle(0).unwrap();
        assert_eq!(cpu.pc() as usize, PROGRAM_START);
        assert_eq!(cpu.register(3), 0);
    }
    let mut keys = [false; 16];
    keys[9] = true;
    keys[4] = true;
    cpu.set_keys(keys);
    cpu.execute_cycle(0).unwrap();
    assert_eq!(cpu.register(3), 4);
    assert_eq!(cpu.pc() as usize, PROGRAM_START + 2);
}

#[test]
fn skip_on_key_state() {
    let mut cpu = booted(&[]);
    run(&mut cpu, &[0x6005]);
    cpu.set_key(5, true);
    let pc = cpu.pc();
    run(&mut cpu, &[0xE09E]);
    assert_eq!(cpu.pc(), pc + 2);
    run(&mut cpu, &[0xE0A1]);
    assert_eq!(cpu.pc(), pc + 2);
    cpu.set_key(5, false);
    run(&mut cpu, &[0xE0A1]);
    assert_eq!(cpu.pc(), pc + 4);
}

#[test]
fn invalid_key_faults() {
    let mut cpu = booted(&[]);
    run(&mut cpu, &[0x6010]);
    assert_eq!(cpu.process_opcode(0xE09E, 0), Err(Fault::InvalidKey(16)));
}

#[test]
fn skips_compare_registers_and_bytes() {
    let mut cpu = booted(&[]);
    let start = cpu.pc();
    run(&mut cpu, &[0x6042, 0x6142]);
    run(&mut cpu, &[0x3042]);
    assert_eq!(cpu.pc(), start + 2);
    run(&mut cpu, &[0x4042]);
    assert_eq!(cpu.pc(), start + 2);
    run(&mut cpu, &[0x5010]);
    assert_eq!(cpu.pc(), start + 4);
    run(&mut cpu, &[0x9010]);
    assert_eq!(cpu.pc(), start + 4);
    run(&mut cpu, &[0x4041]);
    assert_eq!(cpu.pc(), start + 6);
}

#[test]
fn call_and_return() {
    let mut cpu = booted(&[]);
    cpu.process_opcode(0x2345, 0).unwrap();
    assert_eq!(cpu.pc(), 0x345);
    assert_eq!(cpu.stack_pointer(), 1);
    cpu.process_opcode(0x00EE, 0).unwrap();
    assert_eq!(cpu.pc() as usize, PROGRAM_START);
    assert_eq!(cpu.stack_pointer(), 0);
}

#[test]
fn stack_overflow_and_underflow_fault() {
    let mut cpu = booted(&[]);
    assert_eq!(cpu.process_opcode(0x00EE, 0), Err(Fault::StackUnderflow));
    for _ in 0..16 {
        cpu.process_opcode(0x2400, 0).unwrap();
    }
    assert_eq!(cpu.process_opcode(0x2400, 0), Err(Fault::StackOverflow));
    assert_eq!(cpu.stack_pointer(), 16);
}

#[test]
fn jumps() {
    let mut cpu = booted(&[]);
    run(&mut cpu, &[0x1ABC]);
    assert_eq!(cpu.pc(), 0xABC);
    run(&mut cpu, &[0x6010, 0xB300]);
    assert_eq!(cpu.pc(), 0x310);
    run(&mut cpu, &[0x6002]);
    assert_eq!(cpu.process_opcode(0xBFFF, 0), Err(Fault::OutOfBounds(0x1001)));
    assert_eq!(cpu.pc(), 0x310);
}

#[test]
fn fetch_past_memory_faults() {
    let mut cpu = booted(&[0x1F, 0xFF]);
    cpu.execute_cycle(0).unwrap();
    assert_eq!(cpu.pc(), 0xFFF);
    assert_eq!(cpu.execute_cycle(0), Err(Fault::OutOfBounds(MEMORY_SIZE)));
    assert_eq!(cpu.pc(), 0xFFF);
}

#[test]
fn unrecognized_opcodes_fault_and_leave_state() {
    let mut cpu = booted(&[0x01, 0x23]);
    for op in [0x0123u16, 0x5011, 0x800F, 0x9001, 0xE000, 0xF000, 0xF0FF] {
        assert_eq!(cpu.process_opcode(op, 0), Err(Fault::UnrecognizedOpcode(op)));
    }
    assert_eq!(cpu.execute_cycle(0), Err(Fault::UnrecognizedOpcode(0x0123)));
    assert_eq!(cpu.pc() as usize, PROGRAM_START);
}

#[test]
fn decode_table() {
    assert_eq!(decode(0x00E0), Some(Instruction::ClearScreen));
    assert_eq!(decode(0x00EE), Some(Instruction::Return));
    assert_eq!(decode(0x1234), Some(Instruction::Jump { addr: 0x234 }));
    assert_eq!(decode(0x8AB4), Some(Instruction::AddRegister { x: 0xA, y: 0xB }));
    assert_eq!(decode(0x8ABE), Some(Instruction::ShiftLeft { x: 0xA, y: 0xB }));
    assert_eq!(decode(0xD12F), Some(Instruction::Draw { x: 1, y: 2, height: 0xF }));
    assert_eq!(decode(0xE7A1), Some(Instruction::SkipIfNotKey { x: 7 }));
    assert_eq!(decode(0xFC65), Some(Instruction::LoadRegisters { x: 0xC }));
    assert_eq!(decode(0x0000), None);
}

#[test]
fn timers_count_down_and_sound_tone() {
    let mut cpu = booted(&[0x60, 0x02, 0xF0, 0x15, 0xF0, 0x18, 0xF1, 0x07, 0x12, 0x08]);
    assert_eq!(cpu.execute_cycle(0), Ok(false));
    assert_eq!(cpu.execute_cycle(0), Ok(false));
    assert_eq!(cpu.delay_timer(), 1);
    assert_eq!(cpu.execute_cycle(0), Ok(true));
    assert_eq!(cpu.sound_timer(), 1);
    assert_eq!(cpu.delay_timer(), 0);
    assert_eq!(cpu.execute_cycle(0), Ok(true));
    assert_eq!(cpu.register(1), 0);
    assert_eq!(cpu.sound_timer(), 0);
    assert_eq!(cpu.execute_cycle(0), Ok(false));
}

#[test]
fn random_is_masked() {
    let mut cpu = booted(&[]);
    cpu.process_opcode(0xC30F, 0xAB).unwrap();
    assert_eq!(cpu.register(3), 0x0B);
}

#[test]
fn index_instructions() {
    let mut cpu = booted(&[]);
    run(&mut cpu, &[0xA123]);
    assert_eq!(cpu.index(), 0x123);
    run(&mut cpu, &[0x6510, 0xF51E]);
    assert_eq!(cpu.index(), 0x133);
    run(&mut cpu, &[0x650A, 0xF529]);
    assert_eq!(cpu.index(), 50);
    run(&mut cpu, &[0x6FFF, 0xAFFF]);
    for _ in 0..17 {
        run(&mut cpu, &[0xFF1E]);
    }
    assert_eq!(cpu.index(), ((0xFFF + 17 * 0xFF) % 0x10000) as u16);
}

#[test]
fn decimal_digits_stored() {
    let mut cpu = booted(&[]);
    run(&mut cpu, &[0x60EA, 0xA300, 0xF033]);
    assert_eq!(cpu.memory_at(0x300), 2);
    assert_eq!(cpu.memory_at(0x301), 3);
    assert_eq!(cpu.memory_at(0x302), 4);
    run(&mut cpu, &[0xAFFE]);
    assert_eq!(cpu.process_opcode(0xF033, 0), Err(Fault::OutOfBounds(0x1000)));
}

#[test]
fn register_block_store_and_load() {
    let mut cpu = booted(&[]);
    run(&mut cpu, &[0x6011, 0x6122, 0x6233, 0x6344, 0xA400, 0xF255]);
    assert_eq!(cpu.memory_at(0x400), 0x11);
    assert_eq!(cpu.memory_at(0x401), 0x22);
    assert_eq!(cpu.memory_at(0x402), 0x33);
    assert_eq!(cpu.memory_at(0x403), 0);
    run(&mut cpu, &[0x6000, 0x6100, 0x6200, 0xF165]);
    assert_eq!(cpu.register(0), 0x11);
    assert_eq!(cpu.register(1), 0x22);
    assert_eq!(cpu.register(2), 0);
    assert_eq!(cpu.register(3), 0x44);
    run(&mut cpu, &[0xAFFC]);
    assert_eq!(cpu.process_opcode(0xF565, 0), Err(Fault::OutOfBounds(0x1001)));
}

#[test]
fn load_delay_reads_timer() {
    let mut cpu = booted(&[]);
    run(&mut cpu, &[0x6A2A, 0xFA15, 0xFB07]);
    assert_eq!(cpu.register(11), 0x2A);
}

#[test]
fn new_machine_is_blank() {
    let cpu = Cpu::new();
    assert_eq!(cpu.pc(), 0);
    assert_eq!(cpu.memory_at(0), 0);
    assert!(!cpu.should_draw());
    assert!(cpu.screen().iter().all(|&p| p == 0));
}
