use nes::bus::Bus;
use nes::flags::Flag;
use nes::opcodes::{Instruction, Mnemonic, Mode};
use nes::state::DecodeError;

const CARRY: u8 = 0b0000_0001;
const ZERO: u8 = 0b0000_0010;
const INTERRUPT_DISABLE: u8 = 0b0000_0100;
const BREAK: u8 = 0b0001_0000;
const OVERFLOW: u8 = 0b0100_0000;
const NEGATIVE: u8 = 0b1000_0000;

/// A console with `program` loaded at `origin` and PC pointing at it.
fn machine_with(origin: u16, program: &[u8]) -> Bus {
    let mut machine = Bus::new();
    for (i, byte) in program.iter().enumerate() {
        machine.write(origin + i as u16, *byte);
    }
    machine.cpu.pc.store(origin);
    machine
}

#[test]
fn adc_signed_overflow() {
    let mut m = machine_with(0x0000, &[0x69, 0x50]);
    m.cpu.a.store(0x50);
    m.cpu.tick().unwrap();
    assert_eq!(m.cpu.a.load(), 0xA0);
    let p = m.cpu.p.load();
    assert_eq!(p & CARRY, 0);
    assert_eq!(p & OVERFLOW, OVERFLOW);
    assert_eq!(p & NEGATIVE, NEGATIVE);
    assert_eq!(p & ZERO, 0);
    assert_eq!(m.cpu.pc.load(), 0x0002);
    assert_eq!(m.cpu.skip_ticks, 2);
    assert_eq!(m.cpu.debug, Some(Mnemonic::Adc));
}

#[test]
fn adc_carry_in_and_carry_out() {
    let mut m = machine_with(0x0000, &[0x69, 0x01]);
    m.cpu.a.store(0xFE);
    m.cpu.p.store(CARRY);
    m.cpu.tick().unwrap();
    assert_eq!(m.cpu.a.load(), 0x00);
    let p = m.cpu.p.load();
    assert_eq!(p & CARRY, CARRY);
    assert_eq!(p & ZERO, ZERO);
    assert_eq!(p & OVERFLOW, 0);
    assert_eq!(p & NEGATIVE, 0);
}

#[test]
fn adc_keeps_unrelated_flags() {
    let mut m = machine_with(0x0000, &[0x69, 0x01]);
    m.cpu.a.store(0x01);
    m.cpu.p.store(INTERRUPT_DISABLE | BREAK | 0b0010_1000);
    m.cpu.tick().unwrap();
    assert_eq!(m.cpu.a.load(), 0x02);
    assert_eq!(m.cpu.p.load(), INTERRUPT_DISABLE | BREAK | 0b0010_1000);
}

#[test]
fn and_masks_accumulator() {
    let mut m = machine_with(0x0000, &[0x29, 0x0F]);
    m.cpu.a.store(0xFF);
    m.cpu.tick().unwrap();
    assert_eq!(m.cpu.a.load(), 0x0F);
    let p = m.cpu.p.load();
    assert_eq!(p & ZERO, 0);
    assert_eq!(p & NEGATIVE, 0);
}

#[test]
fn and_zero_and_negative_results() {
    let mut m = machine_with(0x0000, &[0x29, 0xF0, 0x29, 0x0F]);
    m.cpu.a.store(0x8F);
    m.cpu.tick().unwrap();
    assert_eq!(m.cpu.a.load(), 0x80);
    assert_eq!(m.cpu.p.load() & NEGATIVE, NEGATIVE);
    m.cpu.skip_ticks = 0;
    m.cpu.tick().unwrap();
    assert_eq!(m.cpu.a.load(), 0x00);
    assert_eq!(m.cpu.p.load() & ZERO, ZERO);
    assert_eq!(m.cpu.p.load() & NEGATIVE, 0);
}

#[test]
fn asl_accumulator_shifts_into_carry() {
    let mut m = machine_with(0x0000, &[0x0A]);
    m.cpu.a.store(0x80);
    m.cpu.tick().unwrap();
    assert_eq!(m.cpu.a.load(), 0x00);
    let p = m.cpu.p.load();
    assert_eq!(p & CARRY, CARRY);
    assert_eq!(p & ZERO, ZERO);
    assert_eq!(p & NEGATIVE, 0);
    assert_eq!(m.cpu.pc.load(), 0x0001);
    assert_eq!(m.cpu.skip_ticks, 2);
}

#[test]
fn asl_memory_writes_back() {
    let mut m = machine_with(0x0000, &[0x06, 0x40]);
    m.write(0x0040, 0x41);
    m.cpu.tick().unwrap();
    assert_eq!(m.read(0x0040), 0x82);
    assert_eq!(m.cpu.a.load(), 0x00);
    let p = m.cpu.p.load();
    assert_eq!(p & CARRY, 0);
    assert_eq!(p & NEGATIVE, NEGATIVE);
    assert_eq!(m.cpu.skip_ticks, 5);
}

#[test]
fn indirect_reproduces_page_wrap() {
    let mut m = machine_with(0x0200, &[0xFF, 0x10]);
    m.write(0x10FF, 0x00);
    m.write(0x1000, 0x80);
    m.write(0x1100, 0xFF);
    let (addr, crossed) = m.cpu.read_operand_address(Mode::Indirect);
    assert_eq!(addr, 0x8000);
    assert!(!crossed);
    assert_eq!(m.cpu.pc.load(), 0x0202);
}

#[test]
fn indirect_without_page_end() {
    let mut m = machine_with(0x0200, &[0x30, 0x01]);
    m.write(0x0130, 0x34);
    m.write(0x0131, 0x12);
    assert_eq!(m.cpu.read_operand_address(Mode::Indirect), (0x1234, false));
}

#[test]
fn zero_page_indexed_wraps_in_page() {
    let mut m = machine_with(0x0200, &[0xF0]);
    m.cpu.x.store(0x20);
    assert_eq!(m.cpu.read_operand_address(Mode::ZeroPageX), (0x0010, false));
    assert_eq!(m.cpu.pc.load(), 0x0201);
}

#[test]
fn absolute_indexed_reports_page_crossing() {
    let mut m = machine_with(0x0200, &[0xF0, 0x12, 0x34, 0x12]);
    m.cpu.y.store(0x20);
    assert_eq!(m.cpu.read_operand_address(Mode::AbsoluteY), (0x1310, true));
    m.cpu.x.store(0x01);
    assert_eq!(m.cpu.read_operand_address(Mode::AbsoluteX), (0x1235, false));
    assert_eq!(m.cpu.pc.load(), 0x0204);
}

#[test]
fn indirect_x_and_indirect_y() {
    let mut m = machine_with(0x0200, &[0xFE, 0x40]);
    m.cpu.x.store(0x01);
    // (0xFE + 1) & 0xFF = 0xFF holds the low byte, 0x00 the high byte
    m.write(0x00FF, 0x78);
    m.write(0x0000, 0x05);
    assert_eq!(m.cpu.read_operand_address(Mode::IndirectX), (0x0578, false));
    m.write(0x0040, 0xF0);
    m.write(0x0041, 0x01);
    m.cpu.y.store(0x20);
    assert_eq!(m.cpu.read_operand_address(Mode::IndirectY), (0x0210, true));
}

#[test]
fn relative_targets_from_next_instruction() {
    let mut m = machine_with(0x0300, &[0xFE]);
    assert_eq!(m.cpu.read_operand_address(Mode::Relative), (0x02FF, false));
    assert_eq!(m.cpu.pc.load(), 0x0301);
}

#[test]
fn adc_absolute_x_page_cross_costs_a_cycle() {
    let mut m = machine_with(0x0200, &[0x7D, 0xFF, 0x00]);
    m.cpu.x.store(0x01);
    m.write(0x0100, 0x07);
    m.cpu.tick().unwrap();
    assert_eq!(m.cpu.a.load(), 0x07);
    assert_eq!(m.cpu.skip_ticks, 5);
}

#[test]
fn beq_taken_across_page_costs_four() {
    let mut m = machine_with(0x00F0, &[0xF0, 0x20]);
    m.cpu.p.store(ZERO);
    m.cpu.tick().unwrap();
    assert_eq!(m.cpu.pc.load(), 0x0112);
    assert_eq!(m.cpu.skip_ticks, 4);
    assert_eq!(m.cpu.debug, Some(Mnemonic::Beq));
}

#[test]
fn beq_taken_same_page_costs_three() {
    let mut m = machine_with(0x00F0, &[0xF0, 0x02]);
    m.cpu.p.store(ZERO);
    m.cpu.tick().unwrap();
    assert_eq!(m.cpu.pc.load(), 0x00F4);
    assert_eq!(m.cpu.skip_ticks, 3);
}

#[test]
fn beq_not_taken_costs_two() {
    let mut m = machine_with(0x00F0, &[0xF0, 0x20]);
    m.cpu.tick().unwrap();
    assert_eq!(m.cpu.pc.load(), 0x00F2);
    assert_eq!(m.cpu.skip_ticks, 2);
}

#[test]
fn branches_test_their_flags() {
    // (opcode, status that takes the branch, status that does not)
    let cases: [(u8, u8, u8); 8] = [
        (0x90, 0, CARRY),
        (0xB0, CARRY, 0),
        (0xF0, ZERO, 0),
        (0xD0, 0, ZERO),
        (0x30, NEGATIVE, 0),
        (0x10, 0, NEGATIVE),
        (0x70, OVERFLOW, 0),
        (0x50, 0, OVERFLOW),
    ];
    for (opcode, taken, not_taken) in cases {
        let mut m = machine_with(0x0010, &[opcode, 0x04]);
        m.cpu.p.store(taken);
        m.cpu.tick().unwrap();
        assert_eq!(m.cpu.pc.load(), 0x0016, "opcode {:#04x} taken", opcode);
        assert_eq!(m.cpu.skip_ticks, 3);
        let mut m = machine_with(0x0010, &[opcode, 0x04]);
        m.cpu.p.store(not_taken);
        m.cpu.tick().unwrap();
        assert_eq!(m.cpu.pc.load(), 0x0012, "opcode {:#04x} not taken", opcode);
        assert_eq!(m.cpu.skip_ticks, 2);
    }
}

#[test]
fn bit_sets_flags_from_operand() {
    let mut m = machine_with(0x0000, &[0x24, 0x40]);
    m.write(0x0040, 0xC0);
    m.cpu.a.store(0x01);
    m.cpu.tick().unwrap();
    assert_eq!(m.cpu.a.load(), 0x01);
    let p = m.cpu.p.load();
    assert_eq!(p & ZERO, ZERO);
    assert_eq!(p & OVERFLOW, OVERFLOW);
    assert_eq!(p & NEGATIVE, NEGATIVE);
    assert_eq!(m.cpu.skip_ticks, 3);
}

#[test]
fn brk_pushes_state_and_jumps_through_vector() {
    let mut m = machine_with(0x0300, &[0x00, 0xEA]);
    m.cpu.sp.store(0xFF);
    m.cpu.p.store(CARRY | BREAK);
    m.cpu.tick().unwrap();
    // the vector at 0xFFFE is unmapped on this console and reads 0
    assert_eq!(m.cpu.pc.load(), 0x0000);
    assert_eq!(m.read(0x01FF), 0x03);
    assert_eq!(m.read(0x01FE), 0x02);
    assert_eq!(m.read(0x01FD), CARRY | INTERRUPT_DISABLE | BREAK);
    assert_eq!(m.cpu.sp.load(), 0xFC);
    assert_eq!(m.cpu.p.load(), CARRY | INTERRUPT_DISABLE);
    assert_eq!(m.cpu.skip_ticks, 7);
}

#[test]
fn clear_instructions_clear_one_flag() {
    let cases: [(u8, u8); 4] = [
        (0x18, CARRY),
        (0xD8, 0b0000_1000),
        (0x58, INTERRUPT_DISABLE),
        (0xB8, OVERFLOW),
    ];
    for (opcode, flag) in cases {
        let mut m = machine_with(0x0000, &[opcode]);
        m.cpu.p.store(0xFF);
        m.cpu.tick().unwrap();
        assert_eq!(m.cpu.p.load(), 0xFF & !flag);
        assert_eq!(m.cpu.skip_ticks, 2);
    }
}

#[test]
fn unknown_opcode_is_a_decode_failure() {
    let mut m = machine_with(0x0000, &[0x02]);
    assert_eq!(m.cpu.tick(), Err(DecodeError { opcode: 0x02 }));
    assert_eq!(m.cpu.debug, None);
}

#[test]
fn opcode_table_lookup() {
    assert_eq!(
        nes::cpu::Cpu::get_instruction(0x69),
        Some(Instruction { mnemonic: Mnemonic::Adc, mode: Mode::Immediate, cycles: 2 })
    );
    assert_eq!(
        nes::cpu::Cpu::get_instruction(0x1E),
        Some(Instruction { mnemonic: Mnemonic::Asl, mode: Mode::AbsoluteX, cycles: 7 })
    );
    assert_eq!(nes::cpu::Cpu::get_instruction(0xFF), None);
    assert_eq!(Mnemonic::Clv.name(), "CLV");
}

#[test]
fn push_word_then_pop_word() {
    let mut m = Bus::new();
    m.cpu.sp.store(0xFD);
    m.cpu.push_word(0x1234);
    assert_eq!(m.cpu.sp.load(), 0xFB);
    assert_eq!(m.read(0x01FD), 0x12);
    assert_eq!(m.read(0x01FC), 0x34);
    assert_eq!(m.cpu.pop_word(), 0x1234);
    assert_eq!(m.cpu.sp.load(), 0xFD);
}

#[test]
fn stack_pointer_wraps_within_page() {
    let mut m = Bus::new();
    m.cpu.push(0xAB);
    assert_eq!(m.read(0x0100), 0xAB);
    assert_eq!(m.cpu.sp.load(), 0xFF);
    assert_eq!(m.cpu.pop(), 0xAB);
    assert_eq!(m.cpu.sp.load(), 0x00);
}

#[test]
fn reset_settles_for_five_ticks() {
    let mut m = machine_with(0x0000, &[0x18]);
    m.cpu.pc.store(0x0123);
    m.cpu.reset();
    // nothing answers at 0xFFFC on this console, so the vector reads 0
    assert_eq!(m.cpu.pc.load(), 0x0000);
    for left in (0..5).rev() {
        m.cpu.tick().unwrap();
        assert_eq!(m.cpu.skip_ticks, left);
        assert_eq!(m.cpu.pc.load(), 0x0000);
        assert_eq!(m.cpu.debug, None);
    }
    m.cpu.tick().unwrap();
    assert_eq!(m.cpu.debug, Some(Mnemonic::Clc));
    assert_eq!(m.cpu.pc.load(), 0x0001);
}

#[test]
fn next_word_is_little_endian() {
    let mut m = machine_with(0x0010, &[0x34, 0x12]);
    assert_eq!(m.cpu.next_word(), 0x1234);
    assert_eq!(m.cpu.pc.load(), 0x0012);
    assert_eq!(m.cpu.read_word(0x0010), 0x1234);
}

#[test]
fn flag_access_touches_one_bit() {
    let mut m = Bus::new();
    m.cpu.p.store(0b1010_0101);
    m.cpu.set_flag(Flag::Zero, true);
    assert_eq!(m.cpu.p.load(), 0b1010_0111);
    m.cpu.set_flag(Flag::Negative, false);
    assert_eq!(m.cpu.p.load(), 0b0010_0111);
    assert!(m.cpu.get_flag(Flag::Push));
    assert!(!m.cpu.get_flag(Flag::Overflow));
}
