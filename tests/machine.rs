use nes::ppu::Ppu;
use nes::state::DecodeError;
use nes::Nes;

#[test]
fn tick_cpu_reports_last_mnemonic() {
    let mut nes = Nes::new();
    nes.write(0x0000, 0x69);
    nes.write(0x0001, 0x01);
    assert_eq!(nes.tick_cpu(), Ok(String::from("ADC")));
    // the following ticks count the instruction down and keep the trace
    assert_eq!(nes.tick_cpu(), Ok(String::from("ADC")));
    assert_eq!(nes.bus.cpu.a.load(), 0x01);
}

#[test]
fn tick_cpu_before_any_instruction_is_empty() {
    let mut nes = Nes::new();
    nes.reset();
    assert_eq!(nes.tick_cpu(), Ok(String::new()));
}

#[test]
fn tick_cpu_surfaces_decode_failure() {
    let mut nes = Nes::new();
    nes.write(0x0000, 0xFF);
    assert_eq!(nes.tick_cpu(), Err(DecodeError { opcode: 0xFF }));
}

#[test]
fn tick_frame_runs_full_budget() {
    let mut nes = Nes::new();
    nes.reset();
    // cleared RAM is all BRK, whose vector leads back to 0x0000
    assert_eq!(nes.tick_frame(), Ok(()));
    assert_eq!(nes.remaining_cycles, 0);
    assert_eq!(nes.read(0x0000), 0x00);
}

#[test]
fn tick_frame_stops_on_decode_failure() {
    let mut nes = Nes::new();
    nes.write(0x0000, 0x18);
    nes.write(0x0001, 0x02);
    assert_eq!(nes.tick_frame(), Err(DecodeError { opcode: 0x02 }));
    assert!(nes.remaining_cycles > 0);
    assert_eq!(nes.bus.cpu.pc.load(), 0x0002);
}

#[test]
fn nes_read_write_reach_the_bus() {
    let mut nes = Nes::new();
    nes.write(0x0803, 0x5A);
    assert_eq!(nes.read(0x0003), 0x5A);
    assert_eq!(nes.read(0x4000), 0);
}

#[test]
fn ppu_tick_changes_nothing() {
    let mut ppu = Ppu::new();
    ppu.tick();
    assert_eq!(ppu, Ppu::new());
}
