use nes::bus::{Bus, BusInterface, BusRead, BusWrite, Device};
use nes::memory::Memory;

#[test]
fn ram_is_mirrored_four_times() {
    let mut m = Bus::new();
    m.write(0x0000, 0x42);
    assert_eq!(m.read(0x0800), 0x42);
    assert_eq!(m.read(0x1000), 0x42);
    assert_eq!(m.read(0x1800), 0x42);
    m.write(0x1FFF, 0x17);
    assert_eq!(m.read(0x07FF), 0x17);
}

#[test]
fn unmapped_reads_zero_and_drops_writes() {
    let mut m = Bus::new();
    assert_eq!(m.read(0x2000), 0);
    assert_eq!(m.read(0xFFFF), 0);
    let before = match &m.cpu.bus.devices[0] {
        Device::Memory(ram) => ram.data,
    };
    m.write(0x2000, 0x99);
    m.write(0x8000, 0x99);
    let after = match &m.cpu.bus.devices[0] {
        Device::Memory(ram) => ram.data,
    };
    assert_eq!(before, after);
    assert_eq!(m.read(0x2000), 0);
}

#[test]
fn empty_bus_answers_zero() {
    let mut bus = BusInterface::new();
    bus.write(0x0000, 0x55);
    assert_eq!(bus.read(0x0000), 0);
    assert_eq!(bus.read_word(0x0000), 0);
}

#[test]
fn first_device_to_claim_wins() {
    let mut bus = BusInterface::new();
    bus.devices.push(Device::Memory(Memory::new()));
    bus.devices.push(Device::Memory(Memory::new()));
    bus.readers.push(1);
    bus.readers.push(0);
    bus.writers.push(0);
    bus.writers.push(1);
    bus.write(0x0005, 0x66);
    // the write went to device 0, the read asks device 1 first
    assert_eq!(bus.read(0x0005), 0);
    bus.readers.remove(0);
    assert_eq!(bus.read(0x0005), 0x66);
}

#[test]
fn dangling_handles_claim_nothing() {
    let mut bus = BusInterface::new();
    bus.readers.push(3);
    bus.writers.push(3);
    bus.write(0x0001, 0x10);
    assert_eq!(bus.read(0x0001), 0);
}

#[test]
fn read_word_is_little_endian_and_wraps() {
    let mut m = Bus::new();
    m.write(0x0010, 0xCD);
    m.write(0x0011, 0xAB);
    assert_eq!(m.cpu.bus.read_word(0x0010), 0xABCD);
    // 0xFFFF is unmapped and its successor wraps to 0x0000
    m.write(0x0000, 0x12);
    assert_eq!(m.cpu.bus.read_word(0xFFFF), 0x1200);
}

#[test]
fn memory_device_claims_low_addresses_only() {
    let mut ram = Memory::new();
    assert!(ram.write(0x1801, 0x33));
    assert_eq!(ram.read(0x0001), Some(0x33));
    assert_eq!(ram.data[1], 0x33);
    assert!(!ram.write(0x2000, 0x44));
    assert_eq!(ram.read(0x2000), None);
}
