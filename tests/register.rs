use nes::register::Register;

#[test]
fn byte_register_bits() {
    let mut r: Register<u8> = Register::default();
    assert_eq!(r.load(), 0);
    r.store(0b0101_0000);
    r.set_bit(0);
    assert_eq!(r.load(), 0b0101_0001);
    r.clear_bit(4);
    assert_eq!(r.load(), 0b0100_0001);
    r.store_bit(7, 3);
    assert_eq!(r.load(), 0b1100_0001);
    r.store_bit(6, 2);
    assert_eq!(r.load(), 0b1000_0001);
    assert_eq!(r.load_bit(7), 1);
    assert_eq!(r.load_bit(6), 0);
    r.clear();
    assert_eq!(r.load(), 0);
}

#[test]
fn byte_register_wraps() {
    let mut r: Register<u8> = Register::default();
    r.sub(1);
    assert_eq!(r.load(), 0xFF);
    r.add(2);
    assert_eq!(r.load(), 0x01);
    assert_eq!(Register::<u8>::BITS, 8);
}

#[test]
fn word_register_bits_and_wrap() {
    let mut r: Register<u16> = Register::default();
    r.set_bit(15);
    assert_eq!(r.load(), 0x8000);
    assert_eq!(r.load_bit(15), 1);
    r.store_bit(0, 1);
    assert_eq!(r.load(), 0x8001);
    r.clear_bit(15);
    assert_eq!(r.load(), 0x0001);
    r.store(0xFFFF);
    r.add(2);
    assert_eq!(r.load(), 0x0001);
    r.sub(3);
    assert_eq!(r.load(), 0xFFFE);
    r.clear();
    assert_eq!(r.load(), 0);
    assert_eq!(Register::<u16>::BITS, 16);
}
