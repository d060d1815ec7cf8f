use vstd::prelude::*;

verus! {

/// A fixed-width value holder: the storage cell behind every CPU register.
///
/// Instantiated at 8 bits (accumulator, index registers, stack pointer,
/// status flags) and at 16 bits (program counter).
pub struct Register<T> {
    data: T,
}

impl<T> View for Register<T> {
    type V = T;

    closed spec fn view(&self) -> T {
        self.data
    }
}

/// Bit `pos` of `x`, as 0 or 1.
pub open spec fn bit_of8(x: u8, pos: u8) -> u8 {
    (x >> pos) & 1
}

/// Bit `pos` of `x`, as 0 or 1.
pub open spec fn bit_of16(x: u16, pos: u8) -> u16 {
    (x >> pos) & 1
}

/// `x` with bit `pos` set when `value` is odd and cleared when it is even.
pub open spec fn with_bit8(x: u8, pos: u8, value: u8) -> u8 {
    if value % 2 == 1 {
        x | (1u8 << pos)
    } else {
        x & !(1u8 << pos)
    }
}

/// `x` with bit `pos` set when `value` is odd and cleared when it is even.
pub open spec fn with_bit16(x: u16, pos: u8, value: u16) -> u16 {
    if value % 2 == 1 {
        x | (1u16 << pos)
    } else {
        x & !(1u16 << pos)
    }
}

impl Register<u8> {
    pub const BITS: usize = 8;

    pub fn store(&mut self, value: u8)
        ensures
            final(self)@ == value,
    {
        self.data = value;
    }

    pub fn store_bit(&mut self, pos: u8, value: u8)
        requires
            pos < 8,
        ensures
            final(self)@ == with_bit8(old(self)@, pos, value),
    {
        let old_data = self.data;
        self.data = self.data & !(1u8 << pos) | ((value & 1) << pos);
        assert(old_data & !(1u8 << pos) | ((value & 1) << pos) == if value % 2 == 1 {
            old_data | (1u8 << pos)
        } else {
            old_data & !(1u8 << pos)
        }) by (bit_vector)
            requires
                pos < 8,
        ;
    }

    pub fn set_bit(&mut self, pos: u8)
        requires
            pos < 8,
        ensures
            final(self)@ == old(self)@ | (1u8 << pos),
    {
        self.store_bit(pos, 1);
    }

    pub fn clear_bit(&mut self, pos: u8)
        requires
            pos < 8,
        ensures
            final(self)@ == old(self)@ & !(1u8 << pos),
    {
        self.store_bit(pos, 0);
    }

    pub fn clear(&mut self)
        ensures
            final(self)@ == 0,
    {
        self.data = 0x0;
    }

    pub fn load(&self) -> (r: u8)
        ensures
            r == self@,
    {
        self.data
    }

    pub fn load_bit(&self, pos: u8) -> (r: u8)
        requires
            pos < 8,
        ensures
            r == bit_of8(self@, pos),
            r <= 1,
    {
        let data = self.data;
        let r = (data >> pos) & 1;
        assert(r <= 1) by (bit_vector)
            requires
                r == (data >> pos) & 1,
        ;
        r
    }

    pub fn add(&mut self, value: u8)
        ensures
            final(self)@ == (old(self)@ + value) % 256,
    {
        self.data = self.data.wrapping_add(value);
    }

    pub fn sub(&mut self, value: u8)
        ensures
            final(self)@ == (old(self)@ - value) % 256,
    {
        self.data = self.data.wrapping_sub(value);
    }
}

impl Default for Register<u8> {
    fn default() -> (r: Self)
        ensures
            r@ == 0,
    {
        Register { data: 0 }
    }
}

impl Register<u16> {
    pub const BITS: usize = 16;

    pub fn store(&mut self, value: u16)
        ensures
            final(self)@ == value,
    {
        self.data = value;
    }

    pub fn store_bit(&mut self, pos: u8, value: u16)
        requires
            pos < 16,
        ensures
            final(self)@ == with_bit16(old(self)@, pos, value),
    {
        let old_data = self.data;
        self.data = self.data & !(1u16 << pos) | ((value & 1) << pos);
        assert(old_data & !(1u16 << pos) | ((value & 1) << pos) == if value % 2 == 1 {
            old_data | (1u16 << pos)
        } else {
            old_data & !(1u16 << pos)
        }) by (bit_vector)
            requires
                pos < 16,
        ;
    }

    pub fn set_bit(&mut self, pos: u8)
        requires
            pos < 16,
        ensures
            final(self)@ == old(self)@ | (1u16 << pos),
    {
        self.store_bit(pos, 1);
    }

    pub fn clear_bit(&mut self, pos: u8)
        requires
            pos < 16,
        ensures
            final(self)@ == old(self)@ & !(1u16 << pos),
    {
        self.store_bit(pos, 0);
    }

    pub fn clear(&mut self)
        ensures
            final(self)@ == 0,
    {
        self.data = 0x0;
    }

    pub fn load(&self) -> (r: u16)
        ensures
            r == self@,
    {
        self.data
    }

    pub fn load_bit(&self, pos: u8) -> (r: u16)
        requires
            pos < 16,
        ensures
            r == bit_of16(self@, pos),
            r <= 1,
    {
        let data = self.data;
        let r = (data >> pos) & 1;
        assert(r <= 1) by (bit_vector)
            requires
                r == (data >> pos) & 1,
        ;
        r
    }

    pub fn add(&mut self, value: u16)
        ensures
            final(self)@ == (old(self)@ + value) % 65536,
    {
        self.data = self.data.wrapping_add(value);
    }

    pub fn sub(&mut self, value: u16)
        ensures
            final(self)@ == (old(self)@ - value) % 65536,
    {
        self.data = self.data.wrapping_sub(value);
    }
}

impl Default for Register<u16> {
    fn default() -> (r: Self)
        ensures
            r@ == 0,
    {
        Register { data: 0 }
    }
}

/// Storing bit `pos` of an 8-bit value sets that bit to the lowest bit of
/// the stored value and leaves every other bit as it was.
pub proof fn lemma_with_bit8(x: u8, pos: u8, value: u8, other: u8)
    requires
        pos < 8,
        other < 8,
        other != pos,
    ensures
        bit_of8(with_bit8(x, pos, value), pos) == value % 2,
        bit_of8(with_bit8(x, pos, value), other) == bit_of8(x, other),
{
    assert(((if value % 2 == 1 { x | (1u8 << pos) } else { x & !(1u8 << pos) }) >> pos) & 1
        == value % 2) by (bit_vector)
        requires
            pos < 8,
    ;
    assert(((if value % 2 == 1 { x | (1u8 << pos) } else { x & !(1u8 << pos) }) >> other) & 1
        == (x >> other) & 1) by (bit_vector)
        requires
            pos < 8,
            other < 8,
            other != pos,
    ;
}

/// Storing bit `pos` of a 16-bit value sets that bit to the lowest bit of
/// the stored value and leaves every other bit as it was.
pub proof fn lemma_with_bit16(x: u16, pos: u8, value: u16, other: u8)
    requires
        pos < 16,
        other < 16,
        other != pos,
    ensures
        bit_of16(with_bit16(x, pos, value), pos) == value % 2,
        bit_of16(with_bit16(x, pos, value), other) == bit_of16(x, other),
{
    assert(((if value % 2 == 1 { x | (1u16 << pos) } else { x & !(1u16 << pos) }) >> pos) & 1
        == value % 2) by (bit_vector)
        requires
            pos < 16,
    ;
    assert(((if value % 2 == 1 { x | (1u16 << pos) } else { x & !(1u16 << pos) }) >> other) & 1
        == (x >> other) & 1) by (bit_vector)
        requires
            pos < 16,
            other < 16,
            other != pos,
    ;
}

} // verus!
