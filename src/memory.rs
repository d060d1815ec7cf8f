use vstd::prelude::*;
use crate::bus::{BusRead, BusWrite};

verus! {

/// Size in bytes of the work RAM.
pub const SIZE: usize = 2 * 1024;

/// Highest address that the work RAM answers to; above it the bus moves on
/// to the next device.
pub const LAST_ADDRESS: u16 = 0x1FFF;

/// Whether the work RAM claims `addr`.
pub open spec fn ram_claims(addr: u16) -> bool {
    addr <= LAST_ADDRESS
}

/// The cell of the work RAM that `addr` reaches: its low 11 bits, so that
/// the 2 KiB array appears four times in 0x0000..=0x1FFF.
pub open spec fn ram_cell(addr: u16) -> int {
    (addr & 0x07FF) as int
}

/// The work RAM: 2 KiB mirrored four times over 0x0000..=0x1FFF.
pub struct Memory {
    pub data: [u8; SIZE],
}

impl View for Memory {
    type V = Seq<u8>;

    open spec fn view(&self) -> Seq<u8> {
        self.data@
    }
}

impl Memory {
    pub fn new() -> (r: Memory)
        ensures
            r@ == Seq::new(SIZE as nat, |i: int| 0u8),
    {
        let r = Memory { data: [0; SIZE] };
        assert(r@ =~= Seq::new(SIZE as nat, |i: int| 0u8));
        r
    }
}

impl BusRead for Memory {
    open spec fn read_spec(state: Seq<u8>, addr: u16) -> Option<u8> {
        if ram_claims(addr) {
            Some(state[ram_cell(addr)])
        } else {
            None
        }
    }

    fn read(&self, addr: u16) -> (r: Option<u8>) {
        if addr <= LAST_ADDRESS {
            assert(addr & 0x07FF < 0x0800) by (bit_vector);
            Some(self.data[(addr & 0x07FF) as usize])
        } else {
            None
        }
    }
}

impl BusWrite for Memory {
    open spec fn write_spec(state: Seq<u8>, addr: u16, value: u8) -> Option<Seq<u8>> {
        if ram_claims(addr) {
            Some(state.update(ram_cell(addr), value))
        } else {
            None
        }
    }

    fn write(&mut self, addr: u16, value: u8) -> (accepted: bool) {
        if addr <= LAST_ADDRESS {
            assert(addr & 0x07FF < 0x0800) by (bit_vector);
            self.data[(addr & 0x07FF) as usize] = value;
            true
        } else {
            false
        }
    }
}

} // verus!
