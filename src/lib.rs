use vstd::prelude::*;

pub mod bus;
pub mod cpu;
pub mod flags;
pub mod memory;
pub mod opcodes;
pub mod ppu;
pub mod register;
pub mod state;

use crate::bus::{Bus, BusView};
use crate::memory::SIZE;
use crate::opcodes::Mnemonic;
use crate::ppu::TICKS_PER_CYCLE;
use crate::state::{CpuState, DecodeError};

verus! {

/// CPU cycles in one video frame.
pub const CYCLES_PER_FRAME: u64 = 29781;

/// The trace text of the last decoded instruction: its name, or nothing
/// before the first one.
pub open spec fn trace_text(debug: Option<Mnemonic>) -> Seq<char> {
    match debug {
        Some(m) => m.name()@,
        None => Seq::empty(),
    }
}

/// The machine as a host drives it: reset, single ticks, whole frames, and
/// direct access to the bus.
pub struct Nes {
    pub remaining_cycles: u64,
    pub bus: Bus,
}

impl Nes {
    pub fn new() -> (r: Nes)
        ensures
            r.bus.cpu@ == CpuState::power_on(BusView::ram_only(Seq::new(SIZE as nat, |i: int| 0u8))),
            r.remaining_cycles == 0,
    {
        Nes { remaining_cycles: 0, bus: Bus::new() }
    }

    pub fn reset(&mut self)
        ensures
            final(self).bus.cpu@ == old(self).bus.cpu@.reset_spec(),
            final(self).remaining_cycles == old(self).remaining_cycles,
    {
        self.bus.cpu.reset();
    }

    /// One CPU tick; returns the name of the last decoded instruction.
    pub fn tick_cpu(&mut self) -> (r: Result<String, DecodeError>)
        ensures
            ({
                let (s, t) = old(self).bus.cpu@.tick_spec();
                &&& final(self).bus.cpu@ == s
                &&& final(self).remaining_cycles == old(self).remaining_cycles
                &&& match t {
                    Ok(_) => r is Ok && r->Ok_0@ == trace_text(s.debug),
                    Err(e) => r == Err::<String, DecodeError>(e),
                }
            }),
    {
        match self.bus.cpu.tick() {
            Err(e) => Err(e),
            Ok(()) => match self.bus.cpu.debug {
                Some(m) => Ok(m.name().to_owned()),
                None => Ok(String::new()),
            },
        }
    }

    /// One frame: a fixed budget of CPU ticks, each followed by the picture
    /// unit's ticks for that cycle. Stops at the first decode failure.
    pub fn tick_frame(&mut self) -> (r: Result<(), DecodeError>)
        ensures
            (final(self).bus.cpu@, r) == old(self).bus.cpu@.run_spec(CYCLES_PER_FRAME as nat),
            r is Ok ==> final(self).remaining_cycles == 0,
    {
        let ghost start = self.bus.cpu@;
        self.remaining_cycles = CYCLES_PER_FRAME;
        while self.remaining_cycles > 0
            invariant
                start == old(self).bus.cpu@,
                self.bus.cpu@.run_spec(self.remaining_cycles as nat) == start.run_spec(
                    CYCLES_PER_FRAME as nat,
                ),
            decreases self.remaining_cycles,
        {
            if let Err(e) = self.bus.cpu.tick() {
                return Err(e);
            }
            let ghost ticked = self.bus.cpu@;
            let ghost left = self.remaining_cycles;
            let mut i: u64 = 0;
            while i < TICKS_PER_CYCLE
                invariant
                    self.bus.cpu@ == ticked,
                    self.remaining_cycles == left,
                decreases TICKS_PER_CYCLE - i,
            {
                self.bus.ppu.tick();
                i += 1;
            }
            self.remaining_cycles -= 1;
        }
        Ok(())
    }

    pub fn write(&mut self, addr: u16, value: u8)
        ensures
            final(self).bus.cpu@ == (CpuState {
                bus: old(self).bus.cpu@.bus.write(addr, value),
                ..old(self).bus.cpu@
            }),
            final(self).remaining_cycles == old(self).remaining_cycles,
    {
        self.bus.write(addr, value);
    }

    pub fn read(&mut self, addr: u16) -> (r: u8)
        ensures
            r == old(self).bus.cpu@.bus.read(addr),
            final(self).bus.cpu@ == old(self).bus.cpu@,
            final(self).remaining_cycles == old(self).remaining_cycles,
    {
        self.bus.read(addr)
    }
}

} // verus!
