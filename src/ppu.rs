use vstd::prelude::*;

verus! {

/// Picture-unit ticks per CPU cycle.
pub const TICKS_PER_CYCLE: u64 = 3;

/// The picture-generation unit: a companion device that is clocked with the
/// processor and does no work yet.
#[derive(Clone, Copy, Debug, PartialEq, Eq)]
pub struct Ppu;

impl Ppu {
    pub fn new() -> Ppu {
        Ppu
    }

    pub fn tick(&mut self)
        ensures
            *final(self) == *old(self),
    {
    }
}

} // verus!
