use vstd::prelude::*;
use crate::register::{bit_of8, lemma_with_bit8, with_bit8};

verus! {

/// The bits of the status register.
#[derive(Clone, Copy, Debug, PartialEq, Eq)]
pub enum Flag {
    Carry,
    Zero,
    InterruptDisable,
    Decimal,
    Break,
    Push,
    Overflow,
    Negative,
}

impl Flag {
    /// The position of the flag in the status register.
    pub open spec fn spec_position(self) -> u8 {
        match self {
            Flag::Carry => 0,
            Flag::Zero => 1,
            Flag::InterruptDisable => 2,
            Flag::Decimal => 3,
            Flag::Break => 4,
            Flag::Push => 5,
            Flag::Overflow => 6,
            Flag::Negative => 7,
        }
    }

    #[verifier::when_used_as_spec(spec_position)]
    pub fn position(self) -> (r: u8)
        ensures
            r == self.spec_position(),
            r < 8,
    {
        match self {
            Flag::Carry => 0,
            Flag::Zero => 1,
            Flag::InterruptDisable => 2,
            Flag::Decimal => 3,
            Flag::Break => 4,
            Flag::Push => 5,
            Flag::Overflow => 6,
            Flag::Negative => 7,
        }
    }
}

/// Whether flag `f` is set in the status byte `p`.
pub open spec fn flag_of(p: u8, f: Flag) -> bool {
    bit_of8(p, f.position()) == 1
}

/// The status byte `p` with flag `f` set to `on` and every other bit kept.
pub open spec fn with_flag(p: u8, f: Flag, on: bool) -> u8 {
    with_bit8(p, f.position(), if on { 1 } else { 0 })
}

/// The status byte `p` with Zero and Negative set from the result `v`.
pub open spec fn with_zn(p: u8, v: u8) -> u8 {
    with_flag(with_flag(p, Flag::Zero, v == 0), Flag::Negative, v >= 0x80)
}

/// Setting a flag gives it the requested value and leaves every other flag
/// of the status register as it was.
pub proof fn lemma_with_flag(p: u8, f: Flag, on: bool, g: Flag)
    ensures
        flag_of(with_flag(p, f, on), f) == on,
        g != f ==> flag_of(with_flag(p, f, on), g) == flag_of(p, g),
{
    let value: u8 = if on {
        1
    } else {
        0
    };
    if g != f {
        lemma_with_bit8(p, f.position(), value, g.position());
    } else {
        let other: u8 = if f.position() == 0 {
            1
        } else {
            0
        };
        lemma_with_bit8(p, f.position(), value, other);
    }
}

} // verus!
