use vstd::prelude::*;
use crate::bus::{BusView, lemma_ram_write_read, word, wrap16};
use crate::flags::{Flag, flag_of, with_flag, with_zn};
use crate::opcodes::{Instruction, Mnemonic, Mode, decode};

verus! {

/// The failure to decode an opcode that has no entry in the opcode table.
#[derive(Clone, Copy, Debug, PartialEq, Eq)]
pub struct DecodeError {
    pub opcode: u8,
}

/// The model of the processor: its registers, the cycles left of the
/// instruction in flight, the last decoded instruction, and the bus.
pub struct CpuState {
    pub bus: BusView,
    pub pc: u16,
    pub sp: u8,
    pub a: u8,
    pub x: u8,
    pub y: u8,
    pub p: u8,
    pub skip_ticks: u64,
    pub debug: Option<Mnemonic>,
}

/// The address of stack slot `sp`, on the fixed page 0x0100..=0x01FF.
pub open spec fn stack_addr(sp: u8) -> u16 {
    (0x0100 + sp) as u16
}

/// The signed value of an 8-bit branch offset.
pub open spec fn sign_extend(b: u8) -> int {
    if b >= 0x80 {
        b - 256
    } else {
        b as int
    }
}

/// Whether `a` and `b` lie on different 256-byte pages.
pub open spec fn crosses_page(a: u16, b: u16) -> bool {
    a / 256 != b / 256
}

/// The extra cycle charged for a page crossing.
pub open spec fn penalty(crossed: bool) -> u64 {
    if crossed {
        1
    } else {
        0
    }
}

impl CpuState {
    /// The processor as it comes up on `bus`: every register cleared, no
    /// instruction in flight, nothing decoded yet.
    pub open spec fn power_on(bus: BusView) -> CpuState {
        CpuState { bus: bus, pc: 0, sp: 0, a: 0, x: 0, y: 0, p: 0, skip_ticks: 0, debug: None }
    }

    /// The state after `v` is pushed: written at the stack slot, then the
    /// stack pointer moves down, wrapping within the page.
    pub open spec fn push_spec(self, v: u8) -> CpuState {
        CpuState {
            bus: self.bus.write(stack_addr(self.sp), v),
            sp: ((self.sp - 1) % 256) as u8,
            ..self
        }
    }

    /// The byte popped and the state after: the stack pointer moves up,
    /// wrapping within the page, then the slot is read.
    pub open spec fn pop_spec(self) -> (u8, CpuState) {
        let sp = ((self.sp + 1) % 256) as u8;
        (self.bus.read(stack_addr(sp)), CpuState { sp: sp, ..self })
    }

    /// The operand address that `mode` resolves to, whether indexing crossed
    /// a page, and the program counter after the operand bytes.
    pub open spec fn operand(self, mode: Mode) -> (u16, bool, u16) {
        let pc1 = wrap16(self.pc + 1);
        let pc2 = wrap16(self.pc + 2);
        let b1 = self.bus.read(self.pc);
        let b2 = self.bus.read(pc1);
        match mode {
            Mode::Immediate => (self.pc, false, pc1),
            Mode::ZeroPage => (b1 as u16, false, pc1),
            Mode::ZeroPageX => (((b1 + self.x) % 256) as u16, false, pc1),
            Mode::ZeroPageY => (((b1 + self.y) % 256) as u16, false, pc1),
            Mode::Relative => (wrap16(pc1 + sign_extend(b1)), false, pc1),
            Mode::Absolute => (word(b1, b2), false, pc2),
            Mode::AbsoluteX => {
                let base = word(b1, b2);
                let addr = wrap16(base + self.x);
                (addr, crosses_page(addr, base), pc2)
            },
            Mode::AbsoluteY => {
                let base = word(b1, b2);
                let addr = wrap16(base + self.y);
                (addr, crosses_page(addr, base), pc2)
            },
            Mode::Indirect => {
                let ptr = word(b1, b2);
                // the high byte comes from the start of the pointer's page
                // when the pointer sits at the end of it
                let hi_addr = if b1 == 0xFF {
                    word(0, b2)
                } else {
                    wrap16(ptr + 1)
                };
                (word(self.bus.read(ptr), self.bus.read(hi_addr)), false, pc2)
            },
            Mode::IndirectX => {
                let zp = b1 + self.x;
                let lo = self.bus.read((zp % 256) as u16);
                let hi = self.bus.read(((zp + 1) % 256) as u16);
                (word(lo, hi), false, pc1)
            },
            Mode::IndirectY => {
                let base = word(self.bus.read(b1 as u16), self.bus.read(((b1 + 1) % 256) as u16));
                let addr = wrap16(base + self.y);
                (addr, crosses_page(addr, base), pc1)
            },
            Mode::Accumulator | Mode::Implied => (0, false, self.pc),
        }
    }

    /// Add with carry: the 9-bit sum of A, the operand and the carry.
    pub open spec fn adc_spec(self, mode: Mode) -> (CpuState, u64) {
        let (addr, crossed, pc) = self.operand(mode);
        let m = self.bus.read(addr);
        let sum = self.a + m + if flag_of(self.p, Flag::Carry) {
            1int
        } else {
            0int
        };
        let r = (sum % 256) as u8;
        // signed overflow: both inputs share a sign that the result lacks
        let overflow = (self.a >= 0x80) == (m >= 0x80) && (r >= 0x80) != (self.a >= 0x80);
        let p = with_flag(
            with_flag(
                with_flag(with_flag(self.p, Flag::Carry, sum > 0xFF), Flag::Zero, r == 0),
                Flag::Overflow,
                overflow,
            ),
            Flag::Negative,
            r >= 0x80,
        );
        (CpuState { pc: pc, a: r, p: p, ..self }, penalty(crossed))
    }

    /// Bitwise and of A with the operand.
    pub open spec fn and_spec(self, mode: Mode) -> (CpuState, u64) {
        let (addr, crossed, pc) = self.operand(mode);
        let r = self.a & self.bus.read(addr);
        (CpuState { pc: pc, a: r, p: with_zn(self.p, r), ..self }, penalty(crossed))
    }

    /// Shift left by one, of A or of the operand in memory; bit 7 goes to
    /// Carry.
    pub open spec fn asl_spec(self, mode: Mode) -> (CpuState, u64) {
        if mode is Accumulator {
            let r = ((self.a * 2) % 256) as u8;
            let p = with_zn(with_flag(self.p, Flag::Carry, self.a >= 0x80), r);
            (CpuState { a: r, p: p, ..self }, 0)
        } else {
            let (addr, _, pc) = self.operand(mode);
            let m = self.bus.read(addr);
            let r = ((m * 2) % 256) as u8;
            let p = with_zn(with_flag(self.p, Flag::Carry, m >= 0x80), r);
            (CpuState { pc: pc, bus: self.bus.write(addr, r), p: p, ..self }, 0)
        }
    }

    /// Bit test: Zero from A and the operand, Overflow and Negative from
    /// bits 6 and 7 of the operand; A is kept.
    pub open spec fn bit_spec(self, mode: Mode) -> (CpuState, u64) {
        let (addr, _, pc) = self.operand(mode);
        let m = self.bus.read(addr);
        let p = with_flag(
            with_flag(with_flag(self.p, Flag::Zero, self.a & m == 0), Flag::Overflow, m & 0x40 != 0),
            Flag::Negative,
            m >= 0x80,
        );
        (CpuState { pc: pc, p: p, ..self }, 0)
    }

    /// A relative branch: the offset is consumed either way; when taken it
    /// costs one cycle more, and one more again when the target is on
    /// another page than the instruction that follows.
    pub open spec fn branch_spec(self, cond: bool) -> (CpuState, u64) {
        let (target, _, pc) = self.operand(Mode::Relative);
        if cond {
            (CpuState { pc: target, ..self }, if crosses_page(target, pc) {
                2
            } else {
                1
            })
        } else {
            (CpuState { pc: pc, ..self }, 0)
        }
    }

    /// Break: skip the padding byte, disable interrupts, push the return
    /// address high byte first, push the status with Break set, clear Break,
    /// and jump through the vector at 0xFFFE.
    pub open spec fn brk_spec(self) -> (CpuState, u64) {
        let ret = wrap16(self.pc + 1);
        let status = with_flag(with_flag(self.p, Flag::InterruptDisable, true), Flag::Break, true);
        let pushed = CpuState { pc: ret, p: status, ..self }.push_spec((ret / 256) as u8).push_spec(
            (ret % 256) as u8,
        ).push_spec(status);
        (
            CpuState {
                pc: pushed.bus.read_word(0xFFFE),
                p: with_flag(status, Flag::Break, false),
                ..pushed
            },
            0,
        )
    }

    /// Clear one flag.
    pub open spec fn clear_spec(self, f: Flag) -> (CpuState, u64) {
        (CpuState { p: with_flag(self.p, f, false), ..self }, 0)
    }

    /// The effect of running `mnemonic` in `mode`, and the cycles it adds
    /// to the base cost.
    pub open spec fn perform(self, mnemonic: Mnemonic, mode: Mode) -> (CpuState, u64) {
        match mnemonic {
            Mnemonic::Adc => self.adc_spec(mode),
            Mnemonic::And => self.and_spec(mode),
            Mnemonic::Asl => self.asl_spec(mode),
            Mnemonic::Bcc => self.branch_spec(!flag_of(self.p, Flag::Carry)),
            Mnemonic::Bcs => self.branch_spec(flag_of(self.p, Flag::Carry)),
            Mnemonic::Beq => self.branch_spec(flag_of(self.p, Flag::Zero)),
            Mnemonic::Bit => self.bit_spec(mode),
            Mnemonic::Bmi => self.branch_spec(flag_of(self.p, Flag::Negative)),
            Mnemonic::Bne => self.branch_spec(!flag_of(self.p, Flag::Zero)),
            Mnemonic::Bpl => self.branch_spec(!flag_of(self.p, Flag::Negative)),
            Mnemonic::Brk => self.brk_spec(),
            Mnemonic::Bvc => self.branch_spec(!flag_of(self.p, Flag::Overflow)),
            Mnemonic::Bvs => self.branch_spec(flag_of(self.p, Flag::Overflow)),
            Mnemonic::Clc => self.clear_spec(Flag::Carry),
            Mnemonic::Cld => self.clear_spec(Flag::Decimal),
            Mnemonic::Cli => self.clear_spec(Flag::InterruptDisable),
            Mnemonic::Clv => self.clear_spec(Flag::Overflow),
        }
    }

    /// Decode `opcode` (already fetched) and run it: the cycle counter is
    /// reloaded with the base cost plus the penalties, and the mnemonic is
    /// recorded. An opcode with no table entry is a decode failure.
    #[verifier::opaque]
    pub open spec fn execute_spec(self, opcode: u8) -> (CpuState, Result<(), DecodeError>) {
        match decode(opcode) {
            None => (self, Err(DecodeError { opcode: opcode })),
            Some(instruction) => {
                let (s, extra) = self.perform(instruction.mnemonic, instruction.mode);
                (
                    CpuState {
                        skip_ticks: (instruction.cycles + extra) as u64,
                        debug: Some(instruction.mnemonic),
                        ..s
                    },
                    Ok(()),
                )
            },
        }
    }

    /// One clock tick: count down the instruction in flight, or, at an
    /// instruction boundary, fetch the opcode at PC and execute it.
    pub open spec fn tick_spec(self) -> (CpuState, Result<(), DecodeError>) {
        if self.skip_ticks > 0 {
            (CpuState { skip_ticks: (self.skip_ticks - 1) as u64, ..self }, Ok(()))
        } else {
            CpuState { pc: wrap16(self.pc + 1), ..self }.execute_spec(self.bus.read(self.pc))
        }
    }

    /// `n` ticks in a row, stopping at the first decode failure.
    pub open spec fn run_spec(self, n: nat) -> (CpuState, Result<(), DecodeError>)
        decreases n,
    {
        if n == 0 {
            (self, Ok(()))
        } else {
            let (s, r) = self.tick_spec();
            if r is Err {
                (s, r)
            } else {
                s.run_spec((n - 1) as nat)
            }
        }
    }

    /// Reset: PC from the vector at 0xFFFC, and five cycles of settling
    /// before the first fetch.
    pub open spec fn reset_spec(self) -> CpuState {
        CpuState { pc: self.bus.read_word(0xFFFC), skip_ticks: 5, ..self }
    }
}

/// With the stack page backed by the work RAM, popping a word returns the
/// word last pushed, and the stack pointer comes back to where it was.
pub proof fn lemma_push_pop_word(s: CpuState, value: u16)
    requires
        s.bus.ram_first(),
    ensures
        ({
            let pushed = s.push_spec((value / 256) as u8).push_spec((value % 256) as u8);
            let (lo, t) = pushed.pop_spec();
            let (hi, u) = t.pop_spec();
            word(lo, hi) == value && u.sp == s.sp
        }),
{
    let hi = (value / 256) as u8;
    let lo = (value % 256) as u8;
    let first = stack_addr(s.sp);
    let s1 = s.push_spec(hi);
    let second = stack_addr(s1.sp);
    assert(first & 0x07FF == first) by (bit_vector)
        requires
            first < 0x0200,
    ;
    assert(second & 0x07FF == second) by (bit_vector)
        requires
            second < 0x0200,
    ;
    lemma_ram_write_read(s.bus, first, first, hi);
    lemma_ram_write_read(s1.bus, second, second, lo);
    lemma_ram_write_read(s1.bus, second, first, lo);
}

/// While an instruction is in flight, each tick only counts its cycles down.
pub proof fn lemma_count_down(s: CpuState, k: nat)
    requires
        k <= s.skip_ticks,
    ensures
        s.run_spec(k) == (CpuState { skip_ticks: (s.skip_ticks - k) as u64, ..s }, Ok::<
            (),
            DecodeError,
        >(())),
    decreases k,
{
    if k > 0 {
        let t = CpuState { skip_ticks: (s.skip_ticks - 1) as u64, ..s };
        lemma_count_down(t, (k - 1) as nat);
    }
}

/// Once the cycles in flight are spent, the next tick fetches the opcode at
/// PC and executes it.
pub proof fn lemma_fetch_after_count_down(s: CpuState)
    ensures
        s.run_spec((s.skip_ticks + 1) as nat) == (CpuState {
            pc: wrap16(s.pc + 1),
            skip_ticks: 0,
            ..s
        }).execute_spec(s.bus.read(s.pc)),
    decreases s.skip_ticks,
{
    if s.skip_ticks > 0 {
        let t = CpuState { skip_ticks: (s.skip_ticks - 1) as u64, ..s };
        lemma_fetch_after_count_down(t);
        assert(CpuState { pc: wrap16(t.pc + 1), skip_ticks: 0, ..t } == CpuState {
            pc: wrap16(s.pc + 1),
            skip_ticks: 0,
            ..s
        });
    } else {
        let (t, r) = s.tick_spec();
        assert(t.run_spec(0) == (t, Ok::<(), DecodeError>(())));
        reveal(CpuState::execute_spec);
    }
}

/// After a reset, PC holds the little-endian word at 0xFFFC, the next five
/// ticks execute nothing, and the sixth fetches the opcode at that PC.
pub proof fn lemma_reset_settles(s: CpuState)
    ensures
        ({
            let r = s.reset_spec();
            &&& r.pc == s.bus.read_word(0xFFFC)
            &&& forall|k: nat|
                k <= 5 ==> #[trigger] r.run_spec(k) == (CpuState {
                    skip_ticks: (5 - k) as u64,
                    ..r
                }, Ok::<(), DecodeError>(()))
            &&& r.run_spec(6) == (CpuState {
                pc: wrap16(r.pc + 1),
                skip_ticks: 0,
                ..r
            }).execute_spec(r.bus.read(r.pc))
        }),
{
    let r = s.reset_spec();
    assert forall|k: nat| k <= 5 implies #[trigger] r.run_spec(k) == (CpuState {
        skip_ticks: (5 - k) as u64,
        ..r
    }, Ok::<(), DecodeError>(())) by {
        lemma_count_down(r, k);
    }
    lemma_fetch_after_count_down(r);
}

/// BEQ costs its base 2 cycles when Zero is clear and moves past its offset;
/// when Zero is set it jumps to the target and costs 3, or 4 when the target
/// lies on another page than the instruction that follows.
pub proof fn lemma_beq_cost(s: CpuState)
    requires
        s.skip_ticks == 0,
        s.bus.read(s.pc) == 0xF0,
    ensures
        ({
            let (t, r) = s.tick_spec();
            let next = wrap16(s.pc + 2);
            let target = wrap16(next + sign_extend(s.bus.read(wrap16(s.pc + 1))));
            &&& r is Ok
            &&& t.pc == if flag_of(s.p, Flag::Zero) {
                target
            } else {
                next
            }
            &&& t.skip_ticks == if !flag_of(s.p, Flag::Zero) {
                2u64
            } else if crosses_page(target, next) {
                4
            } else {
                3
            }
        }),
{
    let fetched = CpuState { pc: wrap16(s.pc + 1), ..s };
    assert(wrap16(wrap16(s.pc + 1) + 1) == wrap16(s.pc + 2));
    assert(decode(0xF0) == Some(
        Instruction { mnemonic: Mnemonic::Beq, mode: Mode::Relative, cycles: 2 },
    ));
    assert(fetched.perform(Mnemonic::Beq, Mode::Relative) == fetched.branch_spec(
        flag_of(s.p, Flag::Zero),
    ));
    reveal(CpuState::execute_spec);
}

} // verus!
