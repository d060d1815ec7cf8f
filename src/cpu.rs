use vstd::prelude::*;
use crate::bus::{
    BusInterface, lemma_word_bits, lemma_wrap16_period, lemma_wrapping_add16, word, wrap16,
};
use crate::flags::{Flag, flag_of, with_flag};
use crate::opcodes::{Instruction, Mnemonic, Mode, decode, lemma_decode_well_formed};
use crate::register::Register;
use crate::state::{CpuState, DecodeError};

verus! {

/// The processor: its registers and the bus it drives.
pub struct Cpu {
    pub bus: BusInterface,
    pub pc: Register<u16>,
    pub sp: Register<u8>,
    pub a: Register<u8>,
    pub x: Register<u8>,
    pub y: Register<u8>,
    pub p: Register<u8>,
    /// Cycles left of the instruction in flight.
    pub skip_ticks: u64,
    /// The last instruction decoded, for tracing.
    pub debug: Option<Mnemonic>,
}

impl View for Cpu {
    type V = CpuState;

    open spec fn view(&self) -> CpuState {
        CpuState {
            bus: self.bus@,
            pc: self.pc@,
            sp: self.sp@,
            a: self.a@,
            x: self.x@,
            y: self.y@,
            p: self.p@,
            skip_ticks: self.skip_ticks,
            debug: self.debug,
        }
    }
}

impl Cpu {
    /// A processor on `bus` with every register cleared.
    pub fn new(bus: BusInterface) -> (r: Cpu)
        ensures
            r@ == CpuState::power_on(bus@),
    {
        Cpu {
            bus,
            pc: Register::default(),
            sp: Register::default(),
            a: Register::default(),
            x: Register::default(),
            y: Register::default(),
            p: Register::default(),
            skip_ticks: 0,
            debug: None,
        }
    }

    /// Loads PC from the reset vector and waits five cycles before the
    /// first fetch.
    pub fn reset(&mut self)
        ensures
            final(self)@ == old(self)@.reset_spec(),
    {
        let start = self.bus.read_word(0xFFFC);
        self.pc.store(start);
        self.skip_ticks = 5;
    }

    pub fn write(&mut self, addr: u16, value: u8)
        ensures
            final(self)@ == (CpuState { bus: old(self)@.bus.write(addr, value), ..old(self)@ }),
    {
        self.bus.write(addr, value);
    }

    pub fn read(&self, addr: u16) -> (r: u8)
        ensures
            r == self@.bus.read(addr),
    {
        self.bus.read(addr)
    }

    pub fn read_word(&self, addr: u16) -> (r: u16)
        ensures
            r == self@.bus.read_word(addr),
    {
        let lo = self.read(addr) as u16;
        let hi = self.read(addr.wrapping_add(1)) as u16;
        proof {
            lemma_word_bits(lo as u8, hi as u8);
        }
        (hi << 8) | lo
    }

    /// The byte at PC; PC moves past it.
    pub fn next(&mut self) -> (r: u8)
        ensures
            r == old(self)@.bus.read(old(self)@.pc),
            final(self)@ == (CpuState { pc: wrap16(old(self)@.pc + 1), ..old(self)@ }),
    {
        let byte = self.read(self.pc.load());
        self.pc.add(1);
        byte
    }

    /// The little-endian word at PC; PC moves past it.
    pub fn next_word(&mut self) -> (r: u16)
        ensures
            r == old(self)@.bus.read_word(old(self)@.pc),
            final(self)@ == (CpuState { pc: wrap16(old(self)@.pc + 2), ..old(self)@ }),
    {
        let lo = self.next() as u16;
        let hi = self.next() as u16;
        proof {
            lemma_word_bits(lo as u8, hi as u8);
        }
        (hi << 8) | lo
    }

    pub fn push(&mut self, value: u8)
        ensures
            final(self)@ == old(self)@.push_spec(value),
    {
        let addr = 0x0100 + (self.sp.load() as u16);
        self.write(addr, value);
        self.sp.sub(1);
    }

    /// Pushes the high byte of `value`, then the low byte.
    pub fn push_word(&mut self, value: u16)
        ensures
            final(self)@ == old(self)@.push_spec((value / 256) as u8).push_spec(
                (value % 256) as u8,
            ),
    {
        proof {
            lemma_split_word(value);
        }
        self.push((value >> 8) as u8);
        self.push(value as u8);
    }

    pub fn pop(&mut self) -> (r: u8)
        ensures
            (r, final(self)@) == old(self)@.pop_spec(),
    {
        self.sp.add(1);
        let addr = 0x0100 + (self.sp.load() as u16);
        self.read(addr)
    }

    /// Pops the low byte, then the high byte.
    pub fn pop_word(&mut self) -> (r: u16)
        ensures
            ({
                let (lo, s) = old(self)@.pop_spec();
                let (hi, t) = s.pop_spec();
                r == word(lo, hi) && final(self)@ == t
            }),
    {
        let lo = self.pop();
        let hi = self.pop();
        proof {
            lemma_word_bits(lo, hi);
        }
        ((hi as u16) << 8) | (lo as u16)
    }

    /// Resolves the operand address of `mode`, consuming its operand bytes,
    /// and reports whether indexing crossed a page.
    pub fn read_operand_address(&mut self, mode: Mode) -> (r: (u16, bool))
        requires
            mode.has_address(),
        ensures
            ({
                let (addr, crossed, pc) = old(self)@.operand(mode);
                r == (addr, crossed) && final(self)@ == (CpuState { pc: pc, ..old(self)@ })
            }),
    {
        match mode {
            Mode::Immediate => {
                let addr = self.pc.load();
                self.pc.add(1);
                (addr, false)
            },
            Mode::ZeroPage => (self.next() as u16, false),
            Mode::ZeroPageX | Mode::ZeroPageY => (self.zero_page_indexed(mode), false),
            Mode::Relative => (self.relative(), false),
            Mode::Absolute => {
                proof {
                    lemma_word_bits(
                        old(self)@.bus.read(old(self)@.pc),
                        old(self)@.bus.read(wrap16(old(self)@.pc + 1)),
                    );
                }
                (self.next_word(), false)
            },
            Mode::AbsoluteX | Mode::AbsoluteY => self.absolute_indexed(mode),
            Mode::Indirect => (self.indirect(), false),
            Mode::IndirectX => (self.indirect_x(), false),
            Mode::IndirectY => self.indirect_y(),
            Mode::Accumulator | Mode::Implied => (0, false),
        }
    }

    fn zero_page_indexed(&mut self, mode: Mode) -> (r: u16)
        requires
            mode is ZeroPageX || mode is ZeroPageY,
        ensures
            ({
                let (addr, _, pc) = old(self)@.operand(mode);
                r == addr && final(self)@ == (CpuState { pc: pc, ..old(self)@ })
            }),
    {
        let index = if let Mode::ZeroPageX = mode {
            self.x.load()
        } else {
            self.y.load()
        };
        let mut addr = self.next() as u16;
        addr += index as u16;
        proof {
            lemma_low_byte(addr);
        }
        addr &= 0x00ff;
        addr
    }

    /// The branch target: PC after the offset byte, moved by the signed offset.
    fn relative(&mut self) -> (r: u16)
        ensures
            ({
                let (addr, _, pc) = old(self)@.operand(Mode::Relative);
                r == addr && final(self)@ == (CpuState { pc: pc, ..old(self)@ })
            }),
    {
        let offset = self.next();
        let mut addr = offset as u16;
        proof {
            lemma_sign_extend(offset);
        }
        if addr & 0x80 != 0 {
            addr |= 0xff00;
        }
        let pc = self.pc.load();
        proof {
            lemma_wrapping_add16(pc, addr);
            lemma_wrap16_period(pc + offset - 256);
        }
        pc.wrapping_add(addr)
    }

    #[verifier::rlimit(40)]
    fn absolute_indexed(&mut self, mode: Mode) -> (r: (u16, bool))
        requires
            mode is AbsoluteX || mode is AbsoluteY,
        ensures
            ({
                let (addr, crossed, pc) = old(self)@.operand(mode);
                r == (addr, crossed) && final(self)@ == (CpuState { pc: pc, ..old(self)@ })
            }),
    {
        let index = if let Mode::AbsoluteX = mode {
            self.x.load()
        } else {
            self.y.load()
        };
        let lo = self.next() as u16;
        let hi = self.next() as u16;
        let base = (hi << 8) | lo;
        let addr = base.wrapping_add(index as u16);
        proof {
            lemma_wrapping_add16(base, index as u16);
            lemma_word_bits(lo as u8, hi as u8);
            lemma_page(addr, hi as u8);
        }
        (addr, addr & 0xff00 != hi << 8)
    }

    #[verifier::rlimit(40)]
    fn indirect(&mut self) -> (r: u16)
        ensures
            ({
                let (addr, _, pc) = old(self)@.operand(Mode::Indirect);
                r == addr && final(self)@ == (CpuState { pc: pc, ..old(self)@ })
            }),
    {
        let lo = self.next() as u16;
        let hi = self.next() as u16;
        let ptr = (hi << 8) | lo;
        proof {
            lemma_word_bits(lo as u8, hi as u8);
            lemma_word_bits(0, hi as u8);
            lemma_page_start(ptr, hi as u8);
        }
        let target_lo = self.read(ptr) as u16;
        // the processor does not carry into the pointer's high byte
        let target_hi = if lo == 0x00ff {
            self.read(ptr & 0xff00) as u16
        } else {
            self.read(ptr + 1) as u16
        };
        proof {
            lemma_word_bits(target_lo as u8, target_hi as u8);
        }
        (target_hi << 8) | target_lo
    }

    fn indirect_x(&mut self) -> (r: u16)
        ensures
            ({
                let (addr, _, pc) = old(self)@.operand(Mode::IndirectX);
                r == addr && final(self)@ == (CpuState { pc: pc, ..old(self)@ })
            }),
    {
        let zp = self.next() as u16;
        let x = self.x.load() as u16;
        proof {
            lemma_low_byte((zp + x) as u16);
            lemma_low_byte((zp + x + 1) as u16);
        }
        let lo = self.read((zp + x) & 0x00ff) as u16;
        let hi = self.read((zp + x + 1) & 0x00ff) as u16;
        proof {
            lemma_word_bits(lo as u8, hi as u8);
        }
        (hi << 8) | lo
    }

    #[verifier::rlimit(40)]
    fn indirect_y(&mut self) -> (r: (u16, bool))
        ensures
            ({
                let (addr, crossed, pc) = old(self)@.operand(Mode::IndirectY);
                r == (addr, crossed) && final(self)@ == (CpuState { pc: pc, ..old(self)@ })
            }),
    {
        let zp = self.next() as u16;
        proof {
            lemma_low_byte(zp);
            lemma_low_byte((zp + 1) as u16);
        }
        let lo = self.read(zp & 0x00ff) as u16;
        let hi = self.read((zp + 1) & 0x00ff) as u16;
        let base = (hi << 8) | lo;
        let y = self.y.load() as u16;
        let addr = base.wrapping_add(y);
        proof {
            lemma_wrapping_add16(base, y);
            lemma_word_bits(lo as u8, hi as u8);
            lemma_page(addr, hi as u8);
        }
        (addr, addr & 0xff00 != hi << 8)
    }

    /// The opcode table entry of `opcode`, or `None` where the engine
    /// implements no instruction.
    pub fn get_instruction(opcode: u8) -> (r: Option<Instruction>)
        ensures
            r == decode(opcode),
    {
        let entry = |mnemonic: Mnemonic, mode: Mode, cycles: u64| -> (r: Option<Instruction>)
            ensures
                r == Some(Instruction { mnemonic, mode, cycles }),
            { Some(Instruction { mnemonic, mode, cycles }) };
        match opcode {
            0x69 => entry(Mnemonic::Adc, Mode::Immediate, 2),
            0x65 => entry(Mnemonic::Adc, Mode::ZeroPage, 3),
            0x75 => entry(Mnemonic::Adc, Mode::ZeroPageX, 4),
            0x6d => entry(Mnemonic::Adc, Mode::Absolute, 4),
            0x7d => entry(Mnemonic::Adc, Mode::AbsoluteX, 4),
            0x79 => entry(Mnemonic::Adc, Mode::AbsoluteY, 4),
            0x61 => entry(Mnemonic::Adc, Mode::IndirectX, 6),
            0x71 => entry(Mnemonic::Adc, Mode::IndirectY, 5),
            0x29 => entry(Mnemonic::And, Mode::Immediate, 2),
            0x25 => entry(Mnemonic::And, Mode::ZeroPage, 3),
            0x35 => entry(Mnemonic::And, Mode::ZeroPageX, 4),
            0x2d => entry(Mnemonic::And, Mode::Absolute, 4),
            0x3d => entry(Mnemonic::And, Mode::AbsoluteX, 4),
            0x39 => entry(Mnemonic::And, Mode::AbsoluteY, 4),
            0x21 => entry(Mnemonic::And, Mode::IndirectX, 6),
            0x31 => entry(Mnemonic::And, Mode::IndirectY, 5),
            0x0a => entry(Mnemonic::Asl, Mode::Accumulator, 2),
            0x06 => entry(Mnemonic::Asl, Mode::ZeroPage, 5),
            0x16 => entry(Mnemonic::Asl, Mode::ZeroPageX, 6),
            0x0e => entry(Mnemonic::Asl, Mode::Absolute, 6),
            0x1e => entry(Mnemonic::Asl, Mode::AbsoluteX, 7),
            0x90 => entry(Mnemonic::Bcc, Mode::Relative, 2),
            0xb0 => entry(Mnemonic::Bcs, Mode::Relative, 2),
            0xf0 => entry(Mnemonic::Beq, Mode::Relative, 2),
            0x24 => entry(Mnemonic::Bit, Mode::ZeroPage, 3),
            0x2c => entry(Mnemonic::Bit, Mode::Absolute, 4),
            0x30 => entry(Mnemonic::Bmi, Mode::Relative, 2),
            0xd0 => entry(Mnemonic::Bne, Mode::Relative, 2),
            0x10 => entry(Mnemonic::Bpl, Mode::Relative, 2),
            0x00 => entry(Mnemonic::Brk, Mode::Implied, 7),
            0x50 => entry(Mnemonic::Bvc, Mode::Relative, 2),
            0x70 => entry(Mnemonic::Bvs, Mode::Relative, 2),
            0x18 => entry(Mnemonic::Clc, Mode::Implied, 2),
            0xd8 => entry(Mnemonic::Cld, Mode::Implied, 2),
            0x58 => entry(Mnemonic::Cli, Mode::Implied, 2),
            0xb8 => entry(Mnemonic::Clv, Mode::Implied, 2),
            _ => None,
        }
    }
}

impl Cpu {
    /// One clock tick: counts down the instruction in flight or, at an
    /// instruction boundary, fetches, decodes and executes the next one.
    pub fn tick(&mut self) -> (r: Result<(), DecodeError>)
        ensures
            (final(self)@, r) == old(self)@.tick_spec(),
    {
        if self.skip_ticks > 0 {
            self.skip_ticks -= 1;
            return Ok(());
        }
        let opcode = self.next();
        self.execute(opcode)
    }

    /// Runs the already fetched `opcode` and reloads the cycle counter with
    /// its cost; an opcode outside the table is a decode failure.
    fn execute(&mut self, opcode: u8) -> (r: Result<(), DecodeError>)
        ensures
            (final(self)@, r) == old(self)@.execute_spec(opcode),
    {
        proof {
            reveal(CpuState::execute_spec);
        }
        match Self::get_instruction(opcode) {
            None => Err(DecodeError { opcode }),
            Some(instruction) => {
                proof {
                    lemma_decode_well_formed(opcode);
                }
                let mode = instruction.mode;
                let extra = match instruction.mnemonic {
                    Mnemonic::Adc => self.adc(mode),
                    Mnemonic::And => self.and(mode),
                    Mnemonic::Asl => self.asl(mode),
                    Mnemonic::Bcc => self.bcc(),
                    Mnemonic::Bcs => self.bcs(),
                    Mnemonic::Beq => self.beq(),
                    Mnemonic::Bit => self.bit(mode),
                    Mnemonic::Bmi => self.bmi(),
                    Mnemonic::Bne => self.bne(),
                    Mnemonic::Bpl => self.bpl(),
                    Mnemonic::Brk => self.brk(),
                    Mnemonic::Bvc => self.bvc(),
                    Mnemonic::Bvs => self.bvs(),
                    Mnemonic::Clc => self.clc(),
                    Mnemonic::Cld => self.cld(),
                    Mnemonic::Cli => self.cli(),
                    Mnemonic::Clv => self.clv(),
                };
                self.skip_ticks = instruction.cycles + extra;
                self.debug = Some(instruction.mnemonic);
                Ok(())
            },
        }
    }

    pub fn set_flag(&mut self, flag: Flag, value: bool)
        ensures
            final(self)@ == (CpuState { p: with_flag(old(self)@.p, flag, value), ..old(self)@ }),
    {
        let pos = flag.position();
        if value {
            self.p.set_bit(pos);
        } else {
            self.p.clear_bit(pos);
        }
    }

    pub fn get_flag(&self, flag: Flag) -> (r: bool)
        ensures
            r == flag_of(self@.p, flag),
    {
        self.p.load_bit(flag.position()) == 1
    }

    fn adc(&mut self, mode: Mode) -> (extra: u64)
        requires
            mode.has_address(),
        ensures
            (final(self)@, extra) == old(self)@.adc_spec(mode),
    {
        let (addr, crossed) = self.read_operand_address(mode);
        let operand = self.read(addr);
        let a = self.a.load();
        let carry: u16 = if self.get_flag(Flag::Carry) {
            1
        } else {
            0
        };
        let value: u16 = (a as u16) + (operand as u16) + carry;
        proof {
            lemma_adc_bits(a, operand, carry, value);
        }
        self.set_flag(Flag::Carry, value > 255);
        self.set_flag(Flag::Zero, (value & 0x00ff) == 0);
        // signed overflow: !(A ^ M) & (A ^ sum), bit 7
        self.set_flag(
            Flag::Overflow,
            (!((a as u16) ^ (operand as u16)) & ((a as u16) ^ value)) & 0x0080 != 0,
        );
        self.set_flag(Flag::Negative, (value & 0b10000000) != 0);
        self.a.store((value & 0x00ff) as u8);
        if crossed {
            1
        } else {
            0
        }
    }

    fn and(&mut self, mode: Mode) -> (extra: u64)
        requires
            mode.has_address(),
        ensures
            (final(self)@, extra) == old(self)@.and_spec(mode),
    {
        let (addr, crossed) = self.read_operand_address(mode);
        let operand = self.read(addr);
        let value = self.a.load() & operand;
        proof {
            lemma_byte_bits(value);
        }
        self.a.store(value);
        self.set_flag(Flag::Zero, (value & 0x00ff) == 0);
        self.set_flag(Flag::Negative, (value & 0b10000000) != 0);
        if crossed {
            1
        } else {
            0
        }
    }

    fn asl(&mut self, mode: Mode) -> (extra: u64)
        requires
            mode.has_address() || mode is Accumulator,
        ensures
            (final(self)@, extra) == old(self)@.asl_spec(mode),
    {
        let value: u16 = if let Mode::Accumulator = mode {
            let a = self.a.load();
            let value = (a as u16) << 1;
            proof {
                lemma_shift_bits(a, value);
            }
            // keep the low byte of the shifted value
            self.a.store((value & 0x00ff) as u8);
            value
        } else {
            let addr = self.read_operand_address(mode).0;
            let operand = self.read(addr);
            let value = (operand as u16) << 1;
            proof {
                lemma_shift_bits(operand, value);
            }
            self.write(addr, (value & 0x00ff) as u8);
            value
        };
        self.set_flag(Flag::Carry, (value & 0xff00) > 0);
        self.set_flag(Flag::Zero, (value & 0x00ff) == 0);
        self.set_flag(Flag::Negative, (value & 0b10000000) != 0);
        0
    }

    /// Consumes the offset and, when `cond` holds, jumps to the target;
    /// returns the cycles the branch adds.
    fn branch(&mut self, cond: bool) -> (extra: u64)
        ensures
            (final(self)@, extra) == old(self)@.branch_spec(cond),
    {
        let target = self.read_operand_address(Mode::Relative).0;
        if cond {
            let pc = self.pc.load();
            proof {
                lemma_same_page(target, pc);
            }
            let extra = if target & 0xff00 != pc & 0xff00 {
                2
            } else {
                1
            };
            self.pc.store(target);
            extra
        } else {
            0
        }
    }

    fn bcc(&mut self) -> (extra: u64)
        ensures
            (final(self)@, extra) == old(self)@.branch_spec(!flag_of(old(self)@.p, Flag::Carry)),
    {
        let carry = self.get_flag(Flag::Carry);
        self.branch(!carry)
    }

    fn bcs(&mut self) -> (extra: u64)
        ensures
            (final(self)@, extra) == old(self)@.branch_spec(flag_of(old(self)@.p, Flag::Carry)),
    {
        let carry = self.get_flag(Flag::Carry);
        self.branch(carry)
    }

    fn beq(&mut self) -> (extra: u64)
        ensures
            (final(self)@, extra) == old(self)@.branch_spec(flag_of(old(self)@.p, Flag::Zero)),
    {
        let zero = self.get_flag(Flag::Zero);
        self.branch(zero)
    }

    fn bit(&mut self, mode: Mode) -> (extra: u64)
        requires
            mode.has_address(),
        ensures
            (final(self)@, extra) == old(self)@.bit_spec(mode),
    {
        let (addr, _) = self.read_operand_address(mode);
        let operand = self.read(addr);
        let value = self.a.load() & operand;
        proof {
            lemma_byte_bits(operand);
        }
        self.set_flag(Flag::Zero, value == 0);
        self.set_flag(Flag::Overflow, (operand & 0b01000000) != 0);
        self.set_flag(Flag::Negative, (operand & 0b10000000) != 0);
        0
    }

    fn bmi(&mut self) -> (extra: u64)
        ensures
            (final(self)@, extra) == old(self)@.branch_spec(
                flag_of(old(self)@.p, Flag::Negative),
            ),
    {
        let negative = self.get_flag(Flag::Negative);
        self.branch(negative)
    }

    fn bne(&mut self) -> (extra: u64)
        ensures
            (final(self)@, extra) == old(self)@.branch_spec(!flag_of(old(self)@.p, Flag::Zero)),
    {
        let zero = self.get_flag(Flag::Zero);
        self.branch(!zero)
    }

    fn bpl(&mut self) -> (extra: u64)
        ensures
            (final(self)@, extra) == old(self)@.branch_spec(
                !flag_of(old(self)@.p, Flag::Negative),
            ),
    {
        let negative = self.get_flag(Flag::Negative);
        self.branch(!negative)
    }

    fn brk(&mut self) -> (extra: u64)
        ensures
            (final(self)@, extra) == old(self)@.brk_spec(),
    {
        // padding byte
        self.next();
        self.set_flag(Flag::InterruptDisable, true);
        let ret = self.pc.load();
        self.push_word(ret);
        self.set_flag(Flag::Break, true);
        let status = self.p.load();
        self.push(status);
        self.set_flag(Flag::Break, false);
        let target = self.read_word(0xFFFE);
        self.pc.store(target);
        0
    }

    fn bvc(&mut self) -> (extra: u64)
        ensures
            (final(self)@, extra) == old(self)@.branch_spec(
                !flag_of(old(self)@.p, Flag::Overflow),
            ),
    {
        let overflow = self.get_flag(Flag::Overflow);
        self.branch(!overflow)
    }

    fn bvs(&mut self) -> (extra: u64)
        ensures
            (final(self)@, extra) == old(self)@.branch_spec(
                flag_of(old(self)@.p, Flag::Overflow),
            ),
    {
        let overflow = self.get_flag(Flag::Overflow);
        self.branch(overflow)
    }

    fn clc(&mut self) -> (extra: u64)
        ensures
            (final(self)@, extra) == old(self)@.clear_spec(Flag::Carry),
    {
        self.set_flag(Flag::Carry, false);
        0
    }

    fn cld(&mut self) -> (extra: u64)
        ensures
            (final(self)@, extra) == old(self)@.clear_spec(Flag::Decimal),
    {
        self.set_flag(Flag::Decimal, false);
        0
    }

    fn cli(&mut self) -> (extra: u64)
        ensures
            (final(self)@, extra) == old(self)@.clear_spec(Flag::InterruptDisable),
    {
        self.set_flag(Flag::InterruptDisable, false);
        0
    }

    fn clv(&mut self) -> (extra: u64)
        ensures
            (final(self)@, extra) == old(self)@.clear_spec(Flag::Overflow),
    {
        self.set_flag(Flag::Overflow, false);
        0
    }
}

proof fn lemma_adc_bits(a: u8, m: u8, c: u16, v: u16)
    requires
        c <= 1,
        v == a + m + c,
    ensures
        ((v & 0x00ff) == 0) == (v % 256 == 0),
        ((!((a as u16) ^ (m as u16)) & ((a as u16) ^ v)) & 0x0080 != 0) == ((a >= 0x80) == (m
            >= 0x80) && (v % 256 >= 0x80) != (a >= 0x80)),
        ((v & 0x80) != 0) == (v % 256 >= 0x80),
        ((v & 0x00ff) as u8) == (v % 256) as u8,
{
    assert(((v & 0x00ff) == 0) == (v % 256 == 0)) by (bit_vector);
    assert(((!((a as u16) ^ (m as u16)) & ((a as u16) ^ v)) & 0x0080 != 0) == ((a >= 0x80) == (m
        >= 0x80) && (v % 256 >= 0x80) != (a >= 0x80))) by (bit_vector)
        requires
            c <= 1,
            v == a + m + c,
    ;
    assert(((v & 0x80) != 0) == (v % 256 >= 0x80)) by (bit_vector);
    assert(((v & 0x00ff) as u8) == (v % 256) as u8) by (bit_vector);
}

proof fn lemma_byte_bits(v: u8)
    ensures
        ((v & 0x00ff) == 0) == (v == 0),
        ((v & 0b10000000) != 0) == (v >= 0x80),
        ((v & 0b01000000) != 0) == (v & 0x40 != 0),
{
    assert(((v & 0x00ff) == 0) == (v == 0)) by (bit_vector);
    assert(((v & 0b10000000) != 0) == (v >= 0x80)) by (bit_vector);
}

proof fn lemma_shift_bits(b: u8, v: u16)
    requires
        v == (b as u16) << 1,
    ensures
        ((v & 0xff00) > 0) == (b >= 0x80),
        ((v & 0x00ff) as u8) == ((b * 2) % 256) as u8,
        ((v & 0x00ff) == 0) == ((b * 2) % 256 == 0),
        ((v & 0b10000000) != 0) == ((b * 2) % 256 >= 0x80),
{
    assert(((v & 0xff00) > 0) == (b >= 0x80)) by (bit_vector)
        requires
            v == (b as u16) << 1,
    ;
    assert(((v & 0x00ff) as u8) == ((b * 2) % 256) as u8) by (bit_vector)
        requires
            v == (b as u16) << 1,
    ;
    assert(((v & 0x00ff) == 0) == ((b * 2) % 256 == 0)) by (bit_vector)
        requires
            v == (b as u16) << 1,
    ;
    assert(((v & 0b10000000) != 0) == ((b * 2) % 256 >= 0x80)) by (bit_vector)
        requires
            v == (b as u16) << 1,
    ;
}

proof fn lemma_same_page(a: u16, b: u16)
    ensures
        (a & 0xff00 != b & 0xff00) == (a / 256 != b / 256),
{
    assert((a & 0xff00 != b & 0xff00) == (a / 256 != b / 256)) by (bit_vector);
}

proof fn lemma_split_word(v: u16)
    ensures
        ((v >> 8) as u8) == (v / 256) as u8,
        (v as u8) == (v % 256) as u8,
{
    assert(((v >> 8) as u8) == (v / 256) as u8) by (bit_vector);
    assert((v as u8) == (v % 256) as u8) by (bit_vector);
}

proof fn lemma_low_byte(v: u16)
    ensures
        v & 0x00ff == v % 256,
{
    assert(v & 0x00ff == v % 256) by (bit_vector);
}

proof fn lemma_sign_extend(b: u8)
    ensures
        ((b as u16) & 0x80 != 0) == (b >= 0x80),
        (b as u16) | 0xff00 == b + 0xff00,
{
    assert(((b as u16) & 0x80 != 0) == (b >= 0x80)) by (bit_vector);
    assert((b as u16) | 0xff00 == b + 0xff00) by (bit_vector);
}

proof fn lemma_page(addr: u16, hi: u8)
    ensures
        (addr & 0xff00 != (hi as u16) << 8) == (addr / 256 != hi),
{
    assert((addr & 0xff00 != (hi as u16) << 8) == (addr / 256 != hi)) by (bit_vector);
}

proof fn lemma_page_start(ptr: u16, hi: u8)
    requires
        ptr / 256 == hi,
    ensures
        ptr & 0xff00 == hi * 256,
{
    assert(ptr & 0xff00 == hi * 256) by (bit_vector)
        requires
            ptr / 256 == hi,
    ;
}

} // verus!
