use vstd::prelude::*;

verus! {

/// How an instruction locates its operand.
#[derive(Clone, Copy, Debug, PartialEq, Eq)]
pub enum Mode {
    Accumulator,
    Implied,
    Immediate,
    ZeroPage,
    ZeroPageX,
    ZeroPageY,
    Relative,
    Absolute,
    AbsoluteX,
    AbsoluteY,
    Indirect,
    IndirectX,
    IndirectY,
}

impl Mode {
    /// Whether the mode resolves to an operand address; the accumulator and
    /// implied modes have none.
    pub open spec fn has_address(self) -> bool {
        !(self is Accumulator || self is Implied)
    }
}

/// The instructions that the engine decodes.
#[derive(Clone, Copy, Debug, PartialEq, Eq)]
pub enum Mnemonic {
    Adc,
    And,
    Asl,
    Bcc,
    Bcs,
    Beq,
    Bit,
    Bmi,
    Bne,
    Bpl,
    Brk,
    Bvc,
    Bvs,
    Clc,
    Cld,
    Cli,
    Clv,
}

impl Mnemonic {
    pub open spec fn spec_name(self) -> &'static str {
        match self {
            Mnemonic::Adc => "ADC",
            Mnemonic::And => "AND",
            Mnemonic::Asl => "ASL",
            Mnemonic::Bcc => "BCC",
            Mnemonic::Bcs => "BCS",
            Mnemonic::Beq => "BEQ",
            Mnemonic::Bit => "BIT",
            Mnemonic::Bmi => "BMI",
            Mnemonic::Bne => "BNE",
            Mnemonic::Bpl => "BPL",
            Mnemonic::Brk => "BRK",
            Mnemonic::Bvc => "BVC",
            Mnemonic::Bvs => "BVS",
            Mnemonic::Clc => "CLC",
            Mnemonic::Cld => "CLD",
            Mnemonic::Cli => "CLI",
            Mnemonic::Clv => "CLV",
        }
    }

    /// The assembler name of the instruction, in capitals.
    #[verifier::when_used_as_spec(spec_name)]
    pub fn name(self) -> (r: &'static str)
        ensures
            r == self.spec_name(),
    {
        match self {
            Mnemonic::Adc => "ADC",
            Mnemonic::And => "AND",
            Mnemonic::Asl => "ASL",
            Mnemonic::Bcc => "BCC",
            Mnemonic::Bcs => "BCS",
            Mnemonic::Beq => "BEQ",
            Mnemonic::Bit => "BIT",
            Mnemonic::Bmi => "BMI",
            Mnemonic::Bne => "BNE",
            Mnemonic::Bpl => "BPL",
            Mnemonic::Brk => "BRK",
            Mnemonic::Bvc => "BVC",
            Mnemonic::Bvs => "BVS",
            Mnemonic::Clc => "CLC",
            Mnemonic::Cld => "CLD",
            Mnemonic::Cli => "CLI",
            Mnemonic::Clv => "CLV",
        }
    }
}

/// One entry of the opcode table.
#[derive(Clone, Copy, Debug, PartialEq, Eq)]
pub struct Instruction {
    pub mnemonic: Mnemonic,
    pub mode: Mode,
    /// Base cost in cycles, before page-crossing and taken-branch penalties.
    pub cycles: u64,
}

/// The opcode table: what each opcode decodes to, or `None` where the
/// engine implements no instruction.
pub open spec fn decode(opcode: u8) -> Option<Instruction> {
    let entry = |mnemonic: Mnemonic, mode: Mode, cycles: u64|
        Some(Instruction { mnemonic, mode, cycles });
    match opcode {
        0x69 => entry(Mnemonic::Adc, Mode::Immediate, 2),
        0x65 => entry(Mnemonic::Adc, Mode::ZeroPage, 3),
        0x75 => entry(Mnemonic::Adc, Mode::ZeroPageX, 4),
        0x6d => entry(Mnemonic::Adc, Mode::Absolute, 4),
        0x7d => entry(Mnemonic::Adc, Mode::AbsoluteX, 4),
        0x79 => entry(Mnemonic::Adc, Mode::AbsoluteY, 4),
        0x61 => entry(Mnemonic::Adc, Mode::IndirectX, 6),
        0x71 => entry(Mnemonic::Adc, Mode::IndirectY, 5),
        0x29 => entry(Mnemonic::And, Mode::Immediate, 2),
        0x25 => entry(Mnemonic::And, Mode::ZeroPage, 3),
        0x35 => entry(Mnemonic::And, Mode::ZeroPageX, 4),
        0x2d => entry(Mnemonic::And, Mode::Absolute, 4),
        0x3d => entry(Mnemonic::And, Mode::AbsoluteX, 4),
        0x39 => entry(Mnemonic::And, Mode::AbsoluteY, 4),
        0x21 => entry(Mnemonic::And, Mode::IndirectX, 6),
        0x31 => entry(Mnemonic::And, Mode::IndirectY, 5),
        0x0a => entry(Mnemonic::Asl, Mode::Accumulator, 2),
        0x06 => entry(Mnemonic::Asl, Mode::ZeroPage, 5),
        0x16 => entry(Mnemonic::Asl, Mode::ZeroPageX, 6),
        0x0e => entry(Mnemonic::Asl, Mode::Absolute, 6),
        0x1e => entry(Mnemonic::Asl, Mode::AbsoluteX, 7),
        0x90 => entry(Mnemonic::Bcc, Mode::Relative, 2),
        0xb0 => entry(Mnemonic::Bcs, Mode::Relative, 2),
        0xf0 => entry(Mnemonic::Beq, Mode::Relative, 2),
        0x24 => entry(Mnemonic::Bit, Mode::ZeroPage, 3),
        0x2c => entry(Mnemonic::Bit, Mode::Absolute, 4),
        0x30 => entry(Mnemonic::Bmi, Mode::Relative, 2),
        0xd0 => entry(Mnemonic::Bne, Mode::Relative, 2),
        0x10 => entry(Mnemonic::Bpl, Mode::Relative, 2),
        0x00 => entry(Mnemonic::Brk, Mode::Implied, 7),
        0x50 => entry(Mnemonic::Bvc, Mode::Relative, 2),
        0x70 => entry(Mnemonic::Bvs, Mode::Relative, 2),
        0x18 => entry(Mnemonic::Clc, Mode::Implied, 2),
        0xd8 => entry(Mnemonic::Cld, Mode::Implied, 2),
        0x58 => entry(Mnemonic::Cli, Mode::Implied, 2),
        0xb8 => entry(Mnemonic::Clv, Mode::Implied, 2),
        _ => None,
    }
}

/// Every entry of the table pairs its mnemonic with a mode that the
/// instruction can resolve, and costs at most 7 cycles.
pub proof fn lemma_decode_well_formed(opcode: u8)
    requires
        decode(opcode) is Some,
    ensures
        ({
            let i = decode(opcode)->0;
            &&& i.cycles <= 7
            &&& (i.mnemonic is Adc || i.mnemonic is And || i.mnemonic is Bit) ==> i.mode.has_address()
            &&& i.mnemonic is Asl ==> (i.mode.has_address() || i.mode is Accumulator)
        }),
{
}

} // verus!
