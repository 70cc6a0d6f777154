//! The instruction decoder and the execution engine: a word store of
//! 32,768 16-bit words, eight registers, a growable word stack, and a
//! `step` that decodes and executes exactly one instruction.

use vstd::prelude::*;

verus! {

/// High bit of an operand word: set on register references.
pub const INDIRECT_BIT: u16 = 0x8000;
/// Bits that must be clear in a register reference besides the index.
pub const VALID_REGISTER_MASK: u16 = 0x7ff8;
/// Low bits of a register reference: the register index.
pub const REGISTER_MASK: u16 = 0x0007;
/// Bits that must be clear in a word written by `Out`.
pub const VALID_IO_MASK: u16 = 0xff00;
/// Number of words in the word store.
pub const MEM_WORDS: usize = 32768;
/// Number of general registers.
pub const NUM_REGISTERS: usize = 8;

/// Everything that can go wrong while loading, decoding or executing.
#[derive(Debug, Copy, Clone, PartialEq, Eq, Structural)]
pub enum Error {
    BadBinary,
    ProgramTooLarge(usize),
    StackUnderflow,
    InvalidSrcOperand(u16),
    InvalidDstOperand(u16),
    InvalidIp(usize),
    IllegalInstruction(u16),
    InvalidIOWord(u16),
    IOError,
    DivisionByZero,
    InvalidAddress(u16),
}

/// Whether the machine may take another step.
#[derive(Debug, Copy, Clone, PartialEq, Eq, Structural)]
pub enum VmState {
    Running,
    Halted,
}

/// A source operand: a literal word or a register read.
#[derive(Debug, Copy, Clone, PartialEq, Eq, Structural)]
pub enum SrcOperand {
    Immediate(u16),
    Register(usize),
}

/// A destination operand: only a register is legal.
#[derive(Debug, Copy, Clone, PartialEq, Eq, Structural)]
pub enum DstOperand {
    Register(usize),
}

/// What a source operand word decodes to: the high bit selects a register
/// reference, which must have all bits besides the index clear.
pub open spec fn spec_decode_src(word: u16) -> Result<SrcOperand, Error> {
    if word & INDIRECT_BIT != 0 {
        if word & VALID_REGISTER_MASK != 0 {
            Err(Error::InvalidSrcOperand(word))
        } else {
            Ok(SrcOperand::Register((word & REGISTER_MASK) as usize))
        }
    } else {
        Ok(SrcOperand::Immediate(word))
    }
}

/// What a destination operand word decodes to: a register reference only;
/// a literal is never a legal destination.
pub open spec fn spec_decode_dst(word: u16) -> Result<DstOperand, Error> {
    if word & INDIRECT_BIT != 0 {
        if word & VALID_REGISTER_MASK != 0 {
            Err(Error::InvalidDstOperand(word))
        } else {
            Ok(DstOperand::Register((word & REGISTER_MASK) as usize))
        }
    } else {
        Err(Error::InvalidDstOperand(word))
    }
}

impl SrcOperand {
    /// Decode one source operand word.
    pub fn decode(word: u16) -> (r: Result<Self, Error>)
        ensures
            r == spec_decode_src(word),
    {
        if word & INDIRECT_BIT != 0 {
            if word & VALID_REGISTER_MASK != 0 {
                Err(Error::InvalidSrcOperand(word))
            } else {
                Ok(SrcOperand::Register((word & REGISTER_MASK) as usize))
            }
        } else {
            Ok(SrcOperand::Immediate(word))
        }
    }
}

impl DstOperand {
    /// Decode one destination operand word.
    pub fn decode(word: u16) -> (r: Result<Self, Error>)
        ensures
            r == spec_decode_dst(word),
    {
        if word & INDIRECT_BIT != 0 {
            if word & VALID_REGISTER_MASK != 0 {
                Err(Error::InvalidDstOperand(word))
            } else {
                Ok(DstOperand::Register((word & REGISTER_MASK) as usize))
            }
        } else {
            Err(Error::InvalidDstOperand(word))
        }
    }
}

/// One case per opcode, each carrying its typed operand fields.
#[derive(Debug, Copy, Clone, PartialEq, Eq, Structural)]
pub enum Instruction {
    Halt,
    SetReg(DstOperand, SrcOperand),
    Push(SrcOperand),
    Pop(DstOperand),
    Eq(DstOperand, SrcOperand, SrcOperand),
    Gt(DstOperand, SrcOperand, SrcOperand),
    Jmp(SrcOperand),
    Jt(SrcOperand, SrcOperand),
    Jf(SrcOperand, SrcOperand),
    Add(DstOperand, SrcOperand, SrcOperand),
    Mult(DstOperand, SrcOperand, SrcOperand),
    Mod(DstOperand, SrcOperand, SrcOperand),
    And(DstOperand, SrcOperand, SrcOperand),
    Or(DstOperand, SrcOperand, SrcOperand),
    Not(DstOperand, SrcOperand),
    Rmem(DstOperand, SrcOperand),
    Wmem(SrcOperand, SrcOperand),
    Call(SrcOperand),
    Ret,
    Out(SrcOperand),
    In(DstOperand),
    Noop,
}

/// The source operand word at `addr`, or `InvalidIp` when out of bounds.
pub open spec fn spec_src_at(mem: Seq<u16>, addr: usize) -> Result<SrcOperand, Error> {
    if addr < mem.len() {
        spec_decode_src(mem[addr as int])
    } else {
        Err(Error::InvalidIp(addr))
    }
}

/// The destination operand word at `addr`, or `InvalidIp` when out of bounds.
pub open spec fn spec_dst_at(mem: Seq<u16>, addr: usize) -> Result<DstOperand, Error> {
    if addr < mem.len() {
        spec_decode_dst(mem[addr as int])
    } else {
        Err(Error::InvalidIp(addr))
    }
}

/// Build an instruction from one source operand read at `a`.
pub open spec fn spec_dec_s(
    mem: Seq<u16>,
    a: usize,
    k: spec_fn(SrcOperand) -> Instruction,
) -> Result<Instruction, Error> {
    match spec_src_at(mem, a) {
        Ok(s) => Ok(k(s)),
        Err(e) => Err(e),
    }
}

/// Build an instruction from one destination operand read at `a`.
pub open spec fn spec_dec_d(
    mem: Seq<u16>,
    a: usize,
    k: spec_fn(DstOperand) -> Instruction,
) -> Result<Instruction, Error> {
    match spec_dst_at(mem, a) {
        Ok(d) => Ok(k(d)),
        Err(e) => Err(e),
    }
}

/// Build an instruction from a destination at `a` and a source at `a + 1`.
pub open spec fn spec_dec_ds(
    mem: Seq<u16>,
    a: usize,
    k: spec_fn(DstOperand, SrcOperand) -> Instruction,
) -> Result<Instruction, Error> {
    match spec_dst_at(mem, a) {
        Err(e) => Err(e),
        Ok(d) => match spec_src_at(mem, (a + 1) as usize) {
            Err(e) => Err(e),
            Ok(s) => Ok(k(d, s)),
        },
    }
}

/// Build an instruction from two sources at `a` and `a + 1`.
pub open spec fn spec_dec_ss(
    mem: Seq<u16>,
    a: usize,
    k: spec_fn(SrcOperand, SrcOperand) -> Instruction,
) -> Result<Instruction, Error> {
    match spec_src_at(mem, a) {
        Err(e) => Err(e),
        Ok(s1) => match spec_src_at(mem, (a + 1) as usize) {
            Err(e) => Err(e),
            Ok(s2) => Ok(k(s1, s2)),
        },
    }
}

/// Build an instruction from a destination at `a` and sources at `a + 1`
/// and `a + 2`.
pub open spec fn spec_dec_dss(
    mem: Seq<u16>,
    a: usize,
    k: spec_fn(DstOperand, SrcOperand, SrcOperand) -> Instruction,
) -> Result<Instruction, Error> {
    match spec_dst_at(mem, a) {
        Err(e) => Err(e),
        Ok(d) => match spec_src_at(mem, (a + 1) as usize) {
            Err(e) => Err(e),
            Ok(s1) => match spec_src_at(mem, (a + 2) as usize) {
                Err(e) => Err(e),
                Ok(s2) => Ok(k(d, s1, s2)),
            },
        },
    }
}

/// Pair a decoded instruction with the address just past its encoding.
pub open spec fn spec_dec_width(
    next: usize,
    r: Result<Instruction, Error>,
) -> Result<(usize, Instruction), Error> {
    match r {
        Ok(i) => Ok((next, i)),
        Err(e) => Err(e),
    }
}

/// What decoding at `ip` yields: the opcode word selects the arity and
/// operand kinds; operand words are read in order; the success value also
/// carries the address just past the instruction.
pub open spec fn spec_decode(mem: Seq<u16>, ip: usize) -> Result<(usize, Instruction), Error> {
    if ip >= mem.len() {
        Err(Error::InvalidIp(ip))
    } else {
        let a = (ip + 1) as usize;
        match mem[ip as int] {
            0 => Ok((a, Instruction::Halt)),
            1 => spec_dec_width(
                (ip + 3) as usize,
                spec_dec_ds(mem, a, |d: DstOperand, s: SrcOperand| Instruction::SetReg(d, s)),
            ),
            2 => spec_dec_width(
                (ip + 2) as usize,
                spec_dec_s(mem, a, |s: SrcOperand| Instruction::Push(s)),
            ),
            3 => spec_dec_width(
                (ip + 2) as usize,
                spec_dec_d(mem, a, |d: DstOperand| Instruction::Pop(d)),
            ),
            4 => spec_dec_width(
                (ip + 4) as usize,
                spec_dec_dss(
                    mem,
                    a,
                    |d: DstOperand, s1: SrcOperand, s2: SrcOperand| Instruction::Eq(d, s1, s2),
                ),
            ),
            5 => spec_dec_width(
                (ip + 4) as usize,
                spec_dec_dss(
                    mem,
                    a,
                    |d: DstOperand, s1: SrcOperand, s2: SrcOperand| Instruction::Gt(d, s1, s2),
                ),
            ),
            6 => spec_dec_width(
                (ip + 2) as usize,
                spec_dec_s(mem, a, |s: SrcOperand| Instruction::Jmp(s)),
            ),
            7 => spec_dec_width(
                (ip + 3) as usize,
                spec_dec_ss(mem, a, |s1: SrcOperand, s2: SrcOperand| Instruction::Jt(s1, s2)),
            ),
            8 => spec_dec_width(
                (ip + 3) as usize,
                spec_dec_ss(mem, a, |s1: SrcOperand, s2: SrcOperand| Instruction::Jf(s1, s2)),
            ),
            9 => spec_dec_width(
                (ip + 4) as usize,
                spec_dec_dss(
                    mem,
                    a,
                    |d: DstOperand, s1: SrcOperand, s2: SrcOperand| Instruction::Add(d, s1, s2),
                ),
            ),
            10 => spec_dec_width(
                (ip + 4) as usize,
                spec_dec_dss(
                    mem,
                    a,
                    |d: DstOperand, s1: SrcOperand, s2: SrcOperand| Instruction::Mult(d, s1, s2),
                ),
            ),
            11 => spec_dec_width(
                (ip + 4) as usize,
                spec_dec_dss(
                    mem,
                    a,
                    |d: DstOperand, s1: SrcOperand, s2: SrcOperand| Instruction::Mod(d, s1, s2),
                ),
            ),
            12 => spec_dec_width(
                (ip + 4) as usize,
                spec_dec_dss(
                    mem,
                    a,
                    |d: DstOperand, s1: SrcOperand, s2: SrcOperand| Instruction::And(d, s1, s2),
                ),
            ),
            13 => spec_dec_width(
                (ip + 4) as usize,
                spec_dec_dss(
                    mem,
                    a,
                    |d: DstOperand, s1: SrcOperand, s2: SrcOperand| Instruction::Or(d, s1, s2),
                ),
            ),
            14 => spec_dec_width(
                (ip + 3) as usize,
                spec_dec_ds(mem, a, |d: DstOperand, s: SrcOperand| Instruction::Not(d, s)),
            ),
            15 => spec_dec_width(
                (ip + 3) as usize,
                spec_dec_ds(mem, a, |d: DstOperand, s: SrcOperand| Instruction::Rmem(d, s)),
            ),
            16 => spec_dec_width(
                (ip + 3) as usize,
                spec_dec_ss(mem, a, |s1: SrcOperand, s2: SrcOperand| Instruction::Wmem(s1, s2)),
            ),
            17 => spec_dec_width(
                (ip + 2) as usize,
                spec_dec_s(mem, a, |s: SrcOperand| Instruction::Call(s)),
            ),
            18 => Ok((a, Instruction::Ret)),
            19 => spec_dec_width(
                (ip + 2) as usize,
                spec_dec_s(mem, a, |s: SrcOperand| Instruction::Out(s)),
            ),
            20 => spec_dec_width(
                (ip + 2) as usize,
                spec_dec_d(mem, a, |d: DstOperand| Instruction::In(d)),
            ),
            21 => Ok((a, Instruction::Noop)),
            w => Err(Error::IllegalInstruction(w)),
        }
    }
}

/// Decoding of operand words is total: every word falls in exactly one of
/// three classes — a literal (high bit clear), a register reference (high
/// bit set, index bits only), or an invalid operand.
pub proof fn lemma_src_decode_total(word: u16)
    ensures
        word & INDIRECT_BIT == 0 ==> spec_decode_src(word) == Ok::<SrcOperand, Error>(
            SrcOperand::Immediate(word),
        ),
        word & INDIRECT_BIT != 0 && word & VALID_REGISTER_MASK == 0 ==> spec_decode_src(word)
            == Ok::<SrcOperand, Error>(SrcOperand::Register((word & REGISTER_MASK) as usize))
            && (word & REGISTER_MASK) < 8,
        word & INDIRECT_BIT != 0 && word & VALID_REGISTER_MASK != 0 ==> spec_decode_src(word)
            == Err::<SrcOperand, Error>(Error::InvalidSrcOperand(word)),
{
    assert(word & REGISTER_MASK < 8) by (bit_vector);
}

/// Destination decoding is total as well: a register reference decodes,
/// anything else is a named failure carrying the raw word.
pub proof fn lemma_dst_decode_total(word: u16)
    ensures
        word & INDIRECT_BIT != 0 && word & VALID_REGISTER_MASK == 0 ==> spec_decode_dst(word)
            == Ok::<DstOperand, Error>(DstOperand::Register((word & REGISTER_MASK) as usize))
            && (word & REGISTER_MASK) < 8,
        word & INDIRECT_BIT == 0 || word & VALID_REGISTER_MASK != 0 ==> spec_decode_dst(word)
            == Err::<DstOperand, Error>(Error::InvalidDstOperand(word)),
{
    assert(word & REGISTER_MASK < 8) by (bit_vector);
}

impl SrcOperand {
    /// Decode the source operand word at `ip`, bounds-checked.
    pub fn decode_at(memory: &[u16], ip: usize) -> (r: Result<Self, Error>)
        ensures
            r == spec_src_at(memory@, ip),
    {
        if ip < memory.len() {
            Self::decode(memory[ip])
        } else {
            Err(Error::InvalidIp(ip))
        }
    }
}

impl DstOperand {
    /// Decode the destination operand word at `ip`, bounds-checked.
    pub fn decode_at(memory: &[u16], ip: usize) -> (r: Result<Self, Error>)
        ensures
            r == spec_dst_at(memory@, ip),
    {
        if ip < memory.len() {
            Self::decode(memory[ip])
        } else {
            Err(Error::InvalidIp(ip))
        }
    }
}

/// A source operand that decoding can produce: a literal with the high
/// bit clear, or a register index below eight.
pub open spec fn spec_src_wf(op: SrcOperand) -> bool {
    match op {
        SrcOperand::Immediate(v) => v & INDIRECT_BIT == 0,
        SrcOperand::Register(r) => r < 8,
    }
}

/// A destination operand that decoding can produce.
pub open spec fn spec_dst_wf(op: DstOperand) -> bool {
    match op {
        DstOperand::Register(r) => r < 8,
    }
}

/// An instruction whose operands decoding can produce.
pub open spec fn spec_instr_wf(i: Instruction) -> bool {
    match i {
        Instruction::Halt => true,
        Instruction::SetReg(d, s) => spec_dst_wf(d) && spec_src_wf(s),
        Instruction::Push(s) => spec_src_wf(s),
        Instruction::Pop(d) => spec_dst_wf(d),
        Instruction::Eq(d, s1, s2) => spec_dst_wf(d) && spec_src_wf(s1) && spec_src_wf(s2),
        Instruction::Gt(d, s1, s2) => spec_dst_wf(d) && spec_src_wf(s1) && spec_src_wf(s2),
        Instruction::Jmp(s) => spec_src_wf(s),
        Instruction::Jt(s1, s2) => spec_src_wf(s1) && spec_src_wf(s2),
        Instruction::Jf(s1, s2) => spec_src_wf(s1) && spec_src_wf(s2),
        Instruction::Add(d, s1, s2) => spec_dst_wf(d) && spec_src_wf(s1) && spec_src_wf(s2),
        Instruction::Mult(d, s1, s2) => spec_dst_wf(d) && spec_src_wf(s1) && spec_src_wf(s2),
        Instruction::Mod(d, s1, s2) => spec_dst_wf(d) && spec_src_wf(s1) && spec_src_wf(s2),
        Instruction::And(d, s1, s2) => spec_dst_wf(d) && spec_src_wf(s1) && spec_src_wf(s2),
        Instruction::Or(d, s1, s2) => spec_dst_wf(d) && spec_src_wf(s1) && spec_src_wf(s2),
        Instruction::Not(d, s) => spec_dst_wf(d) && spec_src_wf(s),
        Instruction::Rmem(d, s) => spec_dst_wf(d) && spec_src_wf(s),
        Instruction::Wmem(s1, s2) => spec_src_wf(s1) && spec_src_wf(s2),
        Instruction::Call(s) => spec_src_wf(s),
        Instruction::Ret => true,
        Instruction::Out(s) => spec_src_wf(s),
        Instruction::In(d) => spec_dst_wf(d),
        Instruction::Noop => true,
    }
}

/// The word that decodes back to a well-formed source operand.
pub open spec fn spec_encode_src(op: SrcOperand) -> u16 {
    match op {
        SrcOperand::Immediate(v) => v,
        SrcOperand::Register(r) => INDIRECT_BIT | (r as u16),
    }
}

/// The word that decodes back to a well-formed destination operand.
pub open spec fn spec_encode_dst(op: DstOperand) -> u16 {
    match op {
        DstOperand::Register(r) => INDIRECT_BIT | (r as u16),
    }
}

/// The word sequence a well-formed instruction assembles to: the opcode
/// word followed by its operand words in order.
pub open spec fn spec_encode(i: Instruction) -> Seq<u16> {
    match i {
        Instruction::Halt => seq![0u16],
        Instruction::SetReg(d, s) => seq![1u16, spec_encode_dst(d), spec_encode_src(s)],
        Instruction::Push(s) => seq![2u16, spec_encode_src(s)],
        Instruction::Pop(d) => seq![3u16, spec_encode_dst(d)],
        Instruction::Eq(d, s1, s2) => seq![
            4u16,
            spec_encode_dst(d),
            spec_encode_src(s1),
            spec_encode_src(s2),
        ],
        Instruction::Gt(d, s1, s2) => seq![
            5u16,
            spec_encode_dst(d),
            spec_encode_src(s1),
            spec_encode_src(s2),
        ],
        Instruction::Jmp(s) => seq![6u16, spec_encode_src(s)],
        Instruction::Jt(s1, s2) => seq![7u16, spec_encode_src(s1), spec_encode_src(s2)],
        Instruction::Jf(s1, s2) => seq![8u16, spec_encode_src(s1), spec_encode_src(s2)],
        Instruction::Add(d, s1, s2) => seq![
            9u16,
            spec_encode_dst(d),
            spec_encode_src(s1),
            spec_encode_src(s2),
        ],
        Instruction::Mult(d, s1, s2) => seq![
            10u16,
            spec_encode_dst(d),
            spec_encode_src(s1),
            spec_encode_src(s2),
        ],
        Instruction::Mod(d, s1, s2) => seq![
            11u16,
            spec_encode_dst(d),
            spec_encode_src(s1),
            spec_encode_src(s2),
        ],
        Instruction::And(d, s1, s2) => seq![
            12u16,
            spec_encode_dst(d),
            spec_encode_src(s1),
            spec_encode_src(s2),
        ],
        Instruction::Or(d, s1, s2) => seq![
            13u16,
            spec_encode_dst(d),
            spec_encode_src(s1),
            spec_encode_src(s2),
        ],
        Instruction::Not(d, s) => seq![14u16, spec_encode_dst(d), spec_encode_src(s)],
        Instruction::Rmem(d, s) => seq![15u16, spec_encode_dst(d), spec_encode_src(s)],
        Instruction::Wmem(s1, s2) => seq![16u16, spec_encode_src(s1), spec_encode_src(s2)],
        Instruction::Call(s) => seq![17u16, spec_encode_src(s)],
        Instruction::Ret => seq![18u16],
        Instruction::Out(s) => seq![19u16, spec_encode_src(s)],
        Instruction::In(d) => seq![20u16, spec_encode_dst(d)],
        Instruction::Noop => seq![21u16],
    }
}

/// A well-formed source operand's encoding decodes back to it.
pub proof fn lemma_encode_src_roundtrip(op: SrcOperand)
    requires
        spec_src_wf(op),
    ensures
        spec_decode_src(spec_encode_src(op)) == Ok::<SrcOperand, Error>(op),
{
    match op {
        SrcOperand::Immediate(v) => {
        },
        SrcOperand::Register(r) => {
            let w = INDIRECT_BIT | (r as u16);
            let ru = r as u16;
            assert((0x8000u16 | ru) & 0x8000u16 != 0 && (0x8000u16 | ru) & 0x7ff8u16 == 0 && (
            0x8000u16 | ru) & 0x0007u16 == ru) by (bit_vector)
                requires
                    ru < 8,
            ;
        },
    }
}

/// A well-formed destination operand's encoding decodes back to it.
pub proof fn lemma_encode_dst_roundtrip(op: DstOperand)
    requires
        spec_dst_wf(op),
    ensures
        spec_decode_dst(spec_encode_dst(op)) == Ok::<DstOperand, Error>(op),
{
    match op {
        DstOperand::Register(r) => {
            let ru = r as u16;
            assert((0x8000u16 | ru) & 0x8000u16 != 0 && (0x8000u16 | ru) & 0x7ff8u16 == 0 && (
            0x8000u16 | ru) & 0x0007u16 == ru) by (bit_vector)
                requires
                    ru < 8,
            ;
        },
    }
}

/// Whatever decoding produces is well formed, spans at least one word,
/// ends inside memory, and is as wide as its re-encoding.
pub proof fn lemma_decode_wf(mem: Seq<u16>, ip: usize, n: usize, i: Instruction)
    requires
        mem.len() + 4 <= usize::MAX,
        spec_decode(mem, ip) == Ok::<(usize, Instruction), Error>((n, i)),
    ensures
        spec_instr_wf(i),
        ip < n <= mem.len(),
        n - ip == spec_encode(i).len(),
{
    assert(ip < mem.len());
    let w = mem[ip as int];
    assert(w & REGISTER_MASK < 8) by (bit_vector);
    if ip + 1 < mem.len() {
        let w1 = mem[ip as int + 1];
        assert(w1 & REGISTER_MASK < 8) by (bit_vector);
    }
    if ip + 2 < mem.len() {
        let w2 = mem[ip as int + 2];
        assert(w2 & REGISTER_MASK < 8) by (bit_vector);
    }
    if ip + 3 < mem.len() {
        let w3 = mem[ip as int + 3];
        assert(w3 & REGISTER_MASK < 8) by (bit_vector);
    }
}

/// Assembling a well-formed instruction and decoding the result from
/// address zero gives the instruction back, together with its width.
pub proof fn lemma_encode_decode(i: Instruction)
    requires
        spec_instr_wf(i),
    ensures
        spec_decode(spec_encode(i), 0) == Ok::<(usize, Instruction), Error>(
            (spec_encode(i).len() as usize, i),
        ),
{
    match i {
        Instruction::SetReg(d, s) => {
            lemma_encode_dst_roundtrip(d);
            lemma_encode_src_roundtrip(s);
        },
        Instruction::Push(s) => {
            lemma_encode_src_roundtrip(s);
        },
        Instruction::Pop(d) => {
            lemma_encode_dst_roundtrip(d);
        },
        Instruction::Eq(d, s1, s2) => {
            lemma_encode_dst_roundtrip(d);
            lemma_encode_src_roundtrip(s1);
            lemma_encode_src_roundtrip(s2);
        },
        Instruction::Gt(d, s1, s2) => {
            lemma_encode_dst_roundtrip(d);
            lemma_encode_src_roundtrip(s1);
            lemma_encode_src_roundtrip(s2);
        },
        Instruction::Jmp(s) => {
            lemma_encode_src_roundtrip(s);
        },
        Instruction::Jt(s1, s2) => {
            lemma_encode_src_roundtrip(s1);
            lemma_encode_src_roundtrip(s2);
        },
        Instruction::Jf(s1, s2) => {
            lemma_encode_src_roundtrip(s1);
            lemma_encode_src_roundtrip(s2);
        },
        Instruction::Add(d, s1, s2) => {
            lemma_encode_dst_roundtrip(d);
            lemma_encode_src_roundtrip(s1);
            lemma_encode_src_roundtrip(s2);
        },
        Instruction::Mult(d, s1, s2) => {
            lemma_encode_dst_roundtrip(d);
            lemma_encode_src_roundtrip(s1);
            lemma_encode_src_roundtrip(s2);
        },
        Instruction::Mod(d, s1, s2) => {
            lemma_encode_dst_roundtrip(d);
            lemma_encode_src_roundtrip(s1);
            lemma_encode_src_roundtrip(s2);
        },
        Instruction::And(d, s1, s2) => {
            lemma_encode_dst_roundtrip(d);
            lemma_encode_src_roundtrip(s1);
            lemma_encode_src_roundtrip(s2);
        },
        Instruction::Or(d, s1, s2) => {
            lemma_encode_dst_roundtrip(d);
            lemma_encode_src_roundtrip(s1);
            lemma_encode_src_roundtrip(s2);
        },
        Instruction::Not(d, s) => {
            lemma_encode_dst_roundtrip(d);
            lemma_encode_src_roundtrip(s);
        },
        Instruction::Rmem(d, s) => {
            lemma_encode_dst_roundtrip(d);
            lemma_encode_src_roundtrip(s);
        },
        Instruction::Wmem(s1, s2) => {
            lemma_encode_src_roundtrip(s1);
            lemma_encode_src_roundtrip(s2);
        },
        Instruction::Call(s) => {
            lemma_encode_src_roundtrip(s);
        },
        Instruction::Out(s) => {
            lemma_encode_src_roundtrip(s);
        },
        Instruction::In(d) => {
            lemma_encode_dst_roundtrip(d);
        },
        _ => {
        },
    }
}

/// Decoder determinism: decoding, re-encoding and decoding again yields
/// the identical instruction.
pub proof fn lemma_decode_encode_roundtrip(mem: Seq<u16>, ip: usize, n: usize, i: Instruction)
    requires
        mem.len() + 4 <= usize::MAX,
        spec_decode(mem, ip) == Ok::<(usize, Instruction), Error>((n, i)),
    ensures
        spec_decode(spec_encode(i), 0) == Ok::<(usize, Instruction), Error>(
            (spec_encode(i).len() as usize, i),
        ),
{
    lemma_decode_wf(mem, ip, n, i);
    lemma_encode_decode(i);
}

impl SrcOperand {
    /// Assemble this operand back into its word.
    pub fn encode(&self) -> (r: u16)
        requires
            spec_src_wf(*self),
        ensures
            r == spec_encode_src(*self),
    {
        match *self {
            SrcOperand::Immediate(v) => v,
            SrcOperand::Register(r) => INDIRECT_BIT | (r as u16),
        }
    }
}

impl DstOperand {
    /// Assemble this operand back into its word.
    pub fn encode(&self) -> (r: u16)
        requires
            spec_dst_wf(*self),
        ensures
            r == spec_encode_dst(*self),
    {
        match *self {
            DstOperand::Register(r) => INDIRECT_BIT | (r as u16),
        }
    }
}

impl Instruction {
    /// Assemble this instruction into the words it decodes from.
    pub fn encode(&self) -> (r: Vec<u16>)
        requires
            spec_instr_wf(*self),
        ensures
            r@ == spec_encode(*self),
    {
        let mut out: Vec<u16> = Vec::new();
        match *self {
            Instruction::Halt => {
                out.push(0);
            },
            Instruction::SetReg(d, s) => {
                out.push(1);
                out.push(d.encode());
                out.push(s.encode());
            },
            Instruction::Push(s) => {
                out.push(2);
                out.push(s.encode());
            },
            Instruction::Pop(d) => {
                out.push(3);
                out.push(d.encode());
            },
            Instruction::Eq(d, s1, s2) => {
                out.push(4);
                out.push(d.encode());
                out.push(s1.encode());
                out.push(s2.encode());
            },
            Instruction::Gt(d, s1, s2) => {
                out.push(5);
                out.push(d.encode());
                out.push(s1.encode());
                out.push(s2.encode());
            },
            Instruction::Jmp(s) => {
                out.push(6);
                out.push(s.encode());
            },
            Instruction::Jt(s1, s2) => {
                out.push(7);
                out.push(s1.encode());
                out.push(s2.encode());
            },
            Instruction::Jf(s1, s2) => {
                out.push(8);
                out.push(s1.encode());
                out.push(s2.encode());
            },
            Instruction::Add(d, s1, s2) => {
                out.push(9);
                out.push(d.encode());
                out.push(s1.encode());
                out.push(s2.encode());
            },
            Instruction::Mult(d, s1, s2) => {
                out.push(10);
                out.push(d.encode());
                out.push(s1.encode());
                out.push(s2.encode());
            },
            Instruction::Mod(d, s1, s2) => {
                out.push(11);
                out.push(d.encode());
                out.push(s1.encode());
                out.push(s2.encode());
            },
            Instruction::And(d, s1, s2) => {
                out.push(12);
                out.push(d.encode());
                out.push(s1.encode());
                out.push(s2.encode());
            },
            Instruction::Or(d, s1, s2) => {
                out.push(13);
                out.push(d.encode());
                out.push(s1.encode());
                out.push(s2.encode());
            },
            Instruction::Not(d, s) => {
                out.push(14);
                out.push(d.encode());
                out.push(s.encode());
            },
            Instruction::Rmem(d, s) => {
                out.push(15);
                out.push(d.encode());
                out.push(s.encode());
            },
            Instruction::Wmem(s1, s2) => {
                out.push(16);
                out.push(s1.encode());
                out.push(s2.encode());
            },
            Instruction::Call(s) => {
                out.push(17);
                out.push(s.encode());
            },
            Instruction::Ret => {
                out.push(18);
            },
            Instruction::Out(s) => {
                out.push(19);
                out.push(s.encode());
            },
            Instruction::In(d) => {
                out.push(20);
                out.push(d.encode());
            },
            Instruction::Noop => {
                out.push(21);
            },
        }
        assert(out@ == spec_encode(*self));
        out
    }
}

impl Instruction {
    /// Decode the instruction whose opcode word stands at `ip`, returning
    /// it together with the address just past its encoding.
    pub fn decode(memory: &[u16], ip: usize) -> (r: Result<(usize, Instruction), Error>)
        ensures
            r == spec_decode(memory@, ip),
    {
        if ip >= memory.len() {
            return Err(Error::InvalidIp(ip));
        }
        let a = ip + 1;
        match memory[ip] {
            0 => Ok((a, Instruction::Halt)),
            1 => {
                let d = DstOperand::decode_at(memory, a)?;
                let s = SrcOperand::decode_at(memory, a + 1)?;
                Ok((a + 2, Instruction::SetReg(d, s)))
            },
            2 => {
                let s = SrcOperand::decode_at(memory, a)?;
                Ok((a + 1, Instruction::Push(s)))
            },
            3 => {
                let d = DstOperand::decode_at(memory, a)?;
                Ok((a + 1, Instruction::Pop(d)))
            },
            4 => {
                let d = DstOperand::decode_at(memory, a)?;
                let s1 = SrcOperand::decode_at(memory, a + 1)?;
                let s2 = SrcOperand::decode_at(memory, a + 2)?;
                Ok((a + 3, Instruction::Eq(d, s1, s2)))
            },
            5 => {
                let d = DstOperand::decode_at(memory, a)?;
                let s1 = SrcOperand::decode_at(memory, a + 1)?;
                let s2 = SrcOperand::decode_at(memory, a + 2)?;
                Ok((a + 3, Instruction::Gt(d, s1, s2)))
            },
            6 => {
                let s = SrcOperand::decode_at(memory, a)?;
                Ok((a + 1, Instruction::Jmp(s)))
            },
            7 => {
                let s1 = SrcOperand::decode_at(memory, a)?;
                let s2 = SrcOperand::decode_at(memory, a + 1)?;
                Ok((a + 2, Instruction::Jt(s1, s2)))
            },
            8 => {
                let s1 = SrcOperand::decode_at(memory, a)?;
                let s2 = SrcOperand::decode_at(memory, a + 1)?;
                Ok((a + 2, Instruction::Jf(s1, s2)))
            },
            9 => {
                let d = DstOperand::decode_at(memory, a)?;
                let s1 = SrcOperand::decode_at(memory, a + 1)?;
                let s2 = SrcOperand::decode_at(memory, a + 2)?;
                Ok((a + 3, Instruction::Add(d, s1, s2)))
            },
            10 => {
                let d = DstOperand::decode_at(memory, a)?;
                let s1 = SrcOperand::decode_at(memory, a + 1)?;
                let s2 = SrcOperand::decode_at(memory, a + 2)?;
                Ok((a + 3, Instruction::Mult(d, s1, s2)))
            },
            11 => {
                let d = DstOperand::decode_at(memory, a)?;
                let s1 = SrcOperand::decode_at(memory, a + 1)?;
                let s2 = SrcOperand::decode_at(memory, a + 2)?;
                Ok((a + 3, Instruction::Mod(d, s1, s2)))
            },
            12 => {
                let d = DstOperand::decode_at(memory, a)?;
                let s1 = SrcOperand::decode_at(memory, a + 1)?;
                let s2 = SrcOperand::decode_at(memory, a + 2)?;
                Ok((a + 3, Instruction::And(d, s1, s2)))
            },
            13 => {
                let d = DstOperand::decode_at(memory, a)?;
                let s1 = SrcOperand::decode_at(memory, a + 1)?;
                let s2 = SrcOperand::decode_at(memory, a + 2)?;
                Ok((a + 3, Instruction::Or(d, s1, s2)))
            },
            14 => {
                let d = DstOperand::decode_at(memory, a)?;
                let s = SrcOperand::decode_at(memory, a + 1)?;
                Ok((a + 2, Instruction::Not(d, s)))
            },
            15 => {
                let d = DstOperand::decode_at(memory, a)?;
                let s = SrcOperand::decode_at(memory, a + 1)?;
                Ok((a + 2, Instruction::Rmem(d, s)))
            },
            16 => {
                let s1 = SrcOperand::decode_at(memory, a)?;
                let s2 = SrcOperand::decode_at(memory, a + 1)?;
                Ok((a + 2, Instruction::Wmem(s1, s2)))
            },
            17 => {
                let s = SrcOperand::decode_at(memory, a)?;
                Ok((a + 1, Instruction::Call(s)))
            },
            18 => Ok((a, Instruction::Ret)),
            19 => {
                let s = SrcOperand::decode_at(memory, a)?;
                Ok((a + 1, Instruction::Out(s)))
            },
            20 => {
                let d = DstOperand::decode_at(memory, a)?;
                Ok((a + 1, Instruction::In(d)))
            },
            21 => Ok((a, Instruction::Noop)),
            w => Err(Error::IllegalInstruction(w)),
        }
    }
}

/// A queue of pending input bytes. The execution engine takes bytes from
/// the front; the surrounding program refills it with whole lines.
pub struct InputBuffer {
    data: Vec<u8>,
}

impl View for InputBuffer {
    type V = Seq<u8>;

    closed spec fn view(&self) -> Seq<u8> {
        self.data@
    }
}

impl InputBuffer {
    /// An input queue holding exactly the given bytes.
    pub fn new(data: Vec<u8>) -> (r: Self)
        ensures
            r@ == data@,
    {
        InputBuffer { data }
    }

    /// Whether no byte is pending.
    pub fn is_empty(&self) -> (r: bool)
        ensures
            r == (self@.len() == 0),
    {
        self.data.len() == 0
    }

    /// Throw away whatever is pending and queue the given bytes instead.
    pub fn refill(&mut self, data: Vec<u8>)
        ensures
            final(self)@ == data@,
    {
        self.data = data;
    }

    /// Discard every leading carriage-return byte, then take the next
    /// byte, if one is left.
    pub fn take_input_byte(&mut self) -> (r: Option<u8>)
        ensures
            ({
                let rest = spec_skip_cr(old(self)@);
                if rest.len() == 0 {
                    r is None && final(self)@ == rest
                } else {
                    r == Some(rest[0]) && final(self)@ == rest.skip(1)
                }
            }),
    {
        let mut result: Option<u8> = None;
        loop
            invariant_except_break
                spec_skip_cr(old(self)@) == spec_skip_cr(self@),
                result is None,
            ensures
                ({
                    let rest = spec_skip_cr(old(self)@);
                    if rest.len() == 0 {
                        result is None && self@ == rest
                    } else {
                        result == Some(rest[0]) && self@ == rest.skip(1)
                    }
                }),
            decreases self@.len(),
        {
            match self.take_byte() {
                None => {
                    proof {
                        assert(spec_skip_cr(self@) =~= self@);
                    }
                    break;
                },
                Some(b) => {
                    if b != 13 {
                        result = Some(b);
                        break;
                    }
                },
            }
        }
        result
    }

    /// Take the front byte, if any.
    pub fn take_byte(&mut self) -> (r: Option<u8>)
        ensures
            old(self)@.len() == 0 ==> r is None && final(self)@ == old(self)@,
            old(self)@.len() > 0 ==> r == Some(old(self)@[0]) && final(self)@ == old(self)@.skip(
                1,
            ),
    {
        if self.data.len() == 0 {
            None
        } else {
            let b = self.data.remove(0);
            assert(self.data@ == old(self).data@.skip(1));
            Some(b)
        }
    }
}

/// The mathematical state of the machine: memory and register contents,
/// the instruction pointer, and the stack from bottom to top.
#[verifier::ext_equal]
pub struct VmModel {
    pub mem: Seq<u16>,
    pub regs: Seq<u16>,
    pub ip: usize,
    pub stack: Seq<u16>,
}

/// Everything one step touches: machine state, the unread input, the
/// output written so far, and the step's own result.
#[verifier::ext_equal]
pub struct StepModel {
    pub vm: VmModel,
    pub input: Seq<u8>,
    pub output: Seq<u8>,
    pub result: Result<VmState, Error>,
}

/// A machine state with the documented dimensions: 32,768 memory words
/// and 8 registers.
pub open spec fn spec_vm_wf(m: VmModel) -> bool {
    m.mem.len() == MEM_WORDS && m.regs.len() == NUM_REGISTERS
}

/// The value a source operand denotes: the literal itself, or the named
/// register's current content.
pub open spec fn spec_read_src(m: VmModel, op: SrcOperand) -> u16 {
    match op {
        SrcOperand::Immediate(v) => v,
        SrcOperand::Register(r) => m.regs[r as int],
    }
}

/// The state after storing `val` into the destination register.
pub open spec fn spec_write_dst(m: VmModel, op: DstOperand, val: u16) -> VmModel {
    match op {
        DstOperand::Register(r) => VmModel { regs: m.regs.update(r as int, val), ..m },
    }
}

/// The state with the instruction pointer moved to `ip`.
pub open spec fn spec_with_ip(m: VmModel, ip: usize) -> VmModel {
    VmModel { ip, ..m }
}

/// Wrapping 16-bit addition with the high tag bit masked off the result.
pub open spec fn spec_masked_add(a: u16, b: u16) -> u16 {
    vstd::wrapping::u16_specs::wrapping_add(a, b) & !INDIRECT_BIT
}

/// Wrapping 16-bit multiplication with the high tag bit masked off.
pub open spec fn spec_masked_mult(a: u16, b: u16) -> u16 {
    vstd::wrapping::u16_specs::wrapping_mul(a, b) & !INDIRECT_BIT
}

/// Bitwise complement with the high tag bit masked off.
pub open spec fn spec_masked_not(a: u16) -> u16 {
    !a & !INDIRECT_BIT
}

/// The input with every leading carriage-return byte discarded.
pub open spec fn spec_skip_cr(s: Seq<u8>) -> Seq<u8>
    decreases s.len(),
{
    if s.len() > 0 && s[0] == 13u8 {
        spec_skip_cr(s.skip(1))
    } else {
        s
    }
}

/// A step outcome that leaves everything as it was but for the result.
pub open spec fn spec_step_stuck(
    m: VmModel,
    input: Seq<u8>,
    output: Seq<u8>,
    e: Error,
) -> StepModel {
    StepModel { vm: m, input, output, result: Err(e) }
}

/// A step outcome that moved to `vm` and keeps running.
pub open spec fn spec_step_ran(vm: VmModel, input: Seq<u8>, output: Seq<u8>) -> StepModel {
    StepModel { vm, input, output, result: Ok(VmState::Running) }
}

/// The effect of one decoded instruction on the machine, its input and
/// its output; `next` is the address just past the instruction.
pub open spec fn spec_exec_instr(
    m: VmModel,
    input: Seq<u8>,
    output: Seq<u8>,
    next: usize,
    instr: Instruction,
) -> StepModel {
    match instr {
        Instruction::Halt => StepModel { vm: m, input, output, result: Ok(VmState::Halted) },
        Instruction::SetReg(d, s) => spec_step_ran(
            spec_with_ip(spec_write_dst(m, d, spec_read_src(m, s)), next),
            input,
            output,
        ),
        Instruction::Push(s) => spec_step_ran(
            spec_with_ip(VmModel { stack: m.stack.push(spec_read_src(m, s)), ..m }, next),
            input,
            output,
        ),
        Instruction::Pop(d) => if m.stack.len() == 0 {
            spec_step_stuck(m, input, output, Error::StackUnderflow)
        } else {
            spec_step_ran(
                spec_with_ip(
                    spec_write_dst(
                        VmModel { stack: m.stack.drop_last(), ..m },
                        d,
                        m.stack.last(),
                    ),
                    next,
                ),
                input,
                output,
            )
        },
        Instruction::Eq(d, s1, s2) => spec_step_ran(
            spec_with_ip(
                spec_write_dst(
                    m,
                    d,
                    if spec_read_src(m, s1) == spec_read_src(m, s2) {
                        1u16
                    } else {
                        0u16
                    },
                ),
                next,
            ),
            input,
            output,
        ),
        Instruction::Gt(d, s1, s2) => spec_step_ran(
            spec_with_ip(
                spec_write_dst(
                    m,
                    d,
                    if spec_read_src(m, s1) > spec_read_src(m, s2) {
                        1u16
                    } else {
                        0u16
                    },
                ),
                next,
            ),
            input,
            output,
        ),
        Instruction::Jmp(s) => spec_step_ran(
            spec_with_ip(m, spec_read_src(m, s) as usize),
            input,
            output,
        ),
        Instruction::Jt(c, t) => spec_step_ran(
            spec_with_ip(
                m,
                if spec_read_src(m, c) != 0 {
                    spec_read_src(m, t) as usize
                } else {
                    next
                },
            ),
            input,
            output,
        ),
        Instruction::Jf(c, t) => spec_step_ran(
            spec_with_ip(
                m,
                if spec_read_src(m, c) == 0 {
                    spec_read_src(m, t) as usize
                } else {
                    next
                },
            ),
            input,
            output,
        ),
        Instruction::Add(d, s1, s2) => spec_step_ran(
            spec_with_ip(
                spec_write_dst(m, d, spec_masked_add(spec_read_src(m, s1), spec_read_src(m, s2))),
                next,
            ),
            input,
            output,
        ),
        Instruction::Mult(d, s1, s2) => spec_step_ran(
            spec_with_ip(
                spec_write_dst(m, d, spec_masked_mult(spec_read_src(m, s1), spec_read_src(m, s2))),
                next,
            ),
            input,
            output,
        ),
        Instruction::Mod(d, s1, s2) => if spec_read_src(m, s2) == 0 {
            spec_step_stuck(m, input, output, Error::DivisionByZero)
        } else {
            spec_step_ran(
                spec_with_ip(
                    spec_write_dst(
                        m,
                        d,
                        (spec_read_src(m, s1) % spec_read_src(m, s2)) as u16,
                    ),
                    next,
                ),
                input,
                output,
            )
        },
        Instruction::And(d, s1, s2) => spec_step_ran(
            spec_with_ip(
                spec_write_dst(m, d, spec_read_src(m, s1) & spec_read_src(m, s2)),
                next,
            ),
            input,
            output,
        ),
        Instruction::Or(d, s1, s2) => spec_step_ran(
            spec_with_ip(
                spec_write_dst(m, d, spec_read_src(m, s1) | spec_read_src(m, s2)),
                next,
            ),
            input,
            output,
        ),
        Instruction::Not(d, s) => spec_step_ran(
            spec_with_ip(spec_write_dst(m, d, spec_masked_not(spec_read_src(m, s))), next),
            input,
            output,
        ),
        Instruction::Rmem(d, sa) => {
            let p = spec_read_src(m, sa);
            if p < m.mem.len() {
                spec_step_ran(
                    spec_with_ip(spec_write_dst(m, d, m.mem[p as int]), next),
                    input,
                    output,
                )
            } else {
                spec_step_stuck(m, input, output, Error::InvalidAddress(p))
            }
        },
        Instruction::Wmem(sa, sv) => {
            let p = spec_read_src(m, sa);
            let v = spec_read_src(m, sv);
            if p < m.mem.len() {
                spec_step_ran(
                    spec_with_ip(VmModel { mem: m.mem.update(p as int, v), ..m }, next),
                    input,
                    output,
                )
            } else {
                spec_step_stuck(m, input, output, Error::InvalidAddress(p))
            }
        },
        Instruction::Call(s) => spec_step_ran(
            spec_with_ip(
                VmModel { stack: m.stack.push(next as u16), ..m },
                spec_read_src(m, s) as usize,
            ),
            input,
            output,
        ),
        Instruction::Ret => if m.stack.len() == 0 {
            StepModel { vm: m, input, output, result: Ok(VmState::Halted) }
        } else {
            spec_step_ran(
                spec_with_ip(
                    VmModel { stack: m.stack.drop_last(), ..m },
                    m.stack.last() as usize,
                ),
                input,
                output,
            )
        },
        Instruction::Out(s) => {
            let v = spec_read_src(m, s);
            if v & VALID_IO_MASK != 0 {
                spec_step_stuck(m, input, output, Error::InvalidIOWord(v))
            } else {
                spec_step_ran(spec_with_ip(m, next), input, output.push(v as u8))
            }
        },
        Instruction::In(d) => {
            let rest = spec_skip_cr(input);
            if rest.len() == 0 {
                StepModel { vm: m, input: rest, output, result: Err(Error::IOError) }
            } else {
                spec_step_ran(
                    spec_with_ip(spec_write_dst(m, d, rest[0] as u16), next),
                    rest.skip(1),
                    output,
                )
            }
        },
        Instruction::Noop => spec_step_ran(spec_with_ip(m, next), input, output),
    }
}

/// One step of the machine: decode at the instruction pointer, fail with
/// the decoder's error and no other change, or apply the instruction.
pub open spec fn spec_step(m: VmModel, input: Seq<u8>, output: Seq<u8>) -> StepModel {
    match spec_decode(m.mem, m.ip) {
        Err(e) => spec_step_stuck(m, input, output, e),
        Ok((next, instr)) => spec_exec_instr(m, input, output, next, instr),
    }
}

/// Up to `fuel` steps: stop early on halt or on an error; report
/// `Running` when the budget is exhausted first.
pub open spec fn spec_run(m: VmModel, input: Seq<u8>, output: Seq<u8>, fuel: nat) -> StepModel
    decreases fuel,
{
    if fuel == 0 {
        StepModel { vm: m, input, output, result: Ok(VmState::Running) }
    } else {
        let s = spec_step(m, input, output);
        if s.result == Ok::<VmState, Error>(VmState::Running) {
            spec_run(s.vm, s.input, s.output, (fuel - 1) as nat)
        } else {
            s
        }
    }
}

/// The execution engine: a word store, the register bank, the
/// instruction pointer, and the operand stack.
#[derive(Debug, Clone)]
pub struct Vm {
    memory: Vec<u16>,
    registers: Vec<u16>,
    ip: usize,
    stack: Vec<u16>,
}

impl View for Vm {
    type V = VmModel;

    closed spec fn view(&self) -> VmModel {
        VmModel { mem: self.memory@, regs: self.registers@, ip: self.ip, stack: self.stack@ }
    }
}

impl Vm {
    /// The machine has its documented dimensions.
    pub open spec fn wf(&self) -> bool {
        spec_vm_wf(self@)
    }

    /// A machine with zeroed memory and registers, the instruction
    /// pointer at zero, and an empty stack.
    pub fn new() -> (r: Self)
        ensures
            r.wf(),
            r@.ip == 0,
            r@.stack.len() == 0,
            forall|i: int| 0 <= i < MEM_WORDS ==> r@.mem[i] == 0,
            forall|i: int| 0 <= i < NUM_REGISTERS ==> r@.regs[i] == 0,
    {
        let mut memory: Vec<u16> = Vec::new();
        let mut i: usize = 0;
        while i < MEM_WORDS
            invariant
                i <= MEM_WORDS,
                memory@.len() == i,
                forall|j: int| 0 <= j < i ==> memory@[j] == 0,
            decreases MEM_WORDS - i,
        {
            memory.push(0);
            i = i + 1;
        }
        let mut registers: Vec<u16> = Vec::new();
        let mut i: usize = 0;
        while i < NUM_REGISTERS
            invariant
                i <= NUM_REGISTERS,
                registers@.len() == i,
                forall|j: int| 0 <= j < i ==> registers@[j] == 0,
            decreases NUM_REGISTERS - i,
        {
            registers.push(0);
            i = i + 1;
        }
        Vm { memory, registers, ip: 0, stack: Vec::new() }
    }

    /// Load a program image at address zero. An image longer than the
    /// store fails without mutating anything; otherwise the whole store
    /// is rewritten: the image's words first, zeroes after them.
    pub fn load(&mut self, program: &[u16]) -> (r: Result<(), Error>)
        requires
            old(self).wf(),
        ensures
            final(self).wf(),
            program@.len() > MEM_WORDS ==> r == Err::<(), Error>(
                Error::ProgramTooLarge(program@.len() as usize),
            ) && final(self)@ == old(self)@,
            program@.len() <= MEM_WORDS ==> r == Ok::<(), Error>(()) && final(self)@ == (VmModel {
                mem: Seq::new(
                    MEM_WORDS as nat,
                    |i: int| if i < program@.len() { program@[i] } else { 0u16 },
                ),
                ..old(self)@
            }),
    {
        if program.len() > self.memory.len() {
            return Err(Error::ProgramTooLarge(program.len()));
        }
        let mut i: usize = 0;
        while i < MEM_WORDS
            invariant
                i <= MEM_WORDS,
                self.memory@.len() == MEM_WORDS,
                program@.len() <= MEM_WORDS,
                forall|j: int|
                    0 <= j < i ==> self.memory@[j] == (if j < program@.len() {
                        program@[j]
                    } else {
                        0u16
                    }),
                self.registers@ == old(self).registers@,
                self.ip == old(self).ip,
                self.stack@ == old(self).stack@,
            decreases MEM_WORDS - i,
        {
            let w = if i < program.len() {
                program[i]
            } else {
                0
            };
            self.memory[i] = w;
            i = i + 1;
        }
        proof {
            assert(final(self)@.mem =~= Seq::new(
                MEM_WORDS as nat,
                |i: int| if i < program@.len() { program@[i] } else { 0u16 },
            ));
            assert(final(self)@ =~= (VmModel {
                mem: Seq::new(
                    MEM_WORDS as nat,
                    |i: int| if i < program@.len() { program@[i] } else { 0u16 },
                ),
                ..old(self)@
            }));
        }
        Ok(())
    }

    /// The whole word store.
    pub fn memory(&self) -> (r: &Vec<u16>)
        ensures
            r@ == self@.mem,
    {
        &self.memory
    }

    /// The register bank.
    pub fn registers(&self) -> (r: &Vec<u16>)
        ensures
            r@ == self@.regs,
    {
        &self.registers
    }

    /// The current instruction pointer.
    pub fn ip(&self) -> (r: usize)
        ensures
            r == self@.ip,
    {
        self.ip
    }

    /// The operand stack, bottom first.
    pub fn stack(&self) -> (r: &Vec<u16>)
        ensures
            r@ == self@.stack,
    {
        &self.stack
    }

    /// Decode the instruction at `addr` without executing anything.
    pub fn decode(&self, addr: usize) -> (r: Result<(usize, Instruction), Error>)
        ensures
            r == spec_decode(self@.mem, addr),
    {
        Instruction::decode(self.memory.as_slice(), addr)
    }

    /// Decode the instruction the next step would execute.
    pub fn decode_next(&self) -> (r: Result<(usize, Instruction), Error>)
        ensures
            r == spec_decode(self@.mem, self@.ip),
    {
        self.decode(self.ip)
    }

    /// Mutable access to the word store, for direct overwrites.
    pub fn memory_mut(&mut self) -> (r: &mut Vec<u16>)
        ensures
            r@ == old(self)@.mem,
            final(self)@ == (VmModel { mem: final(r)@, ..old(self)@ }),
    {
        &mut self.memory
    }

    /// Mutable access to the register bank, for direct overwrites.
    pub fn registers_mut(&mut self) -> (r: &mut Vec<u16>)
        ensures
            r@ == old(self)@.regs,
            final(self)@ == (VmModel { regs: final(r)@, ..old(self)@ }),
    {
        &mut self.registers
    }

    /// Move the instruction pointer directly.
    pub fn jump_to(&mut self, ip: usize)
        ensures
            final(self)@ == spec_with_ip(old(self)@, ip),
    {
        self.ip = ip;
    }

    /// Push a word onto the operand stack directly.
    pub fn push_stack(&mut self, val: u16)
        ensures
            final(self)@ == (VmModel { stack: old(self)@.stack.push(val), ..old(self)@ }),
    {
        self.stack.push(val)
    }

    /// Pop the top of the operand stack directly, if any.
    pub fn pop_stack(&mut self) -> (r: Option<u16>)
        ensures
            old(self)@.stack.len() == 0 ==> r is None && final(self)@ == old(self)@,
            old(self)@.stack.len() > 0 ==> r == Some(old(self)@.stack.last()) && final(self)@
                == (VmModel { stack: old(self)@.stack.drop_last(), ..old(self)@ }),
    {
        self.stack.pop()
    }

    /// The value a source operand denotes in the current state.
    fn read_src(&self, operand: &SrcOperand) -> (r: u16)
        requires
            self.wf(),
            spec_src_wf(*operand),
        ensures
            r == spec_read_src(self@, *operand),
    {
        match *operand {
            SrcOperand::Immediate(val) => val,
            SrcOperand::Register(reg) => self.registers[reg],
        }
    }

    /// Store a word into the destination register.
    fn write_dst(&mut self, operand: &DstOperand, word: u16)
        requires
            old(self).wf(),
            spec_dst_wf(*operand),
        ensures
            final(self).wf(),
            final(self)@ == spec_write_dst(old(self)@, *operand, word),
    {
        match *operand {
            DstOperand::Register(reg) => {
                self.registers[reg] = word;
            },
        }
    }

    /// Execute exactly one instruction: decode at the instruction
    /// pointer, apply the instruction's effect, and advance the pointer
    /// (control flow overrides it). On any error nothing is changed but
    /// the input queue, which `In` may have drained of carriage returns.
    pub fn step(&mut self, input: &mut InputBuffer, output: &mut Vec<u8>) -> (r: Result<
        VmState,
        Error,
    >)
        requires
            old(self).wf(),
        ensures
            final(self).wf(),
            ({
                let m = spec_step(old(self)@, old(input)@, old(output)@);
                final(self)@ == m.vm && final(input)@ == m.input && final(output)@ == m.output
                    && r == m.result
            }),
    {
        let (new_ip, instr) = match self.decode_next() {
            Ok(p) => p,
            Err(e) => {
                return Err(e);
            },
        };
        proof {
            lemma_decode_wf(self@.mem, self@.ip, new_ip, instr);
        }
        match instr {
            Instruction::Halt => {
                return Ok(VmState::Halted);
            },
            Instruction::SetReg(dst, src) => {
                let v = self.read_src(&src);
                self.write_dst(&dst, v);
                self.ip = new_ip;
            },
            Instruction::Push(src) => {
                let v = self.read_src(&src);
                self.stack.push(v);
                self.ip = new_ip;
            },
            Instruction::Pop(dst) => {
                match self.stack.pop() {
                    Some(val) => {
                        self.write_dst(&dst, val);
                        self.ip = new_ip;
                    },
                    None => {
                        return Err(Error::StackUnderflow);
                    },
                }
            },
            Instruction::Eq(dst, lhs, rhs) => {
                let v = if self.read_src(&lhs) == self.read_src(&rhs) {
                    1
                } else {
                    0
                };
                self.write_dst(&dst, v);
                self.ip = new_ip;
            },
            Instruction::Gt(dst, lhs, rhs) => {
                let v = if self.read_src(&lhs) > self.read_src(&rhs) {
                    1
                } else {
                    0
                };
                self.write_dst(&dst, v);
                self.ip = new_ip;
            },
            Instruction::Jmp(target) => {
                self.ip = self.read_src(&target) as usize;
            },
            Instruction::Jt(cond, target) => {
                if self.read_src(&cond) != 0 {
                    self.ip = self.read_src(&target) as usize;
                } else {
                    self.ip = new_ip;
                }
            },
            Instruction::Jf(cond, target) => {
                if self.read_src(&cond) == 0 {
                    self.ip = self.read_src(&target) as usize;
                } else {
                    self.ip = new_ip;
                }
            },
            Instruction::Add(dst, lhs, rhs) => {
                let v = self.read_src(&lhs).wrapping_add(self.read_src(&rhs)) & !INDIRECT_BIT;
                self.write_dst(&dst, v);
                self.ip = new_ip;
            },
            Instruction::Mult(dst, lhs, rhs) => {
                let v = self.read_src(&lhs).wrapping_mul(self.read_src(&rhs)) & !INDIRECT_BIT;
                self.write_dst(&dst, v);
                self.ip = new_ip;
            },
            Instruction::Mod(dst, lhs, rhs) => {
                let b = self.read_src(&rhs);
                if b == 0 {
                    return Err(Error::DivisionByZero);
                }
                let v = self.read_src(&lhs) % b;
                self.write_dst(&dst, v);
                self.ip = new_ip;
            },
            Instruction::And(dst, lhs, rhs) => {
                let v = self.read_src(&lhs) & self.read_src(&rhs);
                self.write_dst(&dst, v);
                self.ip = new_ip;
            },
            Instruction::Or(dst, lhs, rhs) => {
                let v = self.read_src(&lhs) | self.read_src(&rhs);
                self.write_dst(&dst, v);
                self.ip = new_ip;
            },
            Instruction::Not(dst, src) => {
                let v = !self.read_src(&src) & !INDIRECT_BIT;
                self.write_dst(&dst, v);
                self.ip = new_ip;
            },
            Instruction::Rmem(dst, src_addr) => {
                let p = self.read_src(&src_addr);
                if (p as usize) < self.memory.len() {
                    let v = self.memory[p as usize];
                    self.write_dst(&dst, v);
                    self.ip = new_ip;
                } else {
                    return Err(Error::InvalidAddress(p));
                }
            },
            Instruction::Wmem(dst_addr, src_val) => {
                let p = self.read_src(&dst_addr);
                let v = self.read_src(&src_val);
                if (p as usize) < self.memory.len() {
                    self.memory[p as usize] = v;
                    self.ip = new_ip;
                } else {
                    return Err(Error::InvalidAddress(p));
                }
            },
            Instruction::Call(target) => {
                self.stack.push(new_ip as u16);
                self.ip = self.read_src(&target) as usize;
            },
            Instruction::Ret => {
                match self.stack.pop() {
                    Some(ip) => {
                        self.ip = ip as usize;
                    },
                    None => {
                        return Ok(VmState::Halted);
                    },
                }
            },
            Instruction::Out(src) => {
                let v = self.read_src(&src);
                if v & VALID_IO_MASK != 0 {
                    return Err(Error::InvalidIOWord(v));
                }
                output.push(v as u8);
                self.ip = new_ip;
            },
            Instruction::In(dst) => {
                match input.take_input_byte() {
                    None => {
                        return Err(Error::IOError);
                    },
                    Some(byte) => {
                        self.write_dst(&dst, byte as u16);
                        self.ip = new_ip;
                    },
                }
            },
            Instruction::Noop => {
                self.ip = new_ip;
            },
        }
        Ok(VmState::Running)
    }

    /// Step repeatedly, at most `fuel` times: `Halted` when the machine
    /// stopped, `Running` when the budget ran out first, and any step's
    /// error as it arose.
    #[verifier::loop_isolation(false)]
    pub fn run(&mut self, input: &mut InputBuffer, output: &mut Vec<u8>, fuel: u64) -> (r: Result<
        VmState,
        Error,
    >)
        requires
            old(self).wf(),
        ensures
            final(self).wf(),
            ({
                let m = spec_run(old(self)@, old(input)@, old(output)@, fuel as nat);
                final(self)@ == m.vm && final(input)@ == m.input && final(output)@ == m.output
                    && r == m.result
            }),
    {
        let mut left: u64 = fuel;
        loop
            invariant
                self.wf(),
                spec_run(old(self)@, old(input)@, old(output)@, fuel as nat) == spec_run(
                    self@,
                    input@,
                    output@,
                    left as nat,
                ),
            decreases left,
        {
            if left == 0 {
                return Ok(VmState::Running);
            }
            match self.step(input, output) {
                Ok(VmState::Running) => {
                    left = left - 1;
                },
                Ok(VmState::Halted) => {
                    return Ok(VmState::Halted);
                },
                Err(e) => {
                    return Err(e);
                },
            }
        }
    }
}


/// After masking, the results of `Add`, `Mult` and `Not` always lie in
/// the representable value range below the high tag bit, for all input
/// words, including across the wraparound boundary.
pub proof fn lemma_masked_results_in_range(a: u16, b: u16)
    ensures
        spec_masked_add(a, b) < INDIRECT_BIT,
        spec_masked_mult(a, b) < INDIRECT_BIT,
        spec_masked_not(a) < INDIRECT_BIT,
{
    let x = vstd::wrapping::u16_specs::wrapping_add(a, b);
    let y = vstd::wrapping::u16_specs::wrapping_mul(a, b);
    assert(x & !0x8000u16 < 0x8000u16) by (bit_vector);
    assert(y & !0x8000u16 < 0x8000u16) by (bit_vector);
    assert(!a & !0x8000u16 < 0x8000u16) by (bit_vector);
}

/// `Ret` with an empty stack is program termination: the machine halts
/// with nothing else changed.
pub proof fn lemma_ret_empty_stack_halts(m: VmModel, input: Seq<u8>, output: Seq<u8>)
    requires
        m.stack.len() == 0,
        spec_decode(m.mem, m.ip) matches Ok((n, i)) && i == Instruction::Ret,
    ensures
        spec_step(m, input, output) == (StepModel {
            vm: m,
            input,
            output,
            result: Ok::<VmState, Error>(VmState::Halted),
        }),
{
}

/// `Pop` with an empty stack anywhere else is a distinguished failure,
/// never a halt.
pub proof fn lemma_pop_empty_stack_fails(m: VmModel, input: Seq<u8>, output: Seq<u8>)
    requires
        m.stack.len() == 0,
        spec_decode(m.mem, m.ip) matches Ok((n, i)) && i matches Instruction::Pop(_),
    ensures
        spec_step(m, input, output) == spec_step_stuck(m, input, output, Error::StackUnderflow),
{
}

/// Overriding a register directly is visible to every subsequent operand
/// read of that register, and so to the next instruction executed.
pub proof fn lemma_register_override_visible(m: VmModel, r: usize, val: u16)
    requires
        spec_vm_wf(m),
        r < NUM_REGISTERS,
    ensures
        spec_read_src(
            spec_write_dst(m, DstOperand::Register(r), val),
            SrcOperand::Register(r),
        ) == val,
{
}

} // verus!
