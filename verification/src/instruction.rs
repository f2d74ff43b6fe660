//! Instruction words and the operations they decode to.

use vstd::prelude::*;

verus! {

/// One operation of the machine, with the operands its word carries.
///
/// Register operands are four-bit indices, `a` is a twelve-bit address and
/// `v` an eight-bit immediate (a four-bit one for `DRW`, `SKP` and `SKNP`).
#[derive(Debug, Clone, Copy, PartialEq, Eq, Structural)]
pub enum Instruction {
    CLS,
    RET,
    JP { a: u16 },
    CALL { a: u16 },
    SEi { r: u8, v: u8 },
    SNEi { r: u8, v: u8 },
    SEr { r1: u8, r2: u8 },
    SETi { r: u8, v: u8 },
    ADDi { r: u8, v: u8 },
    SETr { r1: u8, r2: u8 },
    OR { r1: u8, r2: u8 },
    AND { r1: u8, r2: u8 },
    XOR { r1: u8, r2: u8 },
    ADD { r1: u8, r2: u8 },
    SUB { r1: u8, r2: u8 },
    SHR { r1: u8, r2: u8 },
    SUBN { r1: u8, r2: u8 },
    SHL { r1: u8, r2: u8 },
    SNEr { r1: u8, r2: u8 },
    LDI { a: u16 },
    JPR { a: u16 },
    RND { r: u8, v: u8 },
    DRW { r1: u8, r2: u8, v: u8 },
    SKP { v: u8 },
    SKNP { v: u8 },
    LDT { r: u8 },
    INP { r: u8 },
    SDTr { r: u8 },
    SSTr { r: u8 },
    ADDI { r: u8 },
    STOR { r: u8 },
    LOAD { r: u8 },
}

/// Why a word could not be decoded.
#[derive(Debug, Clone, Copy, PartialEq, Eq, Structural)]
pub enum ParseError {
    /// The word matches no instruction pattern.
    InvalidInstruction(u16),
}

/// The hexadecimal digit of `word` at `place`, counted from the least
/// significant digit.
pub open spec fn nibble(word: u16, place: nat) -> u8 {
    if place == 0 {
        (word % 16) as u8
    } else if place == 1 {
        (word / 0x10 % 16) as u8
    } else if place == 2 {
        (word / 0x100 % 16) as u8
    } else {
        (word / 0x1000 % 16) as u8
    }
}

/// The low byte of `word`: its immediate operand.
pub open spec fn immediate(word: u16) -> u8 {
    (word % 0x100) as u8
}

/// The low twelve bits of `word`: its address operand.
pub open spec fn address(word: u16) -> u16 {
    word % 0x1000
}

/// What each word means: the operation it encodes, or the error for a word
/// that matches no pattern of the instruction table.
pub open spec fn decoding(word: u16) -> Result<Instruction, ParseError> {
    let family = nibble(word, 3);
    let x = nibble(word, 2);
    let y = nibble(word, 1);
    let n = nibble(word, 0);
    let v = immediate(word);
    let a = address(word);
    if family == 0x0 && x == 0x0 && y == 0xE && n == 0x0 {
        Ok(Instruction::CLS)
    } else if family == 0x0 && x == 0x0 && y == 0xE && n == 0xE {
        Ok(Instruction::RET)
    } else if family == 0x1 {
        Ok(Instruction::JP { a })
    } else if family == 0x2 {
        Ok(Instruction::CALL { a })
    } else if family == 0x3 {
        Ok(Instruction::SEi { r: x, v })
    } else if family == 0x4 {
        Ok(Instruction::SNEi { r: x, v })
    } else if family == 0x5 && n == 0x0 {
        Ok(Instruction::SEr { r1: x, r2: y })
    } else if family == 0x6 {
        Ok(Instruction::SETi { r: x, v })
    } else if family == 0x7 {
        Ok(Instruction::ADDi { r: x, v })
    } else if family == 0x8 && n == 0x0 {
        Ok(Instruction::SETr { r1: x, r2: y })
    } else if family == 0x8 && n == 0x1 {
        Ok(Instruction::OR { r1: x, r2: y })
    } else if family == 0x8 && n == 0x2 {
        Ok(Instruction::AND { r1: x, r2: y })
    } else if family == 0x8 && n == 0x3 {
        Ok(Instruction::XOR { r1: x, r2: y })
    } else if family == 0x8 && n == 0x4 {
        Ok(Instruction::ADD { r1: x, r2: y })
    } else if family == 0x8 && n == 0x5 {
        Ok(Instruction::SUB { r1: x, r2: y })
    } else if family == 0x8 && n == 0x6 {
        Ok(Instruction::SHR { r1: x, r2: y })
    } else if family == 0x8 && n == 0x7 {
        Ok(Instruction::SUBN { r1: x, r2: y })
    } else if family == 0x8 && n == 0xE {
        Ok(Instruction::SHL { r1: x, r2: y })
    } else if family == 0x9 && n == 0x0 {
        Ok(Instruction::SNEr { r1: x, r2: y })
    } else if family == 0xA {
        Ok(Instruction::LDI { a })
    } else if family == 0xB {
        Ok(Instruction::JPR { a })
    } else if family == 0xC {
        Ok(Instruction::RND { r: x, v })
    } else if family == 0xD {
        Ok(Instruction::DRW { r1: x, r2: y, v: n })
    } else if family == 0xE && y == 0x9 && n == 0xE {
        Ok(Instruction::SKP { v: x })
    } else if family == 0xE && y == 0xA && n == 0x1 {
        Ok(Instruction::SKNP { v: x })
    } else if family == 0xF && y == 0x0 && n == 0x7 {
        Ok(Instruction::LDT { r: x })
    } else if family == 0xF && y == 0x0 && n == 0xA {
        Ok(Instruction::INP { r: x })
    } else if family == 0xF && y == 0x1 && n == 0x5 {
        Ok(Instruction::SDTr { r: x })
    } else if family == 0xF && y == 0x1 && n == 0x8 {
        Ok(Instruction::SSTr { r: x })
    } else if family == 0xF && y == 0x1 && n == 0xE {
        Ok(Instruction::ADDI { r: x })
    } else if family == 0xF && y == 0x5 && n == 0x5 {
        Ok(Instruction::STOR { r: x })
    } else if family == 0xF && y == 0x6 && n == 0x5 {
        Ok(Instruction::LOAD { r: x })
    } else {
        Err(ParseError::InvalidInstruction(word))
    }
}

impl Instruction {
    /// Whether every operand fits the field that the instruction word has
    /// for it: four bits for a register, for a key and for the row count of
    /// `DRW`, twelve bits for an address.
    pub open spec fn wf(self) -> bool {
        match self {
            Instruction::CLS => true,
            Instruction::RET => true,
            Instruction::JP { a } => a < 0x1000,
            Instruction::CALL { a } => a < 0x1000,
            Instruction::SEi { r, .. } => r < 16,
            Instruction::SNEi { r, .. } => r < 16,
            Instruction::SEr { r1, r2 } => r1 < 16 && r2 < 16,
            Instruction::SETi { r, .. } => r < 16,
            Instruction::ADDi { r, .. } => r < 16,
            Instruction::SETr { r1, r2 } => r1 < 16 && r2 < 16,
            Instruction::OR { r1, r2 } => r1 < 16 && r2 < 16,
            Instruction::AND { r1, r2 } => r1 < 16 && r2 < 16,
            Instruction::XOR { r1, r2 } => r1 < 16 && r2 < 16,
            Instruction::ADD { r1, r2 } => r1 < 16 && r2 < 16,
            Instruction::SUB { r1, r2 } => r1 < 16 && r2 < 16,
            Instruction::SHR { r1, r2 } => r1 < 16 && r2 < 16,
            Instruction::SUBN { r1, r2 } => r1 < 16 && r2 < 16,
            Instruction::SHL { r1, r2 } => r1 < 16 && r2 < 16,
            Instruction::SNEr { r1, r2 } => r1 < 16 && r2 < 16,
            Instruction::LDI { a } => a < 0x1000,
            Instruction::JPR { a } => a < 0x1000,
            Instruction::RND { r, .. } => r < 16,
            Instruction::DRW { r1, r2, v } => r1 < 16 && r2 < 16 && v < 16,
            Instruction::SKP { v } => v < 16,
            Instruction::SKNP { v } => v < 16,
            Instruction::LDT { r } => r < 16,
            Instruction::INP { r } => r < 16,
            Instruction::SDTr { r } => r < 16,
            Instruction::SSTr { r } => r < 16,
            Instruction::ADDI { r } => r < 16,
            Instruction::STOR { r } => r < 16,
            Instruction::LOAD { r } => r < 16,
        }
    }

    /// The word that encodes an instruction whose operands fit their fields.
    pub open spec fn encoding(self) -> u16 {
        match self {
            Instruction::CLS => 0x00E0,
            Instruction::RET => 0x00EE,
            Instruction::JP { a } => (0x1000 + a) as u16,
            Instruction::CALL { a } => (0x2000 + a) as u16,
            Instruction::SEi { r, v } => (0x3000 + r * 0x100 + v) as u16,
            Instruction::SNEi { r, v } => (0x4000 + r * 0x100 + v) as u16,
            Instruction::SEr { r1, r2 } => (0x5000 + r1 * 0x100 + r2 * 0x10) as u16,
            Instruction::SETi { r, v } => (0x6000 + r * 0x100 + v) as u16,
            Instruction::ADDi { r, v } => (0x7000 + r * 0x100 + v) as u16,
            Instruction::SETr { r1, r2 } => (0x8000 + r1 * 0x100 + r2 * 0x10) as u16,
            Instruction::OR { r1, r2 } => (0x8001 + r1 * 0x100 + r2 * 0x10) as u16,
            Instruction::AND { r1, r2 } => (0x8002 + r1 * 0x100 + r2 * 0x10) as u16,
            Instruction::XOR { r1, r2 } => (0x8003 + r1 * 0x100 + r2 * 0x10) as u16,
            Instruction::ADD { r1, r2 } => (0x8004 + r1 * 0x100 + r2 * 0x10) as u16,
            Instruction::SUB { r1, r2 } => (0x8005 + r1 * 0x100 + r2 * 0x10) as u16,
            Instruction::SHR { r1, r2 } => (0x8006 + r1 * 0x100 + r2 * 0x10) as u16,
            Instruction::SUBN { r1, r2 } => (0x8007 + r1 * 0x100 + r2 * 0x10) as u16,
            Instruction::SHL { r1, r2 } => (0x800E + r1 * 0x100 + r2 * 0x10) as u16,
            Instruction::SNEr { r1, r2 } => (0x9000 + r1 * 0x100 + r2 * 0x10) as u16,
            Instruction::LDI { a } => (0xA000 + a) as u16,
            Instruction::JPR { a } => (0xB000 + a) as u16,
            Instruction::RND { r, v } => (0xC000 + r * 0x100 + v) as u16,
            Instruction::DRW { r1, r2, v } => (0xD000 + r1 * 0x100 + r2 * 0x10 + v) as u16,
            Instruction::SKP { v } => (0xE09E + v * 0x100) as u16,
            Instruction::SKNP { v } => (0xE0A1 + v * 0x100) as u16,
            Instruction::LDT { r } => (0xF007 + r * 0x100) as u16,
            Instruction::INP { r } => (0xF00A + r * 0x100) as u16,
            Instruction::SDTr { r } => (0xF015 + r * 0x100) as u16,
            Instruction::SSTr { r } => (0xF018 + r * 0x100) as u16,
            Instruction::ADDI { r } => (0xF01E + r * 0x100) as u16,
            Instruction::STOR { r } => (0xF055 + r * 0x100) as u16,
            Instruction::LOAD { r } => (0xF065 + r * 0x100) as u16,
        }
    }
}

/// Shifts and masks pick out the same digits as division and remainder do.
proof fn lemma_fields(word: u16)
    by (bit_vector)
    ensures
        (word & 0xF000) >> 12 == word / 0x1000 % 16,
        (word & 0x0F00) >> 8 == word / 0x100 % 16,
        (word & 0x00F0) >> 4 == word / 0x10 % 16,
        word & 0x000F == word % 16,
        word & 0x00FF == word % 0x100,
        word & 0x0FFF == word % 0x1000,
{
}

/// A word is the sum of its digits, each times its place value.
proof fn lemma_digits(word: u16)
    ensures
        word == nibble(word, 3) * 0x1000 + nibble(word, 2) * 0x100 + nibble(word, 1) * 0x10 + nibble(
            word,
            0,
        ),
        immediate(word) == nibble(word, 1) * 0x10 + nibble(word, 0),
        address(word) == nibble(word, 2) * 0x100 + nibble(word, 1) * 0x10 + nibble(word, 0),
        nibble(word, 3) < 16,
        nibble(word, 2) < 16,
        nibble(word, 1) < 16,
        nibble(word, 0) < 16,
{
}

/// The digits of a word put together from a family digit, a register
/// digit and a low byte.
proof fn lemma_parts(family: int, x: int, low: int)
    requires
        0 <= family < 16,
        0 <= x < 16,
        0 <= low < 0x100,
    ensures
        ({
            let word = (family * 0x1000 + x * 0x100 + low) as u16;
            &&& word == family * 0x1000 + x * 0x100 + low
            &&& nibble(word, 3) == family
            &&& nibble(word, 2) == x
            &&& nibble(word, 1) == low / 0x10
            &&& nibble(word, 0) == low % 0x10
            &&& immediate(word) == low
            &&& address(word) == x * 0x100 + low
        }),
{
}

/// Decoding undoes encoding: the word of an instruction decodes to that
/// instruction.
pub proof fn lemma_decode_encode(instr: Instruction)
    requires
        instr.wf(),
    ensures
        decoding(instr.encoding()) == Ok::<Instruction, ParseError>(instr),
{
    match instr {
        Instruction::CLS => lemma_parts(0x0, 0x0, 0xE0),
        Instruction::RET => lemma_parts(0x0, 0x0, 0xEE),
        Instruction::JP { a } => lemma_parts(0x1, a as int / 0x100, a as int % 0x100),
        Instruction::CALL { a } => lemma_parts(0x2, a as int / 0x100, a as int % 0x100),
        Instruction::SEi { r, v } => lemma_parts(0x3, r as int, v as int),
        Instruction::SNEi { r, v } => lemma_parts(0x4, r as int, v as int),
        Instruction::SEr { r1, r2 } => lemma_parts(0x5, r1 as int, r2 * 0x10),
        Instruction::SETi { r, v } => lemma_parts(0x6, r as int, v as int),
        Instruction::ADDi { r, v } => lemma_parts(0x7, r as int, v as int),
        Instruction::SETr { r1, r2 } => lemma_parts(0x8, r1 as int, r2 * 0x10),
        Instruction::OR { r1, r2 } => lemma_parts(0x8, r1 as int, r2 * 0x10 + 0x1),
        Instruction::AND { r1, r2 } => lemma_parts(0x8, r1 as int, r2 * 0x10 + 0x2),
        Instruction::XOR { r1, r2 } => lemma_parts(0x8, r1 as int, r2 * 0x10 + 0x3),
        Instruction::ADD { r1, r2 } => lemma_parts(0x8, r1 as int, r2 * 0x10 + 0x4),
        Instruction::SUB { r1, r2 } => lemma_parts(0x8, r1 as int, r2 * 0x10 + 0x5),
        Instruction::SHR { r1, r2 } => lemma_parts(0x8, r1 as int, r2 * 0x10 + 0x6),
        Instruction::SUBN { r1, r2 } => lemma_parts(0x8, r1 as int, r2 * 0x10 + 0x7),
        Instruction::SHL { r1, r2 } => lemma_parts(0x8, r1 as int, r2 * 0x10 + 0xE),
        Instruction::SNEr { r1, r2 } => lemma_parts(0x9, r1 as int, r2 * 0x10),
        Instruction::LDI { a } => lemma_parts(0xA, a as int / 0x100, a as int % 0x100),
        Instruction::JPR { a } => lemma_parts(0xB, a as int / 0x100, a as int % 0x100),
        Instruction::RND { r, v } => lemma_parts(0xC, r as int, v as int),
        Instruction::DRW { r1, r2, v } => lemma_parts(0xD, r1 as int, r2 * 0x10 + v),
        Instruction::SKP { v } => lemma_parts(0xE, v as int, 0x9E),
        Instruction::SKNP { v } => lemma_parts(0xE, v as int, 0xA1),
        Instruction::LDT { r } => lemma_parts(0xF, r as int, 0x07),
        Instruction::INP { r } => lemma_parts(0xF, r as int, 0x0A),
        Instruction::SDTr { r } => lemma_parts(0xF, r as int, 0x15),
        Instruction::SSTr { r } => lemma_parts(0xF, r as int, 0x18),
        Instruction::ADDI { r } => lemma_parts(0xF, r as int, 0x1E),
        Instruction::STOR { r } => lemma_parts(0xF, r as int, 0x55),
        Instruction::LOAD { r } => lemma_parts(0xF, r as int, 0x65),
    }
}

/// Every word either decodes to an instruction whose operands fit their
/// fields and whose encoding is that word, so that each operand is the digit
/// or digits of the word at its place, or is rejected with the word itself.
pub proof fn lemma_encode_decode(word: u16)
    ensures
        match decoding(word) {
            Ok(instr) => instr.wf() && instr.encoding() == word,
            Err(e) => e == ParseError::InvalidInstruction(word),
        },
{
    lemma_digits(word);
}

/// The rejected words are exactly those that encode no instruction.
pub proof fn lemma_rejected_words(word: u16)
    ensures
        decoding(word) is Err <==> forall|instr: Instruction|
            instr.wf() ==> #[trigger] instr.encoding() != word,
{
    lemma_encode_decode(word);
    assert forall|instr: Instruction| instr.wf() && #[trigger] instr.encoding() == word implies decoding(
        word,
    ) is Ok by {
        lemma_decode_encode(instr);
    }
}

impl Instruction {
    /// Decodes one instruction word.
    pub fn decode(word: u16) -> (res: Result<Instruction, ParseError>)
        ensures
            res == decoding(word),
            res matches Ok(instr) ==> instr.wf() && instr.encoding() == word,
            res matches Err(e) ==> e == ParseError::InvalidInstruction(word),
    {
        proof {
            lemma_fields(word);
            lemma_encode_decode(word);
        }
        let rest: u16 = word & 0x0FFF;
        let lo: u8 = (rest & 0xFF) as u8;
        let n0: u8 = ((word & 0xF000) >> 12) as u8;
        let n1: u8 = ((word & 0x0F00) >> 8) as u8;
        let n2: u8 = ((word & 0x00F0) >> 4) as u8;
        let n3: u8 = (word & 0x000F) as u8;
        assert(rest & 0xFF == word & 0xFF) by (bit_vector)
            requires
                rest == word & 0x0FFF,
        ;
        match (n0, n1, n2, n3) {
            (0x0, 0x0, 0xE, 0x0) => Ok(Instruction::CLS),
            (0x0, 0x0, 0xE, 0xE) => Ok(Instruction::RET),
            (0x1, _, _, _) => Ok(Instruction::JP { a: rest }),
            (0x2, _, _, _) => Ok(Instruction::CALL { a: rest }),
            (0x3, r, _, _) => Ok(Instruction::SEi { r, v: lo }),
            (0x4, r, _, _) => Ok(Instruction::SNEi { r, v: lo }),
            (0x5, r1, r2, 0x0) => Ok(Instruction::SEr { r1, r2 }),
            (0x6, r, _, _) => Ok(Instruction::SETi { r, v: lo }),
            (0x7, r, _, _) => Ok(Instruction::ADDi { r, v: lo }),
            (0x8, r1, r2, 0x0) => Ok(Instruction::SETr { r1, r2 }),
            (0x8, r1, r2, 0x1) => Ok(Instruction::OR { r1, r2 }),
            (0x8, r1, r2, 0x2) => Ok(Instruction::AND { r1, r2 }),
            (0x8, r1, r2, 0x3) => Ok(Instruction::XOR { r1, r2 }),
            (0x8, r1, r2, 0x4) => Ok(Instruction::ADD { r1, r2 }),
            (0x8, r1, r2, 0x5) => Ok(Instruction::SUB { r1, r2 }),
            (0x8, r1, r2, 0x6) => Ok(Instruction::SHR { r1, r2 }),
            (0x8, r1, r2, 0x7) => Ok(Instruction::SUBN { r1, r2 }),
            (0x8, r1, r2, 0xE) => Ok(Instruction::SHL { r1, r2 }),
            (0x9, r1, r2, 0x0) => Ok(Instruction::SNEr { r1, r2 }),
            (0xA, _, _, _) => Ok(Instruction::LDI { a: rest }),
            (0xB, _, _, _) => Ok(Instruction::JPR { a: rest }),
            (0xC, r, _, _) => Ok(Instruction::RND { r, v: lo }),
            (0xD, r1, r2, v) => Ok(Instruction::DRW { r1, r2, v }),
            (0xE, v, 0x9, 0xE) => Ok(Instruction::SKP { v }),
            (0xE, v, 0xA, 0x1) => Ok(Instruction::SKNP { v }),
            (0xF, r, 0x0, 0x7) => Ok(Instruction::LDT { r }),
            (0xF, r, 0x0, 0xA) => Ok(Instruction::INP { r }),
            (0xF, r, 0x1, 0x5) => Ok(Instruction::SDTr { r }),
            (0xF, r, 0x1, 0x8) => Ok(Instruction::SSTr { r }),
            (0xF, r, 0x1, 0xE) => Ok(Instruction::ADDI { r }),
            (0xF, r, 0x5, 0x5) => Ok(Instruction::STOR { r }),
            (0xF, r, 0x6, 0x5) => Ok(Instruction::LOAD { r }),
            (_, _, _, _) => Err(ParseError::InvalidInstruction(word)),
        }
    }

    /// Whether every operand fits its field of the instruction word.
    pub fn operands_fit(&self) -> (fit: bool)
        ensures
            fit == self.wf(),
    {
        match *self {
            Instruction::CLS => true,
            Instruction::RET => true,
            Instruction::JP { a } => a < 0x1000,
            Instruction::CALL { a } => a < 0x1000,
            Instruction::SEi { r, .. } => r < 16,
            Instruction::SNEi { r, .. } => r < 16,
            Instruction::SEr { r1, r2 } => r1 < 16 && r2 < 16,
            Instruction::SETi { r, .. } => r < 16,
            Instruction::ADDi { r, .. } => r < 16,
            Instruction::SETr { r1, r2 } => r1 < 16 && r2 < 16,
            Instruction::OR { r1, r2 } => r1 < 16 && r2 < 16,
            Instruction::AND { r1, r2 } => r1 < 16 && r2 < 16,
            Instruction::XOR { r1, r2 } => r1 < 16 && r2 < 16,
            Instruction::ADD { r1, r2 } => r1 < 16 && r2 < 16,
            Instruction::SUB { r1, r2 } => r1 < 16 && r2 < 16,
            Instruction::SHR { r1, r2 } => r1 < 16 && r2 < 16,
            Instruction::SUBN { r1, r2 } => r1 < 16 && r2 < 16,
            Instruction::SHL { r1, r2 } => r1 < 16 && r2 < 16,
            Instruction::SNEr { r1, r2 } => r1 < 16 && r2 < 16,
            Instruction::LDI { a } => a < 0x1000,
            Instruction::JPR { a } => a < 0x1000,
            Instruction::RND { r, .. } => r < 16,
            Instruction::DRW { r1, r2, v } => r1 < 16 && r2 < 16 && v < 16,
            Instruction::SKP { v } => v < 16,
            Instruction::SKNP { v } => v < 16,
            Instruction::LDT { r } => r < 16,
            Instruction::INP { r } => r < 16,
            Instruction::SDTr { r } => r < 16,
            Instruction::SSTr { r } => r < 16,
            Instruction::ADDI { r } => r < 16,
            Instruction::STOR { r } => r < 16,
            Instruction::LOAD { r } => r < 16,
        }
    }

    /// The instruction word for an instruction whose operands fit their
    /// fields.
    pub fn encode(&self) -> (word: u16)
        requires
            self.wf(),
        ensures
            word == self.encoding(),
            decoding(word) == Ok::<Instruction, ParseError>(*self),
    {
        proof {
            lemma_decode_encode(*self);
        }
        match *self {
            Instruction::CLS => 0x00E0,
            Instruction::RET => 0x00EE,
            Instruction::JP { a } => 0x1000 + a,
            Instruction::CALL { a } => 0x2000 + a,
            Instruction::SEi { r, v } => 0x3000 + r as u16 * 0x100 + v as u16,
            Instruction::SNEi { r, v } => 0x4000 + r as u16 * 0x100 + v as u16,
            Instruction::SEr { r1, r2 } => 0x5000 + r1 as u16 * 0x100 + r2 as u16 * 0x10,
            Instruction::SETi { r, v } => 0x6000 + r as u16 * 0x100 + v as u16,
            Instruction::ADDi { r, v } => 0x7000 + r as u16 * 0x100 + v as u16,
            Instruction::SETr { r1, r2 } => 0x8000 + r1 as u16 * 0x100 + r2 as u16 * 0x10,
            Instruction::OR { r1, r2 } => 0x8001 + r1 as u16 * 0x100 + r2 as u16 * 0x10,
            Instruction::AND { r1, r2 } => 0x8002 + r1 as u16 * 0x100 + r2 as u16 * 0x10,
            Instruction::XOR { r1, r2 } => 0x8003 + r1 as u16 * 0x100 + r2 as u16 * 0x10,
            Instruction::ADD { r1, r2 } => 0x8004 + r1 as u16 * 0x100 + r2 as u16 * 0x10,
            Instruction::SUB { r1, r2 } => 0x8005 + r1 as u16 * 0x100 + r2 as u16 * 0x10,
            Instruction::SHR { r1, r2 } => 0x8006 + r1 as u16 * 0x100 + r2 as u16 * 0x10,
            Instruction::SUBN { r1, r2 } => 0x8007 + r1 as u16 * 0x100 + r2 as u16 * 0x10,
            Instruction::SHL { r1, r2 } => 0x800E + r1 as u16 * 0x100 + r2 as u16 * 0x10,
            Instruction::SNEr { r1, r2 } => 0x9000 + r1 as u16 * 0x100 + r2 as u16 * 0x10,
            Instruction::LDI { a } => 0xA000 + a,
            Instruction::JPR { a } => 0xB000 + a,
            Instruction::RND { r, v } => 0xC000 + r as u16 * 0x100 + v as u16,
            Instruction::DRW { r1, r2, v } => 0xD000 + r1 as u16 * 0x100 + r2 as u16 * 0x10 + v as u16,
            Instruction::SKP { v } => 0xE09E + v as u16 * 0x100,
            Instruction::SKNP { v } => 0xE0A1 + v as u16 * 0x100,
            Instruction::LDT { r } => 0xF007 + r as u16 * 0x100,
            Instruction::INP { r } => 0xF00A + r as u16 * 0x100,
            Instruction::SDTr { r } => 0xF015 + r as u16 * 0x100,
            Instruction::SSTr { r } => 0xF018 + r as u16 * 0x100,
            Instruction::ADDI { r } => 0xF01E + r as u16 * 0x100,
            Instruction::STOR { r } => 0xF055 + r as u16 * 0x100,
            Instruction::LOAD { r } => 0xF065 + r as u16 * 0x100,
        }
    }
}

impl TryFrom<u16> for Instruction {
    type Error = ParseError;

    /// Decodes one instruction word, as `Instruction::decode` does.
    fn try_from(instr: u16) -> (res: Result<Instruction, ParseError>) {
        Instruction::decode(instr)
    }
}

impl vstd::std_specs::convert::TryFromSpecImpl<u16> for Instruction {
    open spec fn obeys_try_from_spec() -> bool {
        true
    }

    open spec fn try_from_spec(instr: u16) -> Result<Instruction, ParseError> {
        decoding(instr)
    }
}

} // verus!
