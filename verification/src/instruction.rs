use vstd::prelude::*;
use crate::memory::RegIdx;

verus! {

/// The highest four bits of `word`.
pub open spec fn first_nibble(word: u16) -> u8 {
    (word / 0x1000) as u8
}

/// Bits 8 to 11 of `word`: the operand `X`.
pub open spec fn second_nibble(word: u16) -> u8 {
    (word / 0x100 % 0x10) as u8
}

/// Bits 4 to 7 of `word`: the operand `Y`.
pub open spec fn third_nibble(word: u16) -> u8 {
    (word / 0x10 % 0x10) as u8
}

/// The lowest four bits of `word`: the operand `N`.
pub open spec fn fourth_nibble(word: u16) -> u8 {
    (word % 0x10) as u8
}

/// The low byte of `word`: the operand `NN`.
pub open spec fn low_byte(word: u16) -> u8 {
    (word % 0x100) as u8
}

/// The lowest twelve bits of `word`: the operand `NNN`.
pub open spec fn low_bits12(word: u16) -> u16 {
    word % 0x1000
}

/// The fields of an instruction word.
pub trait IntExt {
    /// The word whose fields are taken.
    spec fn word(&self) -> u16;

    /// The first nibble: the instruction family.
    fn nibble1(&self) -> (n: u8)
        ensures
            n == first_nibble(self.word()),
            n <= 15,
    ;

    /// The second nibble: X.
    fn nibble2(&self) -> (n: u8)
        ensures
            n == second_nibble(self.word()),
            n <= 15,
    ;

    /// The third nibble: Y.
    fn nibble3(&self) -> (n: u8)
        ensures
            n == third_nibble(self.word()),
            n <= 15,
    ;

    /// The fourth nibble: N.
    fn nibble4(&self) -> (n: u8)
        ensures
            n == fourth_nibble(self.word()),
            n <= 15,
    ;

    /// The second byte: NN.
    fn byte2(&self) -> (nn: u8)
        ensures
            nn == low_byte(self.word()),
    ;

    /// The lowest twelve bits: NNN.
    fn bits12(&self) -> (nnn: u16)
        ensures
            nnn == low_bits12(self.word()),
            nnn <= 0xFFF,
    ;
}

impl IntExt for u16 {
    open spec fn word(&self) -> u16 {
        *self
    }

    #[inline]
    fn nibble1(&self) -> (n: u8) {
        let w: u16 = *self;
        assert(w >> 12 == w / 0x1000 && (w >> 12) <= 15) by (bit_vector);
        (w >> 12) as u8
    }

    #[inline]
    fn nibble2(&self) -> (n: u8) {
        let w: u16 = *self;
        assert((w & 0x0F00) >> 8 == w / 0x100 % 0x10 && ((w & 0x0F00) >> 8) <= 15)
            by (bit_vector);
        ((w & 0x0F00) >> 8) as u8
    }

    #[inline]
    fn nibble3(&self) -> (n: u8) {
        let w: u16 = *self;
        assert((w & 0x00F0) >> 4 == w / 0x10 % 0x10 && ((w & 0x00F0) >> 4) <= 15)
            by (bit_vector);
        ((w & 0x00F0) >> 4) as u8
    }

    #[inline]
    fn nibble4(&self) -> (n: u8) {
        let w: u16 = *self;
        assert(w & 0x000F == w % 0x10 && (w & 0x000F) <= 15) by (bit_vector);
        (w & 0x000F) as u8
    }

    #[inline]
    fn byte2(&self) -> (nn: u8) {
        let w: u16 = *self;
        assert(w & 0x00FF == w % 0x100 && (w & 0x00FF) <= 255) by (bit_vector);
        (w & 0x00FF) as u8
    }

    #[inline]
    fn bits12(&self) -> (nnn: u16) {
        let w: u16 = *self;
        assert(w & 0x0FFF == w % 0x1000) by (bit_vector);
        w & 0x0FFF
    }
}

/// A decoded instruction. Each variant is marked with its opcode, where
/// - X is the second nibble (the index of register VX)
/// - Y is the third nibble (the index of register VY)
/// - N is the fourth nibble (a 4-bit number)
/// - NN is the second byte (an 8-bit immediate)
/// - NNN is nibbles 2, 3 and 4 (a 12-bit address)
#[derive(Debug, Clone, Copy, PartialEq, Eq, Structural)]
pub enum Instruction {
    /// 00E0
    ClearScreen,
    /// 1NNN
    Jump(u16),
    /// 00EE
    Return,
    /// 2NNN
    Call(u16),
    /// 3XNN
    SkipEqIm(RegIdx, u8),
    /// 4XNN
    SkipNeIm(RegIdx, u8),
    /// 5XY0
    SkipEq(RegIdx, RegIdx),
    /// 9XY0
    SkipNe(RegIdx, RegIdx),
    /// 6XNN
    SetIm(RegIdx, u8),
    /// 7XNN
    AddIm(RegIdx, u8),
    /// 8XY0
    SetReg(RegIdx, RegIdx),
    /// 8XY1
    Or(RegIdx, RegIdx),
    /// 8XY2
    And(RegIdx, RegIdx),
    /// 8XY3
    Xor(RegIdx, RegIdx),
    /// 8XY4
    Add(RegIdx, RegIdx),
    /// 8XY5
    Sub(RegIdx, RegIdx),
    /// 8XY7
    SubOpp(RegIdx, RegIdx),
    /// 8XY6
    Shr(RegIdx, RegIdx),
    /// 8XYE
    Shl(RegIdx, RegIdx),
    /// ANNN
    SetIndex(u16),
    /// BNNN
    JumpV0(u16),
    /// CXNN
    RandAnd(RegIdx, u8),
    /// DXYN
    Draw(RegIdx, RegIdx, u8),
    /// EX9E
    SkipKeyEq(RegIdx),
    /// EXA1
    SkipKeyNe(RegIdx),
    /// FX07
    GetDelay(RegIdx),
    /// FX15
    SetDelay(RegIdx),
    /// FX18
    SetSound(RegIdx),
    /// FX1E
    AddIndex(RegIdx),
    /// FX0A
    GetKey(RegIdx),
    /// FX29
    IndexCharacter(RegIdx),
    /// FX33
    SetBcd(RegIdx),
    /// FX55
    RegStore(RegIdx),
    /// FX65
    RegLoad(RegIdx),
}

/// The instruction that `word` encodes, by the opcode table: the first
/// nibble selects the family, and where a family has several members the
/// last nibble or the low byte selects among them. The family of the
/// leading nibble 0 holds the two words `00E0` and `00EE` and no other.
/// `None` where the table has no entry.
pub open spec fn decode_spec(word: u16) -> Option<Instruction> {
    let x = RegIdx::of(second_nibble(word));
    let y = RegIdx::of(third_nibble(word));
    let n = fourth_nibble(word);
    let nn = low_byte(word);
    let nnn = low_bits12(word);
    match first_nibble(word) {
        0x0 => if word == 0x00E0 {
            Some(Instruction::ClearScreen)
        } else if word == 0x00EE {
            Some(Instruction::Return)
        } else {
            None
        },
        0x1 => Some(Instruction::Jump(nnn)),
        0x2 => Some(Instruction::Call(nnn)),
        0x3 => Some(Instruction::SkipEqIm(x, nn)),
        0x4 => Some(Instruction::SkipNeIm(x, nn)),
        0x5 => if n == 0 {
            Some(Instruction::SkipEq(x, y))
        } else {
            None
        },
        0x6 => Some(Instruction::SetIm(x, nn)),
        0x7 => Some(Instruction::AddIm(x, nn)),
        0x8 => match n {
            0x0 => Some(Instruction::SetReg(x, y)),
            0x1 => Some(Instruction::Or(x, y)),
            0x2 => Some(Instruction::And(x, y)),
            0x3 => Some(Instruction::Xor(x, y)),
            0x4 => Some(Instruction::Add(x, y)),
            0x5 => Some(Instruction::Sub(x, y)),
            0x6 => Some(Instruction::Shr(x, y)),
            0x7 => Some(Instruction::SubOpp(x, y)),
            0xE => Some(Instruction::Shl(x, y)),
            _ => None,
        },
        0x9 => if n == 0 {
            Some(Instruction::SkipNe(x, y))
        } else {
            None
        },
        0xA => Some(Instruction::SetIndex(nnn)),
        0xB => Some(Instruction::JumpV0(nnn)),
        0xC => Some(Instruction::RandAnd(x, nn)),
        0xD => Some(Instruction::Draw(x, y, n)),
        0xE => match nn {
            0x9E => Some(Instruction::SkipKeyEq(x)),
            0xA1 => Some(Instruction::SkipKeyNe(x)),
            _ => None,
        },
        0xF => match nn {
            0x07 => Some(Instruction::GetDelay(x)),
            0x0A => Some(Instruction::GetKey(x)),
            0x15 => Some(Instruction::SetDelay(x)),
            0x18 => Some(Instruction::SetSound(x)),
            0x1E => Some(Instruction::AddIndex(x)),
            0x29 => Some(Instruction::IndexCharacter(x)),
            0x33 => Some(Instruction::SetBcd(x)),
            0x55 => Some(Instruction::RegStore(x)),
            0x65 => Some(Instruction::RegLoad(x)),
            _ => None,
        },
        _ => None,
    }
}

/// The word that encodes `inst`.
pub open spec fn encode_spec(inst: Instruction) -> int {
    match inst {
        Instruction::ClearScreen => 0x00E0,
        Instruction::Return => 0x00EE,
        Instruction::Jump(nnn) => 0x1000 + nnn,
        Instruction::Call(nnn) => 0x2000 + nnn,
        Instruction::SkipEqIm(x, nn) => 0x3000 + 0x100 * x@ + nn,
        Instruction::SkipNeIm(x, nn) => 0x4000 + 0x100 * x@ + nn,
        Instruction::SkipEq(x, y) => 0x5000 + 0x100 * x@ + 0x10 * y@,
        Instruction::SetIm(x, nn) => 0x6000 + 0x100 * x@ + nn,
        Instruction::AddIm(x, nn) => 0x7000 + 0x100 * x@ + nn,
        Instruction::SetReg(x, y) => 0x8000 + 0x100 * x@ + 0x10 * y@,
        Instruction::Or(x, y) => 0x8001 + 0x100 * x@ + 0x10 * y@,
        Instruction::And(x, y) => 0x8002 + 0x100 * x@ + 0x10 * y@,
        Instruction::Xor(x, y) => 0x8003 + 0x100 * x@ + 0x10 * y@,
        Instruction::Add(x, y) => 0x8004 + 0x100 * x@ + 0x10 * y@,
        Instruction::Sub(x, y) => 0x8005 + 0x100 * x@ + 0x10 * y@,
        Instruction::Shr(x, y) => 0x8006 + 0x100 * x@ + 0x10 * y@,
        Instruction::SubOpp(x, y) => 0x8007 + 0x100 * x@ + 0x10 * y@,
        Instruction::Shl(x, y) => 0x800E + 0x100 * x@ + 0x10 * y@,
        Instruction::SkipNe(x, y) => 0x9000 + 0x100 * x@ + 0x10 * y@,
        Instruction::SetIndex(nnn) => 0xA000 + nnn,
        Instruction::JumpV0(nnn) => 0xB000 + nnn,
        Instruction::RandAnd(x, nn) => 0xC000 + 0x100 * x@ + nn,
        Instruction::Draw(x, y, n) => 0xD000 + 0x100 * x@ + 0x10 * y@ + n,
        Instruction::SkipKeyEq(x) => 0xE09E + 0x100 * x@,
        Instruction::SkipKeyNe(x) => 0xE0A1 + 0x100 * x@,
        Instruction::GetDelay(x) => 0xF007 + 0x100 * x@,
        Instruction::GetKey(x) => 0xF00A + 0x100 * x@,
        Instruction::SetDelay(x) => 0xF015 + 0x100 * x@,
        Instruction::SetSound(x) => 0xF018 + 0x100 * x@,
        Instruction::AddIndex(x) => 0xF01E + 0x100 * x@,
        Instruction::IndexCharacter(x) => 0xF029 + 0x100 * x@,
        Instruction::SetBcd(x) => 0xF033 + 0x100 * x@,
        Instruction::RegStore(x) => 0xF055 + 0x100 * x@,
        Instruction::RegLoad(x) => 0xF065 + 0x100 * x@,
    }
}

/// The four nibbles from which a word is put together are the nibbles
/// that are taken from it.
pub proof fn lemma_fields_of_word(first: int, x: int, y: int, n: int)
    requires
        0 <= first <= 15,
        0 <= x <= 15,
        0 <= y <= 15,
        0 <= n <= 15,
    ensures
        0 <= 0x1000 * first + 0x100 * x + 0x10 * y + n <= 0xFFFF,
        first_nibble((0x1000 * first + 0x100 * x + 0x10 * y + n) as u16) == first,
        second_nibble((0x1000 * first + 0x100 * x + 0x10 * y + n) as u16) == x,
        third_nibble((0x1000 * first + 0x100 * x + 0x10 * y + n) as u16) == y,
        fourth_nibble((0x1000 * first + 0x100 * x + 0x10 * y + n) as u16) == n,
        low_byte((0x1000 * first + 0x100 * x + 0x10 * y + n) as u16) == 0x10 * y + n,
        low_bits12((0x1000 * first + 0x100 * x + 0x10 * y + n) as u16) == 0x100 * x + 0x10 * y + n,
{
    let low = 0x10 * y + n;
    let word = 0x1000 * first + 0x100 * x + low;
    assert(low / 0x10 == y && low % 0x10 == n);
    assert(word / 0x100 == 0x10 * first + x && word % 0x100 == low);
    assert(word / 0x10 == 0x100 * first + 0x10 * x + y && word % 0x10 == n);
    assert(word / 0x1000 == first && word % 0x1000 == 0x100 * x + low);
}

/// A word is put together from its four nibbles.
pub proof fn lemma_word_of_fields(word: u16)
    ensures
        word == 0x1000 * first_nibble(word) + 0x100 * second_nibble(word) + 0x10 * third_nibble(
            word,
        ) + fourth_nibble(word),
        low_byte(word) == 0x10 * third_nibble(word) + fourth_nibble(word),
        low_bits12(word) == 0x100 * second_nibble(word) + 0x10 * third_nibble(word)
            + fourth_nibble(word),
        first_nibble(word) <= 15,
        second_nibble(word) <= 15,
        third_nibble(word) <= 15,
        fourth_nibble(word) <= 15,
{
    assert(word == 0x1000 * (word / 0x1000) + 0x100 * (word / 0x100 % 0x10) + 0x10 * (word / 0x10
        % 0x10) + word % 0x10) by (bit_vector);
    assert(word % 0x100 == 0x10 * (word / 0x10 % 0x10) + word % 0x10) by (bit_vector);
    assert(word % 0x1000 == 0x100 * (word / 0x100 % 0x10) + 0x10 * (word / 0x10 % 0x10) + word
        % 0x10) by (bit_vector);
    assert(word / 0x1000 <= 15) by (bit_vector);
}

/// The family nibble and the address from which a word is put together
/// are those that are taken from it.
pub proof fn lemma_fields_of_address_word(first: int, nnn: u16)
    requires
        0 <= first <= 15,
        nnn <= 0xFFF,
    ensures
        0 <= 0x1000 * first + nnn <= 0xFFFF,
        first_nibble((0x1000 * first + nnn) as u16) == first,
        low_bits12((0x1000 * first + nnn) as u16) == nnn,
{
}

/// The family nibble, the register and the byte from which a word is put
/// together are those that are taken from it.
pub proof fn lemma_fields_of_byte_word(first: int, x: int, nn: u8)
    requires
        0 <= first <= 15,
        0 <= x <= 15,
    ensures
        0 <= 0x1000 * first + 0x100 * x + nn <= 0xFFFF,
        first_nibble((0x1000 * first + 0x100 * x + nn) as u16) == first,
        second_nibble((0x1000 * first + 0x100 * x + nn) as u16) == x,
        low_byte((0x1000 * first + 0x100 * x + nn) as u16) == nn,
        fourth_nibble((0x1000 * first + 0x100 * x + nn) as u16) == nn % 0x10,
{
}

/// Every instruction whose operands fit their fields has a word, and that
/// word decodes to the instruction.
pub proof fn lemma_decode_inverts_encode(inst: Instruction)
    requires
        inst.wf(),
    ensures
        0 <= encode_spec(inst) <= 0xFFFF,
        decode_spec(encode_spec(inst) as u16) == Some(inst),
{
    match inst {
        Instruction::ClearScreen => lemma_fields_of_byte_word(0x0, 0, 0xE0),
        Instruction::Return => lemma_fields_of_byte_word(0x0, 0, 0xEE),
        Instruction::Jump(nnn) => lemma_fields_of_address_word(0x1, nnn),
        Instruction::Call(nnn) => lemma_fields_of_address_word(0x2, nnn),
        Instruction::SetIndex(nnn) => lemma_fields_of_address_word(0xA, nnn),
        Instruction::JumpV0(nnn) => lemma_fields_of_address_word(0xB, nnn),
        Instruction::SkipEqIm(x, nn) => lemma_decode_byte_word(0x3, x, nn),
        Instruction::SkipNeIm(x, nn) => lemma_decode_byte_word(0x4, x, nn),
        Instruction::SetIm(x, nn) => lemma_decode_byte_word(0x6, x, nn),
        Instruction::AddIm(x, nn) => lemma_decode_byte_word(0x7, x, nn),
        Instruction::RandAnd(x, nn) => lemma_decode_byte_word(0xC, x, nn),
        Instruction::SkipKeyEq(x) => lemma_decode_byte_word(0xE, x, 0x9E),
        Instruction::SkipKeyNe(x) => lemma_decode_byte_word(0xE, x, 0xA1),
        Instruction::GetDelay(x) => lemma_decode_byte_word(0xF, x, 0x07),
        Instruction::GetKey(x) => lemma_decode_byte_word(0xF, x, 0x0A),
        Instruction::SetDelay(x) => lemma_decode_byte_word(0xF, x, 0x15),
        Instruction::SetSound(x) => lemma_decode_byte_word(0xF, x, 0x18),
        Instruction::AddIndex(x) => lemma_decode_byte_word(0xF, x, 0x1E),
        Instruction::IndexCharacter(x) => lemma_decode_byte_word(0xF, x, 0x29),
        Instruction::SetBcd(x) => lemma_decode_byte_word(0xF, x, 0x33),
        Instruction::RegStore(x) => lemma_decode_byte_word(0xF, x, 0x55),
        Instruction::RegLoad(x) => lemma_decode_byte_word(0xF, x, 0x65),
        Instruction::SkipEq(x, y) => lemma_decode_nibble_word(0x5, x, y, 0x0),
        Instruction::SetReg(x, y) => lemma_decode_nibble_word(0x8, x, y, 0x0),
        Instruction::Or(x, y) => lemma_decode_nibble_word(0x8, x, y, 0x1),
        Instruction::And(x, y) => lemma_decode_nibble_word(0x8, x, y, 0x2),
        Instruction::Xor(x, y) => lemma_decode_nibble_word(0x8, x, y, 0x3),
        Instruction::Add(x, y) => lemma_decode_nibble_word(0x8, x, y, 0x4),
        Instruction::Sub(x, y) => lemma_decode_nibble_word(0x8, x, y, 0x5),
        Instruction::Shr(x, y) => lemma_decode_nibble_word(0x8, x, y, 0x6),
        Instruction::SubOpp(x, y) => lemma_decode_nibble_word(0x8, x, y, 0x7),
        Instruction::Shl(x, y) => lemma_decode_nibble_word(0x8, x, y, 0xE),
        Instruction::SkipNe(x, y) => lemma_decode_nibble_word(0x9, x, y, 0x0),
        Instruction::Draw(x, y, n) => lemma_decode_nibble_word(0xD, x, y, n as int),
    }
}

/// `lemma_fields_of_byte_word` for the number of a register, which is
/// found again as that register.
proof fn lemma_decode_byte_word(first: int, x: RegIdx, nn: u8)
    requires
        0 <= first <= 15,
        x.wf(),
    ensures
        0 <= 0x1000 * first + 0x100 * x@ + nn <= 0xFFFF,
        first_nibble((0x1000 * first + 0x100 * x@ + nn) as u16) == first,
        RegIdx::of(second_nibble((0x1000 * first + 0x100 * x@ + nn) as u16)) == x,
        low_byte((0x1000 * first + 0x100 * x@ + nn) as u16) == nn,
        fourth_nibble((0x1000 * first + 0x100 * x@ + nn) as u16) == nn % 0x10,
{
    x.lemma_wf_range();
    x.lemma_of_view();
    lemma_fields_of_byte_word(first, x@, nn);
}

/// `lemma_fields_of_word` for the numbers of two registers, which are
/// found again as those registers.
proof fn lemma_decode_nibble_word(first: int, x: RegIdx, y: RegIdx, n: int)
    requires
        0 <= first <= 15,
        x.wf(),
        y.wf(),
        0 <= n <= 15,
    ensures
        0 <= 0x1000 * first + 0x100 * x@ + 0x10 * y@ + n <= 0xFFFF,
        first_nibble((0x1000 * first + 0x100 * x@ + 0x10 * y@ + n) as u16) == first,
        RegIdx::of(second_nibble((0x1000 * first + 0x100 * x@ + 0x10 * y@ + n) as u16)) == x,
        RegIdx::of(third_nibble((0x1000 * first + 0x100 * x@ + 0x10 * y@ + n) as u16)) == y,
        fourth_nibble((0x1000 * first + 0x100 * x@ + 0x10 * y@ + n) as u16) == n,
{
    x.lemma_wf_range();
    x.lemma_of_view();
    y.lemma_wf_range();
    y.lemma_of_view();
    lemma_fields_of_word(first, x@, y@, n);
}

/// A word decodes only to an instruction that it encodes.
pub proof fn lemma_encode_inverts_decode(word: u16)
    ensures
        decode_spec(word) matches Some(inst) ==> inst.wf() && encode_spec(inst) == word,
{
    RegIdx::lemma_of(second_nibble(word));
    RegIdx::lemma_of(third_nibble(word));
    lemma_word_of_fields(word);
}

/// A word decodes to an instruction exactly if it is the word of one: a
/// word that no instruction has is unknown.
pub proof fn lemma_unknown_words(word: u16)
    ensures
        decode_spec(word) is None <==> forall|inst: Instruction|
            inst.wf() ==> #[trigger] encode_spec(inst) != word,
{
    lemma_encode_inverts_decode(word);
    if decode_spec(word) is None {
        assert forall|inst: Instruction| inst.wf() implies #[trigger] encode_spec(inst)
            != word by {
            lemma_decode_inverts_encode(inst);
        }
    }
}

impl Instruction {
    /// Whether every operand fits its field: register indices name a
    /// register, addresses have twelve bits, a sprite height has four.
    pub open spec fn wf(self) -> bool {
        match self {
            Instruction::ClearScreen | Instruction::Return => true,
            Instruction::Jump(nnn)
            | Instruction::Call(nnn)
            | Instruction::SetIndex(nnn)
            | Instruction::JumpV0(nnn) => nnn <= 0xFFF,
            Instruction::SkipEqIm(x, _)
            | Instruction::SkipNeIm(x, _)
            | Instruction::SetIm(x, _)
            | Instruction::AddIm(x, _)
            | Instruction::RandAnd(x, _) => x.wf(),
            Instruction::SkipEq(x, y)
            | Instruction::SkipNe(x, y)
            | Instruction::SetReg(x, y)
            | Instruction::Or(x, y)
            | Instruction::And(x, y)
            | Instruction::Xor(x, y)
            | Instruction::Add(x, y)
            | Instruction::Sub(x, y)
            | Instruction::SubOpp(x, y)
            | Instruction::Shr(x, y)
            | Instruction::Shl(x, y) => x.wf() && y.wf(),
            Instruction::Draw(x, y, n) => x.wf() && y.wf() && n <= 15,
            Instruction::SkipKeyEq(x)
            | Instruction::SkipKeyNe(x)
            | Instruction::GetDelay(x)
            | Instruction::SetDelay(x)
            | Instruction::SetSound(x)
            | Instruction::AddIndex(x)
            | Instruction::GetKey(x)
            | Instruction::IndexCharacter(x)
            | Instruction::SetBcd(x)
            | Instruction::RegStore(x)
            | Instruction::RegLoad(x) => x.wf(),
        }
    }

    /// Decodes an instruction word. `None` for a word that encodes no
    /// instruction.
    pub fn decode(word: u16) -> (decoded: Option<Self>)
        ensures
            decoded == decode_spec(word),
            decoded matches Some(inst) ==> inst.wf(),
    {
        let x = RegIdx::new(word.nibble2());
        let y = RegIdx::new(word.nibble3());
        let n = word.nibble4();
        let nn = word.byte2();
        let nnn = word.bits12();
        match word.nibble1() {
            0x0 => if word == 0x00E0 {
                Some(Instruction::ClearScreen)
            } else if word == 0x00EE {
                Some(Instruction::Return)
            } else {
                None
            },
            0x1 => Some(Instruction::Jump(nnn)),
            0x2 => Some(Instruction::Call(nnn)),
            0x3 => Some(Instruction::SkipEqIm(x, nn)),
            0x4 => Some(Instruction::SkipNeIm(x, nn)),
            0x5 => if n == 0 {
                Some(Instruction::SkipEq(x, y))
            } else {
                None
            },
            0x6 => Some(Instruction::SetIm(x, nn)),
            0x7 => Some(Instruction::AddIm(x, nn)),
            0x8 => match n {
                0x0 => Some(Instruction::SetReg(x, y)),
                0x1 => Some(Instruction::Or(x, y)),
                0x2 => Some(Instruction::And(x, y)),
                0x3 => Some(Instruction::Xor(x, y)),
                0x4 => Some(Instruction::Add(x, y)),
                0x5 => Some(Instruction::Sub(x, y)),
                0x6 => Some(Instruction::Shr(x, y)),
                0x7 => Some(Instruction::SubOpp(x, y)),
                0xE => Some(Instruction::Shl(x, y)),
                _ => None,
            },
            0x9 => if n == 0 {
                Some(Instruction::SkipNe(x, y))
            } else {
                None
            },
            0xA => Some(Instruction::SetIndex(nnn)),
            0xB => Some(Instruction::JumpV0(nnn)),
            0xC => Some(Instruction::RandAnd(x, nn)),
            0xD => Some(Instruction::Draw(x, y, n)),
            0xE => match nn {
                0x9E => Some(Instruction::SkipKeyEq(x)),
                0xA1 => Some(Instruction::SkipKeyNe(x)),
                _ => None,
            },
            0xF => match nn {
                0x07 => Some(Instruction::GetDelay(x)),
                0x0A => Some(Instruction::GetKey(x)),
                0x15 => Some(Instruction::SetDelay(x)),
                0x18 => Some(Instruction::SetSound(x)),
                0x1E => Some(Instruction::AddIndex(x)),
                0x29 => Some(Instruction::IndexCharacter(x)),
                0x33 => Some(Instruction::SetBcd(x)),
                0x55 => Some(Instruction::RegStore(x)),
                0x65 => Some(Instruction::RegLoad(x)),
                _ => None,
            },
            _ => None,
        }
    }
}

} // verus!
