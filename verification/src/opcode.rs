//! The instruction set: a tagged operation for every encoding the machine
//! implements, and the decoder from a 16-bit instruction word.

use vstd::prelude::*;

verus! {

/// One decoded instruction. `x` and `y` name general registers, `n` is a
/// sprite height, `kk` an immediate byte and `nnn` a 12-bit address.
#[derive(Clone, Copy, Debug, PartialEq, Eq, Structural)]
pub enum Opcode {
    /// `00EE`: return from a subroutine.
    Return,
    /// `1nnn`: jump to `nnn`.
    Jump { nnn: u16 },
    /// `2nnn`: call the subroutine at `nnn`.
    Call { nnn: u16 },
    /// `3xkk`: skip the next instruction if `Vx == kk`.
    SkipEq { x: u8, kk: u8 },
    /// `4xkk`: skip the next instruction if `Vx != kk`.
    SkipNeq { x: u8, kk: u8 },
    /// `6xkk`: `Vx := kk`.
    LoadImmediate { x: u8, kk: u8 },
    /// `7xkk`: `Vx := Vx + kk`, wrapping, flag untouched.
    AddImmediate { x: u8, kk: u8 },
    /// `8xy0`: `Vx := Vy`.
    Move { x: u8, y: u8 },
    /// `8xy2`: `Vx := Vx AND Vy`.
    And { x: u8, y: u8 },
    /// `8xy4`: `Vx := Vx + Vy`, `VF := carry`.
    Add { x: u8, y: u8 },
    /// `8xy5`: `Vx := Vx - Vy`, `VF := no borrow`.
    Sub { x: u8, y: u8 },
    /// `Annn`: `I := nnn`.
    SetIndex { nnn: u16 },
    /// `Cxkk`: `Vx := random byte AND kk`.
    Random { x: u8, kk: u8 },
    /// `Dxyn`: draw the `n`-row sprite at `I` to `(Vx, Vy)`, `VF := collision`.
    Draw { x: u8, y: u8, n: u8 },
    /// `Ex9E`: skip the next instruction if key `Vx` is held down.
    SkipKeyDown { x: u8 },
    /// `ExA1`: skip the next instruction if key `Vx` is up.
    SkipKeyUp { x: u8 },
    /// `Fx07`: `Vx := delay timer`.
    ReadTimer { x: u8 },
    /// `Fx15`: `delay timer := Vx`.
    SetTimer { x: u8 },
    /// `Fx29`: `I :=` address of the font glyph for `Vx`.
    ReadFont { x: u8 },
    /// `Fx33`: store the three decimal digits of `Vx` at `I`, `I+1`, `I+2`.
    StoreBCD { x: u8 },
    /// `Fx65`: load `V0..=Vx` from memory starting at `I`.
    LoadRegisters { x: u8 },
}

impl Opcode {
    /// Every operand fits its field of the encoding: register numbers and
    /// the sprite height are nibbles, addresses have twelve bits.
    pub open spec fn wf(self) -> bool {
        match self {
            Opcode::Return => true,
            Opcode::Jump { nnn } => nnn < 0x1000,
            Opcode::Call { nnn } => nnn < 0x1000,
            Opcode::SkipEq { x, kk } => x < 16,
            Opcode::SkipNeq { x, kk } => x < 16,
            Opcode::LoadImmediate { x, kk } => x < 16,
            Opcode::AddImmediate { x, kk } => x < 16,
            Opcode::Move { x, y } => x < 16 && y < 16,
            Opcode::And { x, y } => x < 16 && y < 16,
            Opcode::Add { x, y } => x < 16 && y < 16,
            Opcode::Sub { x, y } => x < 16 && y < 16,
            Opcode::SetIndex { nnn } => nnn < 0x1000,
            Opcode::Random { x, kk } => x < 16,
            Opcode::Draw { x, y, n } => x < 16 && y < 16 && n < 16,
            Opcode::SkipKeyDown { x } => x < 16,
            Opcode::SkipKeyUp { x } => x < 16,
            Opcode::ReadTimer { x } => x < 16,
            Opcode::SetTimer { x } => x < 16,
            Opcode::ReadFont { x } => x < 16,
            Opcode::StoreBCD { x } => x < 16,
            Opcode::LoadRegisters { x } => x < 16,
        }
    }

    /// The instruction word that encodes this operation.
    pub open spec fn encoding(self) -> int {
        match self {
            Opcode::Return => 0x00EE,
            Opcode::Jump { nnn } => 0x1000 + nnn,
            Opcode::Call { nnn } => 0x2000 + nnn,
            Opcode::SkipEq { x, kk } => 0x3000 + 0x100 * x + kk,
            Opcode::SkipNeq { x, kk } => 0x4000 + 0x100 * x + kk,
            Opcode::LoadImmediate { x, kk } => 0x6000 + 0x100 * x + kk,
            Opcode::AddImmediate { x, kk } => 0x7000 + 0x100 * x + kk,
            Opcode::Move { x, y } => 0x8000 + 0x100 * x + 0x10 * y,
            Opcode::And { x, y } => 0x8002 + 0x100 * x + 0x10 * y,
            Opcode::Add { x, y } => 0x8004 + 0x100 * x + 0x10 * y,
            Opcode::Sub { x, y } => 0x8005 + 0x100 * x + 0x10 * y,
            Opcode::SetIndex { nnn } => 0xA000 + nnn,
            Opcode::Random { x, kk } => 0xC000 + 0x100 * x + kk,
            Opcode::Draw { x, y, n } => 0xD000 + 0x100 * x + 0x10 * y + n,
            Opcode::SkipKeyDown { x } => 0xE09E + 0x100 * x,
            Opcode::SkipKeyUp { x } => 0xE0A1 + 0x100 * x,
            Opcode::ReadTimer { x } => 0xF007 + 0x100 * x,
            Opcode::SetTimer { x } => 0xF015 + 0x100 * x,
            Opcode::ReadFont { x } => 0xF029 + 0x100 * x,
            Opcode::StoreBCD { x } => 0xF033 + 0x100 * x,
            Opcode::LoadRegisters { x } => 0xF065 + 0x100 * x,
        }
    }
}

/// The high nibble of the first byte: the primary class of the instruction.
pub open spec fn class_of(word: u16) -> int {
    word as int / 0x1000
}

/// The operand `x`: the low nibble of the first byte.
pub open spec fn x_of(word: u16) -> u8 {
    ((word as int / 0x100) % 0x10) as u8
}

/// The operand `y`: the high nibble of the second byte.
pub open spec fn y_of(word: u16) -> u8 {
    ((word as int / 0x10) % 0x10) as u8
}

/// The operand `n`: the low nibble of the second byte.
pub open spec fn n_of(word: u16) -> u8 {
    (word as int % 0x10) as u8
}

/// The operand `kk`: the second byte.
pub open spec fn kk_of(word: u16) -> u8 {
    (word as int % 0x100) as u8
}

/// The operand `nnn`: the twelve low bits of the word.
pub open spec fn nnn_of(word: u16) -> u16 {
    (word as int % 0x1000) as u16
}

/// The operation that an instruction word stands for, or `None` where the
/// machine implements no operation with that encoding.
pub open spec fn spec_decode(word: u16) -> Option<Opcode> {
    let x = x_of(word);
    let y = y_of(word);
    let n = n_of(word);
    let kk = kk_of(word);
    let nnn = nnn_of(word);
    let class = class_of(word);
    if word == 0x00EE {
        Some(Opcode::Return)
    } else if class == 0x1 {
        Some(Opcode::Jump { nnn })
    } else if class == 0x2 {
        Some(Opcode::Call { nnn })
    } else if class == 0x3 {
        Some(Opcode::SkipEq { x, kk })
    } else if class == 0x4 {
        Some(Opcode::SkipNeq { x, kk })
    } else if class == 0x6 {
        Some(Opcode::LoadImmediate { x, kk })
    } else if class == 0x7 {
        Some(Opcode::AddImmediate { x, kk })
    } else if class == 0x8 && n == 0x0 {
        Some(Opcode::Move { x, y })
    } else if class == 0x8 && n == 0x2 {
        Some(Opcode::And { x, y })
    } else if class == 0x8 && n == 0x4 {
        Some(Opcode::Add { x, y })
    } else if class == 0x8 && n == 0x5 {
        Some(Opcode::Sub { x, y })
    } else if class == 0xA {
        Some(Opcode::SetIndex { nnn })
    } else if class == 0xC {
        Some(Opcode::Random { x, kk })
    } else if class == 0xD {
        Some(Opcode::Draw { x, y, n })
    } else if class == 0xE && kk == 0x9E {
        Some(Opcode::SkipKeyDown { x })
    } else if class == 0xE && kk == 0xA1 {
        Some(Opcode::SkipKeyUp { x })
    } else if class == 0xF && kk == 0x07 {
        Some(Opcode::ReadTimer { x })
    } else if class == 0xF && kk == 0x15 {
        Some(Opcode::SetTimer { x })
    } else if class == 0xF && kk == 0x29 {
        Some(Opcode::ReadFont { x })
    } else if class == 0xF && kk == 0x33 {
        Some(Opcode::StoreBCD { x })
    } else if class == 0xF && kk == 0x65 {
        Some(Opcode::LoadRegisters { x })
    } else {
        None
    }
}

/// The masks and shifts that pick the operand fields out of a word agree
/// with the arithmetic reading of the encoding.
proof fn lemma_fields(word: u16)
    ensures
        (word >> 12) as int == class_of(word),
        ((word >> 8) & 0x0F) as int == x_of(word),
        ((word >> 4) & 0x0F) as int == y_of(word),
        (word & 0x000F) as int == n_of(word),
        (word & 0x00FF) as int == kk_of(word),
        (word & 0x0FFF) as int == nnn_of(word),
        x_of(word) < 16,
        y_of(word) < 16,
        n_of(word) < 16,
        nnn_of(word) < 0x1000,
{
    assert(word >> 12 == word / 0x1000) by (bit_vector);
    assert((word >> 8) & 0x0F == (word / 0x100) % 0x10) by (bit_vector);
    assert((word >> 4) & 0x0F == (word / 0x10) % 0x10) by (bit_vector);
    assert(word & 0x000F == word % 0x10) by (bit_vector);
    assert(word & 0x00FF == word % 0x100) by (bit_vector);
    assert(word & 0x0FFF == word % 0x1000) by (bit_vector);
}

/// Decodes one instruction word.
pub fn decode(word: u16) -> (op: Option<Opcode>)
    ensures
        op == spec_decode(word),
        op matches Some(o) ==> o.wf(),
{
    proof {
        lemma_fields(word);
    }
    let class: u16 = word >> 12;
    let x: u8 = ((word >> 8) & 0x0F) as u8;
    let y: u8 = ((word >> 4) & 0x0F) as u8;
    let n: u8 = (word & 0x000F) as u8;
    let kk: u8 = (word & 0x00FF) as u8;
    let nnn: u16 = word & 0x0FFF;
    if word == 0x00EE {
        return Some(Opcode::Return);
    }
    match class {
        0x1 => Some(Opcode::Jump { nnn }),
        0x2 => Some(Opcode::Call { nnn }),
        0x3 => Some(Opcode::SkipEq { x, kk }),
        0x4 => Some(Opcode::SkipNeq { x, kk }),
        0x6 => Some(Opcode::LoadImmediate { x, kk }),
        0x7 => Some(Opcode::AddImmediate { x, kk }),
        0x8 => match n {
            0x0 => Some(Opcode::Move { x, y }),
            0x2 => Some(Opcode::And { x, y }),
            0x4 => Some(Opcode::Add { x, y }),
            0x5 => Some(Opcode::Sub { x, y }),
            _ => None,
        },
        0xA => Some(Opcode::SetIndex { nnn }),
        0xC => Some(Opcode::Random { x, kk }),
        0xD => Some(Opcode::Draw { x, y, n }),
        0xE => match kk {
            0x9E => Some(Opcode::SkipKeyDown { x }),
            0xA1 => Some(Opcode::SkipKeyUp { x }),
            _ => None,
        },
        0xF => match kk {
            0x07 => Some(Opcode::ReadTimer { x }),
            0x15 => Some(Opcode::SetTimer { x }),
            0x29 => Some(Opcode::ReadFont { x }),
            0x33 => Some(Opcode::StoreBCD { x }),
            0x65 => Some(Opcode::LoadRegisters { x }),
            _ => None,
        },
        _ => None,
    }
}

/// A word is the sum of its four nibbles, each at its own weight.
proof fn lemma_word_parts(word: u16)
    ensures
        0 <= class_of(word) < 16,
        word == 0x1000 * class_of(word) + 0x100 * x_of(word) + 0x10 * y_of(word) + n_of(word),
        kk_of(word) == 0x10 * y_of(word) + n_of(word),
        nnn_of(word) == 0x100 * x_of(word) + kk_of(word),
{
}

/// The fields of a word put together from four nibbles are those nibbles.
proof fn lemma_word_from_parts(class: int, x: int, y: int, n: int)
    requires
        0 <= class < 16,
        0 <= x < 16,
        0 <= y < 16,
        0 <= n < 16,
    ensures
        ({
            let word = (0x1000 * class + 0x100 * x + 0x10 * y + n) as u16;
            &&& word == 0x1000 * class + 0x100 * x + 0x10 * y + n
            &&& class_of(word) == class
            &&& x_of(word) == x
            &&& y_of(word) == y
            &&& n_of(word) == n
            &&& kk_of(word) == 0x10 * y + n
            &&& nnn_of(word) == 0x100 * x + 0x10 * y + n
        }),
{
    let w: int = 0x1000 * class + 0x100 * x + 0x10 * y + n;
    assert(0 <= w < 0x10000);
    assert(w / 0x1000 == class && w % 0x1000 == 0x100 * x + 0x10 * y + n);
    assert(w / 0x100 == 0x10 * class + x && w % 0x100 == 0x10 * y + n);
    assert(w / 0x10 == 0x100 * class + 0x10 * x + y && w % 0x10 == n);
    assert((0x10 * class + x) % 0x10 == x);
    assert((0x100 * class + 0x10 * x + y) % 0x10 == y);
}

/// A word that decodes is the encoding of what it decodes to.
proof fn lemma_decode_sound(word: u16)
    ensures
        spec_decode(word) matches Some(op) ==> op.wf() && op.encoding() == word,
{
    lemma_fields(word);
    lemma_word_parts(word);
}

/// The encoding of an operation decodes to that operation.
proof fn lemma_decode_complete(op: Opcode)
    requires
        op.wf(),
    ensures
        0 <= op.encoding() < 0x10000,
        spec_decode(op.encoding() as u16) == Some(op),
{
    match op {
        Opcode::Return => {
            lemma_word_from_parts(0x0, 0x0, 0xE, 0xE);
        },
        Opcode::Jump { nnn } => {
            lemma_fields(nnn);
            lemma_word_parts(nnn);
            lemma_word_from_parts(0x1, x_of(nnn) as int, y_of(nnn) as int, n_of(nnn) as int);
        },
        Opcode::Call { nnn } => {
            lemma_fields(nnn);
            lemma_word_parts(nnn);
            lemma_word_from_parts(0x2, x_of(nnn) as int, y_of(nnn) as int, n_of(nnn) as int);
        },
        Opcode::SkipEq { x, kk } => {
            lemma_word_from_parts(0x3, x as int, kk as int / 0x10, kk as int % 0x10);
        },
        Opcode::SkipNeq { x, kk } => {
            lemma_word_from_parts(0x4, x as int, kk as int / 0x10, kk as int % 0x10);
        },
        Opcode::LoadImmediate { x, kk } => {
            lemma_word_from_parts(0x6, x as int, kk as int / 0x10, kk as int % 0x10);
        },
        Opcode::AddImmediate { x, kk } => {
            lemma_word_from_parts(0x7, x as int, kk as int / 0x10, kk as int % 0x10);
        },
        Opcode::Move { x, y } => {
            lemma_word_from_parts(0x8, x as int, y as int, 0x0);
        },
        Opcode::And { x, y } => {
            lemma_word_from_parts(0x8, x as int, y as int, 0x2);
        },
        Opcode::Add { x, y } => {
            lemma_word_from_parts(0x8, x as int, y as int, 0x4);
        },
        Opcode::Sub { x, y } => {
            lemma_word_from_parts(0x8, x as int, y as int, 0x5);
        },
        Opcode::SetIndex { nnn } => {
            lemma_fields(nnn);
            lemma_word_parts(nnn);
            lemma_word_from_parts(0xA, x_of(nnn) as int, y_of(nnn) as int, n_of(nnn) as int);
        },
        Opcode::Random { x, kk } => {
            lemma_word_from_parts(0xC, x as int, kk as int / 0x10, kk as int % 0x10);
        },
        Opcode::Draw { x, y, n } => {
            lemma_word_from_parts(0xD, x as int, y as int, n as int);
        },
        Opcode::SkipKeyDown { x } => {
            lemma_word_from_parts(0xE, x as int, 0x9, 0xE);
        },
        Opcode::SkipKeyUp { x } => {
            lemma_word_from_parts(0xE, x as int, 0xA, 0x1);
        },
        Opcode::ReadTimer { x } => {
            lemma_word_from_parts(0xF, x as int, 0x0, 0x7);
        },
        Opcode::SetTimer { x } => {
            lemma_word_from_parts(0xF, x as int, 0x1, 0x5);
        },
        Opcode::ReadFont { x } => {
            lemma_word_from_parts(0xF, x as int, 0x2, 0x9);
        },
        Opcode::StoreBCD { x } => {
            lemma_word_from_parts(0xF, x as int, 0x3, 0x3);
        },
        Opcode::LoadRegisters { x } => {
            lemma_word_from_parts(0xF, x as int, 0x6, 0x5);
        },
    }
}

/// A word decodes to an operation exactly when it is the encoding of that
/// operation with operands that fit their fields: the decoder inverts the
/// encoding table and rejects every word outside it.
pub proof fn law_decode_inverts_encoding(word: u16, op: Opcode)
    ensures
        spec_decode(word) == Some(op) <==> (op.wf() && op.encoding() == word),
{
    lemma_decode_sound(word);
    if op.wf() && op.encoding() == word {
        lemma_decode_complete(op);
    }
}

} // verus!
