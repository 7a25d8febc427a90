//! Instruction decoding and keyboard mapping.
use vstd::prelude::*;

verus! {

/// One decoded CHIP-8 instruction. Register operands are indices into the
/// sixteen general-purpose registers.
#[derive(Debug, Clone, Copy, PartialEq, Eq, Structural)]
pub enum Operation {
    /// `00E0`: clear the display.
    Clear,
    /// `1nnn`: jump to `nnn`.
    SetPc(u16),
    /// `Annn`: set the index register to `nnn`.
    SetI(u16),
    /// `Fx1E`: add `Vx` to the index register (wrapping).
    AddI(usize),
    /// `6xkk`: set `Vx` to `kk`.
    SetRg(usize, u8),
    /// `7xkk`: add `kk` to `Vx` (wrapping, flag untouched).
    AddReg(usize, u8),
    /// `Fx33`: store the decimal digits of `Vx` at `I`, `I + 1`, `I + 2`.
    SplitReg(usize),
    /// `8xyN`: the arithmetic/logic family; the code selects the operation
    /// (`0`..=`7` for `8xy0`..=`8xy7`, `8` for `8xyE`).
    Arithmetic(u8, usize, usize),
    /// `Cxkk`: set `Vx` to a random byte masked with `kk`.
    Random(usize, u8),
    /// `3xkk` (`true`) / `4xkk` (`false`): skip if `Vx` equals / differs from `kk`.
    SkipK(bool, usize, u8),
    /// `5xy0` (`true`) / `9xy0` (`false`): skip if `Vx` equals / differs from `Vy`.
    SkipR(bool, usize, usize),
    /// `Ex9E` (`true`) / `ExA1` (`false`): skip if the key `Vx` is / is not held.
    SkipI(bool, usize),
    /// `2nnn`: call the subroutine at `nnn`.
    Call(u16),
    /// `Fx29`: point the index register at the font glyph of `Vx`.
    GetFont(usize),
    /// `Dxyn`: draw an `n`-byte sprite at (`Vx`, `Vy`).
    Display(u8, u8, usize),
    /// `Fx55`: store `V0`..=`Vx` at `I`.
    Write(usize),
    /// `Fx65`: load `V0`..=`Vx` from `I`.
    Read(usize),
    /// `00EE`: return from a subroutine.
    Return,
    /// `Fx07`: set `Vx` to the delay timer.
    CopyDelay(usize),
    /// `Fx0A`: wait for a key press and store it in `Vx`.
    WaitKey(usize),
    /// `Fx15`: set the delay timer to `Vx`.
    SetDelay(usize),
    /// `Fx18`: set the sound timer to `Vx`.
    SetSound(usize),
    /// An opcode this machine does not implement.
    Unsupported,
    /// An opcode that is accepted and ignored.
    Nop,
}

impl Operation {
    /// Every register operand names one of the sixteen registers.
    pub open spec fn wf(self) -> bool {
        match self {
            Operation::AddI(x) => x < 16,
            Operation::SetRg(x, _) => x < 16,
            Operation::AddReg(x, _) => x < 16,
            Operation::SplitReg(x) => x < 16,
            Operation::Arithmetic(_, x, y) => x < 16 && y < 16,
            Operation::Random(x, _) => x < 16,
            Operation::SkipK(_, x, _) => x < 16,
            Operation::SkipR(_, x, y) => x < 16 && y < 16,
            Operation::SkipI(_, x) => x < 16,
            Operation::GetFont(x) => x < 16,
            Operation::Display(x, y, _) => x < 16 && y < 16,
            Operation::Write(x) => x < 16,
            Operation::Read(x) => x < 16,
            Operation::CopyDelay(x) => x < 16,
            Operation::WaitKey(x) => x < 16,
            Operation::SetDelay(x) => x < 16,
            Operation::SetSound(x) => x < 16,
            _ => true,
        }
    }
}

/// The `k`-th hexadecimal digit of an opcode, counting from the most
/// significant one (`k` in `0..4`).
pub open spec fn nibble(opcode: u16, k: int) -> u16 {
    if k == 0 {
        opcode / 0x1000
    } else if k == 1 {
        (opcode / 0x100) % 0x10
    } else if k == 2 {
        (opcode / 0x10) % 0x10
    } else {
        opcode % 0x10
    }
}

/// The instruction that an opcode stands for.
pub open spec fn spec_decode(opcode: u16) -> Operation {
    let x = nibble(opcode, 1) as usize;
    let y = nibble(opcode, 2) as usize;
    let n = nibble(opcode, 3);
    let nnn = (opcode % 0x1000) as u16;
    let kk = (opcode % 0x100) as u8;
    let top = nibble(opcode, 0);
    if top == 0x0 {
        if opcode == 0x00E0 {
            Operation::Clear
        } else if opcode == 0x00EE {
            Operation::Return
        } else {
            Operation::Nop
        }
    } else if top == 0x1 {
        Operation::SetPc(nnn)
    } else if top == 0x2 {
        Operation::Call(nnn)
    } else if top == 0x3 {
        Operation::SkipK(true, x, kk)
    } else if top == 0x4 {
        Operation::SkipK(false, x, kk)
    } else if top == 0x5 {
        if n == 0 { Operation::SkipR(true, x, y) } else { Operation::Unsupported }
    } else if top == 0x6 {
        Operation::SetRg(x, kk)
    } else if top == 0x7 {
        Operation::AddReg(x, kk)
    } else if top == 0x8 {
        if n <= 7 {
            Operation::Arithmetic(n as u8, x, y)
        } else if n == 0xE {
            Operation::Arithmetic(8, x, y)
        } else {
            Operation::Nop
        }
    } else if top == 0x9 {
        if n == 0 { Operation::SkipR(false, x, y) } else { Operation::Unsupported }
    } else if top == 0xA {
        Operation::SetI(nnn)
    } else if top == 0xC {
        Operation::Random(x, kk)
    } else if top == 0xD {
        Operation::Display(x as u8, y as u8, n as usize)
    } else if top == 0xE {
        if kk == 0x9E {
            Operation::SkipI(true, x)
        } else if kk == 0xA1 {
            Operation::SkipI(false, x)
        } else {
            Operation::Unsupported
        }
    } else if top == 0xF {
        if kk == 0x07 {
            Operation::CopyDelay(x)
        } else if kk == 0x0A {
            Operation::WaitKey(x)
        } else if kk == 0x15 {
            Operation::SetDelay(x)
        } else if kk == 0x18 {
            Operation::SetSound(x)
        } else if kk == 0x1E {
            Operation::AddI(x)
        } else if kk == 0x29 {
            Operation::GetFont(x)
        } else if kk == 0x33 {
            Operation::SplitReg(x)
        } else if kk == 0x55 {
            Operation::Write(x)
        } else if kk == 0x65 {
            Operation::Read(x)
        } else {
            Operation::Unsupported
        }
    } else {
        Operation::Unsupported
    }
}

proof fn lemma_fields(opcode: u16)
    ensures
        (opcode & 0xF000) >> 12 == opcode / 0x1000,
        (opcode & 0x0F00) >> 8 == (opcode / 0x100) % 0x10,
        (opcode & 0x00F0) >> 4 == (opcode / 0x10) % 0x10,
        opcode & 0x000F == opcode % 0x10,
        opcode & 0x0FFF == opcode % 0x1000,
        opcode & 0x00FF == opcode % 0x100,
        opcode / 0x1000 < 16,
{
    assert((opcode & 0xF000) >> 12 == opcode / 0x1000) by (bit_vector);
    assert((opcode & 0x0F00) >> 8 == (opcode / 0x100) % 0x10) by (bit_vector);
    assert((opcode & 0x00F0) >> 4 == (opcode / 0x10) % 0x10) by (bit_vector);
    assert(opcode & 0x000F == opcode % 0x10) by (bit_vector);
    assert(opcode & 0x0FFF == opcode % 0x1000) by (bit_vector);
    assert(opcode & 0x00FF == opcode % 0x100) by (bit_vector);
}

/// Decodes a two-byte opcode into the instruction it stands for.
pub fn decode(opcode: u16) -> (op: Operation)
    ensures
        op == spec_decode(opcode),
{
    proof {
        lemma_fields(opcode);
    }
    let n1 = (opcode & 0xF000) >> 12;
    let n2 = (opcode & 0x0F00) >> 8;
    let n3 = (opcode & 0x00F0) >> 4;
    let n4 = opcode & 0x000F;
    let nnn = opcode & 0x0FFF;
    let nn = (opcode & 0x00FF) as u8;
    let x = n2 as usize;
    let y = n3 as usize;

    match n1 {
        0x0 => {
            if opcode == 0x00E0 {
                Operation::Clear
            } else if opcode == 0x00EE {
                Operation::Return
            } else {
                Operation::Nop
            }
        },
        0x1 => Operation::SetPc(nnn),
        0x2 => Operation::Call(nnn),
        0x3 => Operation::SkipK(true, x, nn),
        0x4 => Operation::SkipK(false, x, nn),
        0x5 => if n4 == 0 { Operation::SkipR(true, x, y) } else { Operation::Unsupported },
        0x6 => Operation::SetRg(x, nn),
        0x7 => Operation::AddReg(x, nn),
        0x8 => {
            if n4 <= 7 {
                Operation::Arithmetic(n4 as u8, x, y)
            } else if n4 == 0xE {
                Operation::Arithmetic(8, x, y)
            } else {
                Operation::Nop
            }
        },
        0x9 => if n4 == 0 { Operation::SkipR(false, x, y) } else { Operation::Unsupported },
        0xA => Operation::SetI(nnn),
        0xC => Operation::Random(x, nn),
        0xD => Operation::Display(n2 as u8, n3 as u8, n4 as usize),
        0xE => {
            if nn == 0x9E {
                Operation::SkipI(true, x)
            } else if nn == 0xA1 {
                Operation::SkipI(false, x)
            } else {
                Operation::Unsupported
            }
        },
        0xF => {
            if nn == 0x07 {
                Operation::CopyDelay(x)
            } else if nn == 0x0A {
                Operation::WaitKey(x)
            } else if nn == 0x15 {
                Operation::SetDelay(x)
            } else if nn == 0x18 {
                Operation::SetSound(x)
            } else if nn == 0x1E {
                Operation::AddI(x)
            } else if nn == 0x29 {
                Operation::GetFont(x)
            } else if nn == 0x33 {
                Operation::SplitReg(x)
            } else if nn == 0x55 {
                Operation::Write(x)
            } else if nn == 0x65 {
                Operation::Read(x)
            } else {
                Operation::Unsupported
            }
        },
        _ => Operation::Unsupported,
    }
}

/// Every decoded instruction names valid registers and a sprite height below 16.
pub proof fn lemma_decode_wf(opcode: u16)
    ensures
        spec_decode(opcode).wf(),
        spec_decode(opcode) matches Operation::Display(x, y, n) ==> n < 16,
{
}

/// The keypad key that a keyboard character stands for: the left-hand block
/// `1234`/`QWER`/`ASDF`/`ZXCV` maps onto the hex pad `123C`/`456D`/`789E`/`A0BF`
/// (letters in either case).
pub open spec fn spec_char_to_chip8(c: char) -> Option<usize> {
    if c == '1' {
        Some(0x1)
    } else if c == '2' {
        Some(0x2)
    } else if c == '3' {
        Some(0x3)
    } else if c == '4' {
        Some(0xC)
    } else if c == 'q' || c == 'Q' {
        Some(0x4)
    } else if c == 'w' || c == 'W' {
        Some(0x5)
    } else if c == 'e' || c == 'E' {
        Some(0x6)
    } else if c == 'r' || c == 'R' {
        Some(0xD)
    } else if c == 'a' || c == 'A' {
        Some(0x7)
    } else if c == 's' || c == 'S' {
        Some(0x8)
    } else if c == 'd' || c == 'D' {
        Some(0x9)
    } else if c == 'f' || c == 'F' {
        Some(0xE)
    } else if c == 'z' || c == 'Z' {
        Some(0xA)
    } else if c == 'x' || c == 'X' {
        Some(0x0)
    } else if c == 'c' || c == 'C' {
        Some(0xB)
    } else if c == 'v' || c == 'V' {
        Some(0xF)
    } else {
        None
    }
}

/// The keypad key that a key name stands for: a name of exactly one mapped character.
pub open spec fn spec_key_to_chip8(key: Seq<char>) -> Option<usize> {
    if key.len() == 1 {
        spec_char_to_chip8(key[0])
    } else {
        None
    }
}

/// Maps one keyboard character onto the keypad.
pub fn char_to_chip8(c: char) -> (k: Option<usize>)
    ensures
        k == spec_char_to_chip8(c),
{
    match c {
        '1' => Some(0x1),
        '2' => Some(0x2),
        '3' => Some(0x3),
        '4' => Some(0xC),
        'q' | 'Q' => Some(0x4),
        'w' | 'W' => Some(0x5),
        'e' | 'E' => Some(0x6),
        'r' | 'R' => Some(0xD),
        'a' | 'A' => Some(0x7),
        's' | 'S' => Some(0x8),
        'd' | 'D' => Some(0x9),
        'f' | 'F' => Some(0xE),
        'z' | 'Z' => Some(0xA),
        'x' | 'X' => Some(0x0),
        'c' | 'C' => Some(0xB),
        'v' | 'V' => Some(0xF),
        _ => None,
    }
}

/// Maps a key name (as the windowing layer reports it) onto the keypad.
pub fn key_to_chip8(key: &str) -> (k: Option<usize>)
    ensures
        k == spec_key_to_chip8(key@),
{
    let mut chars = key.chars();
    let first = chars.next();
    let second = chars.next();
    match (first, second) {
        (Some(c), Option::None) => char_to_chip8(c),
        _ => Option::None,
    }
}

/// Every mapped character lands on one of the sixteen keypad keys.
pub proof fn lemma_key_map_in_range(c: char)
    ensures
        spec_char_to_chip8(c) matches Some(k) ==> k < 16,
{
}

/// Two characters land on the same keypad key only when they are the same
/// character or the two cases of one letter.
pub proof fn lemma_key_map_one_to_one(c1: char, c2: char)
    requires
        spec_char_to_chip8(c1) is Some,
        spec_char_to_chip8(c1) == spec_char_to_chip8(c2),
    ensures
        c1 == c2 || c1 as int == c2 as int + 32 || c2 as int == c1 as int + 32,
{
}

/// Each of the sixteen keypad keys is reached from some character.
pub proof fn lemma_key_map_onto(k: usize)
    requires
        k < 16,
    ensures
        exists|c: char| spec_char_to_chip8(c) == Some(k),
{
    if k == 0x0 { assert(spec_char_to_chip8('x') == Some(k)); }
    else if k == 0x1 { assert(spec_char_to_chip8('1') == Some(k)); }
    else if k == 0x2 { assert(spec_char_to_chip8('2') == Some(k)); }
    else if k == 0x3 { assert(spec_char_to_chip8('3') == Some(k)); }
    else if k == 0x4 { assert(spec_char_to_chip8('q') == Some(k)); }
    else if k == 0x5 { assert(spec_char_to_chip8('w') == Some(k)); }
    else if k == 0x6 { assert(spec_char_to_chip8('e') == Some(k)); }
    else if k == 0x7 { assert(spec_char_to_chip8('a') == Some(k)); }
    else if k == 0x8 { assert(spec_char_to_chip8('s') == Some(k)); }
    else if k == 0x9 { assert(spec_char_to_chip8('d') == Some(k)); }
    else if k == 0xA { assert(spec_char_to_chip8('z') == Some(k)); }
    else if k == 0xB { assert(spec_char_to_chip8('c') == Some(k)); }
    else if k == 0xC { assert(spec_char_to_chip8('4') == Some(k)); }
    else if k == 0xD { assert(spec_char_to_chip8('r') == Some(k)); }
    else if k == 0xE { assert(spec_char_to_chip8('f') == Some(k)); }
    else { assert(spec_char_to_chip8('v') == Some(k)); }
}

} // verus!
