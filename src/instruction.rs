use vstd::prelude::*;

verus! {

/// One decoded instruction. `x` and `y` name registers, `kk` is an 8-bit
/// immediate, `nnn` a 12-bit address and `n` a 4-bit row count.
#[derive(Clone, Copy, Debug, PartialEq, Eq, Structural)]
pub enum Instruction {
    /// 00E0 CLS
    Clear,
    /// 00EE RET
    Return,
    /// 1nnn JP addr
    Jump { nnn: u16 },
    /// 2nnn CALL addr
    Call { nnn: u16 },
    /// 3xkk SE Vx, byte
    SkipIfEqualByte { x: usize, kk: u8 },
    /// 4xkk SNE Vx, byte
    SkipIfNotEqualByte { x: usize, kk: u8 },
    /// 5xy0 SE Vx, Vy
    SkipIfEqual { x: usize, y: usize },
    /// 6xkk LD Vx, byte
    LoadByte { x: usize, kk: u8 },
    /// 7xkk ADD Vx, byte
    AddByte { x: usize, kk: u8 },
    /// 8xy0 LD Vx, Vy
    Move { x: usize, y: usize },
    /// 8xy1 OR Vx, Vy
    Or { x: usize, y: usize },
    /// 8xy2 AND Vx, Vy
    And { x: usize, y: usize },
    /// 8xy3 XOR Vx, Vy
    Xor { x: usize, y: usize },
    /// 8xy4 ADD Vx, Vy
    Add { x: usize, y: usize },
    /// 8xy5 SUB Vx, Vy
    Sub { x: usize, y: usize },
    /// 8xy6 SHR Vx
    ShiftRight { x: usize },
    /// 8xy7 SUBN Vx, Vy
    SubReversed { x: usize, y: usize },
    /// 8xyE SHL Vx
    ShiftLeft { x: usize },
    /// 9xy0 SNE Vx, Vy
    SkipIfNotEqual { x: usize, y: usize },
    /// Annn LD I, addr
    LoadIndex { nnn: u16 },
    /// Bnnn JP V0, addr
    JumpOffset { nnn: u16 },
    /// Cxkk RND Vx, byte
    Random { x: usize, kk: u8 },
    /// Dxyn DRW Vx, Vy, n
    Draw { x: usize, y: usize, n: usize },
    /// Ex9E SKP Vx
    SkipIfKey { x: usize },
    /// ExA1 SKNP Vx
    SkipIfNotKey { x: usize },
    /// Fx07 LD Vx, DT
    LoadDelay { x: usize },
    /// Fx0A LD Vx, K
    WaitKey { x: usize },
    /// Fx15 LD DT, Vx
    SetDelay { x: usize },
    /// Fx18 LD ST, Vx
    SetSound { x: usize },
    /// Fx1E ADD I, Vx
    AddIndex { x: usize },
    /// Fx29 LD F, Vx
    LoadGlyph { x: usize },
    /// Fx33 LD B, Vx
    StoreDecimal { x: usize },
    /// Fx55 LD [I], Vx
    StoreRegisters { x: usize },
    /// Fx65 LD Vx, [I]
    LoadRegisters { x: usize },
    /// A word that matches no instruction.
    Unknown { word: u16 },
}

impl Instruction {
    /// Every operand is within the range its field of the word allows.
    pub open spec fn wf(self) -> bool {
        match self {
            Instruction::Jump { nnn } => nnn < 4096,
            Instruction::Call { nnn } => nnn < 4096,
            Instruction::LoadIndex { nnn } => nnn < 4096,
            Instruction::JumpOffset { nnn } => nnn < 4096,
            Instruction::SkipIfEqualByte { x, .. } => x < 16,
            Instruction::SkipIfNotEqualByte { x, .. } => x < 16,
            Instruction::LoadByte { x, .. } => x < 16,
            Instruction::AddByte { x, .. } => x < 16,
            Instruction::Random { x, .. } => x < 16,
            Instruction::SkipIfEqual { x, y } => x < 16 && y < 16,
            Instruction::SkipIfNotEqual { x, y } => x < 16 && y < 16,
            Instruction::Move { x, y } => x < 16 && y < 16,
            Instruction::Or { x, y } => x < 16 && y < 16,
            Instruction::And { x, y } => x < 16 && y < 16,
            Instruction::Xor { x, y } => x < 16 && y < 16,
            Instruction::Add { x, y } => x < 16 && y < 16,
            Instruction::Sub { x, y } => x < 16 && y < 16,
            Instruction::SubReversed { x, y } => x < 16 && y < 16,
            Instruction::Draw { x, y, n } => x < 16 && y < 16 && n < 16,
            Instruction::ShiftRight { x } => x < 16,
            Instruction::ShiftLeft { x } => x < 16,
            Instruction::SkipIfKey { x } => x < 16,
            Instruction::SkipIfNotKey { x } => x < 16,
            Instruction::LoadDelay { x } => x < 16,
            Instruction::WaitKey { x } => x < 16,
            Instruction::SetDelay { x } => x < 16,
            Instruction::SetSound { x } => x < 16,
            Instruction::AddIndex { x } => x < 16,
            Instruction::LoadGlyph { x } => x < 16,
            Instruction::StoreDecimal { x } => x < 16,
            Instruction::StoreRegisters { x } => x < 16,
            Instruction::LoadRegisters { x } => x < 16,
            Instruction::Clear => true,
            Instruction::Return => true,
            Instruction::Unknown { .. } => true,
        }
    }
}

/// The family nibble: the top four bits of the word.
pub open spec fn family_of(w: u16) -> u16 {
    w / 4096
}

/// The register index `x`: the second nibble.
pub open spec fn x_of(w: u16) -> u16 {
    (w / 256) % 16
}

/// The register index `y`: the third nibble.
pub open spec fn y_of(w: u16) -> u16 {
    (w / 16) % 16
}

/// The 4-bit immediate `n`: the lowest nibble.
pub open spec fn n_of(w: u16) -> u16 {
    w % 16
}

/// The 8-bit immediate `kk`: the low byte.
pub open spec fn kk_of(w: u16) -> u16 {
    w % 256
}

/// The 12-bit address `nnn`: the low twelve bits.
pub open spec fn nnn_of(w: u16) -> u16 {
    w % 4096
}

/// The instruction that a word encodes.
pub open spec fn decode_spec(w: u16) -> Instruction {
    let f = family_of(w);
    let x = x_of(w) as usize;
    let y = y_of(w) as usize;
    let n = n_of(w);
    let low = kk_of(w);
    let kk = low as u8;
    let nnn = nnn_of(w);
    if w == 0x00E0 {
        Instruction::Clear
    } else if w == 0x00EE {
        Instruction::Return
    } else if f == 1 {
        Instruction::Jump { nnn }
    } else if f == 2 {
        Instruction::Call { nnn }
    } else if f == 3 {
        Instruction::SkipIfEqualByte { x, kk }
    } else if f == 4 {
        Instruction::SkipIfNotEqualByte { x, kk }
    } else if f == 5 && n == 0 {
        Instruction::SkipIfEqual { x, y }
    } else if f == 6 {
        Instruction::LoadByte { x, kk }
    } else if f == 7 {
        Instruction::AddByte { x, kk }
    } else if f == 8 && n == 0 {
        Instruction::Move { x, y }
    } else if f == 8 && n == 1 {
        Instruction::Or { x, y }
    } else if f == 8 && n == 2 {
        Instruction::And { x, y }
    } else if f == 8 && n == 3 {
        Instruction::Xor { x, y }
    } else if f == 8 && n == 4 {
        Instruction::Add { x, y }
    } else if f == 8 && n == 5 {
        Instruction::Sub { x, y }
    } else if f == 8 && n == 6 {
        Instruction::ShiftRight { x }
    } else if f == 8 && n == 7 {
        Instruction::SubReversed { x, y }
    } else if f == 8 && n == 0xE {
        Instruction::ShiftLeft { x }
    } else if f == 9 && n == 0 {
        Instruction::SkipIfNotEqual { x, y }
    } else if f == 0xA {
        Instruction::LoadIndex { nnn }
    } else if f == 0xB {
        Instruction::JumpOffset { nnn }
    } else if f == 0xC {
        Instruction::Random { x, kk }
    } else if f == 0xD {
        Instruction::Draw { x, y, n: n as usize }
    } else if f == 0xE && low == 0x9E {
        Instruction::SkipIfKey { x }
    } else if f == 0xE && low == 0xA1 {
        Instruction::SkipIfNotKey { x }
    } else if f == 0xF && low == 0x07 {
        Instruction::LoadDelay { x }
    } else if f == 0xF && low == 0x0A {
        Instruction::WaitKey { x }
    } else if f == 0xF && low == 0x15 {
        Instruction::SetDelay { x }
    } else if f == 0xF && low == 0x18 {
        Instruction::SetSound { x }
    } else if f == 0xF && low == 0x1E {
        Instruction::AddIndex { x }
    } else if f == 0xF && low == 0x29 {
        Instruction::LoadGlyph { x }
    } else if f == 0xF && low == 0x33 {
        Instruction::StoreDecimal { x }
    } else if f == 0xF && low == 0x55 {
        Instruction::StoreRegisters { x }
    } else if f == 0xF && low == 0x65 {
        Instruction::LoadRegisters { x }
    } else {
        Instruction::Unknown { word: w }
    }
}

/// The big-endian instruction word at `addr` and `addr + 1`.
pub open spec fn word_at(memory: Seq<u8>, addr: int) -> u16 {
    (memory[addr] * 256 + memory[addr + 1]) as u16
}

proof fn lemma_fields(w: u16)
    ensures
        (w & 0xF000) >> 12 == family_of(w),
        (w & 0x0F00) >> 8 == x_of(w),
        (w & 0x00F0) >> 4 == y_of(w),
        w & 0x000F == n_of(w),
        w & 0x00FF == kk_of(w),
        w & 0x0FFF == nnn_of(w),
{
    assert((w & 0xF000) >> 12 == w / 4096) by (bit_vector);
    assert((w & 0x0F00) >> 8 == (w / 256) % 16) by (bit_vector);
    assert((w & 0x00F0) >> 4 == (w / 16) % 16) by (bit_vector);
    assert(w & 0x000F == w % 16) by (bit_vector);
    assert(w & 0x00FF == w % 256) by (bit_vector);
    assert(w & 0x0FFF == w % 4096) by (bit_vector);
}

/// Splits a word into its operand fields and names the instruction it
/// encodes. Decoding never fails: a word that matches nothing becomes
/// `Instruction::Unknown`.
pub fn decode(w: u16) -> (r: Instruction)
    ensures
        r == decode_spec(w),
        r.wf(),
{
    proof {
        lemma_fields(w);
    }
    let f: u16 = (w & 0xF000) >> 12;
    let x: usize = ((w & 0x0F00) >> 8) as usize;
    let y: usize = ((w & 0x00F0) >> 4) as usize;
    let n: u16 = w & 0x000F;
    let kk: u8 = (w & 0x00FF) as u8;
    let nnn: u16 = w & 0x0FFF;
    match f {
        0x0 => {
            if w == 0x00E0 {
                Instruction::Clear
            } else if w == 0x00EE {
                Instruction::Return
            } else {
                Instruction::Unknown { word: w }
            }
        },
        0x1 => Instruction::Jump { nnn },
        0x2 => Instruction::Call { nnn },
        0x3 => Instruction::SkipIfEqualByte { x, kk },
        0x4 => Instruction::SkipIfNotEqualByte { x, kk },
        0x5 => {
            if n == 0 {
                Instruction::SkipIfEqual { x, y }
            } else {
                Instruction::Unknown { word: w }
            }
        },
        0x6 => Instruction::LoadByte { x, kk },
        0x7 => Instruction::AddByte { x, kk },
        0x8 => match n {
            0x0 => Instruction::Move { x, y },
            0x1 => Instruction::Or { x, y },
            0x2 => Instruction::And { x, y },
            0x3 => Instruction::Xor { x, y },
            0x4 => Instruction::Add { x, y },
            0x5 => Instruction::Sub { x, y },
            0x6 => Instruction::ShiftRight { x },
            0x7 => Instruction::SubReversed { x, y },
            0xE => Instruction::ShiftLeft { x },
            _ => Instruction::Unknown { word: w },
        },
        0x9 => {
            if n == 0 {
                Instruction::SkipIfNotEqual { x, y }
            } else {
                Instruction::Unknown { word: w }
            }
        },
        0xA => Instruction::LoadIndex { nnn },
        0xB => Instruction::JumpOffset { nnn },
        0xC => Instruction::Random { x, kk },
        0xD => Instruction::Draw { x, y, n: n as usize },
        0xE => match kk {
            0x9E => Instruction::SkipIfKey { x },
            0xA1 => Instruction::SkipIfNotKey { x },
            _ => Instruction::Unknown { word: w },
        },
        _ => match kk {
            0x07 => Instruction::LoadDelay { x },
            0x0A => Instruction::WaitKey { x },
            0x15 => Instruction::SetDelay { x },
            0x18 => Instruction::SetSound { x },
            0x1E => Instruction::AddIndex { x },
            0x29 => Instruction::LoadGlyph { x },
            0x33 => Instruction::StoreDecimal { x },
            0x55 => Instruction::StoreRegisters { x },
            0x65 => Instruction::LoadRegisters { x },
            _ => Instruction::Unknown { word: w },
        },
    }
}

} // verus!
