use vstd::prelude::*;

verus! {

/// One decoded instruction. `x` and `y` name general registers, `addr` is a
/// 12-bit address, `byte` an 8-bit immediate and `height` a sprite height.
#[derive(Clone, Copy, Debug, PartialEq, Eq, Structural)]
pub enum Instruction {
    /// `00E0`
    ClearScreen,
    /// `00EE`
    Return,
    /// `1nnn`
    Jump { addr: u16 },
    /// `2nnn`
    Call { addr: u16 },
    /// `3xkk`
    SkipIfEqualByte { x: u8, byte: u8 },
    /// `4xkk`
    SkipIfNotEqualByte { x: u8, byte: u8 },
    /// `5xy0`
    SkipIfEqualRegister { x: u8, y: u8 },
    /// `6xkk`
    LoadByte { x: u8, byte: u8 },
    /// `7xkk`
    AddByte { x: u8, byte: u8 },
    /// `8xy0`
    Move { x: u8, y: u8 },
    /// `8xy1`
    Or { x: u8, y: u8 },
    /// `8xy2`
    And { x: u8, y: u8 },
    /// `8xy3`
    Xor { x: u8, y: u8 },
    /// `8xy4`
    AddRegister { x: u8, y: u8 },
    /// `8xy5`
    SubRegister { x: u8, y: u8 },
    /// `8xy6`
    ShiftRight { x: u8, y: u8 },
    /// `8xy7`
    SubReversed { x: u8, y: u8 },
    /// `8xyE`
    ShiftLeft { x: u8, y: u8 },
    /// `9xy0`
    SkipIfNotEqualRegister { x: u8, y: u8 },
    /// `Annn`
    LoadIndex { addr: u16 },
    /// `Bnnn`
    JumpOffset { addr: u16 },
    /// `Cxkk`
    Random { x: u8, byte: u8 },
    /// `Dxyn`
    Draw { x: u8, y: u8, height: u8 },
    /// `Ex9E`
    SkipIfKey { x: u8 },
    /// `ExA1`
    SkipIfNotKey { x: u8 },
    /// `Fx07`
    LoadDelay { x: u8 },
    /// `Fx0A`
    WaitKey { x: u8 },
    /// `Fx15`
    SetDelay { x: u8 },
    /// `Fx18`
    SetSound { x: u8 },
    /// `Fx1E`
    AddIndex { x: u8 },
    /// `Fx29`
    LoadGlyph { x: u8 },
    /// `Fx33`
    StoreDecimal { x: u8 },
    /// `Fx55`
    StoreRegisters { x: u8 },
    /// `Fx65`
    LoadRegisters { x: u8 },
}

/// The highest nibble of an opcode: its operation family.
pub open spec fn family(op: u16) -> u16 {
    op / 0x1000
}

/// The second nibble: the `x` operand.
pub open spec fn nibble_x(op: u16) -> u8 {
    ((op / 0x100) % 0x10) as u8
}

/// The third nibble: the `y` operand.
pub open spec fn nibble_y(op: u16) -> u8 {
    ((op / 0x10) % 0x10) as u8
}

/// The lowest nibble.
pub open spec fn nibble_n(op: u16) -> u8 {
    (op % 0x10) as u8
}

/// The low 12 bits: an address.
pub open spec fn low_addr(op: u16) -> u16 {
    op % 0x1000
}

/// The low 8 bits: a byte immediate.
pub open spec fn low_byte(op: u16) -> u8 {
    (op % 0x100) as u8
}

/// The instruction that an opcode stands for, or `None` for an opcode that
/// matches no pattern of the instruction set.
pub open spec fn decode_spec(op: u16) -> Option<Instruction> {
    let x = nibble_x(op);
    let y = nibble_y(op);
    let n = nibble_n(op);
    let addr = low_addr(op);
    let byte = low_byte(op);
    let f = family(op);
    if f == 0x0 {
        if op == 0x00E0 {
            Some(Instruction::ClearScreen)
        } else if op == 0x00EE {
            Some(Instruction::Return)
        } else {
            None
        }
    } else if f == 0x1 {
        Some(Instruction::Jump { addr })
    } else if f == 0x2 {
        Some(Instruction::Call { addr })
    } else if f == 0x3 {
        Some(Instruction::SkipIfEqualByte { x, byte })
    } else if f == 0x4 {
        Some(Instruction::SkipIfNotEqualByte { x, byte })
    } else if f == 0x5 {
        if n == 0x0 { Some(Instruction::SkipIfEqualRegister { x, y }) } else { None }
    } else if f == 0x6 {
        Some(Instruction::LoadByte { x, byte })
    } else if f == 0x7 {
        Some(Instruction::AddByte { x, byte })
    } else if f == 0x8 {
        if n == 0x0 {
            Some(Instruction::Move { x, y })
        } else if n == 0x1 {
            Some(Instruction::Or { x, y })
        } else if n == 0x2 {
            Some(Instruction::And { x, y })
        } else if n == 0x3 {
            Some(Instruction::Xor { x, y })
        } else if n == 0x4 {
            Some(Instruction::AddRegister { x, y })
        } else if n == 0x5 {
            Some(Instruction::SubRegister { x, y })
        } else if n == 0x6 {
            Some(Instruction::ShiftRight { x, y })
        } else if n == 0x7 {
            Some(Instruction::SubReversed { x, y })
        } else if n == 0xE {
            Some(Instruction::ShiftLeft { x, y })
        } else {
            None
        }
    } else if f == 0x9 {
        if n == 0x0 { Some(Instruction::SkipIfNotEqualRegister { x, y }) } else { None }
    } else if f == 0xA {
        Some(Instruction::LoadIndex { addr })
    } else if f == 0xB {
        Some(Instruction::JumpOffset { addr })
    } else if f == 0xC {
        Some(Instruction::Random { x, byte })
    } else if f == 0xD {
        Some(Instruction::Draw { x, y, height: n })
    } else if f == 0xE {
        if byte == 0x9E {
            Some(Instruction::SkipIfKey { x })
        } else if byte == 0xA1 {
            Some(Instruction::SkipIfNotKey { x })
        } else {
            None
        }
    } else {
        if byte == 0x07 {
            Some(Instruction::LoadDelay { x })
        } else if byte == 0x0A {
            Some(Instruction::WaitKey { x })
        } else if byte == 0x15 {
            Some(Instruction::SetDelay { x })
        } else if byte == 0x18 {
            Some(Instruction::SetSound { x })
        } else if byte == 0x1E {
            Some(Instruction::AddIndex { x })
        } else if byte == 0x29 {
            Some(Instruction::LoadGlyph { x })
        } else if byte == 0x33 {
            Some(Instruction::StoreDecimal { x })
        } else if byte == 0x55 {
            Some(Instruction::StoreRegisters { x })
        } else if byte == 0x65 {
            Some(Instruction::LoadRegisters { x })
        } else {
            None
        }
    }
}

impl Instruction {
    /// Every operand fits the width of the field it is encoded in.
    pub open spec fn wf(self) -> bool {
        match self {
            Instruction::ClearScreen | Instruction::Return => true,
            Instruction::Jump { addr }
            | Instruction::Call { addr }
            | Instruction::LoadIndex { addr }
            | Instruction::JumpOffset { addr } => addr < 0x1000,
            Instruction::SkipIfEqualByte { x, byte: _ }
            | Instruction::SkipIfNotEqualByte { x, byte: _ }
            | Instruction::LoadByte { x, byte: _ }
            | Instruction::AddByte { x, byte: _ }
            | Instruction::Random { x, byte: _ } => x < 16,
            Instruction::SkipIfEqualRegister { x, y }
            | Instruction::Move { x, y }
            | Instruction::Or { x, y }
            | Instruction::And { x, y }
            | Instruction::Xor { x, y }
            | Instruction::AddRegister { x, y }
            | Instruction::SubRegister { x, y }
            | Instruction::ShiftRight { x, y }
            | Instruction::SubReversed { x, y }
            | Instruction::ShiftLeft { x, y }
            | Instruction::SkipIfNotEqualRegister { x, y } => x < 16 && y < 16,
            Instruction::Draw { x, y, height } => x < 16 && y < 16 && height < 16,
            Instruction::SkipIfKey { x }
            | Instruction::SkipIfNotKey { x }
            | Instruction::LoadDelay { x }
            | Instruction::WaitKey { x }
            | Instruction::SetDelay { x }
            | Instruction::SetSound { x }
            | Instruction::AddIndex { x }
            | Instruction::LoadGlyph { x }
            | Instruction::StoreDecimal { x }
            | Instruction::StoreRegisters { x }
            | Instruction::LoadRegisters { x } => x < 16,
        }
    }

    /// The opcode that encodes this instruction.
    pub open spec fn encode(self) -> int {
        match self {
            Instruction::ClearScreen => 0x00E0,
            Instruction::Return => 0x00EE,
            Instruction::Jump { addr } => 0x1000 + addr,
            Instruction::Call { addr } => 0x2000 + addr,
            Instruction::SkipIfEqualByte { x, byte } => 0x3000 + x * 0x100 + byte,
            Instruction::SkipIfNotEqualByte { x, byte } => 0x4000 + x * 0x100 + byte,
            Instruction::SkipIfEqualRegister { x, y } => 0x5000 + x * 0x100 + y * 0x10,
            Instruction::LoadByte { x, byte } => 0x6000 + x * 0x100 + byte,
            Instruction::AddByte { x, byte } => 0x7000 + x * 0x100 + byte,
            Instruction::Move { x, y } => 0x8000 + x * 0x100 + y * 0x10,
            Instruction::Or { x, y } => 0x8001 + x * 0x100 + y * 0x10,
            Instruction::And { x, y } => 0x8002 + x * 0x100 + y * 0x10,
            Instruction::Xor { x, y } => 0x8003 + x * 0x100 + y * 0x10,
            Instruction::AddRegister { x, y } => 0x8004 + x * 0x100 + y * 0x10,
            Instruction::SubRegister { x, y } => 0x8005 + x * 0x100 + y * 0x10,
            Instruction::ShiftRight { x, y } => 0x8006 + x * 0x100 + y * 0x10,
            Instruction::SubReversed { x, y } => 0x8007 + x * 0x100 + y * 0x10,
            Instruction::ShiftLeft { x, y } => 0x800E + x * 0x100 + y * 0x10,
            Instruction::SkipIfNotEqualRegister { x, y } => 0x9000 + x * 0x100 + y * 0x10,
            Instruction::LoadIndex { addr } => 0xA000 + addr,
            Instruction::JumpOffset { addr } => 0xB000 + addr,
            Instruction::Random { x, byte } => 0xC000 + x * 0x100 + byte,
            Instruction::Draw { x, y, height } => 0xD000 + x * 0x100 + y * 0x10 + height,
            Instruction::SkipIfKey { x } => 0xE09E + x * 0x100,
            Instruction::SkipIfNotKey { x } => 0xE0A1 + x * 0x100,
            Instruction::LoadDelay { x } => 0xF007 + x * 0x100,
            Instruction::WaitKey { x } => 0xF00A + x * 0x100,
            Instruction::SetDelay { x } => 0xF015 + x * 0x100,
            Instruction::SetSound { x } => 0xF018 + x * 0x100,
            Instruction::AddIndex { x } => 0xF01E + x * 0x100,
            Instruction::LoadGlyph { x } => 0xF029 + x * 0x100,
            Instruction::StoreDecimal { x } => 0xF033 + x * 0x100,
            Instruction::StoreRegisters { x } => 0xF055 + x * 0x100,
            Instruction::LoadRegisters { x } => 0xF065 + x * 0x100,
        }
    }
}

/// Splits an opcode into its instruction, or `None` where it matches no
/// pattern of the instruction set.
pub fn decode(opcode: u16) -> (r: Option<Instruction>)
    ensures
        r == decode_spec(opcode),
{
    let f = opcode / 0x1000;
    let x = ((opcode / 0x100) % 0x10) as u8;
    let y = ((opcode / 0x10) % 0x10) as u8;
    let n = (opcode % 0x10) as u8;
    let addr = opcode % 0x1000;
    let byte = (opcode % 0x100) as u8;
    if f == 0x0 {
        if opcode == 0x00E0 {
            Some(Instruction::ClearScreen)
        } else if opcode == 0x00EE {
            Some(Instruction::Return)
        } else {
            None
        }
    } else if f == 0x1 {
        Some(Instruction::Jump { addr })
    } else if f == 0x2 {
        Some(Instruction::Call { addr })
    } else if f == 0x3 {
        Some(Instruction::SkipIfEqualByte { x, byte })
    } else if f == 0x4 {
        Some(Instruction::SkipIfNotEqualByte { x, byte })
    } else if f == 0x5 {
        if n == 0x0 { Some(Instruction::SkipIfEqualRegister { x, y }) } else { None }
    } else if f == 0x6 {
        Some(Instruction::LoadByte { x, byte })
    } else if f == 0x7 {
        Some(Instruction::AddByte { x, byte })
    } else if f == 0x8 {
        if n == 0x0 {
            Some(Instruction::Move { x, y })
        } else if n == 0x1 {
            Some(Instruction::Or { x, y })
        } else if n == 0x2 {
            Some(Instruction::And { x, y })
        } else if n == 0x3 {
            Some(Instruction::Xor { x, y })
        } else if n == 0x4 {
            Some(Instruction::AddRegister { x, y })
        } else if n == 0x5 {
            Some(Instruction::SubRegister { x, y })
        } else if n == 0x6 {
            Some(Instruction::ShiftRight { x, y })
        } else if n == 0x7 {
            Some(Instruction::SubReversed { x, y })
        } else if n == 0xE {
            Some(Instruction::ShiftLeft { x, y })
        } else {
            None
        }
    } else if f == 0x9 {
        if n == 0x0 { Some(Instruction::SkipIfNotEqualRegister { x, y }) } else { None }
    } else if f == 0xA {
        Some(Instruction::LoadIndex { addr })
    } else if f == 0xB {
        Some(Instruction::JumpOffset { addr })
    } else if f == 0xC {
        Some(Instruction::Random { x, byte })
    } else if f == 0xD {
        Some(Instruction::Draw { x, y, height: n })
    } else if f == 0xE {
        if byte == 0x9E {
            Some(Instruction::SkipIfKey { x })
        } else if byte == 0xA1 {
            Some(Instruction::SkipIfNotKey { x })
        } else {
            None
        }
    } else {
        if byte == 0x07 {
            Some(Instruction::LoadDelay { x })
        } else if byte == 0x0A {
            Some(Instruction::WaitKey { x })
        } else if byte == 0x15 {
            Some(Instruction::SetDelay { x })
        } else if byte == 0x18 {
            Some(Instruction::SetSound { x })
        } else if byte == 0x1E {
            Some(Instruction::AddIndex { x })
        } else if byte == 0x29 {
            Some(Instruction::LoadGlyph { x })
        } else if byte == 0x33 {
            Some(Instruction::StoreDecimal { x })
        } else if byte == 0x55 {
            Some(Instruction::StoreRegisters { x })
        } else if byte == 0x65 {
            Some(Instruction::LoadRegisters { x })
        } else {
            None
        }
    }
}

/// An opcode is the sum of its four nibbles, each weighted by its place.
proof fn lemma_nibbles(op: u16, f: int, x: int, y: int, n: int)
    requires
        0 <= f < 16,
        0 <= x < 16,
        0 <= y < 16,
        0 <= n < 16,
    ensures
        op == f * 0x1000 + x * 0x100 + y * 0x10 + n <==> (family(op) == f && nibble_x(op) == x
            && nibble_y(op) == y && nibble_n(op) == n),
        family(op) == f && nibble_x(op) == x && nibble_y(op) == y && nibble_n(op) == n ==> (
        low_addr(op) == x * 0x100 + y * 0x10 + n && low_byte(op) == y * 0x10 + n),
{
    let v = op as int;
    assert(v == (v / 0x1000) * 0x1000 + ((v / 0x100) % 0x10) * 0x100 + ((v / 0x10) % 0x10) * 0x10
        + v % 0x10) by (nonlinear_arith)
        requires
            0 <= v < 0x10000,
    ;
    assert(v % 0x1000 == ((v / 0x100) % 0x10) * 0x100 + ((v / 0x10) % 0x10) * 0x10 + v % 0x10)
        by (nonlinear_arith)
        requires
            0 <= v < 0x10000,
    ;
    assert(v % 0x100 == ((v / 0x10) % 0x10) * 0x10 + v % 0x10) by (nonlinear_arith)
        requires
            0 <= v < 0x10000,
    ;
    if v == f * 0x1000 + x * 0x100 + y * 0x10 + n {
        assert(v / 0x1000 == f && (v / 0x100) % 0x10 == x && (v / 0x10) % 0x10 == y && v % 0x10
            == n) by (nonlinear_arith)
            requires
                v == f * 0x1000 + x * 0x100 + y * 0x10 + n,
                0 <= f < 16,
                0 <= x < 16,
                0 <= y < 16,
                0 <= n < 16,
        ;
    }
}

/// Decoding is total over the instruction set: every well-formed instruction's
/// opcode decodes back to that very instruction.
pub proof fn lemma_decode_encode(i: Instruction)
    requires
        i.wf(),
    ensures
        0 <= i.encode() <= 0xFFFF,
        decode_spec(i.encode() as u16) == Some(i),
{
    let e = i.encode();
    let (f, x, y, n): (int, int, int, int) = match i {
        Instruction::ClearScreen => (0, 0, 0xE, 0),
        Instruction::Return => (0, 0, 0xE, 0xE),
        Instruction::Jump { addr } => (1, addr as int / 0x100, (addr as int / 0x10) % 0x10, addr as int % 0x10),
        Instruction::Call { addr } => (2, addr as int / 0x100, (addr as int / 0x10) % 0x10, addr as int % 0x10),
        Instruction::LoadIndex { addr } => (0xA, addr as int / 0x100, (addr as int / 0x10) % 0x10, addr as int % 0x10),
        Instruction::JumpOffset { addr } => (0xB, addr as int / 0x100, (addr as int / 0x10) % 0x10, addr as int % 0x10),
        Instruction::SkipIfEqualByte { x, byte } => (3, x as int, byte as int / 0x10, byte as int % 0x10),
        Instruction::SkipIfNotEqualByte { x, byte } => (4, x as int, byte as int / 0x10, byte as int % 0x10),
        Instruction::LoadByte { x, byte } => (6, x as int, byte as int / 0x10, byte as int % 0x10),
        Instruction::AddByte { x, byte } => (7, x as int, byte as int / 0x10, byte as int % 0x10),
        Instruction::Random { x, byte } => (0xC, x as int, byte as int / 0x10, byte as int % 0x10),
        Instruction::SkipIfEqualRegister { x, y } => (5, x as int, y as int, 0),
        Instruction::Move { x, y } => (8, x as int, y as int, 0),
        Instruction::Or { x, y } => (8, x as int, y as int, 1),
        Instruction::And { x, y } => (8, x as int, y as int, 2),
        Instruction::Xor { x, y } => (8, x as int, y as int, 3),
        Instruction::AddRegister { x, y } => (8, x as int, y as int, 4),
        Instruction::SubRegister { x, y } => (8, x as int, y as int, 5),
        Instruction::ShiftRight { x, y } => (8, x as int, y as int, 6),
        Instruction::SubReversed { x, y } => (8, x as int, y as int, 7),
        Instruction::ShiftLeft { x, y } => (8, x as int, y as int, 0xE),
        Instruction::SkipIfNotEqualRegister { x, y } => (9, x as int, y as int, 0),
        Instruction::Draw { x, y, height } => (0xD, x as int, y as int, height as int),
        Instruction::SkipIfKey { x } => (0xE, x as int, 9, 0xE),
        Instruction::SkipIfNotKey { x } => (0xE, x as int, 0xA, 1),
        Instruction::LoadDelay { x } => (0xF, x as int, 0, 7),
        Instruction::WaitKey { x } => (0xF, x as int, 0, 0xA),
        Instruction::SetDelay { x } => (0xF, x as int, 1, 5),
        Instruction::SetSound { x } => (0xF, x as int, 1, 8),
        Instruction::AddIndex { x } => (0xF, x as int, 1, 0xE),
        Instruction::LoadGlyph { x } => (0xF, x as int, 2, 9),
        Instruction::StoreDecimal { x } => (0xF, x as int, 3, 3),
        Instruction::StoreRegisters { x } => (0xF, x as int, 5, 5),
        Instruction::LoadRegisters { x } => (0xF, x as int, 6, 5),
    };
    assert(e == f * 0x1000 + x * 0x100 + y * 0x10 + n);
    lemma_nibbles(e as u16, f, x, y, n);
}

/// Decoding is unambiguous: a recognised opcode is the encoding of exactly the
/// instruction it decodes to, so it matches one pattern and no other.
pub proof fn lemma_encode_decode(op: u16)
    ensures
        decode_spec(op) matches Some(i) ==> i.wf() && i.encode() == op,
{
    lemma_nibbles(op, family(op) as int, nibble_x(op) as int, nibble_y(op) as int, nibble_n(op) as int);
}

} // verus!
