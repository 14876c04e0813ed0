use vstd::prelude::*;

verus! {

/// A decoded instruction: the operation together with its operand fields.
/// `x` and `y` name registers (one nibble each), `kk` is an immediate byte,
/// `nnn` a 12-bit address, and `h` a sprite height in rows.
#[derive(Clone, Copy, Debug, PartialEq, Eq, Structural)]
pub enum Instr {
    /// 0000: no operation.
    Nop,
    /// 00E0: clear the screen.
    Clear,
    /// 00EE: return from a subroutine.
    Ret,
    /// 1nnn: jump to `nnn`.
    Jump { nnn: u16 },
    /// 2nnn: call the subroutine at `nnn`.
    Call { nnn: u16 },
    /// 3xkk: skip the next instruction if `V[x] == kk`.
    SkipEqImm { x: u8, kk: u8 },
    /// 4xkk: skip the next instruction if `V[x] != kk`.
    SkipNeImm { x: u8, kk: u8 },
    /// 5xy0: skip the next instruction if `V[x] == V[y]`.
    SkipEqReg { x: u8, y: u8 },
    /// 6xkk: `V[x] := kk`.
    LoadImm { x: u8, kk: u8 },
    /// 7xkk: `V[x] := V[x] + kk`, wrapping, no flag.
    AddImm { x: u8, kk: u8 },
    /// 8xy0: `V[x] := V[y]`.
    Move { x: u8, y: u8 },
    /// 8xy1: `V[x] := V[x] | V[y]`.
    Or { x: u8, y: u8 },
    /// 8xy2: `V[x] := V[x] & V[y]`.
    And { x: u8, y: u8 },
    /// 8xy3: `V[x] := V[x] ^ V[y]`.
    Xor { x: u8, y: u8 },
    /// 8xy4: `V[x] := V[x] + V[y]` wrapping, carry into `V[0xF]`.
    Add { x: u8, y: u8 },
    /// 8xy5: `V[x] := V[x] - V[y]` wrapping, `V[0xF]` clear exactly on borrow.
    Sub { x: u8, y: u8 },
    /// 8x_6: `V[0xF] := V[x] & 1`, then `V[x] := V[x] >> 1`.
    ShiftRight { x: u8 },
    /// 8xy7: `V[x] := V[y] - V[x]` wrapping, `V[0xF]` clear exactly on borrow.
    RevSub { x: u8, y: u8 },
    /// 8x_E: `V[0xF] := V[x] >> 7`, then `V[x] := V[x] << 1`.
    ShiftLeft { x: u8 },
    /// 9xy0: skip the next instruction if `V[x] != V[y]`.
    SkipNeReg { x: u8, y: u8 },
    /// Annn: `I := nnn`.
    SetIndex { nnn: u16 },
    /// Bnnn: jump to `nnn + V[0]`.
    JumpOffset { nnn: u16 },
    /// Cxkk: `V[x] := random byte & kk`.
    RandomAnd { x: u8, kk: u8 },
    /// Dxyh: draw the `h`-row sprite at `I` at origin `(V[x], V[y])`.
    Draw { x: u8, y: u8, h: u8 },
    /// Ex9E: skip the next instruction if key `V[x]` is held.
    SkipKeyDown { x: u8 },
    /// ExA1: skip the next instruction if key `V[x]` is not held.
    SkipKeyUp { x: u8 },
    /// Fx07: `V[x] := delay timer`.
    ReadDelay { x: u8 },
    /// Fx0A: block until a key is held; store its index in `V[x]`.
    WaitKey { x: u8 },
    /// Fx15: `delay timer := V[x]`.
    WriteDelay { x: u8 },
    /// Fx18: `sound timer := V[x]`.
    WriteSound { x: u8 },
    /// Fx1E: `I := I + V[x]`, wrapping.
    AddIndex { x: u8 },
    /// Fx29: `I := V[x] * 5`, the address of the font glyph for digit `V[x]`.
    FontAddr { x: u8 },
    /// Fx33: store the decimal digits of `V[x]` at `I`, `I+1`, `I+2`.
    StoreBcd { x: u8 },
    /// Fx55: `memory[I ..= I+x] := V[0 ..= x]`.
    StoreRegs { x: u8 },
    /// Fx65: `V[0 ..= x] := memory[I ..= I+x]`.
    LoadRegs { x: u8 },
}

impl Instr {
    /// Every operand field is within its bit-field's range. Decoding
    /// establishes this for every instruction it yields.
    pub open spec fn wf(self) -> bool {
        match self {
            Instr::Nop => true,
            Instr::Clear => true,
            Instr::Ret => true,
            Instr::Jump { nnn } => nnn <= 0xFFF,
            Instr::Call { nnn } => nnn <= 0xFFF,
            Instr::SkipEqImm { x, kk } => x < 16,
            Instr::SkipNeImm { x, kk } => x < 16,
            Instr::SkipEqReg { x, y } => x < 16 && y < 16,
            Instr::LoadImm { x, kk } => x < 16,
            Instr::AddImm { x, kk } => x < 16,
            Instr::Move { x, y } => x < 16 && y < 16,
            Instr::Or { x, y } => x < 16 && y < 16,
            Instr::And { x, y } => x < 16 && y < 16,
            Instr::Xor { x, y } => x < 16 && y < 16,
            Instr::Add { x, y } => x < 16 && y < 16,
            Instr::Sub { x, y } => x < 16 && y < 16,
            Instr::ShiftRight { x } => x < 16,
            Instr::RevSub { x, y } => x < 16 && y < 16,
            Instr::ShiftLeft { x } => x < 16,
            Instr::SkipNeReg { x, y } => x < 16 && y < 16,
            Instr::SetIndex { nnn } => nnn <= 0xFFF,
            Instr::JumpOffset { nnn } => nnn <= 0xFFF,
            Instr::RandomAnd { x, kk } => x < 16,
            Instr::Draw { x, y, h } => x < 16 && y < 16 && h < 16,
            Instr::SkipKeyDown { x } => x < 16,
            Instr::SkipKeyUp { x } => x < 16,
            Instr::ReadDelay { x } => x < 16,
            Instr::WaitKey { x } => x < 16,
            Instr::WriteDelay { x } => x < 16,
            Instr::WriteSound { x } => x < 16,
            Instr::AddIndex { x } => x < 16,
            Instr::FontAddr { x } => x < 16,
            Instr::StoreBcd { x } => x < 16,
            Instr::StoreRegs { x } => x < 16,
            Instr::LoadRegs { x } => x < 16,
        }
    }
}

/// What the 16-bit opcode word means: the complete dispatch table. `None` is
/// an opcode that matches no instruction, a fatal condition.
pub open spec fn spec_decode(op: u16) -> Option<Instr> {
    if op == 0x0000 {
        Some(Instr::Nop)
    } else if op == 0x00E0 {
        Some(Instr::Clear)
    } else if op == 0x00EE {
        Some(Instr::Ret)
    } else {
        let n1 = op >> 12;
        let n4 = op & 0x000F;
        let n34 = op & 0x00FF;
        let x = ((op >> 8) & 0x000F) as u8;
        let y = ((op >> 4) & 0x000F) as u8;
        let kk = (op & 0x00FF) as u8;
        let nnn = op & 0x0FFF;
        if n1 == 0x1 {
            Some(Instr::Jump { nnn })
        } else if n1 == 0x2 {
            Some(Instr::Call { nnn })
        } else if n1 == 0x3 {
            Some(Instr::SkipEqImm { x, kk })
        } else if n1 == 0x4 {
            Some(Instr::SkipNeImm { x, kk })
        } else if n1 == 0x5 && n4 == 0x0 {
            Some(Instr::SkipEqReg { x, y })
        } else if n1 == 0x6 {
            Some(Instr::LoadImm { x, kk })
        } else if n1 == 0x7 {
            Some(Instr::AddImm { x, kk })
        } else if n1 == 0x8 && n4 == 0x0 {
            Some(Instr::Move { x, y })
        } else if n1 == 0x8 && n4 == 0x1 {
            Some(Instr::Or { x, y })
        } else if n1 == 0x8 && n4 == 0x2 {
            Some(Instr::And { x, y })
        } else if n1 == 0x8 && n4 == 0x3 {
            Some(Instr::Xor { x, y })
        } else if n1 == 0x8 && n4 == 0x4 {
            Some(Instr::Add { x, y })
        } else if n1 == 0x8 && n4 == 0x5 {
            Some(Instr::Sub { x, y })
        } else if n1 == 0x8 && n4 == 0x6 {
            Some(Instr::ShiftRight { x })
        } else if n1 == 0x8 && n4 == 0x7 {
            Some(Instr::RevSub { x, y })
        } else if n1 == 0x8 && n4 == 0xE {
            Some(Instr::ShiftLeft { x })
        } else if n1 == 0x9 && n4 == 0x0 {
            Some(Instr::SkipNeReg { x, y })
        } else if n1 == 0xA {
            Some(Instr::SetIndex { nnn })
        } else if n1 == 0xB {
            Some(Instr::JumpOffset { nnn })
        } else if n1 == 0xC {
            Some(Instr::RandomAnd { x, kk })
        } else if n1 == 0xD {
            Some(Instr::Draw { x, y, h: (op & 0x000F) as u8 })
        } else if n1 == 0xE && n34 == 0x9E {
            Some(Instr::SkipKeyDown { x })
        } else if n1 == 0xE && n34 == 0xA1 {
            Some(Instr::SkipKeyUp { x })
        } else if n1 == 0xF && n34 == 0x07 {
            Some(Instr::ReadDelay { x })
        } else if n1 == 0xF && n34 == 0x0A {
            Some(Instr::WaitKey { x })
        } else if n1 == 0xF && n34 == 0x15 {
            Some(Instr::WriteDelay { x })
        } else if n1 == 0xF && n34 == 0x18 {
            Some(Instr::WriteSound { x })
        } else if n1 == 0xF && n34 == 0x1E {
            Some(Instr::AddIndex { x })
        } else if n1 == 0xF && n34 == 0x29 {
            Some(Instr::FontAddr { x })
        } else if n1 == 0xF && n34 == 0x33 {
            Some(Instr::StoreBcd { x })
        } else if n1 == 0xF && n34 == 0x55 {
            Some(Instr::StoreRegs { x })
        } else if n1 == 0xF && n34 == 0x65 {
            Some(Instr::LoadRegs { x })
        } else {
            None
        }
    }
}

/// Splits the opcode word into its fields and looks it up in the dispatch
/// table. Every instruction returned has its operand fields in range.
pub fn decode(op: u16) -> (r: Option<Instr>)
    ensures
        r == spec_decode(op),
        r matches Some(i) ==> i.wf(),
{
    proof {
        assert((op >> 12) <= 0xF && ((op >> 8) & 0x000F) < 16 && ((op >> 4) & 0x000F) < 16 && (op
            & 0x000F) < 16 && (op & 0x0FFF) <= 0xFFF) by (bit_vector);
    }
    if op == 0x0000 {
        Some(Instr::Nop)
    } else if op == 0x00E0 {
        Some(Instr::Clear)
    } else if op == 0x00EE {
        Some(Instr::Ret)
    } else {
        let n1 = op >> 12;
        let n4 = op & 0x000F;
        let n34 = op & 0x00FF;
        let x = ((op >> 8) & 0x000F) as u8;
        let y = ((op >> 4) & 0x000F) as u8;
        let kk = (op & 0x00FF) as u8;
        let nnn = op & 0x0FFF;
        if n1 == 0x1 {
            Some(Instr::Jump { nnn })
        } else if n1 == 0x2 {
            Some(Instr::Call { nnn })
        } else if n1 == 0x3 {
            Some(Instr::SkipEqImm { x, kk })
        } else if n1 == 0x4 {
            Some(Instr::SkipNeImm { x, kk })
        } else if n1 == 0x5 && n4 == 0x0 {
            Some(Instr::SkipEqReg { x, y })
        } else if n1 == 0x6 {
            Some(Instr::LoadImm { x, kk })
        } else if n1 == 0x7 {
            Some(Instr::AddImm { x, kk })
        } else if n1 == 0x8 && n4 == 0x0 {
            Some(Instr::Move { x, y })
        } else if n1 == 0x8 && n4 == 0x1 {
            Some(Instr::Or { x, y })
        } else if n1 == 0x8 && n4 == 0x2 {
            Some(Instr::And { x, y })
        } else if n1 == 0x8 && n4 == 0x3 {
            Some(Instr::Xor { x, y })
        } else if n1 == 0x8 && n4 == 0x4 {
            Some(Instr::Add { x, y })
        } else if n1 == 0x8 && n4 == 0x5 {
            Some(Instr::Sub { x, y })
        } else if n1 == 0x8 && n4 == 0x6 {
            Some(Instr::ShiftRight { x })
        } else if n1 == 0x8 && n4 == 0x7 {
            Some(Instr::RevSub { x, y })
        } else if n1 == 0x8 && n4 == 0xE {
            Some(Instr::ShiftLeft { x })
        } else if n1 == 0x9 && n4 == 0x0 {
            Some(Instr::SkipNeReg { x, y })
        } else if n1 == 0xA {
            Some(Instr::SetIndex { nnn })
        } else if n1 == 0xB {
            Some(Instr::JumpOffset { nnn })
        } else if n1 == 0xC {
            Some(Instr::RandomAnd { x, kk })
        } else if n1 == 0xD {
            Some(Instr::Draw { x, y, h: (op & 0x000F) as u8 })
        } else if n1 == 0xE && n34 == 0x9E {
            Some(Instr::SkipKeyDown { x })
        } else if n1 == 0xE && n34 == 0xA1 {
            Some(Instr::SkipKeyUp { x })
        } else if n1 == 0xF && n34 == 0x07 {
            Some(Instr::ReadDelay { x })
        } else if n1 == 0xF && n34 == 0x0A {
            Some(Instr::WaitKey { x })
        } else if n1 == 0xF && n34 == 0x15 {
            Some(Instr::WriteDelay { x })
        } else if n1 == 0xF && n34 == 0x18 {
            Some(Instr::WriteSound { x })
        } else if n1 == 0xF && n34 == 0x1E {
            Some(Instr::AddIndex { x })
        } else if n1 == 0xF && n34 == 0x29 {
            Some(Instr::FontAddr { x })
        } else if n1 == 0xF && n34 == 0x33 {
            Some(Instr::StoreBcd { x })
        } else if n1 == 0xF && n34 == 0x55 {
            Some(Instr::StoreRegs { x })
        } else if n1 == 0xF && n34 == 0x65 {
            Some(Instr::LoadRegs { x })
        } else {
            None
        }
    }
}

} // verus!
