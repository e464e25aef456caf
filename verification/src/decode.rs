//! Instruction decoding: a 16-bit instruction word is read as four 4-bit
//! nibbles; the highest nibble selects the instruction family and the
//! remaining nibbles carry the operands. The same decode table serves both
//! the execution engine and the disassembler.

use vstd::prelude::*;

verus! {

/// A decoded instruction, carrying just its operands.
///
/// Register operands (`x`, `y`) are nibbles in `[0, 15]`; `nnn` is a 12-bit
/// address; `kk` is an 8-bit immediate; the sprite height `n` is a nibble.
#[derive(Clone, Copy, Debug, PartialEq, Eq, Structural)]
pub enum Instr {
    /// `00E0`: clear the screen.
    Cls,
    /// `00EE`: return from a subroutine.
    Ret,
    /// `0nnn`: machine-code call; treated as a plain no-op that advances.
    Sys(u16),
    /// `1nnn`: jump to `nnn`.
    Jp(u16),
    /// `2nnn`: call the subroutine at `nnn`.
    Call(u16),
    /// `3xkk`: skip the next instruction if `Vx == kk`.
    SeImm(u8, u8),
    /// `4xkk`: skip the next instruction if `Vx != kk`.
    SneImm(u8, u8),
    /// `5xy0`: skip the next instruction if `Vx == Vy`.
    SeReg(u8, u8),
    /// `6xkk`: `Vx = kk`.
    LdImm(u8, u8),
    /// `7xkk`: `Vx = Vx + kk`, wrapping, no flag.
    AddImm(u8, u8),
    /// `8xy0`: `Vx = Vy`.
    LdReg(u8, u8),
    /// `8xy1`: `Vx = Vx | Vy`.
    Or(u8, u8),
    /// `8xy2`: `Vx = Vx & Vy`.
    And(u8, u8),
    /// `8xy3`: `Vx = Vx ^ Vy`.
    Xor(u8, u8),
    /// `8xy4`: `Vx = Vx + Vy` with the carry written into `VF`.
    AddReg(u8, u8),
    /// `8xy5`: `Vx = Vx - Vy` with the no-borrow flag written into `VF`.
    Sub(u8, u8),
    /// `8xy6`: shift `Vx` right by one; the bit shifted out goes to `VF`.
    /// The `y` nibble is decoded for tooling but not used by execution.
    Shr(u8, u8),
    /// `8xy7`: `Vx = Vy - Vx` with the no-borrow flag written into `VF`.
    Subn(u8, u8),
    /// `8xyE`: shift `Vx` left by one; the bit shifted out goes to `VF`.
    /// The `y` nibble is decoded for tooling but not used by execution.
    Shl(u8, u8),
    /// `9xy0`: skip the next instruction if `Vx != Vy`.
    SneReg(u8, u8),
    /// `Annn`: load the index register with `nnn`.
    LdI(u16),
    /// `Bnnn`: jump to `nnn + V0`.
    JpV0(u16),
    /// `Cxkk`: `Vx = kk & r` for a fresh random byte `r`.
    Rnd(u8, u8),
    /// `Dxyn`: draw the `n`-row sprite at the index register to `(Vx, Vy)`.
    Drw(u8, u8, u8),
    /// `Ex9E`: skip the next instruction if the key named by `Vx` is pressed.
    Skp(u8),
    /// `ExA1`: skip the next instruction if that key is not pressed.
    Sknp(u8),
    /// `Fx07`: read the delay timer (rounded up) into `Vx`.
    LdVxDt(u8),
    /// `Fx0A`: wait for a fresh key press and put its index into `Vx`.
    LdVxK(u8),
    /// `Fx15`: load the delay timer from `Vx`.
    LdDtVx(u8),
    /// `Fx18`: load the sound timer from `Vx`.
    LdStVx(u8),
    /// `Fx1E`: add `Vx` into the index register, wrapping.
    AddIVx(u8),
    /// `Fx29`: point the index register at the font glyph for `Vx`'s low nibble.
    LdFVx(u8),
    /// `Fx33`: store the decimal digits of `Vx` at the index register.
    LdBVx(u8),
    /// `Fx55`: store `V0..=Vx` into memory at the index register.
    LdMemVx(u8),
    /// `Fx65`: load `V0..=Vx` from memory at the index register.
    LdVxMem(u8),
    /// Any word matching no pattern above; executes as a silent no-op that
    /// does not advance the program counter.
    Unknown,
}

/// The decode table as a mathematical function of the instruction word.
pub open spec fn spec_decode(w: u16) -> Instr {
    let n3 = w >> 12;
    let n2 = ((w >> 8) & 0xF) as u8;
    let n1 = ((w >> 4) & 0xF) as u8;
    let n0 = (w & 0xF) as u8;
    let nnn = w & 0xFFF;
    let kk = (w & 0xFF) as u8;
    if w == 0x00E0 {
        Instr::Cls
    } else if w == 0x00EE {
        Instr::Ret
    } else if n3 == 0x0 {
        Instr::Sys(nnn)
    } else if n3 == 0x1 {
        Instr::Jp(nnn)
    } else if n3 == 0x2 {
        Instr::Call(nnn)
    } else if n3 == 0x3 {
        Instr::SeImm(n2, kk)
    } else if n3 == 0x4 {
        Instr::SneImm(n2, kk)
    } else if n3 == 0x5 && n0 == 0x0 {
        Instr::SeReg(n2, n1)
    } else if n3 == 0x6 {
        Instr::LdImm(n2, kk)
    } else if n3 == 0x7 {
        Instr::AddImm(n2, kk)
    } else if n3 == 0x8 && n0 == 0x0 {
        Instr::LdReg(n2, n1)
    } else if n3 == 0x8 && n0 == 0x1 {
        Instr::Or(n2, n1)
    } else if n3 == 0x8 && n0 == 0x2 {
        Instr::And(n2, n1)
    } else if n3 == 0x8 && n0 == 0x3 {
        Instr::Xor(n2, n1)
    } else if n3 == 0x8 && n0 == 0x4 {
        Instr::AddReg(n2, n1)
    } else if n3 == 0x8 && n0 == 0x5 {
        Instr::Sub(n2, n1)
    } else if n3 == 0x8 && n0 == 0x6 {
        Instr::Shr(n2, n1)
    } else if n3 == 0x8 && n0 == 0x7 {
        Instr::Subn(n2, n1)
    } else if n3 == 0x8 && n0 == 0xE {
        Instr::Shl(n2, n1)
    } else if n3 == 0x9 && n0 == 0x0 {
        Instr::SneReg(n2, n1)
    } else if n3 == 0xA {
        Instr::LdI(nnn)
    } else if n3 == 0xB {
        Instr::JpV0(nnn)
    } else if n3 == 0xC {
        Instr::Rnd(n2, kk)
    } else if n3 == 0xD {
        Instr::Drw(n2, n1, n0)
    } else if n3 == 0xE && n1 == 0x9 && n0 == 0xE {
        Instr::Skp(n2)
    } else if n3 == 0xE && n1 == 0xA && n0 == 0x1 {
        Instr::Sknp(n2)
    } else if n3 == 0xF && n1 == 0x0 && n0 == 0x7 {
        Instr::LdVxDt(n2)
    } else if n3 == 0xF && n1 == 0x0 && n0 == 0xA {
        Instr::LdVxK(n2)
    } else if n3 == 0xF && n1 == 0x1 && n0 == 0x5 {
        Instr::LdDtVx(n2)
    } else if n3 == 0xF && n1 == 0x1 && n0 == 0x8 {
        Instr::LdStVx(n2)
    } else if n3 == 0xF && n1 == 0x1 && n0 == 0xE {
        Instr::AddIVx(n2)
    } else if n3 == 0xF && n1 == 0x2 && n0 == 0x9 {
        Instr::LdFVx(n2)
    } else if n3 == 0xF && n1 == 0x3 && n0 == 0x3 {
        Instr::LdBVx(n2)
    } else if n3 == 0xF && n1 == 0x5 && n0 == 0x5 {
        Instr::LdMemVx(n2)
    } else if n3 == 0xF && n1 == 0x6 && n0 == 0x5 {
        Instr::LdVxMem(n2)
    } else {
        Instr::Unknown
    }
}

/// Every operand a decoded instruction carries is in range: register
/// numbers and sprite heights are nibbles, addresses are 12 bits.
pub open spec fn instr_operands_bounded(i: Instr) -> bool {
    match i {
        Instr::Cls => true,
        Instr::Ret => true,
        Instr::Sys(nnn) => nnn < 4096,
        Instr::Jp(nnn) => nnn < 4096,
        Instr::Call(nnn) => nnn < 4096,
        Instr::SeImm(x, _) => x < 16,
        Instr::SneImm(x, _) => x < 16,
        Instr::SeReg(x, y) => x < 16 && y < 16,
        Instr::LdImm(x, _) => x < 16,
        Instr::AddImm(x, _) => x < 16,
        Instr::LdReg(x, y) => x < 16 && y < 16,
        Instr::Or(x, y) => x < 16 && y < 16,
        Instr::And(x, y) => x < 16 && y < 16,
        Instr::Xor(x, y) => x < 16 && y < 16,
        Instr::AddReg(x, y) => x < 16 && y < 16,
        Instr::Sub(x, y) => x < 16 && y < 16,
        Instr::Shr(x, y) => x < 16 && y < 16,
        Instr::Subn(x, y) => x < 16 && y < 16,
        Instr::Shl(x, y) => x < 16 && y < 16,
        Instr::SneReg(x, y) => x < 16 && y < 16,
        Instr::LdI(nnn) => nnn < 4096,
        Instr::JpV0(nnn) => nnn < 4096,
        Instr::Rnd(x, _) => x < 16,
        Instr::Drw(x, y, n) => x < 16 && y < 16 && n < 16,
        Instr::Skp(x) => x < 16,
        Instr::Sknp(x) => x < 16,
        Instr::LdVxDt(x) => x < 16,
        Instr::LdVxK(x) => x < 16,
        Instr::LdDtVx(x) => x < 16,
        Instr::LdStVx(x) => x < 16,
        Instr::AddIVx(x) => x < 16,
        Instr::LdFVx(x) => x < 16,
        Instr::LdBVx(x) => x < 16,
        Instr::LdMemVx(x) => x < 16,
        Instr::LdVxMem(x) => x < 16,
        Instr::Unknown => true,
    }
}

/// The nibble and address fields extracted from a word are in range.
pub proof fn lemma_decode_bounds(w: u16)
    ensures
        instr_operands_bounded(spec_decode(w)),
{
    assert(w >> 12 < 16 && ((w >> 8) & 0xF) < 16 && ((w >> 4) & 0xF) < 16 && (w & 0xF) < 16
        && (w & 0xFFF) < 4096 && (w & 0xFF) < 256) by (bit_vector);
}

/// Splits the instruction word into its four nibbles and matches them
/// against the decode table.
pub fn decode(w: u16) -> (r: Instr)
    ensures
        r == spec_decode(w),
        instr_operands_bounded(r),
{
    proof {
        lemma_decode_bounds(w);
    }
    let n3 = w >> 12;
    let n2 = ((w >> 8) & 0xF) as u8;
    let n1 = ((w >> 4) & 0xF) as u8;
    let n0 = (w & 0xF) as u8;
    let nnn = w & 0xFFF;
    let kk = (w & 0xFF) as u8;
    if w == 0x00E0 {
        Instr::Cls
    } else if w == 0x00EE {
        Instr::Ret
    } else if n3 == 0x0 {
        Instr::Sys(nnn)
    } else if n3 == 0x1 {
        Instr::Jp(nnn)
    } else if n3 == 0x2 {
        Instr::Call(nnn)
    } else if n3 == 0x3 {
        Instr::SeImm(n2, kk)
    } else if n3 == 0x4 {
        Instr::SneImm(n2, kk)
    } else if n3 == 0x5 && n0 == 0x0 {
        Instr::SeReg(n2, n1)
    } else if n3 == 0x6 {
        Instr::LdImm(n2, kk)
    } else if n3 == 0x7 {
        Instr::AddImm(n2, kk)
    } else if n3 == 0x8 && n0 == 0x0 {
        Instr::LdReg(n2, n1)
    } else if n3 == 0x8 && n0 == 0x1 {
        Instr::Or(n2, n1)
    } else if n3 == 0x8 && n0 == 0x2 {
        Instr::And(n2, n1)
    } else if n3 == 0x8 && n0 == 0x3 {
        Instr::Xor(n2, n1)
    } else if n3 == 0x8 && n0 == 0x4 {
        Instr::AddReg(n2, n1)
    } else if n3 == 0x8 && n0 == 0x5 {
        Instr::Sub(n2, n1)
    } else if n3 == 0x8 && n0 == 0x6 {
        Instr::Shr(n2, n1)
    } else if n3 == 0x8 && n0 == 0x7 {
        Instr::Subn(n2, n1)
    } else if n3 == 0x8 && n0 == 0xE {
        Instr::Shl(n2, n1)
    } else if n3 == 0x9 && n0 == 0x0 {
        Instr::SneReg(n2, n1)
    } else if n3 == 0xA {
        Instr::LdI(nnn)
    } else if n3 == 0xB {
        Instr::JpV0(nnn)
    } else if n3 == 0xC {
        Instr::Rnd(n2, kk)
    } else if n3 == 0xD {
        Instr::Drw(n2, n1, n0)
    } else if n3 == 0xE && n1 == 0x9 && n0 == 0xE {
        Instr::Skp(n2)
    } else if n3 == 0xE && n1 == 0xA && n0 == 0x1 {
        Instr::Sknp(n2)
    } else if n3 == 0xF && n1 == 0x0 && n0 == 0x7 {
        Instr::LdVxDt(n2)
    } else if n3 == 0xF && n1 == 0x0 && n0 == 0xA {
        Instr::LdVxK(n2)
    } else if n3 == 0xF && n1 == 0x1 && n0 == 0x5 {
        Instr::LdDtVx(n2)
    } else if n3 == 0xF && n1 == 0x1 && n0 == 0x8 {
        Instr::LdStVx(n2)
    } else if n3 == 0xF && n1 == 0x1 && n0 == 0xE {
        Instr::AddIVx(n2)
    } else if n3 == 0xF && n1 == 0x2 && n0 == 0x9 {
        Instr::LdFVx(n2)
    } else if n3 == 0xF && n1 == 0x3 && n0 == 0x3 {
        Instr::LdBVx(n2)
    } else if n3 == 0xF && n1 == 0x5 && n0 == 0x5 {
        Instr::LdMemVx(n2)
    } else if n3 == 0xF && n1 == 0x6 && n0 == 0x5 {
        Instr::LdVxMem(n2)
    } else {
        Instr::Unknown
    }
}

} // verus!
