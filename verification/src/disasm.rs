//! The disassembler: maps an encoded instruction word to a textual mnemonic
//! with its operand fields in uppercase hexadecimal. It shares the decode
//! table with the execution engine and holds no state.

use vstd::prelude::*;

use crate::decode::Instr;
use crate::decode::decode;
use crate::decode::spec_decode;

verus! {

/// The uppercase hexadecimal digit for a value in `[0, 15]`.
pub open spec fn hex_digit(d: int) -> Seq<char> {
    if d == 0 {
        "0"@
    } else if d == 1 {
        "1"@
    } else if d == 2 {
        "2"@
    } else if d == 3 {
        "3"@
    } else if d == 4 {
        "4"@
    } else if d == 5 {
        "5"@
    } else if d == 6 {
        "6"@
    } else if d == 7 {
        "7"@
    } else if d == 8 {
        "8"@
    } else if d == 9 {
        "9"@
    } else if d == 10 {
        "A"@
    } else if d == 11 {
        "B"@
    } else if d == 12 {
        "C"@
    } else if d == 13 {
        "D"@
    } else if d == 14 {
        "E"@
    } else {
        "F"@
    }
}

/// The uppercase hexadecimal numeral of `v`, unpadded: a single digit for
/// values below 16, so zero prints as `0`.
pub open spec fn hex_seq(v: int) -> Seq<char>
    decreases v,
{
    if v < 16 {
        hex_digit(v)
    } else {
        hex_seq(v / 16) + hex_digit(v % 16)
    }
}

/// The text of the disassembly of an instruction word, as a function of the
/// shared decode table.
pub open spec fn spec_disassemble(w: u16) -> Seq<char> {
    match spec_decode(w) {
        Instr::Cls => "CLS"@,
        Instr::Ret => "RET"@,
        Instr::Sys(nnn) => "SYS "@ + hex_seq(nnn as int),
        Instr::Jp(nnn) => "JP "@ + hex_seq(nnn as int),
        Instr::Call(nnn) => "CALL "@ + hex_seq(nnn as int),
        Instr::SeImm(x, kk) => "SE "@ + hex_seq(x as int) + " "@ + hex_seq(kk as int),
        Instr::SneImm(x, kk) => "SNE "@ + hex_seq(x as int) + " "@ + hex_seq(kk as int),
        Instr::SeReg(x, y) => "SE "@ + hex_seq(x as int) + " "@ + hex_seq(y as int),
        Instr::LdImm(x, kk) => "LD "@ + hex_seq(x as int) + " "@ + hex_seq(kk as int),
        Instr::AddImm(x, kk) => "ADD "@ + hex_seq(x as int) + " "@ + hex_seq(kk as int),
        Instr::LdReg(x, y) => "LD "@ + hex_seq(x as int) + " "@ + hex_seq(y as int),
        Instr::Or(x, y) => "OR "@ + hex_seq(x as int) + " "@ + hex_seq(y as int),
        Instr::And(x, y) => "AND "@ + hex_seq(x as int) + " "@ + hex_seq(y as int),
        Instr::Xor(x, y) => "XOR "@ + hex_seq(x as int) + " "@ + hex_seq(y as int),
        Instr::AddReg(x, y) => "ADD "@ + hex_seq(x as int) + " "@ + hex_seq(y as int),
        Instr::Sub(x, y) => "SUB "@ + hex_seq(x as int) + " "@ + hex_seq(y as int),
        Instr::Shr(x, y) => "SHR "@ + hex_seq(x as int) + " "@ + hex_seq(y as int),
        Instr::Subn(x, y) => "SUBN "@ + hex_seq(x as int) + " "@ + hex_seq(y as int),
        Instr::Shl(x, y) => "SHL "@ + hex_seq(x as int) + " "@ + hex_seq(y as int),
        Instr::SneReg(x, y) => "SNE "@ + hex_seq(x as int) + " "@ + hex_seq(y as int),
        Instr::LdI(nnn) => "LD I "@ + hex_seq(nnn as int),
        Instr::JpV0(nnn) => "JP V0 "@ + hex_seq(nnn as int),
        Instr::Rnd(x, _) => "RND "@ + hex_seq(x as int),
        Instr::Drw(x, y, n) => "SNE "@ + hex_seq(x as int) + " "@ + hex_seq(y as int) + " "@
            + hex_seq(n as int),
        Instr::Skp(x) => "SKP "@ + hex_seq(x as int),
        Instr::Sknp(x) => "SKNP "@ + hex_seq(x as int),
        Instr::LdVxDt(x) => "LD "@ + hex_seq(x as int) + " DT"@,
        Instr::LdVxK(x) => "LD "@ + hex_seq(x as int) + " K"@,
        Instr::LdDtVx(x) => "LD DT "@ + hex_seq(x as int),
        Instr::LdStVx(x) => "LD ST "@ + hex_seq(x as int),
        Instr::AddIVx(x) => "ADD I "@ + hex_seq(x as int),
        Instr::LdFVx(x) => "LD F "@ + hex_seq(x as int),
        Instr::LdBVx(x) => "LD B "@ + hex_seq(x as int),
        Instr::LdMemVx(x) => "LD [I] "@ + hex_seq(x as int),
        Instr::LdVxMem(x) => "LD "@ + hex_seq(x as int) + " [I]"@,
        Instr::Unknown => "?"@,
    }
}

/// Appends one uppercase hexadecimal digit.
fn append_hex_digit(s: &mut String, d: u16)
    requires
        d < 16,
    ensures
        final(s)@ == old(s)@ + hex_digit(d as int),
{
    if d == 0 {
        s.append("0");
    } else if d == 1 {
        s.append("1");
    } else if d == 2 {
        s.append("2");
    } else if d == 3 {
        s.append("3");
    } else if d == 4 {
        s.append("4");
    } else if d == 5 {
        s.append("5");
    } else if d == 6 {
        s.append("6");
    } else if d == 7 {
        s.append("7");
    } else if d == 8 {
        s.append("8");
    } else if d == 9 {
        s.append("9");
    } else if d == 10 {
        s.append("A");
    } else if d == 11 {
        s.append("B");
    } else if d == 12 {
        s.append("C");
    } else if d == 13 {
        s.append("D");
    } else if d == 14 {
        s.append("E");
    } else {
        s.append("F");
    }
}

/// Appends the unpadded uppercase hexadecimal numeral of `v`.
fn append_hex(s: &mut String, v: u16)
    ensures
        final(s)@ == old(s)@ + hex_seq(v as int),
    decreases v,
{
    if v < 16 {
        append_hex_digit(s, v);
    } else {
        append_hex(s, v / 16);
        append_hex_digit(s, v % 16);
        assert(s@ =~= old(s)@ + hex_seq(v as int));
    }
}

/// Disassembles the instruction word into its mnemonic and hexadecimal
/// operand fields, exactly as [`spec_disassemble`] states.
pub fn disassemble(opcode: u16) -> (r: String)
    ensures
        r@ == spec_disassemble(opcode),
{
    let instr = decode(opcode);
    let mut s = String::new();
    match instr {
        Instr::Cls => {
            s.append("CLS");
        },
        Instr::Ret => {
            s.append("RET");
        },
        Instr::Sys(nnn) => {
            s.append("SYS ");
            append_hex(&mut s, nnn);
        },
        Instr::Jp(nnn) => {
            s.append("JP ");
            append_hex(&mut s, nnn);
        },
        Instr::Call(nnn) => {
            s.append("CALL ");
            append_hex(&mut s, nnn);
        },
        Instr::SeImm(x, kk) => {
            s.append("SE ");
            append_hex(&mut s, x as u16);
            s.append(" ");
            append_hex(&mut s, kk as u16);
        },
        Instr::SneImm(x, kk) => {
            s.append("SNE ");
            append_hex(&mut s, x as u16);
            s.append(" ");
            append_hex(&mut s, kk as u16);
        },
        Instr::SeReg(x, y) => {
            s.append("SE ");
            append_hex(&mut s, x as u16);
            s.append(" ");
            append_hex(&mut s, y as u16);
        },
        Instr::LdImm(x, kk) => {
            s.append("LD ");
            append_hex(&mut s, x as u16);
            s.append(" ");
            append_hex(&mut s, kk as u16);
        },
        Instr::AddImm(x, kk) => {
            s.append("ADD ");
            append_hex(&mut s, x as u16);
            s.append(" ");
            append_hex(&mut s, kk as u16);
        },
        Instr::LdReg(x, y) => {
            s.append("LD ");
            append_hex(&mut s, x as u16);
            s.append(" ");
            append_hex(&mut s, y as u16);
        },
        Instr::Or(x, y) => {
            s.append("OR ");
            append_hex(&mut s, x as u16);
            s.append(" ");
            append_hex(&mut s, y as u16);
        },
        Instr::And(x, y) => {
            s.append("AND ");
            append_hex(&mut s, x as u16);
            s.append(" ");
            append_hex(&mut s, y as u16);
        },
        Instr::Xor(x, y) => {
            s.append("XOR ");
            append_hex(&mut s, x as u16);
            s.append(" ");
            append_hex(&mut s, y as u16);
        },
        Instr::AddReg(x, y) => {
            s.append("ADD ");
            append_hex(&mut s, x as u16);
            s.append(" ");
            append_hex(&mut s, y as u16);
        },
        Instr::Sub(x, y) => {
            s.append("SUB ");
            append_hex(&mut s, x as u16);
            s.append(" ");
            append_hex(&mut s, y as u16);
        },
        Instr::Shr(x, y) => {
            s.append("SHR ");
            append_hex(&mut s, x as u16);
            s.append(" ");
            append_hex(&mut s, y as u16);
        },
        Instr::Subn(x, y) => {
            s.append("SUBN ");
            append_hex(&mut s, x as u16);
            s.append(" ");
            append_hex(&mut s, y as u16);
        },
        Instr::Shl(x, y) => {
            s.append("SHL ");
            append_hex(&mut s, x as u16);
            s.append(" ");
            append_hex(&mut s, y as u16);
        },
        Instr::SneReg(x, y) => {
            s.append("SNE ");
            append_hex(&mut s, x as u16);
            s.append(" ");
            append_hex(&mut s, y as u16);
        },
        Instr::LdI(nnn) => {
            s.append("LD I ");
            append_hex(&mut s, nnn);
        },
        Instr::JpV0(nnn) => {
            s.append("JP V0 ");
            append_hex(&mut s, nnn);
        },
        Instr::Rnd(x, _) => {
            s.append("RND ");
            append_hex(&mut s, x as u16);
        },
        Instr::Drw(x, y, n) => {
            s.append("SNE ");
            append_hex(&mut s, x as u16);
            s.append(" ");
            append_hex(&mut s, y as u16);
            s.append(" ");
            append_hex(&mut s, n as u16);
        },
        Instr::Skp(x) => {
            s.append("SKP ");
            append_hex(&mut s, x as u16);
        },
        Instr::Sknp(x) => {
            s.append("SKNP ");
            append_hex(&mut s, x as u16);
        },
        Instr::LdVxDt(x) => {
            s.append("LD ");
            append_hex(&mut s, x as u16);
            s.append(" DT");
        },
        Instr::LdVxK(x) => {
            s.append("LD ");
            append_hex(&mut s, x as u16);
            s.append(" K");
        },
        Instr::LdDtVx(x) => {
            s.append("LD DT ");
            append_hex(&mut s, x as u16);
        },
        Instr::LdStVx(x) => {
            s.append("LD ST ");
            append_hex(&mut s, x as u16);
        },
        Instr::AddIVx(x) => {
            s.append("ADD I ");
            append_hex(&mut s, x as u16);
        },
        Instr::LdFVx(x) => {
            s.append("LD F ");
            append_hex(&mut s, x as u16);
        },
        Instr::LdBVx(x) => {
            s.append("LD B ");
            append_hex(&mut s, x as u16);
        },
        Instr::LdMemVx(x) => {
            s.append("LD [I] ");
            append_hex(&mut s, x as u16);
        },
        Instr::LdVxMem(x) => {
            s.append("LD ");
            append_hex(&mut s, x as u16);
            s.append(" [I]");
        },
        Instr::Unknown => {
            s.append("?");
        },
    }
    assert(s@ =~= spec_disassemble(opcode));
    s
}

} // verus!
