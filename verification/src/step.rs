//! The step semantics: what one call of the execution engine does, as a
//! mathematical function of the machine view. In the `Ready` state a step
//! fetches the big-endian instruction word at the program counter, decodes
//! it, and executes it ([`exec_instr`]); in the `WaitingForKeypress` state a
//! step only looks for an edge-triggered new key press ([`first_new_key`]).

use vstd::prelude::*;

use crate::decode::Instr;
use crate::decode::lemma_decode_bounds;
use crate::decode::spec_decode;
use crate::draw::draw_collision;
use crate::draw::screen_after_draw;
use crate::machine::CpuState;
use crate::machine::MachineView;
use crate::machine::mem_read;
use crate::machine::mem_write;
use crate::machine::pc2;
use crate::machine::pc_skip;
use crate::machine::timer_ceil;
use crate::machine::wf_view;

verus! {

/// The big-endian instruction word at the program counter: high byte first.
/// The byte after address 4095 reads as zero.
pub open spec fn fetch_word(mem: Seq<u8>, pc: u16) -> u16 {
    ((mem_read(mem, pc as int) * 256 + mem_read(mem, pc as int + 1)) as u16)
}

/// Eight-bit wrapping subtraction.
pub open spec fn wrap_sub(a: u8, b: u8) -> u8 {
    (((a - b + 256) % 256) as u8)
}

/// Whether the key named by `k` is currently pressed; a value above 15
/// names no key and reads as not pressed.
pub open spec fn key_pressed(keys: Seq<bool>, k: u8) -> bool {
    k < 16 && keys[k as int]
}

/// The lowest key index at or above `i` showing a new press: snapshot
/// unpressed, live state pressed. `None` when no key shows one.
pub open spec fn first_new_key(saved: Seq<bool>, keys: Seq<bool>, i: int) -> Option<int>
    decreases 16 - i,
{
    if i < 0 || i >= 16 {
        None
    } else if !saved[i] && keys[i] {
        Some(i)
    } else {
        first_new_key(saved, keys, i + 1)
    }
}

/// Memory after storing registers `V0..V(k-1)` at consecutive addresses
/// from `index`, each write bounds-checked independently.
pub open spec fn store_regs(mem: Seq<u8>, regs: Seq<u8>, index: int, k: int) -> Seq<u8>
    decreases k,
{
    if k <= 0 {
        mem
    } else {
        mem_write(store_regs(mem, regs, index, k - 1), index + (k - 1), regs[k - 1])
    }
}

/// Registers after loading `V0..V(k-1)` from consecutive addresses from
/// `index`, each read bounds-checked independently.
pub open spec fn load_regs(regs: Seq<u8>, mem: Seq<u8>, index: int, k: int) -> Seq<u8>
    decreases k,
{
    if k <= 0 {
        regs
    } else {
        let r = load_regs(regs, mem, index, k - 1);
        if 0 <= index + (k - 1) < 4096 {
            r.update(k - 1, mem[index + (k - 1)])
        } else {
            r
        }
    }
}

/// The machine after executing one decoded instruction from the `Ready`
/// state. `rnd` is the fresh random byte; only `Rnd` reads it.
///
/// Flag-writing arithmetic stores the flag into `VF` first and then forms
/// the result from the registers as they then stand, so an instruction that
/// names `VF` as an operand of the result reads the fresh flag.
pub open spec fn exec_instr(m: MachineView, instr: Instr, rnd: u8) -> MachineView {
    match instr {
        Instr::Cls => MachineView {
            screen: Seq::new(2048, |i: int| false),
            pc: pc2(m.pc),
            ..m
        },
        Instr::Ret => MachineView {
            pc: (((m.stack[m.sp as int] + 2) % 4096) as u16),
            sp: (if m.sp == 0 {
                15u8
            } else {
                (m.sp - 1) as u8
            }),
            ..m
        },
        Instr::Sys(_) => MachineView { pc: pc2(m.pc), ..m },
        Instr::Jp(nnn) => MachineView { pc: nnn, ..m },
        Instr::Call(nnn) => {
            let sp1 = (((m.sp + 1) % 16) as u8);
            MachineView { sp: sp1, stack: m.stack.update(sp1 as int, m.pc), pc: nnn, ..m }
        },
        Instr::SeImm(x, kk) => MachineView {
            pc: pc_skip(m.pc, m.regs[x as int] == kk),
            ..m
        },
        Instr::SneImm(x, kk) => MachineView {
            pc: pc_skip(m.pc, m.regs[x as int] != kk),
            ..m
        },
        Instr::SeReg(x, y) => MachineView {
            pc: pc_skip(m.pc, m.regs[x as int] == m.regs[y as int]),
            ..m
        },
        Instr::LdImm(x, kk) => MachineView {
            regs: m.regs.update(x as int, kk),
            pc: pc2(m.pc),
            ..m
        },
        Instr::AddImm(x, kk) => MachineView {
            regs: m.regs.update(x as int, (((m.regs[x as int] + kk) % 256) as u8)),
            pc: pc2(m.pc),
            ..m
        },
        Instr::LdReg(x, y) => MachineView {
            regs: m.regs.update(x as int, m.regs[y as int]),
            pc: pc2(m.pc),
            ..m
        },
        Instr::Or(x, y) => MachineView {
            regs: m.regs.update(x as int, m.regs[x as int] | m.regs[y as int]),
            pc: pc2(m.pc),
            ..m
        },
        Instr::And(x, y) => MachineView {
            regs: m.regs.update(x as int, m.regs[x as int] & m.regs[y as int]),
            pc: pc2(m.pc),
            ..m
        },
        Instr::Xor(x, y) => MachineView {
            regs: m.regs.update(x as int, m.regs[x as int] ^ m.regs[y as int]),
            pc: pc2(m.pc),
            ..m
        },
        Instr::AddReg(x, y) => {
            let carry: u8 = if m.regs[x as int] + m.regs[y as int] > 255 {
                1u8
            } else {
                0u8
            };
            let r1 = m.regs.update(15, carry);
            let sum = (((r1[x as int] + r1[y as int]) % 256) as u8);
            MachineView { regs: r1.update(x as int, sum), pc: pc2(m.pc), ..m }
        },
        Instr::Sub(x, y) => {
            let flag: u8 = if m.regs[x as int] >= m.regs[y as int] {
                1u8
            } else {
                0u8
            };
            let r1 = m.regs.update(15, flag);
            MachineView {
                regs: r1.update(x as int, wrap_sub(r1[x as int], r1[y as int])),
                pc: pc2(m.pc),
                ..m
            }
        },
        Instr::Shr(x, _) => {
            let flag: u8 = m.regs[x as int] & 1;
            let r1 = m.regs.update(15, flag);
            MachineView {
                regs: r1.update(x as int, ((r1[x as int] / 2) as u8)),
                pc: pc2(m.pc),
                ..m
            }
        },
        Instr::Subn(x, y) => {
            let flag: u8 = if m.regs[y as int] >= m.regs[x as int] {
                1u8
            } else {
                0u8
            };
            let r1 = m.regs.update(15, flag);
            MachineView {
                regs: r1.update(x as int, wrap_sub(r1[y as int], r1[x as int])),
                pc: pc2(m.pc),
                ..m
            }
        },
        Instr::Shl(x, _) => {
            let flag: u8 = if m.regs[x as int] & 0x80 == 0 {
                0u8
            } else {
                1u8
            };
            let r1 = m.regs.update(15, flag);
            MachineView {
                regs: r1.update(x as int, (((r1[x as int] * 2) % 256) as u8)),
                pc: pc2(m.pc),
                ..m
            }
        },
        Instr::SneReg(x, y) => MachineView {
            pc: pc_skip(m.pc, m.regs[x as int] != m.regs[y as int]),
            ..m
        },
        Instr::LdI(nnn) => MachineView { index: nnn, pc: pc2(m.pc), ..m },
        Instr::JpV0(nnn) => MachineView {
            pc: (((nnn + m.regs[0]) % 4096) as u16),
            ..m
        },
        Instr::Rnd(x, kk) => MachineView {
            regs: m.regs.update(x as int, kk & rnd),
            pc: pc2(m.pc),
            ..m
        },
        Instr::Drw(x, y, n) => {
            let xb = (m.regs[x as int] % 64) as int;
            let yb = (m.regs[y as int] % 32) as int;
            let hit = draw_collision(m.screen, m.mem, m.index as int, xb, yb, n as int);
            MachineView {
                screen: screen_after_draw(m.screen, m.mem, m.index as int, xb, yb, n as int),
                regs: m.regs.update(15, (if hit {
                    1u8
                } else {
                    0u8
                })),
                pc: pc2(m.pc),
                ..m
            }
        },
        Instr::Skp(x) => MachineView {
            pc: pc_skip(m.pc, key_pressed(m.keys, m.regs[x as int])),
            ..m
        },
        Instr::Sknp(x) => MachineView {
            pc: pc_skip(m.pc, !key_pressed(m.keys, m.regs[x as int])),
            ..m
        },
        Instr::LdVxDt(x) => MachineView {
            regs: m.regs.update(x as int, timer_ceil(m.delay)),
            pc: pc2(m.pc),
            ..m
        },
        Instr::LdVxK(x) => MachineView {
            cpu: CpuState::WaitingForKeypress,
            wait_reg: x,
            keys_saved: m.keys,
            ..m
        },
        Instr::LdDtVx(x) => MachineView {
            delay: ((m.regs[x as int] * 65536) as u32),
            pc: pc2(m.pc),
            ..m
        },
        Instr::LdStVx(x) => MachineView {
            buzzer: ((m.regs[x as int] * 65536) as u32),
            pc: pc2(m.pc),
            ..m
        },
        Instr::AddIVx(x) => MachineView {
            index: (((m.index + m.regs[x as int]) % 65536) as u16),
            pc: pc2(m.pc),
            ..m
        },
        Instr::LdFVx(x) => MachineView {
            index: (((m.regs[x as int] & 0xF) * 5) as u16),
            pc: pc2(m.pc),
            ..m
        },
        Instr::LdBVx(x) => {
            let v = m.regs[x as int];
            let m0 = mem_write(m.mem, m.index as int, ((v / 100) as u8));
            let m1 = mem_write(m0, m.index as int + 1, (((v / 10) % 10) as u8));
            let m2 = mem_write(m1, m.index as int + 2, ((v % 10) as u8));
            MachineView { mem: m2, pc: pc2(m.pc), ..m }
        },
        Instr::LdMemVx(x) => MachineView {
            mem: store_regs(m.mem, m.regs, m.index as int, x as int + 1),
            pc: pc2(m.pc),
            ..m
        },
        Instr::LdVxMem(x) => MachineView {
            regs: load_regs(m.regs, m.mem, m.index as int, x as int + 1),
            pc: pc2(m.pc),
            ..m
        },
        Instr::Unknown => m,
    }
}

/// One unit of forward progress of the engine, as a function of the view
/// and the fresh random byte.
pub open spec fn step_spec(m: MachineView, rnd: u8) -> MachineView {
    match m.cpu {
        CpuState::Ready => exec_instr(m, spec_decode(fetch_word(m.mem, m.pc)), rnd),
        CpuState::WaitingForKeypress => match first_new_key(m.keys_saved, m.keys, 0) {
            Some(k) => MachineView {
                cpu: CpuState::Ready,
                regs: m.regs.update(m.wait_reg as int, k as u8),
                pc: pc2(m.pc),
                ..m
            },
            None => m,
        },
    }
}

/// Whether the next step draws a random byte (a `Rnd` instruction is about
/// to execute). Only then does the step depend on the random draw.
pub open spec fn step_is_random(m: MachineView) -> bool {
    m.cpu == CpuState::Ready && spec_decode(fetch_word(m.mem, m.pc)) is Rnd
}

/// Two views that agree on everything but possibly memory.
pub(crate) open spec fn eq_except_mem(a: MachineView, b: MachineView) -> bool {
    &&& a.cpu == b.cpu
    &&& a.wait_reg == b.wait_reg
    &&& a.index == b.index
    &&& a.pc == b.pc
    &&& a.sp == b.sp
    &&& a.stack == b.stack
    &&& a.regs == b.regs
    &&& a.keys == b.keys
    &&& a.keys_saved == b.keys_saved
    &&& a.screen == b.screen
    &&& a.delay == b.delay
    &&& a.buzzer == b.buzzer
}

/// Two views that agree on everything but possibly the registers.
pub(crate) open spec fn eq_except_regs(a: MachineView, b: MachineView) -> bool {
    &&& a.cpu == b.cpu
    &&& a.wait_reg == b.wait_reg
    &&& a.index == b.index
    &&& a.pc == b.pc
    &&& a.sp == b.sp
    &&& a.stack == b.stack
    &&& a.mem == b.mem
    &&& a.keys == b.keys
    &&& a.keys_saved == b.keys_saved
    &&& a.screen == b.screen
    &&& a.delay == b.delay
    &&& a.buzzer == b.buzzer
}

/// Two views that agree on everything but possibly the screen and the
/// registers.
pub(crate) open spec fn eq_except_screen_regs(a: MachineView, b: MachineView) -> bool {
    &&& a.cpu == b.cpu
    &&& a.wait_reg == b.wait_reg
    &&& a.index == b.index
    &&& a.pc == b.pc
    &&& a.sp == b.sp
    &&& a.stack == b.stack
    &&& a.mem == b.mem
    &&& a.keys == b.keys
    &&& a.keys_saved == b.keys_saved
    &&& a.delay == b.delay
    &&& a.buzzer == b.buzzer
}

/// A scan that found no new key press below `i` finds the same first new
/// key starting from `0` as starting from `i`.
pub proof fn lemma_first_new_key_skip(saved: Seq<bool>, keys: Seq<bool>, i: int)
    requires
        0 <= i <= 16,
        forall|j: int| 0 <= j < i ==> !(!saved[j] && keys[j]),
    ensures
        first_new_key(saved, keys, 0) == first_new_key(saved, keys, i),
    decreases i,
{
    if i > 0 {
        lemma_first_new_key_skip(saved, keys, i - 1);
    }
}

/// Storing registers into memory does not change the memory's length.
pub proof fn lemma_store_regs_len(mem: Seq<u8>, regs: Seq<u8>, index: int, k: int)
    requires
        mem.len() == 4096,
    ensures
        store_regs(mem, regs, index, k).len() == 4096,
    decreases k,
{
    if k > 0 {
        lemma_store_regs_len(mem, regs, index, k - 1);
    }
}

/// Loading registers from memory does not change the register file's length.
pub proof fn lemma_load_regs_len(regs: Seq<u8>, mem: Seq<u8>, index: int, k: int)
    requires
        regs.len() == 16,
        k <= 16,
    ensures
        load_regs(regs, mem, index, k).len() == 16,
    decreases k,
{
    if k > 0 {
        lemma_load_regs_len(regs, mem, index, k - 1);
    }
}

/// A step from a well-formed machine yields a well-formed machine: the
/// sizes are kept, and the program counter, stack pointer and every stack
/// slot stay inside their bounded ranges. In particular the program counter
/// is below 4096 after every instruction.
pub proof fn lemma_step_wf(m: MachineView, rnd: u8)
    requires
        wf_view(m),
    ensures
        wf_view(step_spec(m, rnd)),
{
    match m.cpu {
        CpuState::Ready => {
            let w = fetch_word(m.mem, m.pc);
            lemma_decode_bounds(w);
            match spec_decode(w) {
                Instr::LdFVx(x) => {
                    let v = m.regs[x as int];
                    assert(v & 0xF < 16) by (bit_vector);
                },
                Instr::LdMemVx(x) => {
                    lemma_store_regs_len(m.mem, m.regs, m.index as int, x as int + 1);
                },
                Instr::LdVxMem(x) => {
                    lemma_load_regs_len(m.regs, m.mem, m.index as int, x as int + 1);
                },
                _ => {},
            }
        },
        CpuState::WaitingForKeypress => {},
    }
}

} // verus!
