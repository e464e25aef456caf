//! Laws of the machine, proved once and for all over the step semantics:
//! memory write/fetch round trips, the 16-slot call-stack ring, program
//! counter bounds and parity, and the edge-triggered key wait. The law of
//! double sprite drawing lives beside the draw model itself.

use vstd::prelude::*;

use vstd::arithmetic::div_mod::lemma_add_mod_noop_right;

use crate::decode::Instr;
use crate::decode::lemma_decode_bounds;
use crate::decode::spec_decode;
use crate::draw::lemma_small_mod;
use crate::machine::CpuState;
use crate::machine::decay;
use crate::machine::MachineView;
use crate::machine::mem_read;
use crate::machine::pc2;
use crate::machine::wf_view;
use crate::step::exec_instr;
use crate::step::fetch_word;
use crate::step::first_new_key;
use crate::step::lemma_first_new_key_skip;
use crate::step::lemma_step_wf;
use crate::step::step_spec;

verus! {

/// Writing a byte at an in-range address and then fetching the same
/// address returns exactly the byte written, and every other address reads
/// as before. (A write at an address of 4096 or above changes nothing and
/// reports failure; that is stated directly by the write's own contract.)
pub proof fn lemma_write_then_fetch(mem: Seq<u8>, a: u16, v: u8)
    requires
        mem.len() == 4096,
        a < 4096,
    ensures
        mem_read(mem.update(a as int, v), a as int) == v,
        forall|b: int|
            0 <= b < 4096 && b != a as int ==> mem_read(mem.update(a as int, v), b) == mem_read(
                mem,
                b,
            ),
{
}

/// The stack pointer after one push of the 16-slot ring.
pub open spec fn sp_push(sp: int) -> int {
    (sp + 1) % 16
}

/// The stack pointer after `k` pushes.
pub open spec fn sp_after_pushes(sp: int, k: nat) -> int
    decreases k,
{
    if k == 0 {
        sp
    } else {
        sp_push(sp_after_pushes(sp, (k - 1) as nat))
    }
}

/// `k` pushes move the stack pointer `k` slots around the ring.
pub proof fn lemma_sp_after_pushes(sp: int, k: nat)
    requires
        0 <= sp < 16,
    ensures
        sp_after_pushes(sp, k) == (sp + k) % 16,
    decreases k,
{
    if k == 0 {
        lemma_small_mod(sp, 16);
    } else {
        lemma_sp_after_pushes(sp, (k - 1) as nat);
        lemma_add_mod_noop_right(1, sp + k - 1, 16);
    }
}

/// The call stack is a ring of depth 16: sixteen consecutive pushes bring
/// the stack pointer back to where it started, so the seventeenth push
/// writes the very slot the first push wrote.
pub proof fn lemma_stack_ring(sp: int)
    requires
        0 <= sp < 16,
    ensures
        sp_after_pushes(sp, 16) == sp,
        sp_after_pushes(sp, 17) == sp_after_pushes(sp, 1),
{
    lemma_sp_after_pushes(sp, 16);
    lemma_sp_after_pushes(sp, 17);
    lemma_sp_after_pushes(sp, 1);
    lemma_small_mod(sp + 16, 16);
    vstd::arithmetic::div_mod::lemma_mod_multiples_vanish(1, sp + 1, 16);
}

/// A call pushes the current (not yet advanced) program counter onto the
/// ring slot `sp_push(sp)`, and a return pops it back, last in, first out:
/// the machine resumes two past the call site with the stack pointer
/// restored.
pub proof fn lemma_call_then_ret(m: MachineView, nnn: u16, r1: u8, r2: u8)
    requires
        wf_view(m),
    ensures
        ({
            let m1 = exec_instr(m, Instr::Call(nnn), r1);
            let m2 = exec_instr(m1, Instr::Ret, r2);
            &&& m1.sp == sp_push(m.sp as int)
            &&& m1.stack[m1.sp as int] == m.pc
            &&& m2.sp == m.sp
            &&& m2.pc == pc2(m.pc)
            &&& m2.stack == m1.stack
        }),
{
}

/// Every program-counter value in the machine is even: the counter itself
/// and every saved return address on the stack.
pub open spec fn even_state(m: MachineView) -> bool {
    &&& m.pc % 2 == 0
    &&& forall|i: int| 0 <= i < 16 ==> m.stack[i] % 2 == 0
}

/// Whether the instruction the next step executes names an even jump
/// target. Only an explicit jump or call can break parity; every other
/// instruction moves the counter by two or four or restores a saved (even)
/// address.
pub open spec fn step_target_even(m: MachineView) -> bool {
    m.cpu is Ready ==> match spec_decode(fetch_word(m.mem, m.pc)) {
        Instr::Jp(nnn) => nnn % 2 == 0,
        Instr::Call(nnn) => nnn % 2 == 0,
        Instr::JpV0(nnn) => (nnn + m.regs[0]) % 2 == 0,
        _ => true,
    }
}

/// After any step the program counter is below 4096; and from an
/// even-parity machine, a step whose jump target (if any) is even yields an
/// even-parity machine again, so the counter stays even relative to the
/// 0x200 program base. (A jump to an odd address, such as a `Jp` with an
/// odd 12-bit target, is excluded: it makes the counter odd by design.)
#[verifier::rlimit(100)]
pub proof fn lemma_step_even(m: MachineView, rnd: u8)
    requires
        wf_view(m),
        even_state(m),
        step_target_even(m),
    ensures
        step_spec(m, rnd).pc < 4096,
        even_state(step_spec(m, rnd)),
{
    lemma_step_wf(m, rnd);
    lemma_small_mod(m.pc + 2, 4096);
    lemma_small_mod(m.pc + 4, 4096);
    match m.cpu {
        CpuState::Ready => {
            let w = fetch_word(m.mem, m.pc);
            lemma_decode_bounds(w);
            match spec_decode(w) {
                Instr::Ret => {
                    assert(m.stack[m.sp as int] % 2 == 0);
                    lemma_small_mod(m.stack[m.sp as int] + 2, 4096);
                },
                Instr::Call(nnn) => {
                    let sp1 = (((m.sp + 1) % 16) as u8);
                    assert(forall|i: int|
                        0 <= i < 16 ==> m.stack.update(sp1 as int, m.pc)[i] % 2 == 0);
                },
                Instr::JpV0(nnn) => {
                    lemma_small_mod(nnn + m.regs[0], 4096);
                },
                _ => {},
            }
        },
        CpuState::WaitingForKeypress => {},
    }
}

/// A timer value after a whole sequence of decays, applied first to last.
pub open spec fn decay_iter(d: u32, amounts: Seq<u32>) -> u32
    decreases amounts.len(),
{
    if amounts.len() == 0 {
        d
    } else {
        decay_iter(decay(d, amounts[0]), amounts.drop_first())
    }
}

/// However often and by whatever amounts a timer is decayed, it never goes
/// below its floor of zero, and it never grows.
pub proof fn lemma_decay_clamps(d: u32, amounts: Seq<u32>)
    ensures
        decay_iter(d, amounts) >= 0,
        decay_iter(d, amounts) <= d,
    decreases amounts.len(),
{
    if amounts.len() > 0 {
        lemma_decay_clamps(decay(d, amounts[0]), amounts.drop_first());
    }
}

/// The key wait is edge-triggered: while every key now pressed was already
/// pressed in the snapshot taken on entering the wait, a step changes
/// nothing at all — a key merely held from before never completes the
/// wait. Completion needs a key that is pressed now and was unpressed in
/// the snapshot.
pub proof fn lemma_wait_needs_new_press(m: MachineView, rnd: u8)
    requires
        wf_view(m),
        m.cpu is WaitingForKeypress,
        forall|i: int| 0 <= i < 16 ==> (m.keys[i] ==> m.keys_saved[i]),
    ensures
        step_spec(m, rnd) == m,
{
    lemma_first_new_key_skip(m.keys_saved, m.keys, 16);
}

/// A completed key wait really captured an edge: the key index the scan
/// returns is in range, pressed now, and unpressed in the snapshot.
pub proof fn lemma_new_key_is_edge(saved: Seq<bool>, keys: Seq<bool>, i: int, k: int)
    requires
        0 <= i,
        first_new_key(saved, keys, i) == Some(k),
    ensures
        i <= k < 16,
        !saved[k],
        keys[k],
    decreases 16 - i,
{
    if i < 16 && !(!saved[i] && keys[i]) {
        lemma_new_key_is_edge(saved, keys, i + 1, k);
    }
}

} // verus!
