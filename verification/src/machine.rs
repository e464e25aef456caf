//! The machine state: memory, registers, call stack, framebuffer, keypad and
//! timers, together with the host-facing interface (resets, memory and key
//! writes, pixel access, timer decay).
//!
//! The whole machine is modelled by the ghost [`MachineView`]; every
//! operation's contract says how it transforms that view. The two countdown
//! timers are held in 16.16 fixed point (65536 units per timer tick), so a
//! host may decay them by fractional tick amounts; a register load sets a
//! timer to `value * 65536`, and reading a timer rounds up to whole ticks.

use vstd::prelude::*;

use rand::Rng;

use crate::decode::Instr;
use crate::decode::decode;
use crate::draw::col_offset;
use crate::draw::draw_collision;
use crate::draw::hit_before;
use crate::draw::lemma_cell;
use crate::draw::lemma_small_mod;
use crate::draw::partial_collision;
use crate::draw::partial_pixel;
use crate::draw::row_offset;
use crate::draw::screen_after_draw;
use crate::draw::sprite_pixel;
use crate::step::eq_except_mem;
use crate::step::eq_except_regs;
use crate::step::eq_except_screen_regs;
use crate::step::exec_instr;
use crate::step::fetch_word;
use crate::step::first_new_key;
use crate::step::lemma_first_new_key_skip;
use crate::step::lemma_step_wf;
use crate::step::load_regs;
use crate::step::step_is_random;
use crate::step::step_spec;
use crate::step::store_regs;

verus! {

/// The state of one key of the 16-key keypad.
#[derive(Clone, Copy, Debug, PartialEq, Eq, Structural)]
pub enum KeyState {
    Pressed,
    Unpressed,
}

/// The state of one pixel of the 64x32 monochrome screen.
#[derive(Clone, Copy, Debug, PartialEq, Eq, Structural)]
pub enum PixelState {
    Lit,
    Unlit,
}

/// The run state of the execution engine: `Ready` fetches and executes an
/// instruction on every step; `WaitingForKeypress` only polls the keypad for
/// an edge-triggered new press.
#[derive(Clone, Copy, Debug, PartialEq, Eq, Structural)]
pub enum CpuState {
    Ready,
    WaitingForKeypress,
}

/// The mathematical model of the whole machine. Key and pixel states appear
/// as `bool` (`true` = pressed / lit); timers are 16.16 fixed-point values.
#[verifier::ext_equal]
pub ghost struct MachineView {
    /// Run state of the engine.
    pub cpu: CpuState,
    /// Destination register recorded when a key wait was entered.
    pub wait_reg: u8,
    /// The 16-bit index register.
    pub index: u16,
    /// The program counter; always below 4096.
    pub pc: u16,
    /// The stack pointer; always below 16.
    pub sp: u8,
    /// The 16-slot call-stack ring.
    pub stack: Seq<u16>,
    /// The sixteen general registers V0..VF.
    pub regs: Seq<u8>,
    /// The 4096 bytes of memory.
    pub mem: Seq<u8>,
    /// Live key states.
    pub keys: Seq<bool>,
    /// The keypad snapshot taken when a key wait was entered.
    pub keys_saved: Seq<bool>,
    /// The screen, row-major: pixel (row, col) is at `row * 64 + col`.
    pub screen: Seq<bool>,
    /// The delay timer, in 1/65536ths of a tick.
    pub delay: u32,
    /// The sound timer, in 1/65536ths of a tick.
    pub buzzer: u32,
}

/// Well-formedness of a machine view: fixed sizes, and every pointer within
/// its bounded range. Every operation of the machine preserves it.
pub open spec fn wf_view(m: MachineView) -> bool {
    &&& m.stack.len() == 16
    &&& m.regs.len() == 16
    &&& m.mem.len() == 4096
    &&& m.keys.len() == 16
    &&& m.keys_saved.len() == 16
    &&& m.screen.len() == 2048
    &&& m.pc < 4096
    &&& m.sp < 16
    &&& m.wait_reg < 16
    &&& (forall|i: int| 0 <= i < 16 ==> m.stack[i] < 4096)
    &&& m.delay <= 0xFF0000
    &&& m.buzzer <= 0xFF0000
}

/// A memory read as the instructions see it: an address outside the 4096
/// byte space reads as zero rather than faulting.
pub open spec fn mem_read(mem: Seq<u8>, a: int) -> u8 {
    if 0 <= a < 4096 {
        mem[a]
    } else {
        0
    }
}

/// A memory write as the instructions perform it: an address outside the
/// space is silently dropped.
pub open spec fn mem_write(mem: Seq<u8>, a: int, v: u8) -> Seq<u8> {
    if 0 <= a < 4096 {
        mem.update(a, v)
    } else {
        mem
    }
}

/// The program counter advanced by two, wrapping inside the address space.
pub open spec fn pc2(pc: u16) -> u16 {
    (((pc + 2) as int) % 4096) as u16
}

/// The program counter after a conditional skip: four ahead when the skip
/// condition holds, else two, wrapping inside the address space.
pub open spec fn pc_skip(pc: u16, skip: bool) -> u16 {
    if skip {
        (((pc + 4) as int) % 4096) as u16
    } else {
        pc2(pc)
    }
}

/// A timer value after one decay: the amount is subtracted, clamping at a
/// floor of zero.
pub open spec fn decay(d: u32, amount: u32) -> u32 {
    if d >= amount {
        (d - amount) as u32
    } else {
        0u32
    }
}

/// A fixed-point timer value rounded up to whole ticks.
pub open spec fn timer_ceil(v: u32) -> u8 {
    (((v + 65535) as int / 65536) as u8)
}

/// The 80-byte font table: five bytes per glyph for the digits 0..F,
/// loaded at addresses 0..79 by a hard reset.
pub open spec fn font_table() -> Seq<u8> {
    seq![
        0xF0u8, 0x90, 0x90, 0x90, 0xF0,
        0x20, 0x60, 0x20, 0x20, 0x70,
        0xF0, 0x10, 0xF0, 0x80, 0xF0,
        0xF0, 0x10, 0xF0, 0x10, 0xF0,
        0x90, 0x90, 0xF0, 0x10, 0x10,
        0xF0, 0x80, 0xF0, 0x10, 0xF0,
        0xF0, 0x80, 0xF0, 0x90, 0xF0,
        0xF0, 0x10, 0x20, 0x40, 0x40,
        0xF0, 0x90, 0xF0, 0x90, 0xF0,
        0xF0, 0x90, 0xF0, 0x10, 0xF0,
        0xF0, 0x90, 0xF0, 0x90, 0x90,
        0xE0, 0x90, 0xE0, 0x90, 0xE0,
        0xF0, 0x80, 0x80, 0x80, 0xF0,
        0xE0, 0x90, 0x90, 0x90, 0xE0,
        0xF0, 0x80, 0xF0, 0x80, 0xF0,
        0xF0, 0x80, 0xF0, 0x80, 0x80,
    ]
}

/// Memory as a hard reset leaves it: the font table at addresses 0..79 and
/// zeroes everywhere above.
pub open spec fn initial_mem() -> Seq<u8> {
    Seq::new(4096, |i: int| if i < 80 { font_table()[i] } else { 0u8 })
}

/// The machine as construction or a hard reset leaves it, except for the
/// recorded wait register, which neither reset touches.
pub open spec fn reset_view(wait_reg: u8) -> MachineView {
    MachineView {
        cpu: CpuState::Ready,
        wait_reg: wait_reg,
        index: 0,
        pc: 0x200,
        sp: 0,
        stack: Seq::new(16, |i: int| 0u16),
        regs: Seq::new(16, |i: int| 0u8),
        mem: initial_mem(),
        keys: Seq::new(16, |i: int| false),
        keys_saved: Seq::new(16, |i: int| false),
        screen: Seq::new(2048, |i: int| false),
        delay: 0,
        buzzer: 0,
    }
}

/// One CHIP-8 machine: all state is owned by the instance; nothing is shared.
pub struct Chip8 {
    pub(crate) device_state: CpuState,
    pub(crate) index: u16,
    pub(crate) program_counter: u16,
    pub(crate) timer_delay: u32,
    pub(crate) buzzer_delay: u32,
    pub(crate) stack_pointer: u8,
    pub(crate) temp_vx: u8,
    pub(crate) stack: Vec<u16>,
    pub(crate) general_registers: Vec<u8>,
    pub(crate) memory: Vec<u8>,
    pub(crate) keypad: Vec<bool>,
    pub(crate) temp_keypad: Vec<bool>,
    pub(crate) screen: Vec<bool>,
}

impl View for Chip8 {
    type V = MachineView;

    closed spec fn view(&self) -> MachineView {
        MachineView {
            cpu: self.device_state,
            wait_reg: self.temp_vx,
            index: self.index,
            pc: self.program_counter,
            sp: self.stack_pointer,
            stack: self.stack@,
            regs: self.general_registers@,
            mem: self.memory@,
            keys: self.keypad@,
            keys_saved: self.temp_keypad@,
            screen: self.screen@,
            delay: self.timer_delay,
            buzzer: self.buzzer_delay,
        }
    }
}

/// A vector of `n` copies of `x`.
fn filled<T: Copy>(n: usize, x: T) -> (v: Vec<T>)
    ensures
        v@ == Seq::new(n as nat, |i: int| x),
{
    let mut v: Vec<T> = Vec::new();
    while v.len() < n
        invariant
            v@ =~= Seq::new(v@.len(), |i: int| x),
            v@.len() <= n,
        decreases n - v@.len(),
    {
        v.push(x);
        assert(v@ =~= Seq::new(v@.len(), |i: int| x));
    }
    assert(v@ =~= Seq::new(n as nat, |i: int| x));
    v
}

/// Appends five bytes.
fn push5(v: &mut Vec<u8>, a: u8, b: u8, c: u8, d: u8, e: u8)
    ensures
        final(v)@ == old(v)@ + seq![a, b, c, d, e],
{
    v.push(a);
    v.push(b);
    v.push(c);
    v.push(d);
    v.push(e);
    assert(v@ =~= old(v)@ + seq![a, b, c, d, e]);
}

/// The font table as a vector, one glyph per call below.
fn font_bytes() -> (v: Vec<u8>)
    ensures
        v@ == font_table(),
{
    let mut v: Vec<u8> = Vec::new();
    push5(&mut v, 0xF0, 0x90, 0x90, 0x90, 0xF0);
    push5(&mut v, 0x20, 0x60, 0x20, 0x20, 0x70);
    push5(&mut v, 0xF0, 0x10, 0xF0, 0x80, 0xF0);
    push5(&mut v, 0xF0, 0x10, 0xF0, 0x10, 0xF0);
    push5(&mut v, 0x90, 0x90, 0xF0, 0x10, 0x10);
    push5(&mut v, 0xF0, 0x80, 0xF0, 0x10, 0xF0);
    push5(&mut v, 0xF0, 0x80, 0xF0, 0x90, 0xF0);
    push5(&mut v, 0xF0, 0x10, 0x20, 0x40, 0x40);
    push5(&mut v, 0xF0, 0x90, 0xF0, 0x90, 0xF0);
    push5(&mut v, 0xF0, 0x90, 0xF0, 0x10, 0xF0);
    push5(&mut v, 0xF0, 0x90, 0xF0, 0x90, 0x90);
    push5(&mut v, 0xE0, 0x90, 0xE0, 0x90, 0xE0);
    push5(&mut v, 0xF0, 0x80, 0x80, 0x80, 0xF0);
    push5(&mut v, 0xE0, 0x90, 0x90, 0x90, 0xE0);
    push5(&mut v, 0xF0, 0x80, 0xF0, 0x80, 0xF0);
    push5(&mut v, 0xF0, 0x80, 0xF0, 0x80, 0x80);
    assert(v@ =~= font_table());
    v
}

/// The reset memory image: the font table followed by zeroes.
fn reset_memory() -> (v: Vec<u8>)
    ensures
        v@ == initial_mem(),
{
    let mut v = font_bytes();
    while v.len() < 4096
        invariant
            80 <= v@.len() <= 4096,
            v@ =~= Seq::new(v@.len(), |i: int| if i < 80 { font_table()[i] } else { 0u8 }),
        decreases 4096 - v@.len(),
    {
        v.push(0);
        assert(v@ =~= Seq::new(v@.len(), |i: int| if i < 80 { font_table()[i] } else { 0u8 }));
    }
    assert(v@ =~= initial_mem());
    v
}

impl Default for Chip8 {
    /// A freshly constructed machine: everything zeroed, the font table in
    /// memory, the program counter at 0x200.
    fn default() -> (r: Self)
        ensures
            r@ == reset_view(0),
            wf_view(r@),
    {
        let r = Chip8 {
            device_state: CpuState::Ready,
            index: 0,
            program_counter: 0x200,
            timer_delay: 0,
            buzzer_delay: 0,
            stack_pointer: 0,
            temp_vx: 0,
            stack: filled(16, 0u16),
            general_registers: filled(16, 0u8),
            memory: reset_memory(),
            keypad: filled(16, false),
            temp_keypad: filled(16, false),
            screen: filled(2048, false),
        };
        assert(r@ =~= reset_view(0));
        r
    }
}

impl Chip8 {
    /// The machine is well formed; established at construction and kept by
    /// every operation.
    pub open spec fn wf(&self) -> bool {
        wf_view(self@)
    }

    /// Soft reset: clears only the execution-control state (program counter,
    /// index register, timers, stack pointer, run state); memory, registers,
    /// keypad and screen are left untouched.
    pub fn soft_reset(&mut self)
        requires
            old(self).wf(),
        ensures
            final(self).wf(),
            final(self)@ == (MachineView {
                cpu: CpuState::Ready,
                index: 0,
                pc: 0x200,
                sp: 0,
                delay: 0,
                buzzer: 0,
                ..old(self)@
            }),
    {
        self.index = 0;
        self.program_counter = 0x200;
        self.timer_delay = 0;
        self.buzzer_delay = 0;
        self.stack_pointer = 0;
        self.device_state = CpuState::Ready;
    }

    /// Hard reset: a soft reset, plus memory, registers, stack, keypad and
    /// screen zeroed and the font table reloaded into memory.
    pub fn hard_reset(&mut self)
        requires
            old(self).wf(),
        ensures
            final(self)@ == reset_view(old(self)@.wait_reg),
            final(self).wf(),
    {
        self.soft_reset();
        self.stack = filled(16, 0u16);
        self.general_registers = filled(16, 0u8);
        self.memory = reset_memory();
        self.keypad = filled(16, false);
        self.temp_keypad = filled(16, false);
        self.screen = filled(2048, false);
        assert(self@ =~= reset_view(old(self)@.wait_reg));
    }

    /// Writes one byte of memory. Succeeds exactly when the address is
    /// inside the 4096 byte space; otherwise nothing changes.
    pub fn set_memory_byte(&mut self, address: u16, byte: u8) -> (r: bool)
        requires
            old(self).wf(),
        ensures
            final(self).wf(),
            r == (address < 4096),
            address < 4096 ==> final(self)@ == (MachineView {
                mem: old(self)@.mem.update(address as int, byte),
                ..old(self)@
            }),
            address >= 4096 ==> final(self)@ == old(self)@,
    {
        if address < 4096 {
            self.memory.set(address as usize, byte);
            true
        } else {
            false
        }
    }

    /// Writes a big-endian two-byte word. Succeeds exactly when both bytes
    /// fall inside the address space; otherwise nothing changes.
    pub fn set_memory_word(&mut self, address: u16, word: u16) -> (r: bool)
        requires
            old(self).wf(),
        ensures
            final(self).wf(),
            r == (address < 4095),
            address < 4095 ==> final(self)@ == (MachineView {
                mem: old(self)@.mem
                    .update(address as int, (word >> 8) as u8)
                    .update(address as int + 1, (word & 0xFF) as u8),
                ..old(self)@
            }),
            address >= 4095 ==> final(self)@ == old(self)@,
    {
        if address < 4095 {
            self.memory.set(address as usize, (word >> 8) as u8);
            self.memory.set(address as usize + 1, (word & 0xFF) as u8);
            true
        } else {
            false
        }
    }

    /// Sets one key of the keypad. Succeeds exactly when the key number is
    /// below 16; otherwise nothing changes.
    pub fn set_key(&mut self, key_number: u8, desired_state: KeyState) -> (r: bool)
        requires
            old(self).wf(),
        ensures
            final(self).wf(),
            r == (key_number < 16),
            key_number < 16 ==> final(self)@ == (MachineView {
                keys: old(self)@.keys.update(key_number as int, desired_state == KeyState::Pressed),
                ..old(self)@
            }),
            key_number >= 16 ==> final(self)@ == old(self)@,
    {
        if key_number < 16 {
            self.keypad.set(key_number as usize, match desired_state {
                KeyState::Pressed => true,
                KeyState::Unpressed => false,
            });
            true
        } else {
            false
        }
    }

    /// Reads the pixel at the given row and column; out-of-range coordinates
    /// read as unlit. Leaves the machine unchanged.
    pub fn get_screen_pixel(&mut self, row: u8, col: u8) -> (r: PixelState)
        requires
            old(self).wf(),
        ensures
            *final(self) == *old(self),
            r == (if row < 32 && col < 64 && old(self)@.screen[row as int * 64 + col as int] {
                PixelState::Lit
            } else {
                PixelState::Unlit
            }),
    {
        if row < 32 && col < 64 {
            if self.screen[row as usize * 64 + col as usize] {
                PixelState::Lit
            } else {
                PixelState::Unlit
            }
        } else {
            PixelState::Unlit
        }
    }

    /// Sets the pixel at the given row and column; out-of-range coordinates
    /// are silently ignored.
    pub fn set_screen_pixel(&mut self, row: u8, col: u8, desired_state: PixelState)
        requires
            old(self).wf(),
        ensures
            final(self).wf(),
            row < 32 && col < 64 ==> final(self)@ == (MachineView {
                screen: old(self)@.screen
                    .update(row as int * 64 + col as int, desired_state == PixelState::Lit),
                ..old(self)@
            }),
            !(row < 32 && col < 64) ==> final(self)@ == old(self)@,
    {
        if row < 32 && col < 64 {
            self.screen.set(row as usize * 64 + col as usize, match desired_state {
                PixelState::Lit => true,
                PixelState::Unlit => false,
            });
        }
    }

    /// Sets the program counter; a value outside the address space is
    /// silently ignored.
    pub fn set_program_counter(&mut self, desired_pc_value: u16)
        requires
            old(self).wf(),
        ensures
            final(self).wf(),
            desired_pc_value < 4096 ==> final(self)@ == (MachineView {
                pc: desired_pc_value,
                ..old(self)@
            }),
            desired_pc_value >= 4096 ==> final(self)@ == old(self)@,
    {
        if desired_pc_value < 4096 {
            self.program_counter = desired_pc_value;
        }
    }

    /// Subtracts the given fixed-point amount from the delay timer,
    /// clamping at zero: the timer never goes below zero however often or
    /// by however much it is decayed.
    pub fn subtract_from_delaycounter(&mut self, value_to_subtract: u32)
        requires
            old(self).wf(),
        ensures
            final(self).wf(),
            final(self)@ == (MachineView {
                delay: decay(old(self)@.delay, value_to_subtract),
                ..old(self)@
            }),
    {
        if self.timer_delay >= value_to_subtract {
            self.timer_delay = self.timer_delay - value_to_subtract;
        } else {
            self.timer_delay = 0;
        }
    }

    /// Subtracts the given fixed-point amount from the sound timer,
    /// clamping at zero.
    pub fn subtract_from_buzzercounter(&mut self, value_to_subtract: u32)
        requires
            old(self).wf(),
        ensures
            final(self).wf(),
            final(self)@ == (MachineView {
                buzzer: decay(old(self)@.buzzer, value_to_subtract),
                ..old(self)@
            }),
    {
        if self.buzzer_delay >= value_to_subtract {
            self.buzzer_delay = self.buzzer_delay - value_to_subtract;
        } else {
            self.buzzer_delay = 0;
        }
    }

    /// Reads one byte of memory; an out-of-range address reads as zero.
    pub fn get_memory_byte(&self, address: u16) -> (r: u8)
        requires
            self.wf(),
        ensures
            r == mem_read(self@.mem, address as int),
    {
        if address < 4096 {
            self.memory[address as usize]
        } else {
            0
        }
    }

    /// Reads a general register; a register number above 15 reads as zero.
    pub fn get_register(&self, register_number: u8) -> (r: u8)
        requires
            self.wf(),
        ensures
            r == (if register_number < 16 {
                self@.regs[register_number as int]
            } else {
                0u8
            }),
    {
        if register_number < 16 {
            self.general_registers[register_number as usize]
        } else {
            0
        }
    }

    /// Reads the program counter.
    pub fn get_program_counter(&self) -> (r: u16)
        ensures
            r == self@.pc,
    {
        self.program_counter
    }

    /// Reads the index register.
    pub fn get_index_register(&self) -> (r: u16)
        ensures
            r == self@.index,
    {
        self.index
    }

    /// Reads the run state of the engine.
    pub fn get_cpu_state(&self) -> (r: CpuState)
        ensures
            r == self@.cpu,
    {
        self.device_state
    }

    /// Reads the delay timer, in fixed point.
    pub fn get_delay_counter(&self) -> (r: u32)
        ensures
            r == self@.delay,
    {
        self.timer_delay
    }

    /// Reads the sound timer, in fixed point.
    pub fn get_buzzer_counter(&self) -> (r: u32)
        ensures
            r == self@.buzzer,
    {
        self.buzzer_delay
    }
}

/// Relies on `rand::thread_rng` and `rand::Rng::gen::<u8>`: draws a fresh
/// uniformly random byte. Nothing is promised of the value; every caller's
/// contract holds whatever byte comes back.
#[verifier::external_body]
fn random_byte() -> u8 {
    rand::thread_rng().gen::<u8>()
}

/// A copy of a vector of key or pixel states.
fn copy_bools(src: &Vec<bool>) -> (v: Vec<bool>)
    ensures
        v@ == src@,
{
    let mut v: Vec<bool> = Vec::new();
    let mut i: usize = 0;
    while i < src.len()
        invariant
            i <= src.len(),
            v@ =~= src@.subrange(0, i as int),
        decreases src.len() - i,
    {
        v.push(src[i]);
        assert(v@ =~= src@.subrange(0, i as int + 1));
        i += 1;
    }
    assert(v@ =~= src@);
    v
}

impl Chip8 {
    /// The big-endian instruction word at the program counter.
    fn fetch(&self) -> (w: u16)
        requires
            self.wf(),
        ensures
            w == fetch_word(self@.mem, self@.pc),
    {
        let hi = self.memory[self.program_counter as usize];
        let lo = if self.program_counter < 4095 {
            self.memory[self.program_counter as usize + 1]
        } else {
            0
        };
        (hi as u16) * 256 + (lo as u16)
    }

    /// The polling half of the deferred key load: scans the keypad for the
    /// first key whose snapshot shows unpressed and whose live state shows
    /// pressed; on finding one, writes its index into the recorded
    /// destination register, returns to `Ready` and advances the program
    /// counter. With no new press the machine is left unchanged.
    #[verifier::rlimit(50)]
    fn check_for_new_key_pressed(&mut self)
        requires
            old(self).wf(),
            old(self)@.cpu == CpuState::WaitingForKeypress,
        ensures
            final(self)@ == step_spec(old(self)@, 0),
    {
        let ghost m0 = old(self)@;
        let mut found: bool = false;
        let mut i: usize = 0;
        while i < 16 && !found
            invariant
                i <= 16,
                self@ == m0,
                wf_view(m0),
                !found ==> forall|j: int| 0 <= j < i ==> !(!m0.keys_saved[j] && m0.keys[j]),
                found ==> i < 16 && !m0.keys_saved[i as int] && m0.keys[i as int] && forall|
                    j: int,
                | 0 <= j < i ==> !(!m0.keys_saved[j] && m0.keys[j]),
            decreases 16 - i, (if found {
                0int
            } else {
                1int
            }),
        {
            let saved = self.temp_keypad[i];
            let live = self.keypad[i];
            if !saved && live {
                found = true;
            } else {
                i += 1;
            }
        }
        if found {
            proof {
                lemma_first_new_key_skip(m0.keys_saved, m0.keys, i as int);
                assert(first_new_key(m0.keys_saved, m0.keys, 0) == Some(i as int));
            }
            self.device_state = CpuState::Ready;
            let dest = self.temp_vx;
            self.general_registers.set(dest as usize, i as u8);
            self.program_counter = (self.program_counter + 2) % 4096;
            proof {
                let done = MachineView {
                    cpu: CpuState::Ready,
                    regs: m0.regs.update(m0.wait_reg as int, i as u8),
                    pc: pc2(m0.pc),
                    ..m0
                };
                assert(self@ =~= done);
                assert(step_spec(m0, 0) == done);
            }
        } else {
            proof {
                lemma_first_new_key_skip(m0.keys_saved, m0.keys, 16);
                assert(first_new_key(m0.keys_saved, m0.keys, 0) is None);
            }
        }
    }

    /// `00E0`: clears the screen.
    fn op_cls(&mut self)
        requires
            old(self).wf(),
        ensures
            final(self)@ == exec_instr(old(self)@, Instr::Cls, 0),
    {
        self.screen = filled(2048, false);
        self.program_counter = (self.program_counter + 2) % 4096;
        assert(self@ =~= exec_instr(old(self)@, Instr::Cls, 0));
    }

    /// `00EE`: pops the stack and resumes at the saved address plus two;
    /// the stack pointer wraps from 0 back to 15.
    fn op_ret(&mut self)
        requires
            old(self).wf(),
        ensures
            final(self)@ == exec_instr(old(self)@, Instr::Ret, 0),
    {
        let top = self.stack[self.stack_pointer as usize];
        self.program_counter = (top + 2) % 4096;
        if self.stack_pointer == 0 {
            self.stack_pointer = 15;
        } else {
            self.stack_pointer = self.stack_pointer - 1;
        }
        assert(self@ =~= exec_instr(old(self)@, Instr::Ret, 0));
    }

    /// `0nnn`: a machine-code call on historical hardware; here a no-op
    /// that advances.
    fn op_sys(&mut self, nnn: u16)
        requires
            old(self).wf(),
        ensures
            final(self)@ == exec_instr(old(self)@, Instr::Sys(nnn), 0),
    {
        self.program_counter = (self.program_counter + 2) % 4096;
        assert(self@ =~= exec_instr(old(self)@, Instr::Sys(nnn), 0));
    }

    /// `1nnn`: jumps to the 12-bit address.
    fn op_jp(&mut self, nnn: u16)
        requires
            old(self).wf(),
            nnn < 4096,
        ensures
            final(self)@ == exec_instr(old(self)@, Instr::Jp(nnn), 0),
    {
        self.program_counter = nnn;
        assert(self@ =~= exec_instr(old(self)@, Instr::Jp(nnn), 0));
    }

    /// `2nnn`: pushes the current (not yet advanced) program counter onto
    /// the stack ring and jumps; the stack pointer wraps from 15 to 0.
    fn op_call(&mut self, nnn: u16)
        requires
            old(self).wf(),
            nnn < 4096,
        ensures
            final(self)@ == exec_instr(old(self)@, Instr::Call(nnn), 0),
    {
        let sp1 = (self.stack_pointer + 1) % 16;
        self.stack_pointer = sp1;
        self.stack.set(sp1 as usize, self.program_counter);
        self.program_counter = nnn;
        assert(self@ =~= exec_instr(old(self)@, Instr::Call(nnn), 0));
    }

    /// `3xkk`: skips the next instruction when `Vx == kk`.
    fn op_se_imm(&mut self, x: u8, kk: u8)
        requires
            old(self).wf(),
            x < 16,
        ensures
            final(self)@ == exec_instr(old(self)@, Instr::SeImm(x, kk), 0),
    {
        let step: u16 = if self.general_registers[x as usize] == kk {
            4
        } else {
            2
        };
        self.program_counter = (self.program_counter + step) % 4096;
        assert(self@ =~= exec_instr(old(self)@, Instr::SeImm(x, kk), 0));
    }

    /// `4xkk`: skips the next instruction when `Vx != kk`.
    fn op_sne_imm(&mut self, x: u8, kk: u8)
        requires
            old(self).wf(),
            x < 16,
        ensures
            final(self)@ == exec_instr(old(self)@, Instr::SneImm(x, kk), 0),
    {
        let step: u16 = if self.general_registers[x as usize] != kk {
            4
        } else {
            2
        };
        self.program_counter = (self.program_counter + step) % 4096;
        assert(self@ =~= exec_instr(old(self)@, Instr::SneImm(x, kk), 0));
    }

    /// `5xy0`: skips the next instruction when `Vx == Vy`.
    fn op_se_reg(&mut self, x: u8, y: u8)
        requires
            old(self).wf(),
            x < 16,
            y < 16,
        ensures
            final(self)@ == exec_instr(old(self)@, Instr::SeReg(x, y), 0),
    {
        let step: u16 = if self.general_registers[x as usize] == self.general_registers[y
            as usize] {
            4
        } else {
            2
        };
        self.program_counter = (self.program_counter + step) % 4096;
        assert(self@ =~= exec_instr(old(self)@, Instr::SeReg(x, y), 0));
    }

    /// `6xkk`: loads the immediate into `Vx`.
    fn op_ld_imm(&mut self, x: u8, kk: u8)
        requires
            old(self).wf(),
            x < 16,
        ensures
            final(self)@ == exec_instr(old(self)@, Instr::LdImm(x, kk), 0),
    {
        self.general_registers.set(x as usize, kk);
        self.program_counter = (self.program_counter + 2) % 4096;
        assert(self@ =~= exec_instr(old(self)@, Instr::LdImm(x, kk), 0));
    }

    /// `7xkk`: adds the immediate into `Vx`, wrapping, without a flag.
    fn op_add_imm(&mut self, x: u8, kk: u8)
        requires
            old(self).wf(),
            x < 16,
        ensures
            final(self)@ == exec_instr(old(self)@, Instr::AddImm(x, kk), 0),
    {
        let v = self.general_registers[x as usize];
        self.general_registers.set(x as usize, (((v as u16 + kk as u16) % 256) as u8));
        self.program_counter = (self.program_counter + 2) % 4096;
        assert(self@ =~= exec_instr(old(self)@, Instr::AddImm(x, kk), 0));
    }

    /// `8xy0`: copies `Vy` into `Vx`.
    fn op_ld_reg(&mut self, x: u8, y: u8)
        requires
            old(self).wf(),
            x < 16,
            y < 16,
        ensures
            final(self)@ == exec_instr(old(self)@, Instr::LdReg(x, y), 0),
    {
        let v = self.general_registers[y as usize];
        self.general_registers.set(x as usize, v);
        self.program_counter = (self.program_counter + 2) % 4096;
        assert(self@ =~= exec_instr(old(self)@, Instr::LdReg(x, y), 0));
    }

    /// `8xy1`: bitwise or of `Vy` into `Vx`.
    fn op_or(&mut self, x: u8, y: u8)
        requires
            old(self).wf(),
            x < 16,
            y < 16,
        ensures
            final(self)@ == exec_instr(old(self)@, Instr::Or(x, y), 0),
    {
        let v = self.general_registers[x as usize] | self.general_registers[y as usize];
        self.general_registers.set(x as usize, v);
        self.program_counter = (self.program_counter + 2) % 4096;
        assert(self@ =~= exec_instr(old(self)@, Instr::Or(x, y), 0));
    }

    /// `8xy2`: bitwise and of `Vy` into `Vx`.
    fn op_and(&mut self, x: u8, y: u8)
        requires
            old(self).wf(),
            x < 16,
            y < 16,
        ensures
            final(self)@ == exec_instr(old(self)@, Instr::And(x, y), 0),
    {
        let v = self.general_registers[x as usize] & self.general_registers[y as usize];
        self.general_registers.set(x as usize, v);
        self.program_counter = (self.program_counter + 2) % 4096;
        assert(self@ =~= exec_instr(old(self)@, Instr::And(x, y), 0));
    }

    /// `8xy3`: bitwise exclusive-or of `Vy` into `Vx`.
    fn op_xor(&mut self, x: u8, y: u8)
        requires
            old(self).wf(),
            x < 16,
            y < 16,
        ensures
            final(self)@ == exec_instr(old(self)@, Instr::Xor(x, y), 0),
    {
        let v = self.general_registers[x as usize] ^ self.general_registers[y as usize];
        self.general_registers.set(x as usize, v);
        self.program_counter = (self.program_counter + 2) % 4096;
        assert(self@ =~= exec_instr(old(self)@, Instr::Xor(x, y), 0));
    }

    /// `8xy4`: adds `Vy` into `Vx` with the carry written into `VF` first:
    /// `VF` is 1 exactly when the unsigned sum exceeds 255. Because the
    /// flag is stored before the sum is formed, a sum that names `VF` as an
    /// operand reads the fresh flag.
    fn op_add_reg(&mut self, x: u8, y: u8)
        requires
            old(self).wf(),
            x < 16,
            y < 16,
        ensures
            final(self)@ == exec_instr(old(self)@, Instr::AddReg(x, y), 0),
    {
        let vx = self.general_registers[x as usize];
        let vy = self.general_registers[y as usize];
        let carry: u8 = if (vx as u16) + (vy as u16) > 255 {
            1
        } else {
            0
        };
        self.general_registers.set(15, carry);
        let a = self.general_registers[x as usize];
        let b = self.general_registers[y as usize];
        self.general_registers.set(x as usize, (((a as u16 + b as u16) % 256) as u8));
        self.program_counter = (self.program_counter + 2) % 4096;
        assert(self@ =~= exec_instr(old(self)@, Instr::AddReg(x, y), 0));
    }

    /// `8xy5`: subtracts `Vy` from `Vx` with the no-borrow flag written
    /// into `VF` first: `VF` is 1 exactly when `Vx >= Vy`.
    fn op_sub(&mut self, x: u8, y: u8)
        requires
            old(self).wf(),
            x < 16,
            y < 16,
        ensures
            final(self)@ == exec_instr(old(self)@, Instr::Sub(x, y), 0),
    {
        let vx = self.general_registers[x as usize];
        let vy = self.general_registers[y as usize];
        let flag: u8 = if vx >= vy {
            1
        } else {
            0
        };
        self.general_registers.set(15, flag);
        let a = self.general_registers[x as usize];
        let b = self.general_registers[y as usize];
        self.general_registers.set(x as usize, (((a as u16 + 256 - b as u16) % 256) as u8));
        self.program_counter = (self.program_counter + 2) % 4096;
        assert(self@ =~= exec_instr(old(self)@, Instr::Sub(x, y), 0));
    }

    /// `8xy6`: shifts `Vx` right by one; the bit shifted out goes to `VF`
    /// first, so shifting `VF` itself shifts the fresh flag.
    fn op_shr(&mut self, x: u8, y: u8)
        requires
            old(self).wf(),
            x < 16,
        ensures
            final(self)@ == exec_instr(old(self)@, Instr::Shr(x, y), 0),
    {
        let flag = self.general_registers[x as usize] & 1;
        self.general_registers.set(15, flag);
        let a = self.general_registers[x as usize];
        self.general_registers.set(x as usize, a / 2);
        self.program_counter = (self.program_counter + 2) % 4096;
        assert(self@ =~= exec_instr(old(self)@, Instr::Shr(x, y), 0));
    }

    /// `8xy7`: reverse subtraction, `Vx = Vy - Vx`, with the no-borrow
    /// flag written into `VF` first: `VF` is 1 exactly when `Vy >= Vx`.
    fn op_subn(&mut self, x: u8, y: u8)
        requires
            old(self).wf(),
            x < 16,
            y < 16,
        ensures
            final(self)@ == exec_instr(old(self)@, Instr::Subn(x, y), 0),
    {
        let vx = self.general_registers[x as usize];
        let vy = self.general_registers[y as usize];
        let flag: u8 = if vy >= vx {
            1
        } else {
            0
        };
        self.general_registers.set(15, flag);
        let a = self.general_registers[x as usize];
        let b = self.general_registers[y as usize];
        self.general_registers.set(x as usize, (((b as u16 + 256 - a as u16) % 256) as u8));
        self.program_counter = (self.program_counter + 2) % 4096;
        assert(self@ =~= exec_instr(old(self)@, Instr::Subn(x, y), 0));
    }

    /// `8xyE`: shifts `Vx` left by one; the bit shifted out goes to `VF`
    /// first, so shifting `VF` itself shifts the fresh flag.
    fn op_shl(&mut self, x: u8, y: u8)
        requires
            old(self).wf(),
            x < 16,
        ensures
            final(self)@ == exec_instr(old(self)@, Instr::Shl(x, y), 0),
    {
        let flag: u8 = if self.general_registers[x as usize] & 0x80 == 0 {
            0
        } else {
            1
        };
        self.general_registers.set(15, flag);
        let a = self.general_registers[x as usize];
        self.general_registers.set(x as usize, (((a as u16 * 2) % 256) as u8));
        self.program_counter = (self.program_counter + 2) % 4096;
        assert(self@ =~= exec_instr(old(self)@, Instr::Shl(x, y), 0));
    }

    /// `9xy0`: skips the next instruction when `Vx != Vy`.
    fn op_sne_reg(&mut self, x: u8, y: u8)
        requires
            old(self).wf(),
            x < 16,
            y < 16,
        ensures
            final(self)@ == exec_instr(old(self)@, Instr::SneReg(x, y), 0),
    {
        let step: u16 = if self.general_registers[x as usize] != self.general_registers[y
            as usize] {
            4
        } else {
            2
        };
        self.program_counter = (self.program_counter + step) % 4096;
        assert(self@ =~= exec_instr(old(self)@, Instr::SneReg(x, y), 0));
    }

    /// `Annn`: loads the index register with the 12-bit immediate.
    fn op_ld_i(&mut self, nnn: u16)
        requires
            old(self).wf(),
            nnn < 4096,
        ensures
            final(self)@ == exec_instr(old(self)@, Instr::LdI(nnn), 0),
    {
        self.index = nnn;
        self.program_counter = (self.program_counter + 2) % 4096;
        assert(self@ =~= exec_instr(old(self)@, Instr::LdI(nnn), 0));
    }

    /// `Bnnn`: jumps to the 12-bit immediate offset by `V0`, wrapping
    /// inside the address space.
    fn op_jp_v0(&mut self, nnn: u16)
        requires
            old(self).wf(),
            nnn < 4096,
        ensures
            final(self)@ == exec_instr(old(self)@, Instr::JpV0(nnn), 0),
    {
        let v0 = self.general_registers[0];
        self.program_counter = (nnn + v0 as u16) % 4096;
        assert(self@ =~= exec_instr(old(self)@, Instr::JpV0(nnn), 0));
    }

    /// `Cxkk`: writes the bitwise and of the random byte `r` and the
    /// immediate mask into `Vx`.
    fn op_rnd(&mut self, x: u8, kk: u8, r: u8)
        requires
            old(self).wf(),
            x < 16,
        ensures
            final(self)@ == exec_instr(old(self)@, Instr::Rnd(x, kk), r),
    {
        self.general_registers.set(x as usize, kk & r);
        self.program_counter = (self.program_counter + 2) % 4096;
        assert(self@ =~= exec_instr(old(self)@, Instr::Rnd(x, kk), r));
    }

    /// `Ex9E`: skips the next instruction when the key named by `Vx`'s
    /// value is pressed; a value above 15 names no key and reads as not
    /// pressed.
    fn op_skp(&mut self, x: u8)
        requires
            old(self).wf(),
            x < 16,
        ensures
            final(self)@ == exec_instr(old(self)@, Instr::Skp(x), 0),
    {
        let k = self.general_registers[x as usize];
        let pressed = if k < 16 {
            self.keypad[k as usize]
        } else {
            false
        };
        let step: u16 = if pressed {
            4
        } else {
            2
        };
        self.program_counter = (self.program_counter + step) % 4096;
        assert(self@ =~= exec_instr(old(self)@, Instr::Skp(x), 0));
    }

    /// `ExA1`: skips the next instruction when the key named by `Vx`'s
    /// value is not pressed.
    fn op_sknp(&mut self, x: u8)
        requires
            old(self).wf(),
            x < 16,
        ensures
            final(self)@ == exec_instr(old(self)@, Instr::Sknp(x), 0),
    {
        let k = self.general_registers[x as usize];
        let pressed = if k < 16 {
            self.keypad[k as usize]
        } else {
            false
        };
        let step: u16 = if !pressed {
            4
        } else {
            2
        };
        self.program_counter = (self.program_counter + step) % 4096;
        assert(self@ =~= exec_instr(old(self)@, Instr::Sknp(x), 0));
    }

    /// `Fx07`: reads the delay timer, rounded up to whole ticks, into `Vx`.
    fn op_ld_vx_dt(&mut self, x: u8)
        requires
            old(self).wf(),
            x < 16,
        ensures
            final(self)@ == exec_instr(old(self)@, Instr::LdVxDt(x), 0),
    {
        assert((self.timer_delay + 65535) / 65536 <= 255);
        let v = ((self.timer_delay + 65535) / 65536) as u8;
        self.general_registers.set(x as usize, v);
        self.program_counter = (self.program_counter + 2) % 4096;
        assert(self@ =~= exec_instr(old(self)@, Instr::LdVxDt(x), 0));
    }

    /// `Fx0A`: enters the key wait: records `x` as the destination
    /// register, snapshots the keypad for edge detection, and suspends
    /// instruction processing; the program counter does not advance until
    /// a new press completes the load.
    fn op_ld_vx_k(&mut self, x: u8)
        requires
            old(self).wf(),
            x < 16,
        ensures
            final(self)@ == exec_instr(old(self)@, Instr::LdVxK(x), 0),
    {
        self.temp_vx = x;
        self.device_state = CpuState::WaitingForKeypress;
        let snap = copy_bools(&self.keypad);
        self.temp_keypad = snap;
        assert(self@ =~= exec_instr(old(self)@, Instr::LdVxK(x), 0));
    }

    /// `Fx15`: loads the delay timer from `Vx`, in whole ticks.
    fn op_ld_dt_vx(&mut self, x: u8)
        requires
            old(self).wf(),
            x < 16,
        ensures
            final(self)@ == exec_instr(old(self)@, Instr::LdDtVx(x), 0),
    {
        let v = self.general_registers[x as usize];
        self.timer_delay = (v as u32) * 65536;
        self.program_counter = (self.program_counter + 2) % 4096;
        assert(self@ =~= exec_instr(old(self)@, Instr::LdDtVx(x), 0));
    }

    /// `Fx18`: loads the sound timer from `Vx`, in whole ticks.
    fn op_ld_st_vx(&mut self, x: u8)
        requires
            old(self).wf(),
            x < 16,
        ensures
            final(self)@ == exec_instr(old(self)@, Instr::LdStVx(x), 0),
    {
        let v = self.general_registers[x as usize];
        self.buzzer_delay = (v as u32) * 65536;
        self.program_counter = (self.program_counter + 2) % 4096;
        assert(self@ =~= exec_instr(old(self)@, Instr::LdStVx(x), 0));
    }

    /// `Fx1E`: adds `Vx` into the index register, wrapping at 16 bits.
    fn op_add_i(&mut self, x: u8)
        requires
            old(self).wf(),
            x < 16,
        ensures
            final(self)@ == exec_instr(old(self)@, Instr::AddIVx(x), 0),
    {
        let v = self.general_registers[x as usize];
        self.index = ((self.index as u32 + v as u32) % 65536) as u16;
        self.program_counter = (self.program_counter + 2) % 4096;
        assert(self@ =~= exec_instr(old(self)@, Instr::AddIVx(x), 0));
    }

    /// `Fx29`: points the index register at the five-byte font glyph for
    /// the low nibble of `Vx`: glyph `d` lives at address `5 * d`.
    fn op_ld_f(&mut self, x: u8)
        requires
            old(self).wf(),
            x < 16,
        ensures
            final(self)@ == exec_instr(old(self)@, Instr::LdFVx(x), 0),
    {
        let low = self.general_registers[x as usize] & 0xF;
        proof {
            let v = old(self)@.regs[x as int];
            assert(v & 0xF < 16) by (bit_vector);
        }
        self.index = (low as u16) * 5;
        self.program_counter = (self.program_counter + 2) % 4096;
        assert(self@ =~= exec_instr(old(self)@, Instr::LdFVx(x), 0));
    }

    /// `Fx33`: stores the decimal digits of `Vx` (hundreds, tens, ones) at
    /// the index register, each write bounds-checked independently.
    fn op_ld_b(&mut self, x: u8)
        requires
            old(self).wf(),
            x < 16,
        ensures
            final(self)@ == exec_instr(old(self)@, Instr::LdBVx(x), 0),
    {
        let v = self.general_registers[x as usize];
        let d0 = v / 100;
        let d1 = (v / 10) % 10;
        let d2 = v % 10;
        let a0 = self.index as usize;
        if a0 < 4096 {
            self.memory.set(a0, d0);
        }
        if a0 + 1 < 4096 {
            self.memory.set(a0 + 1, d1);
        }
        if a0 + 2 < 4096 {
            self.memory.set(a0 + 2, d2);
        }
        self.program_counter = (self.program_counter + 2) % 4096;
        assert(self@ =~= exec_instr(old(self)@, Instr::LdBVx(x), 0));
    }

    /// `Fx55`: stores `V0..=Vx` into memory at consecutive addresses from
    /// the index register; a write beyond address 4095 is dropped.
    fn op_ld_mem_vx(&mut self, x: u8)
        requires
            old(self).wf(),
            x < 16,
        ensures
            final(self)@ == exec_instr(old(self)@, Instr::LdMemVx(x), 0),
    {
        let ghost m0 = old(self)@;
        let mut j: usize = 0;
        while j < x as usize + 1
            invariant
                x < 16,
                j <= x as usize + 1,
                wf_view(m0),
                eq_except_mem(self@, m0),
                self.memory@.len() == 4096,
                self.memory@ == store_regs(m0.mem, m0.regs, m0.index as int, j as int),
            decreases x as usize + 1 - j,
        {
            let addr = self.index as usize + j;
            if addr < 4096 {
                let v = self.general_registers[j];
                self.memory.set(addr, v);
            }
            j += 1;
            assert(self.memory@ == store_regs(m0.mem, m0.regs, m0.index as int, j as int));
        }
        self.program_counter = (self.program_counter + 2) % 4096;
        assert(self@ =~= exec_instr(m0, Instr::LdMemVx(x), 0));
    }

    /// `Fx65`: loads `V0..=Vx` from memory at consecutive addresses from
    /// the index register; a read beyond address 4095 is dropped.
    fn op_ld_vx_mem(&mut self, x: u8)
        requires
            old(self).wf(),
            x < 16,
        ensures
            final(self)@ == exec_instr(old(self)@, Instr::LdVxMem(x), 0),
    {
        let ghost m0 = old(self)@;
        let mut j: usize = 0;
        while j < x as usize + 1
            invariant
                x < 16,
                j <= x as usize + 1,
                wf_view(m0),
                eq_except_regs(self@, m0),
                self.general_registers@.len() == 16,
                self.general_registers@ == load_regs(m0.regs, m0.mem, m0.index as int, j as int),
            decreases x as usize + 1 - j,
        {
            let addr = self.index as usize + j;
            if addr < 4096 {
                let v = self.memory[addr];
                self.general_registers.set(j, v);
            }
            j += 1;
            assert(self.general_registers@ == load_regs(
                m0.regs,
                m0.mem,
                m0.index as int,
                j as int,
            ));
        }
        self.program_counter = (self.program_counter + 2) % 4096;
        assert(self@ =~= exec_instr(m0, Instr::LdVxMem(x), 0));
    }

    /// Performs exactly one unit of forward progress. In the `Ready` state:
    /// fetch the word at the program counter, decode it, execute it, and
    /// reduce the program counter modulo 4096; an unrecognized word is a
    /// silent no-op that does not advance. In the `WaitingForKeypress`
    /// state: poll for an edge-triggered new key press, completing the
    /// deferred load on the first one found. The result is `step_spec` of
    /// the old view and a fresh random byte; only a `Rnd` instruction reads
    /// the byte, so every other step is deterministic.
    pub fn execute(&mut self)
        requires
            old(self).wf(),
        ensures
            final(self).wf(),
            exists|b: u8| final(self)@ == step_spec(old(self)@, b),
            !step_is_random(old(self)@) ==> final(self)@ == step_spec(old(self)@, 0),
    {
        match self.device_state {
            CpuState::WaitingForKeypress => {
                self.check_for_new_key_pressed();
                proof {
                    lemma_step_wf(old(self)@, 0);
                    assert(self@ == step_spec(old(self)@, 0u8));
                    assert(exists|b: u8| self@ == step_spec(old(self)@, b));
                }
            },
            CpuState::Ready => {
                let w = self.fetch();
                let instr = decode(w);
                match instr {
                    Instr::Cls => self.op_cls(),
                    Instr::Ret => self.op_ret(),
                    Instr::Sys(nnn) => self.op_sys(nnn),
                    Instr::Jp(nnn) => self.op_jp(nnn),
                    Instr::Call(nnn) => self.op_call(nnn),
                    Instr::SeImm(x, kk) => self.op_se_imm(x, kk),
                    Instr::SneImm(x, kk) => self.op_sne_imm(x, kk),
                    Instr::SeReg(x, y) => self.op_se_reg(x, y),
                    Instr::LdImm(x, kk) => self.op_ld_imm(x, kk),
                    Instr::AddImm(x, kk) => self.op_add_imm(x, kk),
                    Instr::LdReg(x, y) => self.op_ld_reg(x, y),
                    Instr::Or(x, y) => self.op_or(x, y),
                    Instr::And(x, y) => self.op_and(x, y),
                    Instr::Xor(x, y) => self.op_xor(x, y),
                    Instr::AddReg(x, y) => self.op_add_reg(x, y),
                    Instr::Sub(x, y) => self.op_sub(x, y),
                    Instr::Shr(x, y) => self.op_shr(x, y),
                    Instr::Subn(x, y) => self.op_subn(x, y),
                    Instr::Shl(x, y) => self.op_shl(x, y),
                    Instr::SneReg(x, y) => self.op_sne_reg(x, y),
                    Instr::LdI(nnn) => self.op_ld_i(nnn),
                    Instr::JpV0(nnn) => self.op_jp_v0(nnn),
                    Instr::Rnd(x, kk) => {
                        let b = random_byte();
                        self.op_rnd(x, kk, b);
                        proof {
                            assert(self@ == step_spec(old(self)@, b));
                            lemma_step_wf(old(self)@, b);
                            assert(exists|bb: u8| self@ == step_spec(old(self)@, bb));
                        }
                    },
                    Instr::Drw(x, y, n) => self.op_drw(x, y, n),
                    Instr::Skp(x) => self.op_skp(x),
                    Instr::Sknp(x) => self.op_sknp(x),
                    Instr::LdVxDt(x) => self.op_ld_vx_dt(x),
                    Instr::LdVxK(x) => self.op_ld_vx_k(x),
                    Instr::LdDtVx(x) => self.op_ld_dt_vx(x),
                    Instr::LdStVx(x) => self.op_ld_st_vx(x),
                    Instr::AddIVx(x) => self.op_add_i(x),
                    Instr::LdFVx(x) => self.op_ld_f(x),
                    Instr::LdBVx(x) => self.op_ld_b(x),
                    Instr::LdMemVx(x) => self.op_ld_mem_vx(x),
                    Instr::LdVxMem(x) => self.op_ld_vx_mem(x),
                    Instr::Unknown => {},
                }
                proof {
                    if !step_is_random(old(self)@) {
                        assert(self@ == step_spec(old(self)@, 0u8));
                        lemma_step_wf(old(self)@, 0);
                        assert(exists|b: u8| self@ == step_spec(old(self)@, b));
                    }
                }
            },
        }
    }

    /// `Dxyn`: draws the `n`-row sprite at the index register to the
    /// origin `(Vx mod 64, Vy mod 32)`. Each sprite pixel wraps modulo the
    /// screen dimensions independently and is combined with the screen by
    /// exclusive-or; `VF` reports whether any pixel went from lit to unlit.
    /// A sprite row beyond address 4095 reads as all clear.
    fn op_drw(&mut self, x: u8, y: u8, n: u8)
        requires
            old(self).wf(),
            x < 16,
            y < 16,
            n < 16,
        ensures
            final(self)@ == exec_instr(old(self)@, Instr::Drw(x, y, n), 0),
    {
        let ghost m0 = old(self)@;
        let x0 = self.general_registers[x as usize] % 64;
        let y0 = self.general_registers[y as usize] % 32;
        self.general_registers.set(15, 0);
        let ghost xb = x0 as int;
        let ghost yb = y0 as int;
        let ghost nn = n as int;
        let ghost idx = m0.index as int;
        let ghost screen0 = m0.screen;
        proof {
            assert(!partial_collision(screen0, m0.mem, idx, xb, yb, nn, 0, 0)) by {
                if partial_collision(screen0, m0.mem, idx, xb, yb, nn, 0, 0) {
                    let p = choose|p: int|
                        0 <= p < 2048 && screen0[p] && partial_pixel(
                            m0.mem,
                            idx,
                            xb,
                            yb,
                            nn,
                            0,
                            0,
                            p,
                        );
                    assert(row_offset(yb, p / 64) >= 0);
                }
            }
        }
        let mut row: u8 = 0;
        while row < n
            invariant
                x < 16,
                y < 16,
                n < 16,
                row <= n,
                x0 < 64,
                y0 < 32,
                xb == x0 as int,
                yb == y0 as int,
                nn == n as int,
                idx == m0.index as int,
                wf_view(m0),
                screen0 == m0.screen,
                eq_except_screen_regs(self@, m0),
                self.general_registers@.len() == 16,
                self.general_registers@ == m0.regs.update(15, self.general_registers@[15]),
                self.general_registers@[15] == 0 || self.general_registers@[15] == 1,
                (self.general_registers@[15] == 1) == partial_collision(
                    screen0,
                    m0.mem,
                    idx,
                    xb,
                    yb,
                    nn,
                    row as int,
                    0,
                ),
                self.screen@.len() == 2048,
                forall|p: int|
                    0 <= p < 2048 ==> self.screen@[p] == (screen0[p] != partial_pixel(
                        m0.mem,
                        idx,
                        xb,
                        yb,
                        nn,
                        row as int,
                        0,
                        p,
                    )),
            decreases n - row,
        {
            let addr = self.index as usize + row as usize;
            let byte: u8 = if addr < 4096 {
                self.memory[addr]
            } else {
                0
            };
            let mut col: u8 = 0;
            while col < 8
                invariant
                    x < 16,
                    y < 16,
                    n < 16,
                    row < n,
                    col <= 8,
                    x0 < 64,
                    y0 < 32,
                    xb == x0 as int,
                    yb == y0 as int,
                    nn == n as int,
                    idx == m0.index as int,
                    wf_view(m0),
                    screen0 == m0.screen,
                    idx + (row as int) < 4096 ==> byte == m0.mem[idx + row as int],
                    idx + (row as int) >= 4096 ==> byte == 0,
                    eq_except_screen_regs(self@, m0),
                    self.general_registers@.len() == 16,
                    self.general_registers@ == m0.regs.update(15, self.general_registers@[15]),
                    self.general_registers@[15] == 0 || self.general_registers@[15] == 1,
                    (self.general_registers@[15] == 1) == partial_collision(
                        screen0,
                        m0.mem,
                        idx,
                        xb,
                        yb,
                        nn,
                        row as int,
                        col as int,
                    ),
                    self.screen@.len() == 2048,
                    forall|p: int|
                        0 <= p < 2048 ==> self.screen@[p] == (screen0[p] != partial_pixel(
                            m0.mem,
                            idx,
                            xb,
                            yb,
                            nn,
                            row as int,
                            col as int,
                            p,
                        )),
                decreases 8 - col,
            {
                let bit = (byte >> (7 - col)) & 1;
                let sx = (x0 + col) % 64;
                let sy = (y0 + row) % 32;
                proof {
                    lemma_small_mod((x0 + col) as int, 64);
                    lemma_small_mod((y0 + row) as int, 32);
                }
                let pos = (sy as usize) * 64 + (sx as usize);
                proof {
                    lemma_cell(sy as int, sx as int);
                    assert(row_offset(yb, sy as int) == row as int);
                    assert(col_offset(xb, sx as int) == col as int);
                    if idx + (row as int) >= 4096 {
                        let sh = (7 - col) as u8;
                        assert((0u8 >> sh) & 1 == 0) by (bit_vector);
                    }
                    assert((bit == 1) == sprite_pixel(m0.mem, idx, xb, yb, nn, pos as int));
                    assert(!hit_before(xb, yb, row as int, col as int, pos as int));
                    assert(hit_before(xb, yb, row as int, col as int + 1, pos as int));
                }
                let ghost vf_old = self.general_registers@[15];
                let ghost screen_was = self.screen@;
                if bit == 1 {
                    if self.screen[pos] {
                        self.screen.set(pos, false);
                        self.general_registers.set(15, 1);
                    } else {
                        self.screen.set(pos, true);
                    }
                }
                proof {
                    assert forall|p: int| 0 <= p < 2048 && p != pos as int implies partial_pixel(
                        m0.mem,
                        idx,
                        xb,
                        yb,
                        nn,
                        row as int,
                        col as int + 1,
                        p,
                    ) == partial_pixel(
                        m0.mem,
                        idx,
                        xb,
                        yb,
                        nn,
                        row as int,
                        col as int,
                        p,
                    ) by {
                        vstd::arithmetic::div_mod::lemma_fundamental_div_mod(p, 64);
                        let j = p / 64;
                        let i2 = p % 64;
                        assert(0 <= i2 < 64);
                        assert(0 <= j < 32);
                        if row_offset(yb, j) == row as int && col_offset(xb, i2) == col as int {
                            assert(j == sy as int);
                            assert(i2 == sx as int);
                            assert(p == pos as int);
                        }
                    }
                    assert forall|p: int| 0 <= p < 2048 implies self.screen@[p] == (screen0[p]
                        != partial_pixel(
                        m0.mem,
                        idx,
                        xb,
                        yb,
                        nn,
                        row as int,
                        col as int + 1,
                        p,
                    )) by {
                        if p == pos as int {
                            assert(screen_was[p] == screen0[p]);
                        }
                    }
                    let vf_new = self.general_registers@[15];
                    if bit == 1 && screen_was[pos as int] {
                        assert(vf_new == 1);
                        assert(screen0[pos as int]);
                        assert(partial_collision(
                            screen0,
                            m0.mem,
                            idx,
                            xb,
                            yb,
                            nn,
                            row as int,
                            col as int + 1,
                        ));
                    } else {
                        assert(vf_new == vf_old);
                        assert(partial_collision(
                            screen0,
                            m0.mem,
                            idx,
                            xb,
                            yb,
                            nn,
                            row as int,
                            col as int + 1,
                        ) == partial_collision(
                            screen0,
                            m0.mem,
                            idx,
                            xb,
                            yb,
                            nn,
                            row as int,
                            col as int,
                        )) by {
                            if partial_collision(
                                screen0,
                                m0.mem,
                                idx,
                                xb,
                                yb,
                                nn,
                                row as int,
                                col as int + 1,
                            ) {
                                let p = choose|p: int|
                                    0 <= p < 2048 && screen0[p] && partial_pixel(
                                        m0.mem,
                                        idx,
                                        xb,
                                        yb,
                                        nn,
                                        row as int,
                                        col as int + 1,
                                        p,
                                    );
                                assert(p != pos as int);
                                assert(partial_pixel(
                                    m0.mem,
                                    idx,
                                    xb,
                                    yb,
                                    nn,
                                    row as int,
                                    col as int,
                                    p,
                                ));
                                assert(partial_collision(
                                    screen0,
                                    m0.mem,
                                    idx,
                                    xb,
                                    yb,
                                    nn,
                                    row as int,
                                    col as int,
                                ));
                            }
                            if partial_collision(
                                screen0,
                                m0.mem,
                                idx,
                                xb,
                                yb,
                                nn,
                                row as int,
                                col as int,
                            ) {
                                let p = choose|p: int|
                                    0 <= p < 2048 && screen0[p] && partial_pixel(
                                        m0.mem,
                                        idx,
                                        xb,
                                        yb,
                                        nn,
                                        row as int,
                                        col as int,
                                        p,
                                    );
                                assert(p != pos as int);
                                assert(partial_pixel(
                                    m0.mem,
                                    idx,
                                    xb,
                                    yb,
                                    nn,
                                    row as int,
                                    col as int + 1,
                                    p,
                                ));
                                assert(partial_collision(
                                    screen0,
                                    m0.mem,
                                    idx,
                                    xb,
                                    yb,
                                    nn,
                                    row as int,
                                    col as int + 1,
                                ));
                            }
                        }
                    }
                }
                col += 1;
            }
            proof {
                assert forall|p: int| 0 <= p < 2048 implies partial_pixel(
                    m0.mem,
                    idx,
                    xb,
                    yb,
                    nn,
                    row as int,
                    8,
                    p,
                ) == partial_pixel(
                    m0.mem,
                    idx,
                    xb,
                    yb,
                    nn,
                    row as int + 1,
                    0,
                    p,
                ) by {}
                assert(partial_collision(screen0, m0.mem, idx, xb, yb, nn, row as int, 8)
                    == partial_collision(
                    screen0,
                    m0.mem,
                    idx,
                    xb,
                    yb,
                    nn,
                    row as int + 1,
                    0,
                )) by {
                    if partial_collision(screen0, m0.mem, idx, xb, yb, nn, row as int, 8) {
                        let p = choose|p: int|
                            0 <= p < 2048 && screen0[p] && partial_pixel(
                                m0.mem,
                                idx,
                                xb,
                                yb,
                                nn,
                                row as int,
                                8,
                                p,
                            );
                        assert(partial_pixel(m0.mem, idx, xb, yb, nn, row as int + 1, 0, p));
                    }
                    if partial_collision(screen0, m0.mem, idx, xb, yb, nn, row as int + 1, 0) {
                        let p = choose|p: int|
                            0 <= p < 2048 && screen0[p] && partial_pixel(
                                m0.mem,
                                idx,
                                xb,
                                yb,
                                nn,
                                row as int + 1,
                                0,
                                p,
                            );
                        assert(partial_pixel(m0.mem, idx, xb, yb, nn, row as int, 8, p));
                    }
                }
            }
            row += 1;
        }
        proof {
            assert forall|p: int| 0 <= p < 2048 implies partial_pixel(
                m0.mem,
                idx,
                xb,
                yb,
                nn,
                nn,
                0,
                p,
            ) == sprite_pixel(m0.mem, idx, xb, yb, nn, p) by {}
            assert(self.screen@ =~= screen_after_draw(screen0, m0.mem, idx, xb, yb, nn));
            assert(partial_collision(screen0, m0.mem, idx, xb, yb, nn, nn, 0) == draw_collision(
                screen0,
                m0.mem,
                idx,
                xb,
                yb,
                nn,
            )) by {
                if partial_collision(screen0, m0.mem, idx, xb, yb, nn, nn, 0) {
                    let p = choose|p: int|
                        0 <= p < 2048 && screen0[p] && partial_pixel(
                            m0.mem,
                            idx,
                            xb,
                            yb,
                            nn,
                            nn,
                            0,
                            p,
                        );
                    assert(screen0[p] && sprite_pixel(m0.mem, idx, xb, yb, nn, p));
                }
                if draw_collision(screen0, m0.mem, idx, xb, yb, nn) {
                    let p = choose|p: int|
                        0 <= p < 2048 && screen0[p] && sprite_pixel(m0.mem, idx, xb, yb, nn, p);
                    assert(screen0[p] && partial_pixel(m0.mem, idx, xb, yb, nn, nn, 0, p));
                }
            }
        }
        self.program_counter = (self.program_counter + 2) % 4096;
        assert(self@ =~= exec_instr(m0, Instr::Drw(x, y, n), 0));
    }
}

} // verus!
