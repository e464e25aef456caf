//! A verified interpreter for the CHIP-8 instruction set: 4096 bytes of
//! memory, sixteen 8-bit registers, a 16-slot call-stack ring, a 64x32
//! monochrome framebuffer with XOR sprite drawing, a 16-key keypad with
//! edge-triggered key capture, and two countdown timers.
//!
//! The machine is modelled by the ghost [`MachineView`]; [`Chip8::execute`]
//! performs one unit of forward progress and is proved to realize the step
//! semantics [`step::step_spec`] exactly. The laws of the machine — memory
//! round trips, the stack ring, program counter bounds and parity, sprite
//! draw involution and edge-triggered key capture — are proved in [`laws`]
//! and [`draw`].

pub mod decode;
pub mod disasm;
pub mod draw;
pub mod laws;
pub mod machine;
pub mod step;

pub use decode::Instr;
pub use decode::decode;
pub use disasm::disassemble;
pub use machine::Chip8;
pub use machine::CpuState;
pub use machine::KeyState;
pub use machine::MachineView;
pub use machine::PixelState;
