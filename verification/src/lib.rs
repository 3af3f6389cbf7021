//! A CHIP-8 virtual machine: instruction decoder, machine state, the
//! operation table and the fetch-decode-execute cycle.

pub mod error;
pub mod instructions;
pub mod laws;
pub mod machine;
pub mod model;

pub use error::{Chip8Error, Outcome};
pub use instructions::Instruction;
pub use machine::{Chip8, KeyState, PixelState};
pub use model::{
    MachineState, DEFAULT_STACK_LIMIT, DISPLAY_HEIGHT, DISPLAY_WIDTH, FONT_OFFSET, MEM_SIZE,
    PIXELS, START_OF_PROG,
};
