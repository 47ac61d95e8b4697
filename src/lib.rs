//! A CHIP-8 interpreter core: machine state, instruction fetch, decode and
//! execution, each with a machine-checked contract.

pub mod decode;
pub mod execute;
pub mod machine;
pub mod step;

pub use decode::{decode_instruction, decode_opcode, get_nibble_u16, Instruction};
pub use execute::{apply_instruction, can_execute, execute_instruction};
pub use machine::{
    fetch_instruction, make_chip8, Chip8, Registers, MEMORY_SIZE, PROGRAM_START, SCREEN_HEIGHT,
    SCREEN_WIDTH,
};
pub use step::{emulation_step, step, Fault, INSTRUCTIONS_PER_FRAME};
