pub mod context;
pub mod cpu;
pub mod opcode;
pub mod ppu;
pub mod system;
