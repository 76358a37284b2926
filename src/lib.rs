pub mod chip8;
pub mod cpu;
pub mod font;
pub mod gpu;
pub mod machine;
pub mod rom;
pub mod laws;
