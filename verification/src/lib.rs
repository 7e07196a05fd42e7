//! An Intel 4004 emulator with a verified instruction set model.

pub mod machine;
pub mod i4004emu;
pub mod separator;
pub mod fileio;
pub mod laws;
pub mod instruction_laws;
