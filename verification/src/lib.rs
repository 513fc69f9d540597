//! A CHIP-8 interpreter core: the machine state, its one-cycle
//! fetch-decode-execute engine and the packed framebuffer it draws into.
//!
//! Every executable function is verified against a mathematical model of
//! the machine, [`machine::Machine`], and the semantics of one cycle,
//! [`semantics::cycle`].

pub mod chip8;
pub mod chip8error;
pub mod decode;
pub mod display;
pub mod entropy;
pub mod laws;
pub mod machine;
pub mod semantics;
