//! The mathematical model of the machine: what a `Chip8Sys` is, as a value.

use crate::chip8::{
    Chip8Quirks, TimerMode, FONT, FONT_RANGE_MAX, FONT_RANGE_MIN, PROGRAM_START,
};
use vstd::prelude::*;

verus! {

/// The state of a CHIP-8 machine as sequences and numbers. It is the view
/// of a `Chip8Sys`, and the contracts of the interpreter speak of it.
#[verifier::ext_equal]
pub struct Machine {
    /// The 4096 bytes of the address space.
    pub memory: Seq<u8>,
    /// The sixteen registers V0 to VF.
    pub register: Seq<u8>,
    /// The index register I.
    pub register_i: u16,
    pub delay_timer: u8,
    /// The cycles counted while the delay timer ran since it was last set.
    pub dt_cycle_ct: u128,
    pub sound_timer: u8,
    pub program_counter: u16,
    pub stack_pointer: u8,
    /// The sixteen slots of the return stack.
    pub stack: Seq<u16>,
    /// The 256 bytes of the packed display, eight pixels to a byte.
    pub frame_buffer: Seq<u8>,
    /// The sixteen keys; `true` is pressed.
    pub keys: Seq<bool>,
    /// The register that awaits a key, while execution is suspended.
    pub wait_for_key_press: Option<u8>,
    pub is_playing_sound: bool,
    pub timer_mode: TimerMode,
    pub quirks: Chip8Quirks,
}

impl Machine {
    /// Every sequence has the length of the array it stands for.
    pub open spec fn well_formed(self) -> bool {
        &&& self.memory.len() == 4096
        &&& self.register.len() == 16
        &&& self.stack.len() == 16
        &&& self.frame_buffer.len() == 256
        &&& self.keys.len() == 16
    }
}

/// Memory at power-on: the sixteen glyphs at `0x050..0x0A0`, zero elsewhere.
pub open spec fn initial_memory() -> Seq<u8> {
    Seq::new(
        4096,
        |a: int|
            if FONT_RANGE_MIN <= a < FONT_RANGE_MAX {
                FONT[a - FONT_RANGE_MIN]
            } else {
                0u8
            },
    )
}

/// The machine at power-on with the given quirks and timer mode: the font
/// in memory, the program counter at `0x200`, everything else zero.
pub open spec fn power_on(quirks: Chip8Quirks, timer_mode: TimerMode) -> Machine {
    Machine {
        memory: initial_memory(),
        register: Seq::new(16, |i: int| 0u8),
        register_i: 0,
        delay_timer: 0,
        dt_cycle_ct: 0,
        sound_timer: 0,
        program_counter: 0x200,
        stack_pointer: 0,
        stack: Seq::new(16, |i: int| 0u16),
        frame_buffer: Seq::new(256, |i: int| 0u8),
        keys: Seq::new(16, |i: int| false),
        wait_for_key_press: None,
        is_playing_sound: false,
        timer_mode,
        quirks,
    }
}

/// Memory after a program is loaded: the program's bytes from `0x200` on,
/// as many as fit, then zeros up to the end of the address space. What lies
/// below `0x200` stays.
pub open spec fn program_loaded(memory: Seq<u8>, program: Seq<u8>) -> Seq<u8> {
    Seq::new(
        4096,
        |a: int|
            if a < PROGRAM_START {
                memory[a]
            } else if a - PROGRAM_START < program.len() {
                program[a - PROGRAM_START]
            } else {
                0u8
            },
    )
}

/// Whether key `k` is pressed according to a 16-bit mask: bit `k` is set.
pub open spec fn mask_bit(mask: u16, k: int) -> bool {
    (mask >> (k as u16)) & 1 == 1
}

/// The keypad that a mask describes.
pub open spec fn keys_of_mask(mask: u16) -> Seq<bool> {
    Seq::new(16, |k: int| mask_bit(mask, k))
}

/// A timer after `ticks` steps of 60 Hz: lowered by `ticks`, not below zero.
pub open spec fn timer_after(timer: u8, ticks: u32) -> u8 {
    if ticks >= timer {
        0u8
    } else {
        (timer - ticks) as u8
    }
}

/// The machine after `ticks` externally driven timer steps. The sound
/// signal goes off when a running sound timer reaches zero.
pub open spec fn timers_ticked(m: Machine, ticks: u32) -> Machine {
    Machine {
        delay_timer: timer_after(m.delay_timer, ticks),
        sound_timer: timer_after(m.sound_timer, ticks),
        is_playing_sound: if m.sound_timer > 0 && ticks >= m.sound_timer {
            false
        } else {
            m.is_playing_sound
        },
        ..m
    }
}

} // verus!
