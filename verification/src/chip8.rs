//! The machine state and its bookkeeping: construction, reset, program
//! loading, keypad and timers.

use crate::chip8error::Chip8Error;
use crate::machine::{
    initial_memory, keys_of_mask, mask_bit, power_on, program_loaded, timer_after, timers_ticked,
    Machine,
};
use crate::semantics::{
    cycle, first_pressed, lemma_cycles_end_at_failure, lemma_cycles_use_prefix, resume,
};
use vstd::prelude::*;

verus! {

/// The address at which programs are loaded and execution starts.
pub const PROGRAM_START: usize = 0x200;

/// The display width in pixels.
pub const DISPLAY_WIDTH: usize = 64;

/// The display height in pixels.
pub const DISPLAY_HEIGHT: usize = 32;

/// The number of pixels of the display.
pub const DISPLAY_PIXELS: usize = DISPLAY_WIDTH * DISPLAY_HEIGHT;

/// The length of the packed framebuffer in bytes.
pub const FRAMEBUFFER_PACKED_LEN: usize = DISPLAY_PIXELS / 8;

/// The sixteen keys of the keypad as a bitmask: bit N is key N.
pub type Chip8KeyMask = u16;

/// How the delay and sound timers are driven.
#[derive(Clone, Copy, Debug, PartialEq, Eq, Structural)]
pub enum TimerMode {
    /// The interpreter lowers the timers as part of each cycle.
    Cycle,
    /// The host lowers the timers with `tick_timers`.
    External,
}

/// The configurable deviations in instruction behaviour.
#[derive(Clone, Copy, Debug, PartialEq, Eq, Structural)]
pub struct Chip8Quirks {
    /// FX55 and FX65 advance the index register past the block.
    pub increment_i_on_store: bool,
    /// The logic instructions 8XY1, 8XY2 and 8XY3 clear VF.
    pub reset_vf_on_logic: bool,
    /// Sprites that cross an edge of the display continue on the other side.
    pub wrap_draw: bool,
    /// The shifts 8XY6 and 8XYE shift VX in place and ignore VY.
    pub shift_uses_vx: bool,
}

impl Default for Chip8Quirks {
    fn default() -> (quirks: Self)
        ensures
            quirks == (Chip8Quirks {
                increment_i_on_store: true,
                reset_vf_on_logic: true,
                wrap_draw: false,
                shift_uses_vx: false,
            }),
    {
        Chip8Quirks {
            increment_i_on_store: true,
            reset_vf_on_logic: true,
            wrap_draw: false,
            shift_uses_vx: false,
        }
    }
}

/// The built-in font: sixteen glyphs of five bytes, the digits 0 to F.
pub const FONT: [u8; 80] = [
    0xF0, 0x90, 0x90, 0x90, 0xF0,
    0x20, 0x60, 0x20, 0x20, 0x70,
    0xF0, 0x10, 0xF0, 0x80, 0xF0,
    0xF0, 0x10, 0xF0, 0x10, 0xF0,
    0x90, 0x90, 0xF0, 0x10, 0x10,
    0xF0, 0x80, 0xF0, 0x10, 0xF0,
    0xF0, 0x80, 0xF0, 0x90, 0xF0,
    0xF0, 0x10, 0x20, 0x40, 0x40,
    0xF0, 0x90, 0xF0, 0x90, 0xF0,
    0xF0, 0x90, 0xF0, 0x10, 0xF0,
    0xF0, 0x90, 0xF0, 0x90, 0x90,
    0xE0, 0x90, 0xE0, 0x90, 0xE0,
    0xF0, 0x80, 0x80, 0x80, 0xF0,
    0xE0, 0x90, 0x90, 0x90, 0xE0,
    0xF0, 0x80, 0xF0, 0x80, 0xF0,
    0xF0, 0x80, 0xF0, 0x80, 0x80,
];

/// The address of the first byte of the font.
pub const FONT_RANGE_MIN: u8 = 0x050;

/// The address after the last byte of the font.
pub const FONT_RANGE_MAX: u8 = 0x0A0;

/// A CHIP-8 machine. Every combination of field values is a state that the
/// interpreter accepts: what a program or a host can leave behind is either
/// executed or refused with a `Chip8Error`.
pub struct Chip8Sys {
    pub memory: [u8; 4096],
    pub register: [u8; 16],
    pub register_i: u16,
    pub delay_timer: u8,
    pub dt_cycle_ct: u128,
    pub sound_timer: u8,
    pub program_counter: u16,
    pub stack_pointer: u8,
    pub stack: [u16; 16],
    pub frame_buffer: [u8; 256],
    pub keys: [bool; 16],
    pub wait_for_key_press: Option<u8>,
    pub is_playing_sound: bool,
    pub timer_mode: TimerMode,
    pub is_inc_index: bool,
    pub is_register_f_reset: bool,
    pub is_wrap_draw: bool,
    pub is_mod_vx_in_place: bool,
}

impl View for Chip8Sys {
    type V = Machine;

    open spec fn view(&self) -> Machine {
        Machine {
            memory: self.memory@,
            register: self.register@,
            register_i: self.register_i,
            delay_timer: self.delay_timer,
            dt_cycle_ct: self.dt_cycle_ct,
            sound_timer: self.sound_timer,
            program_counter: self.program_counter,
            stack_pointer: self.stack_pointer,
            stack: self.stack@,
            frame_buffer: self.frame_buffer@,
            keys: self.keys@,
            wait_for_key_press: self.wait_for_key_press,
            is_playing_sound: self.is_playing_sound,
            timer_mode: self.timer_mode,
            quirks: Chip8Quirks {
                increment_i_on_store: self.is_inc_index,
                reset_vf_on_logic: self.is_register_f_reset,
                wrap_draw: self.is_wrap_draw,
                shift_uses_vx: self.is_mod_vx_in_place,
            },
        }
    }
}

impl Chip8Sys {
    /// A machine at power-on with the four quirks given one by one.
    pub fn new_set_quirks(
        is_inc_index: bool,
        is_register_f_reset: bool,
        is_wrap_draw: bool,
        is_mod_vx_in_place: bool,
    ) -> (chip8: Chip8Sys)
        ensures
            chip8@ == power_on(
                Chip8Quirks {
                    increment_i_on_store: is_inc_index,
                    reset_vf_on_logic: is_register_f_reset,
                    wrap_draw: is_wrap_draw,
                    shift_uses_vx: is_mod_vx_in_place,
                },
                TimerMode::Cycle,
            ),
    {
        let mut chip8 = Chip8Sys {
            memory: [0; 4096],
            register: [0; 16],
            register_i: 0,
            delay_timer: 0,
            dt_cycle_ct: 0,
            sound_timer: 0,
            program_counter: 0x200,
            stack_pointer: 0,
            stack: [0; 16],
            frame_buffer: [0; 256],
            keys: [false; 16],
            wait_for_key_press: None,
            is_playing_sound: false,
            timer_mode: TimerMode::Cycle,
            is_inc_index,
            is_register_f_reset,
            is_wrap_draw,
            is_mod_vx_in_place,
        };
        let mut i: usize = FONT_RANGE_MIN as usize;
        while i < FONT_RANGE_MAX as usize
            invariant
                FONT_RANGE_MIN <= i <= FONT_RANGE_MAX,
                forall|a: int|
                    0 <= a < 4096 ==> chip8.memory[a] == (if FONT_RANGE_MIN <= a < i {
                        FONT[a - FONT_RANGE_MIN]
                    } else {
                        0u8
                    }),
                chip8.register@ == Seq::new(16, |k: int| 0u8),
                chip8.stack@ == Seq::new(16, |k: int| 0u16),
                chip8.frame_buffer@ == Seq::new(256, |k: int| 0u8),
                chip8.keys@ == Seq::new(16, |k: int| false),
                chip8.register_i == 0,
                chip8.delay_timer == 0,
                chip8.dt_cycle_ct == 0,
                chip8.sound_timer == 0,
                chip8.program_counter == 0x200,
                chip8.stack_pointer == 0,
                chip8.wait_for_key_press == None::<u8>,
                !chip8.is_playing_sound,
                chip8.timer_mode == TimerMode::Cycle,
                chip8.is_inc_index == is_inc_index,
                chip8.is_register_f_reset == is_register_f_reset,
                chip8.is_wrap_draw == is_wrap_draw,
                chip8.is_mod_vx_in_place == is_mod_vx_in_place,
            decreases FONT_RANGE_MAX - i,
        {
            chip8.memory[i] = FONT[i - FONT_RANGE_MIN as usize];
            i += 1;
        }
        assert(chip8.memory@ =~= initial_memory());
        chip8
    }

    /// A machine at power-on with the default quirks.
    pub fn new_chip_8() -> (chip8: Chip8Sys)
        ensures
            chip8@ == power_on(
                Chip8Quirks {
                    increment_i_on_store: true,
                    reset_vf_on_logic: true,
                    wrap_draw: false,
                    shift_uses_vx: false,
                },
                TimerMode::Cycle,
            ),
    {
        Chip8Sys::new_set_quirks(true, true, false, false)
    }

    /// A machine at power-on with the given quirks.
    pub fn new_with_quirks(quirks: Chip8Quirks) -> (chip8: Chip8Sys)
        ensures
            chip8@ == power_on(quirks, TimerMode::Cycle),
    {
        Chip8Sys::new_set_quirks(
            quirks.increment_i_on_store,
            quirks.reset_vf_on_logic,
            quirks.wrap_draw,
            quirks.shift_uses_vx,
        )
    }

    /// The quirks in force.
    pub fn quirks(&self) -> (quirks: Chip8Quirks)
        ensures
            quirks == self@.quirks,
    {
        Chip8Quirks {
            increment_i_on_store: self.is_inc_index(),
            reset_vf_on_logic: self.is_register_f_reset(),
            wrap_draw: self.is_wrap_draw(),
            shift_uses_vx: self.is_mod_vx_in_place(),
        }
    }

    /// Puts other quirks in force and leaves the rest of the machine alone.
    pub fn set_quirks(&mut self, quirks: Chip8Quirks) -> (chip8: &mut Self)
        ensures
            chip8@ == (Machine { quirks, ..old(self)@ }),
            *final(self) == *final(chip8),
    {
        self.is_inc_index = quirks.increment_i_on_store;
        self.is_register_f_reset = quirks.reset_vf_on_logic;
        self.is_wrap_draw = quirks.wrap_draw;
        self.is_mod_vx_in_place = quirks.shift_uses_vx;
        self
    }

    /// Back to power-on; only the quirks and the timer mode survive.
    pub fn reset(&mut self) -> (chip8: &mut Self)
        ensures
            chip8@ == power_on(old(self)@.quirks, old(self)@.timer_mode),
            *final(self) == *final(chip8),
    {
        let quirks = self.quirks();
        let timer_mode = self.timer_mode;
        *self = Chip8Sys::new_with_quirks(quirks);
        self.timer_mode = timer_mode;
        self
    }

    /// How the timers are driven.
    pub fn timer_mode(&self) -> (mode: TimerMode)
        ensures
            mode == self@.timer_mode,
    {
        self.timer_mode
    }

    /// Chooses how the timers are driven.
    pub fn set_timer_mode(&mut self, mode: TimerMode) -> (chip8: &mut Self)
        ensures
            chip8@ == (Machine { timer_mode: mode, ..old(self)@ }),
            *final(self) == *final(chip8),
    {
        self.timer_mode = mode;
        self
    }

    /// Lowers both timers by `ticks` steps of 60 Hz, not below zero, and
    /// turns the sound signal off where a running sound timer reaches zero.
    pub fn tick_timers(&mut self, ticks: u32) -> (chip8: &mut Self)
        ensures
            chip8@ == timers_ticked(old(self)@, ticks),
            *final(self) == *final(chip8),
    {
        if self.sound_timer > 0 && ticks >= self.sound_timer as u32 {
            self.is_playing_sound = false;
        }
        self.delay_timer = Self::lowered(self.delay_timer, ticks);
        self.sound_timer = Self::lowered(self.sound_timer, ticks);
        self
    }

    /// One timer after `ticks` steps.
    fn lowered(timer: u8, ticks: u32) -> (left: u8)
        ensures
            left == timer_after(timer, ticks),
    {
        if ticks >= timer as u32 {
            0
        } else {
            timer - ticks as u8
        }
    }

    /// Loads a program at `0x200`. What does not fit below the end of the
    /// address space is dropped; what the program leaves free is zeroed.
    pub fn load_rom_bytes(&mut self, rom_bytes: &[u8]) -> (chip8: &mut Self)
        ensures
            chip8@ == (Machine {
                memory: program_loaded(old(self)@.memory, rom_bytes@),
                ..old(self)@
            }),
            *final(self) == *final(chip8),
    {
        let program_len: usize = 4096 - PROGRAM_START;
        let mut index: usize = 0;
        while index < program_len
            invariant
                program_len == 4096 - PROGRAM_START,
                index <= program_len,
                self@ == (Machine { memory: self.memory@, ..old(self)@ }),
                forall|a: int|
                    0 <= a < 4096 ==> self.memory[a] == (if PROGRAM_START <= a < PROGRAM_START
                        + index {
                        program_loaded(old(self)@.memory, rom_bytes@)[a]
                    } else {
                        old(self).memory[a]
                    }),
            decreases program_len - index,
        {
            let value: u8 = if index < rom_bytes.len() {
                rom_bytes[index]
            } else {
                0
            };
            self.memory[PROGRAM_START + index] = value;
            index += 1;
        }
        assert(self.memory@ =~= program_loaded(old(self)@.memory, rom_bytes@));
        self
    }

    /// Sets the keypad from a mask: key N is pressed where bit N is set.
    pub fn set_keys_mask(&mut self, mask: Chip8KeyMask) -> (chip8: &mut Self)
        ensures
            chip8@ == (Machine { keys: keys_of_mask(mask), ..old(self)@ }),
            *final(self) == *final(chip8),
    {
        let mut index: usize = 0;
        while index < 16
            invariant
                index <= 16,
                self@ == (Machine { keys: self.keys@, ..old(self)@ }),
                forall|k: int| 0 <= k < index ==> self.keys[k] == mask_bit(mask, k),
            decreases 16 - index,
        {
            let bit: u16 = 1u16 << (index as u16);
            assert((mask & (1u16 << (index as u16)) != 0) == ((mask >> (index as u16)) & 1 == 1))
                by (bit_vector)
                requires
                    index < 16,
            ;
            self.keys[index] = (mask & bit) != 0;
            index += 1;
        }
        assert(self.keys@ =~= keys_of_mask(mask));
        self
    }

    /// The keypad as a mask: bit N is set where key N is pressed.
    pub fn keys_mask(&self) -> (mask: Chip8KeyMask)
        ensures
            keys_of_mask(mask) == self@.keys,
    {
        let mut mask: u16 = 0;
        let mut index: usize = 0;
        assert forall|k: int| 0 <= k < 16 implies !mask_bit(0u16, k) by {
            lemma_no_bit(k as u16);
        }
        while index < 16
            invariant
                index <= 16,
                forall|k: int| 0 <= k < index ==> mask_bit(mask, k) == self.keys[k],
                forall|k: int| index <= k < 16 ==> !mask_bit(mask, k),
            decreases 16 - index,
        {
            if self.keys[index] {
                let marked: u16 = mask | (1u16 << (index as u16));
                assert forall|k: int| 0 <= k < 16 implies mask_bit(marked, k) == (mask_bit(mask, k)
                    || k == index) by {
                    lemma_bit_marked(mask, index as u16, k as u16);
                }
                mask = marked;
            }
            index += 1;
        }
        assert(keys_of_mask(mask) =~= self.keys@);
        mask
    }

    /// Replaces the keypad.
    pub fn set_keys(&mut self, keys: [bool; 16]) -> (chip8: &mut Self)
        ensures
            chip8@ == (Machine { keys: keys@, ..old(self)@ }),
            *final(self) == *final(chip8),
    {
        self.keys = keys;
        self
    }

    /// The packed framebuffer: 32 rows of 8 bytes, the leftmost pixel of
    /// each byte in its most significant bit.
    pub fn framebuffer_packed(&self) -> (frame: &[u8])
        ensures
            frame@ == self@.frame_buffer,
    {
        self.frame_buffer.as_slice()
    }

    /// Runs `cycles` cycles and stops at the first that fails. The outcome
    /// is that of `cycles` for what the random source answered.
    pub fn tick(&mut self, cycles: u32) -> (res: Result<(), Chip8Error>)
        ensures
            exists|entropy: Seq<Result<u32, getrandom::Error>>|
                #[trigger] crate::semantics::cycles(old(self)@, entropy, cycles as nat) == (
                    final(self)@,
                    res,
                ),
    {
        let ghost mut entropy: Seq<Result<u32, getrandom::Error>> = Seq::empty();
        let mut done: u32 = 0;
        while done < cycles
            invariant
                done <= cycles,
                crate::semantics::cycles(old(self)@, entropy, done as nat) == (
                    self@,
                    Ok::<(), Chip8Error>(()),
                ),
            decreases cycles - done,
        {
            let ghost before = self@;
            let ghost so_far = entropy;
            let res = self.run();
            proof {
                let answer = choose|answer: Result<u32, getrandom::Error>|
                    #[trigger] cycle(before, answer) == (self@, res);
                entropy = Seq::new(
                    done as nat + 1,
                    |i: int|
                        if i < done {
                            so_far[i]
                        } else {
                            answer
                        },
                );
                lemma_cycles_use_prefix(old(self)@, so_far, entropy, done as nat);
                assert(crate::semantics::cycles(old(self)@, entropy, done as nat + 1) == (
                    self@,
                    res,
                ));
            }
            match res {
                Err(e) => {
                    proof {
                        lemma_cycles_end_at_failure(
                            old(self)@,
                            entropy,
                            done as nat + 1,
                            cycles as nat,
                        );
                    }
                    return Err(e);
                },
                Ok(_) => {},
            }
            done += 1;
        }
        Ok(())
    }

    /// The delay timer.
    pub fn delay_timer(&self) -> (timer: u8)
        ensures
            timer == self@.delay_timer,
    {
        self.delay_timer
    }

    /// The sound timer.
    pub fn sound_timer(&self) -> (timer: u8)
        ensures
            timer == self@.sound_timer,
    {
        self.sound_timer
    }

    /// The sound signal: on from the moment the sound timer is set until it
    /// has run down.
    pub fn is_sound_playing(&self) -> (playing: bool)
        ensures
            playing == self@.is_playing_sound,
    {
        self.is_playing_sound
    }

    /// Decides at the start of a cycle whether a suspended machine stays
    /// suspended: `Ok(true)` while it waits on, `Ok(false)` where it runs,
    /// after the lowest pressed key went to the awaiting register.
    pub fn check_waiting(&mut self) -> (res: Result<bool, Chip8Error>)
        ensures
            (final(self)@, res) == resume(old(self)@),
    {
        match self.wait_for_key_press {
            None => Ok(false),
            Some(r) => {
                if r > 0xF {
                    return Err(Chip8Error::InvalidWaitRegister(r));
                }
                let mut key: usize = 0;
                while key < 16
                    invariant
                        key <= 16,
                        r <= 0xF,
                        *self == *old(self),
                        self.wait_for_key_press == Some(r),
                        first_pressed(self.keys@, 0) == first_pressed(self.keys@, key as int),
                    decreases 16 - key,
                {
                    if self.keys[key] {
                        self.register[r as usize] = key as u8;
                        self.wait_for_key_press = None;
                        return Ok(false);
                    }
                    key += 1;
                }
                Ok(true)
            },
        }
    }

    /// Suspends the machine until a key is pressed; the key's number will go
    /// to `register`. A register that does not exist is refused.
    pub fn wait(&mut self, register: u8) -> (res: Result<(), Chip8Error>)
        ensures
            register <= 0xF ==> res == Ok::<(), Chip8Error>(()) && final(self)@ == (Machine {
                wait_for_key_press: Some(register),
                ..old(self)@
            }),
            register > 0xF ==> res == Err::<(), Chip8Error>(
                Chip8Error::InvalidWaitRegister(register),
            ) && final(self)@ == old(self)@,
    {
        if register > 0xF {
            return Err(Chip8Error::InvalidWaitRegister(register));
        }
        self.wait_for_key_press = Some(register);
        Ok(())
    }

    /// Whether FX55 and FX65 advance the index register.
    pub fn is_inc_index(&self) -> (on: bool)
        ensures
            on == self@.quirks.increment_i_on_store,
    {
        self.is_inc_index
    }

    /// Whether the logic instructions clear VF.
    pub fn is_register_f_reset(&self) -> (on: bool)
        ensures
            on == self@.quirks.reset_vf_on_logic,
    {
        self.is_register_f_reset
    }

    /// Whether sprites wrap at the edges of the display.
    pub fn is_wrap_draw(&self) -> (on: bool)
        ensures
            on == self@.quirks.wrap_draw,
    {
        self.is_wrap_draw
    }

    /// Whether the shifts work on VX in place.
    pub fn is_mod_vx_in_place(&self) -> (on: bool)
        ensures
            on == self@.quirks.shift_uses_vx,
    {
        self.is_mod_vx_in_place
    }
}

/// The mask 0 has no bit set.
proof fn lemma_no_bit(k: u16)
    by (bit_vector)
    requires
        k < 16,
    ensures
        (0u16 >> k) & 1 != 1,
{
}

/// Setting bit `i` of a mask sets that bit and changes no other.
proof fn lemma_bit_marked(mask: u16, i: u16, k: u16)
    by (bit_vector)
    requires
        i < 16,
        k < 16,
    ensures
        (((mask | (1u16 << i)) >> k) & 1 == 1) == (((mask >> k) & 1 == 1) || k == i),
{
}

} // verus!
