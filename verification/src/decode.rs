//! The execution engine: one cycle of fetch, decode and execute.

use crate::chip8::{Chip8Sys, TimerMode};
use crate::chip8error::Chip8Error;
use crate::display::{draw_rows, law_rows_read_are_the_sprite};
use crate::machine::Machine;
use crate::semantics::{
    arithmetic, begin_cycle, class_of, cycle, cycle_timers, draw_sprite, execute, fetch,
    key_skip, load_registers, logic, no_borrow, random, store_decimal, store_registers,
    subroutine_call, system, timer_or_memory, with_result_and_flag, wrapped_difference,
};
use vstd::prelude::*;

verus! {

impl Chip8Sys {
    /// One cycle. A suspended machine looks for a pressed key and, while
    /// there is none, does nothing more. Otherwise the timers move, the
    /// instruction at the program counter is fetched and carried out, and
    /// the first failure is reported. The outcome is that of `cycle` for
    /// what the random source answered, which matters to `CXNN` alone.
    pub fn run(&mut self) -> (res: Result<(), Chip8Error>)
        ensures
            exists|entropy: Result<u32, getrandom::Error>|
                #[trigger] cycle(old(self)@, entropy) == (final(self)@, res),
    {
        match self.begin_cycle() {
            Err(e) => {
                assert(cycle(old(self)@, Ok(0)) == (self@, Err::<(), Chip8Error>(e)));
                Err(e)
            },
            Ok(None) => {
                assert(cycle(old(self)@, Ok(0)) == (self@, Ok::<(), Chip8Error>(())));
                Ok(())
            },
            Ok(Some((hi, lo))) => {
                if hi / 16 == 0xC {
                    let entropy = getrandom::u32();
                    let res = self.random(hi % 16, lo, entropy);
                    assert(cycle(old(self)@, entropy) == (self@, res));
                    res
                } else {
                    let res = self.instruction(hi, lo);
                    assert(cycle(old(self)@, Ok(0)) == (self@, res));
                    res
                }
            },
        }
    }

    /// One cycle in which the random source is not asked: `entropy` stands
    /// for its answer.
    pub fn run_with(&mut self, entropy: Result<u32, getrandom::Error>) -> (res: Result<
        (),
        Chip8Error,
    >)
        ensures
            (final(self)@, res) == cycle(old(self)@, entropy),
    {
        match self.begin_cycle() {
            Err(e) => Err(e),
            Ok(None) => Ok(()),
            Ok(Some((hi, lo))) => {
                if hi / 16 == 0xC {
                    self.random(hi % 16, lo, entropy)
                } else {
                    self.instruction(hi, lo)
                }
            },
        }
    }

    /// The key wait, the timers and the fetch. `Ok(None)` says that the
    /// machine stays suspended.
    fn begin_cycle(&mut self) -> (res: Result<Option<(u8, u8)>, Chip8Error>)
        ensures
            (final(self)@, res) == begin_cycle(old(self)@),
            res matches Ok(Some(_)) ==> final(self).program_counter <= 0x1000,
    {
        match self.check_waiting() {
            Err(e) => Err(e),
            Ok(true) => Ok(None),
            Ok(false) => {
                self.cycle_timers();
                match self.fetch() {
                    Err(e) => Err(e),
                    Ok(word) => Ok(Some(word)),
                }
            },
        }
    }

    /// Moves the timers by one cycle where the interpreter drives them.
    fn cycle_timers(&mut self)
        ensures
            final(self)@ == cycle_timers(old(self)@),
    {
        match self.timer_mode {
            TimerMode::External => {},
            TimerMode::Cycle => {
                if self.delay_timer > 0 {
                    if self.dt_cycle_ct % 6 == 0 {
                        self.delay_timer -= 1;
                    }
                    self.dt_cycle_ct = if self.dt_cycle_ct == u128::MAX {
                        0
                    } else {
                        self.dt_cycle_ct + 1
                    };
                }
                if self.sound_timer > 0 {
                    self.sound_timer -= 1;
                    if self.sound_timer == 0 {
                        self.is_playing_sound = false;
                    }
                }
            },
        }
    }

    /// Reads the instruction at the program counter and moves past it.
    fn fetch(&mut self) -> (res: Result<(u8, u8), Chip8Error>)
        ensures
            (final(self)@, res) == fetch(old(self)@),
            res is Ok ==> final(self).program_counter <= 0x1000,
    {
        if self.program_counter >= 4095 {
            return Err(Chip8Error::InvalidMemoryAccess(self.program_counter));
        }
        let hi: u8 = self.memory[self.program_counter as usize];
        let lo: u8 = self.memory[self.program_counter as usize + 1];
        self.program_counter += 2;
        Ok((hi, lo))
    }

    /// Carries out `CXNN` with what the random source answered.
    fn random(&mut self, x: u8, nn: u8, entropy: Result<u32, getrandom::Error>) -> (res: Result<
        (),
        Chip8Error,
    >)
        requires
            x < 16,
        ensures
            (final(self)@, res) == random(old(self)@, x as int, nn, entropy),
    {
        match entropy {
            Ok(number) => {
                self.register[x as usize] = ((number & 0xFF) as u8) & nn;
                Ok(())
            },
            Err(e) => Err(Chip8Error::IssueGeneratingRandomNum(e)),
        }
    }

    /// Carries out an instruction of any class but C.
    fn instruction(&mut self, hi: u8, lo: u8) -> (res: Result<(), Chip8Error>)
        requires
            old(self).program_counter <= 0x1000,
            class_of(hi) != 0xC,
        ensures
            forall|entropy: Result<u32, getrandom::Error>|
                (final(self)@, res) == #[trigger] execute(old(self)@, hi, lo, entropy),
    {
        let class: u8 = hi / 16;
        let x: u8 = hi % 16;
        let y: u8 = lo / 16;
        let n: u8 = lo % 16;
        let target: u16 = Chip8Sys::nnn(x, y, n);
        if class == 0x0 {
            self.system(lo)
        } else if class == 0x1 {
            self.program_counter = target;
            Ok(())
        } else if class == 0x2 {
            self.call(target)
        } else if class == 0x3 {
            if self.register[x as usize] == lo {
                self.program_counter += 2;
            }
            Ok(())
        } else if class == 0x4 {
            if self.register[x as usize] != lo {
                self.program_counter += 2;
            }
            Ok(())
        } else if class == 0x5 {
            if self.register[x as usize] == self.register[y as usize] {
                self.program_counter += 2;
            }
            Ok(())
        } else if class == 0x6 {
            self.register[x as usize] = lo;
            Ok(())
        } else if class == 0x7 {
            let sum: u16 = self.register[x as usize] as u16 + lo as u16;
            self.set_result_and_flag(x, (sum % 256) as u8, (sum / 256) as u8);
            Ok(())
        } else if class == 0x8 {
            self.arithmetic(x, y, n)
        } else if class == 0x9 {
            if self.register[x as usize] != self.register[y as usize] {
                self.program_counter += 2;
            }
            Ok(())
        } else if class == 0xA {
            self.register_i = target;
            Ok(())
        } else if class == 0xB {
            self.program_counter = self.register[0] as u16 + target;
            Ok(())
        } else if class == 0xD {
            self.draw(x, y, n)
        } else if class == 0xE {
            self.key_skip(x, lo)
        } else {
            self.timer_or_memory(x, lo)
        }
    }

    /// Carries out `0XNN`: clear the display or return.
    fn system(&mut self, lo: u8) -> (res: Result<(), Chip8Error>)
        ensures
            (final(self)@, res) == system(old(self)@, lo),
    {
        if lo == 0xE0 {
            self.frame_buffer = [0x00;256];
            assert(self.frame_buffer@ =~= Seq::new(256, |i: int| 0u8));
            Ok(())
        } else if lo == 0xEE {
            let sp: u8 = self.stack_pointer;
            if sp == 0 || sp > 15 {
                return Err(Chip8Error::InvalidStackPointer(sp));
            }
            self.program_counter = self.stack[sp as usize];
            self.stack[sp as usize] = 0;
            self.stack_pointer = sp - 1;
            Ok(())
        } else {
            Err(Chip8Error::Invalid0x0NNN(lo / 16, lo % 16))
        }
    }

    /// Carries out `2NNN`.
    fn call(&mut self, target: u16) -> (res: Result<(), Chip8Error>)
        ensures
            (final(self)@, res) == subroutine_call(old(self)@, target),
    {
        let sp: u8 = self.stack_pointer;
        if sp >= 15 {
            return Err(Chip8Error::InvalidStackPointer(sp));
        }
        self.stack_pointer = sp + 1;
        self.stack[sp as usize + 1] = self.program_counter;
        self.program_counter = target;
        Ok(())
    }

    /// Carries out `8XYN`.
    fn arithmetic(&mut self, x: u8, y: u8, n: u8) -> (res: Result<(), Chip8Error>)
        requires
            x < 16,
            y < 16,
        ensures
            (final(self)@, res) == arithmetic(old(self)@, x as int, y as int, n as int),
    {
        let vx: u8 = self.register[x as usize];
        let vy: u8 = self.register[y as usize];
        let operand: u8 = if self.is_mod_vx_in_place {
            vx
        } else {
            vy
        };
        if n == 0 {
            self.register[x as usize] = vy;
        } else if n == 1 {
            self.set_logic(x, vx | vy);
        } else if n == 2 {
            self.set_logic(x, vx & vy);
        } else if n == 3 {
            self.set_logic(x, vx ^ vy);
        } else if n == 4 {
            let sum: u16 = vx as u16 + vy as u16;
            self.set_result_and_flag(x, (sum % 256) as u8, (sum / 256) as u8);
        } else if n == 5 {
            let (difference, flag) = Self::subtract(vx, vy);
            self.set_result_and_flag(x, difference, flag);
        } else if n == 6 {
            assert(operand >> 1 == operand / 2 && operand & 1 == operand % 2) by (bit_vector);
            self.set_result_and_flag(x, operand >> 1, operand & 0x1);
        } else if n == 7 {
            let (difference, flag) = Self::subtract(vy, vx);
            self.set_result_and_flag(x, difference, flag);
        } else if n == 0xE {
            assert(operand << 1 == (operand + operand) % 256 && (operand & 0b1000) >> 3 == (operand
                / 8) % 2) by (bit_vector);
            self.set_result_and_flag(x, operand << 1, (operand & 0b1000) >> 3);
        } else {
            return Err(Chip8Error::Invalid0x8XYN(n));
        }
        Ok(())
    }

    /// `a - b` modulo 256, and 1 where that needed no borrow, else 0.
    fn subtract(a: u8, b: u8) -> (res: (u8, u8))
        ensures
            res.0 == wrapped_difference(a, b),
            res.1 == no_borrow(a, b),
    {
        if a < b {
            (((a as u16 + 256 - b as u16) % 256) as u8, 0)
        } else {
            (a - b, 1)
        }
    }

    /// Stores a result in register `x` and then the flag in VF.
    fn set_result_and_flag(&mut self, x: u8, value: u8, flag: u8)
        requires
            x < 16,
        ensures
            final(self)@ == with_result_and_flag(old(self)@, x as int, value, flag),
    {
        self.register[x as usize] = value;
        self.register[0xF] = flag;
    }

    /// Stores the result of a logic operation in register `x`.
    fn set_logic(&mut self, x: u8, value: u8)
        requires
            x < 16,
        ensures
            final(self)@ == logic(old(self)@, x as int, value),
    {
        self.register[x as usize] = value;
        if self.is_register_f_reset {
            self.register[0xF] = 0;
        }
    }

    /// Carries out `EX9E` and `EXA1`.
    fn key_skip(&mut self, x: u8, lo: u8) -> (res: Result<(), Chip8Error>)
        requires
            x < 16,
            old(self).program_counter <= 0x1000,
        ensures
            (final(self)@, res) == key_skip(old(self)@, x as int, lo),
    {
        if lo != 0x9E && lo != 0xA1 {
            return Err(Chip8Error::Invalid0xENNN(lo / 16, lo % 16));
        }
        let key: u8 = self.register[x as usize];
        if key >= 16 {
            return Err(Chip8Error::InvalidRegisterX(x));
        }
        if self.keys[key as usize] == (lo == 0x9E) {
            self.program_counter += 2;
        }
        Ok(())
    }

    /// Carries out `FXNN`.
    fn timer_or_memory(&mut self, x: u8, lo: u8) -> (res: Result<(), Chip8Error>)
        requires
            x < 16,
        ensures
            (final(self)@, res) == timer_or_memory(old(self)@, x as int, lo),
    {
        let vx: u8 = self.register[x as usize];
        if lo == 0x07 {
            self.register[x as usize] = self.delay_timer;
            Ok(())
        } else if lo == 0x0A {
            self.wait(x)
        } else if lo == 0x15 {
            self.delay_timer = vx;
            self.dt_cycle_ct = 0;
            Ok(())
        } else if lo == 0x18 {
            self.sound_timer = vx;
            self.is_playing_sound = true;
            Ok(())
        } else if lo == 0x1E {
            self.register_i = ((self.register_i as u32 + vx as u32) % 0x1_0000) as u16;
            Ok(())
        } else if lo == 0x29 {
            self.register_i = 0x050 + x as u16 * 5;
            Ok(())
        } else if lo == 0x33 {
            self.store_decimal(x)
        } else if lo == 0x55 {
            self.store_registers(x)
        } else if lo == 0x65 {
            self.load_registers(x)
        } else {
            Err(Chip8Error::Invalid0xFNNN(lo / 16, lo % 16))
        }
    }

    /// Writes the three decimal digits of VX at the index register.
    fn store_decimal(&mut self, x: u8) -> (res: Result<(), Chip8Error>)
        requires
            x < 16,
        ensures
            (final(self)@, res) == store_decimal(old(self)@, x as int),
    {
        if self.register_i >= 4094 {
            return Err(Chip8Error::InvalidMemoryAccess(self.register_i));
        }
        let value: u8 = self.register[x as usize];
        let base: usize = self.register_i as usize;
        self.memory[base] = value / 100;
        self.memory[base + 1] = (value / 10) % 10;
        self.memory[base + 2] = value % 10;
        Ok(())
    }

    /// Copies V0 to VX into memory at the index register.
    fn store_registers(&mut self, x: u8) -> (res: Result<(), Chip8Error>)
        requires
            x < 16,
        ensures
            (final(self)@, res) == store_registers(old(self)@, x as int),
    {
        if self.register_i as usize + x as usize >= 4096 {
            return Err(Chip8Error::InvalidMemoryAccess(self.register_i));
        }
        let base: usize = self.register_i as usize;
        let mut count: usize = 0;
        while count <= x as usize
            invariant
                x < 16,
                count <= x + 1,
                base == old(self).register_i,
                base + x < 4096,
                self@ == (Machine { memory: self.memory@, ..old(self)@ }),
                forall|a: int|
                    0 <= a < 4096 ==> self.memory[a] == (if base <= a < base + count {
                        old(self).register[a - base]
                    } else {
                        old(self).memory[a]
                    }),
            decreases x + 1 - count,
        {
            self.memory[base + count] = self.register[count];
            count += 1;
        }
        if self.is_inc_index {
            self.register_i = self.register_i + x as u16 + 1;
        }
        assert(self.memory@ =~= store_registers(old(self)@, x as int).0.memory);
        Ok(())
    }

    /// Reads V0 to VX from memory at the index register.
    fn load_registers(&mut self, x: u8) -> (res: Result<(), Chip8Error>)
        requires
            x < 16,
        ensures
            (final(self)@, res) == load_registers(old(self)@, x as int),
    {
        if self.register_i as usize + x as usize >= 4096 {
            return Err(Chip8Error::InvalidMemoryAccess(self.register_i));
        }
        let base: usize = self.register_i as usize;
        let mut count: usize = 0;
        while count <= x as usize
            invariant
                x < 16,
                count <= x + 1,
                base == old(self).register_i,
                base + x < 4096,
                self@ == (Machine { register: self.register@, ..old(self)@ }),
                forall|k: int|
                    0 <= k < 16 ==> self.register[k] == (if k < count {
                        old(self).memory[base + k]
                    } else {
                        old(self).register[k]
                    }),
            decreases x + 1 - count,
        {
            self.register[count] = self.memory[base + count];
            count += 1;
        }
        if self.is_inc_index {
            self.register_i = self.register_i + x as u16 + 1;
        }
        assert(self.register@ =~= load_registers(old(self)@, x as int).0.register);
        Ok(())
    }

    /// Carries out `DXYN`: draws the sprite of `n` rows at the index
    /// register from the pixel that registers `x` and `y` name.
    pub fn draw(&mut self, x: u8, y: u8, n: u8) -> (res: Result<(), Chip8Error>)
        requires
            x < 16,
            y < 16,
            n < 16,
        ensures
            (final(self)@, res) == draw_sprite(old(self)@, x as int, y as int, n as int),
    {
        let x_loc: u8 = self.register[x as usize] % 64;
        let y_loc: u8 = self.register[y as usize] % 32;
        let wrap: bool = self.is_wrap_draw;
        let rows: u8 = if wrap || n <= 32 - y_loc {
            n
        } else {
            32 - y_loc
        };
        if rows > 0 && self.register_i as usize + rows as usize > 4096 {
            return Err(Chip8Error::InvalidMemoryAccess(self.register_i));
        }
        let collision: bool = draw_rows(
            &mut self.frame_buffer,
            &self.memory,
            self.register_i as usize,
            rows,
            x_loc,
            y_loc,
            wrap,
        );
        if collision {
            self.register[0xF] = 1;
        }
        proof {
            law_rows_read_are_the_sprite(
                old(self).frame_buffer@,
                self.memory@,
                self.register_i as int,
                n as int,
                x_loc as int,
                y_loc as int,
                wrap,
            );
        }
        Ok(())
    }

    /// The byte NN from its two nibbles: `c` in the high half, `d` in the low.
    pub fn nn(c: u8, d: u8) -> (byte: u8)
        ensures
            byte == (c << 4) | d,
            c < 16 && d < 16 ==> byte == 16 * c + d,
    {
        assert(c < 16 && d < 16 ==> ((c << 4) | d) == 16 * c + d) by (bit_vector);
        c << 4 | d
    }

    /// The address NNN from its three nibbles, `b` the highest.
    pub fn nnn(b: u8, c: u8, d: u8) -> (address: u16)
        ensures
            address == ((b as u16) << 8) | (((c << 4) | d) as u16),
            b < 16 && c < 16 && d < 16 ==> address == 256 * b + 16 * c + d,
    {
        assert(b < 16 && c < 16 && d < 16 ==> (((b as u16) << 8) | (((c << 4) | d) as u16)) == 256
            * b + 16 * c + d) by (bit_vector);
        (b as u16) << 8 | (c << 4 | d) as u16
    }
}

} // verus!
