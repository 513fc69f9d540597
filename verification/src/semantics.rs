//! What one cycle of the interpreter does, as functions on the model.

use crate::chip8::TimerMode;
use crate::chip8error::Chip8Error;
use crate::display::{collides, drawn, rows_drawn};
use crate::machine::Machine;
use vstd::prelude::*;

verus! {

/// The lowest index at or after `from` of a pressed key, or the number of
/// keys where none is pressed there.
pub open spec fn first_pressed(keys: Seq<bool>, from: int) -> int
    decreases keys.len() - from,
{
    if from < 0 || from >= keys.len() {
        keys.len() as int
    } else if keys[from] {
        from
    } else {
        first_pressed(keys, from + 1)
    }
}

/// The start of a cycle on a machine that may be suspended on a key. The
/// flag says whether it stays suspended. A running machine is untouched; a
/// suspended one stays as it is while no key is pressed, and otherwise
/// stores the lowest pressed key in the awaiting register and runs again.
pub open spec fn resume(m: Machine) -> (Machine, Result<bool, Chip8Error>) {
    match m.wait_for_key_press {
        None => (m, Ok(false)),
        Some(r) => {
            let key = first_pressed(m.keys, 0);
            if r > 0xF {
                (m, Err(Chip8Error::InvalidWaitRegister(r)))
            } else if key < m.keys.len() {
                (
                    Machine {
                        register: m.register.update(r as int, key as u8),
                        wait_for_key_press: None,
                        ..m
                    },
                    Ok(false),
                )
            } else {
                (m, Ok(true))
            }
        },
    }
}

/// The timers after one cycle. Under `TimerMode::External` the cycle leaves
/// them alone. Under `TimerMode::Cycle` a running delay timer counts the
/// cycle and goes down on every sixth one, starting with the first after it
/// was set; a running sound timer goes down on every cycle and turns the
/// sound signal off when it reaches zero. The count of cycles starts over
/// after its largest value.
pub open spec fn cycle_timers(m: Machine) -> Machine {
    if m.timer_mode == TimerMode::Cycle {
        Machine {
            delay_timer: if m.delay_timer > 0 && m.dt_cycle_ct % 6 == 0 {
                (m.delay_timer - 1) as u8
            } else {
                m.delay_timer
            },
            dt_cycle_ct: if m.delay_timer == 0 {
                m.dt_cycle_ct
            } else if m.dt_cycle_ct == u128::MAX {
                0u128
            } else {
                (m.dt_cycle_ct + 1) as u128
            },
            sound_timer: if m.sound_timer > 0 {
                (m.sound_timer - 1) as u8
            } else {
                0u8
            },
            is_playing_sound: m.is_playing_sound && m.sound_timer != 1,
            ..m
        }
    } else {
        m
    }
}

/// Whether both bytes of the instruction at the program counter lie in memory.
pub open spec fn fetchable(m: Machine) -> bool {
    m.program_counter + 1 < 4096
}

/// The fetch: the two bytes at the program counter, which then points past
/// them. A program counter that leaves no room for an instruction is refused.
pub open spec fn fetch(m: Machine) -> (Machine, Result<(u8, u8), Chip8Error>) {
    if fetchable(m) {
        (
            Machine { program_counter: (m.program_counter + 2) as u16, ..m },
            Ok((m.memory[m.program_counter as int], m.memory[m.program_counter + 1])),
        )
    } else {
        (m, Err(Chip8Error::InvalidMemoryAccess(m.program_counter)))
    }
}

/// The part of a cycle that comes before the instruction is carried out:
/// the key wait, the timers, the fetch. `Ok(None)` is a suspended cycle.
pub open spec fn begin_cycle(m: Machine) -> (Machine, Result<Option<(u8, u8)>, Chip8Error>) {
    let (resumed, state) = resume(m);
    match state {
        Err(e) => (resumed, Err(e)),
        Ok(true) => (resumed, Ok(None)),
        Ok(false) => {
            let (fetched, word) = fetch(cycle_timers(resumed));
            match word {
                Err(e) => (fetched, Err(e)),
                Ok(w) => (fetched, Ok(Some(w))),
            }
        },
    }
}

/// The instruction class: the top nibble of the high byte.
pub open spec fn class_of(hi: u8) -> int {
    hi as int / 16
}

/// The operand X: the low nibble of the high byte.
pub open spec fn x_of(hi: u8) -> int {
    hi as int % 16
}

/// The operand Y: the top nibble of the low byte.
pub open spec fn y_of(lo: u8) -> int {
    lo as int / 16
}

/// The operand N: the low nibble of the low byte.
pub open spec fn n_of(lo: u8) -> int {
    lo as int % 16
}

/// The operand NNN: the low twelve bits of the instruction.
pub open spec fn nnn_of(hi: u8, lo: u8) -> u16 {
    ((hi as int % 16) * 256 + lo) as u16
}

/// The machine with register `x` set to `value`.
pub open spec fn with_register(m: Machine, x: int, value: u8) -> Machine {
    Machine { register: m.register.update(x, value), ..m }
}

/// The machine with register `x` set to `value` and then VF set to `flag`:
/// where `x` is VF itself, the flag is what remains.
pub open spec fn with_result_and_flag(m: Machine, x: int, value: u8, flag: u8) -> Machine {
    Machine { register: m.register.update(x, value).update(0xF, flag), ..m }
}

/// The machine with the program counter moved past one more instruction
/// where `taken` holds.
pub open spec fn skip_if(m: Machine, taken: bool) -> Machine {
    if taken {
        Machine { program_counter: (m.program_counter + 2) as u16, ..m }
    } else {
        m
    }
}

/// `00EE`: the program counter takes the address in the slot at the stack
/// pointer, the slot is cleared and the pointer goes down. It is refused
/// where the pointer marks no frame.
pub open spec fn subroutine_return(m: Machine) -> (Machine, Result<(), Chip8Error>) {
    if 1 <= m.stack_pointer <= 15 {
        (
            Machine {
                program_counter: m.stack[m.stack_pointer as int],
                stack: m.stack.update(m.stack_pointer as int, 0u16),
                stack_pointer: (m.stack_pointer - 1) as u8,
                ..m
            },
            Ok(()),
        )
    } else {
        (m, Err(Chip8Error::InvalidStackPointer(m.stack_pointer)))
    }
}

/// `2NNN`: the stack pointer goes up, the slot it then marks takes the
/// program counter, and execution continues at `target`. It is refused
/// where no slot is left.
pub open spec fn subroutine_call(m: Machine, target: u16) -> (Machine, Result<(), Chip8Error>) {
    if m.stack_pointer < 15 {
        (
            Machine {
                program_counter: target,
                stack: m.stack.update(m.stack_pointer + 1, m.program_counter),
                stack_pointer: (m.stack_pointer + 1) as u8,
                ..m
            },
            Ok(()),
        )
    } else {
        (m, Err(Chip8Error::InvalidStackPointer(m.stack_pointer)))
    }
}

/// Whether NN names an operation of class 0.
pub open spec fn system_known(lo: u8) -> bool {
    lo == 0xE0 || lo == 0xEE
}

/// `0XNN`: `E0` in the low byte clears the display and `EE` returns from a
/// subroutine. Every other low byte names nothing and is refused. The
/// nibble X takes no part in the match: `0XE0` clears and `0XEE` returns
/// whatever X is.
pub open spec fn system(m: Machine, lo: u8) -> (Machine, Result<(), Chip8Error>) {
    if lo == 0xE0 {
        (Machine { frame_buffer: Seq::new(256, |i: int| 0u8), ..m }, Ok(()))
    } else if lo == 0xEE {
        subroutine_return(m)
    } else {
        (m, Err(Chip8Error::Invalid0x0NNN(lo / 16, lo % 16)))
    }
}

/// The sum of two bytes modulo 256.
pub open spec fn wrapped_sum(a: u8, b: u8) -> u8 {
    ((a + b) % 256) as u8
}

/// 1 where the sum of two bytes exceeds 255, else 0.
pub open spec fn carry(a: u8, b: u8) -> u8 {
    if a + b > 255 {
        1u8
    } else {
        0u8
    }
}

/// The difference `a - b` modulo 256.
pub open spec fn wrapped_difference(a: u8, b: u8) -> u8 {
    ((a - b) % 256) as u8
}

/// 1 where `a - b` needs no borrow, else 0.
pub open spec fn no_borrow(a: u8, b: u8) -> u8 {
    if a >= b {
        1u8
    } else {
        0u8
    }
}

/// Whether N names an operation of class 8.
pub open spec fn arithmetic_known(n: int) -> bool {
    0 <= n <= 7 || n == 0xE
}

/// `8XYN`: copy, the three logic operations, add, the two subtractions and
/// the two shifts. The arithmetic ones leave carry, no-borrow or the bit
/// shifted out in VF; the left shift reports bit 3 of its operand. The
/// logic ones clear VF where the quirk says so. The shifts take VX where
/// the quirk says so, else VY.
pub open spec fn arithmetic(m: Machine, x: int, y: int, n: int) -> (
    Machine,
    Result<(), Chip8Error>,
) {
    let vx = m.register[x];
    let vy = m.register[y];
    let operand = if m.quirks.shift_uses_vx {
        vx
    } else {
        vy
    };
    if n == 0 {
        (with_register(m, x, vy), Ok(()))
    } else if n == 1 {
        (logic(m, x, vx | vy), Ok(()))
    } else if n == 2 {
        (logic(m, x, vx & vy), Ok(()))
    } else if n == 3 {
        (logic(m, x, vx ^ vy), Ok(()))
    } else if n == 4 {
        (with_result_and_flag(m, x, wrapped_sum(vx, vy), carry(vx, vy)), Ok(()))
    } else if n == 5 {
        (with_result_and_flag(m, x, wrapped_difference(vx, vy), no_borrow(vx, vy)), Ok(()))
    } else if n == 6 {
        (with_result_and_flag(m, x, operand / 2, operand % 2), Ok(()))
    } else if n == 7 {
        (with_result_and_flag(m, x, wrapped_difference(vy, vx), no_borrow(vy, vx)), Ok(()))
    } else if n == 0xE {
        (with_result_and_flag(m, x, wrapped_sum(operand, operand), (operand / 8) % 2), Ok(()))
    } else {
        (m, Err(Chip8Error::Invalid0x8XYN(n as u8)))
    }
}

/// The machine after a logic operation stored `value` in register `x`.
pub open spec fn logic(m: Machine, x: int, value: u8) -> Machine {
    if m.quirks.reset_vf_on_logic {
        with_result_and_flag(m, x, value, 0)
    } else {
        with_register(m, x, value)
    }
}

/// `CXNN` once the random source has answered: the low byte of the number
/// drawn, masked with NN, goes to register `x`; a failure of the source is
/// passed on and changes nothing.
pub open spec fn random(m: Machine, x: int, nn: u8, entropy: Result<u32, getrandom::Error>) -> (
    Machine,
    Result<(), Chip8Error>,
) {
    match entropy {
        Ok(number) => (with_register(m, x, ((number & 0xFF) as u8) & nn), Ok(())),
        Err(e) => (m, Err(Chip8Error::IssueGeneratingRandomNum(e))),
    }
}

/// `DXYN`: the sprite of N rows at the index register is drawn from the
/// pixel whose column is VX modulo 64 and whose row is VY modulo 32; VF
/// becomes 1 where a lit pixel goes out and is otherwise left as it was.
/// It is refused, and nothing is drawn, where a row to be read lies
/// outside memory; a sprite without rows reads none.
pub open spec fn draw_sprite(m: Machine, x: int, y: int, n: int) -> (
    Machine,
    Result<(), Chip8Error>,
) {
    let x0 = m.register[x] as int % 64;
    let y0 = m.register[y] as int % 32;
    let wrap = m.quirks.wrap_draw;
    let base = m.register_i as int;
    if rows_drawn(wrap, y0, n) > 0 && base + rows_drawn(wrap, y0, n) > 4096 {
        (m, Err(Chip8Error::InvalidMemoryAccess(m.register_i)))
    } else {
        (
            Machine {
                frame_buffer: drawn(m.frame_buffer, m.memory, base, n, x0, y0, wrap),
                register: if collides(m.frame_buffer, m.memory, base, n, x0, y0, wrap) {
                    m.register.update(0xF, 1u8)
                } else {
                    m.register
                },
                ..m
            },
            Ok(()),
        )
    }
}

/// `EX9E` and `EXA1`: skip the next instruction where the key whose number
/// is in VX is pressed, or is not pressed. A number that names no key is
/// refused.
pub open spec fn key_skip(m: Machine, x: int, lo: u8) -> (Machine, Result<(), Chip8Error>) {
    let key = m.register[x];
    if lo != 0x9E && lo != 0xA1 {
        (m, Err(Chip8Error::Invalid0xENNN(lo / 16, lo % 16)))
    } else if key >= 16 {
        (m, Err(Chip8Error::InvalidRegisterX(x as u8)))
    } else {
        (skip_if(m, m.keys[key as int] == (lo == 0x9E)), Ok(()))
    }
}

/// Whether NN names an operation of class F.
pub open spec fn timer_or_memory_known(lo: u8) -> bool {
    lo == 0x07 || lo == 0x0A || lo == 0x15 || lo == 0x18 || lo == 0x1E || lo == 0x29 || lo == 0x33
        || lo == 0x55 || lo == 0x65
}

/// `FX33`: the hundreds, tens and ones of VX go to the three bytes at the
/// index register.
pub open spec fn store_decimal(m: Machine, x: int) -> (Machine, Result<(), Chip8Error>) {
    let value = m.register[x];
    let base = m.register_i as int;
    if base + 2 < 4096 {
        (
            Machine {
                memory: m.memory.update(base, value / 100).update(
                    base + 1,
                    (value / 10) % 10,
                ).update(base + 2, value % 10),
                ..m
            },
            Ok(()),
        )
    } else {
        (m, Err(Chip8Error::InvalidMemoryAccess(m.register_i)))
    }
}

/// The index register after a block transfer of registers V0 to VX.
pub open spec fn index_after_block(m: Machine, x: int) -> u16 {
    if m.quirks.increment_i_on_store {
        (m.register_i + x + 1) as u16
    } else {
        m.register_i
    }
}

/// `FX55`: registers V0 to VX go to memory from the index register on.
pub open spec fn store_registers(m: Machine, x: int) -> (Machine, Result<(), Chip8Error>) {
    let base = m.register_i as int;
    if base + x < 4096 {
        (
            Machine {
                memory: Seq::new(
                    4096,
                    |a: int|
                        if base <= a <= base + x {
                            m.register[a - base]
                        } else {
                            m.memory[a]
                        },
                ),
                register_i: index_after_block(m, x),
                ..m
            },
            Ok(()),
        )
    } else {
        (m, Err(Chip8Error::InvalidMemoryAccess(m.register_i)))
    }
}

/// `FX65`: registers V0 to VX are read from memory at the index register.
pub open spec fn load_registers(m: Machine, x: int) -> (Machine, Result<(), Chip8Error>) {
    let base = m.register_i as int;
    if base + x < 4096 {
        (
            Machine {
                register: Seq::new(
                    16,
                    |k: int|
                        if k <= x {
                            m.memory[base + k]
                        } else {
                            m.register[k]
                        },
                ),
                register_i: index_after_block(m, x),
                ..m
            },
            Ok(()),
        )
    } else {
        (m, Err(Chip8Error::InvalidMemoryAccess(m.register_i)))
    }
}

/// `FXNN`: the timers, the key wait, and the operations on the index
/// register and the memory it points to.
pub open spec fn timer_or_memory(m: Machine, x: int, lo: u8) -> (
    Machine,
    Result<(), Chip8Error>,
) {
    let vx = m.register[x];
    if lo == 0x07 {
        (with_register(m, x, m.delay_timer), Ok(()))
    } else if lo == 0x0A {
        (Machine { wait_for_key_press: Some(x as u8), ..m }, Ok(()))
    } else if lo == 0x15 {
        (Machine { delay_timer: vx, dt_cycle_ct: 0, ..m }, Ok(()))
    } else if lo == 0x18 {
        (Machine { sound_timer: vx, is_playing_sound: true, ..m }, Ok(()))
    } else if lo == 0x1E {
        (Machine { register_i: ((m.register_i + vx) % 0x1_0000) as u16, ..m }, Ok(()))
    } else if lo == 0x29 {
        (Machine { register_i: (0x050 + 5 * x) as u16, ..m }, Ok(()))
    } else if lo == 0x33 {
        store_decimal(m, x)
    } else if lo == 0x55 {
        store_registers(m, x)
    } else if lo == 0x65 {
        load_registers(m, x)
    } else {
        (m, Err(Chip8Error::Invalid0xFNNN(lo / 16, lo % 16)))
    }
}

/// What the instruction `hi lo` does to a machine whose program counter
/// already points past it, given what the random source answers if it is
/// asked. Only class C asks it. Every word is either carried out or
/// refused with a failure.
pub open spec fn execute(m: Machine, hi: u8, lo: u8, entropy: Result<u32, getrandom::Error>) -> (
    Machine,
    Result<(), Chip8Error>,
) {
    let class = class_of(hi);
    let x = x_of(hi);
    let y = y_of(lo);
    let nnn = nnn_of(hi, lo);
    if class == 0x0 {
        system(m, lo)
    } else if class == 0x1 {
        (Machine { program_counter: nnn, ..m }, Ok(()))
    } else if class == 0x2 {
        subroutine_call(m, nnn)
    } else if class == 0x3 {
        (skip_if(m, m.register[x] == lo), Ok(()))
    } else if class == 0x4 {
        (skip_if(m, m.register[x] != lo), Ok(()))
    } else if class == 0x5 {
        (skip_if(m, m.register[x] == m.register[y]), Ok(()))
    } else if class == 0x6 {
        (with_register(m, x, lo), Ok(()))
    } else if class == 0x7 {
        (
            with_result_and_flag(m, x, wrapped_sum(m.register[x], lo), carry(m.register[x], lo)),
            Ok(()),
        )
    } else if class == 0x8 {
        arithmetic(m, x, y, n_of(lo))
    } else if class == 0x9 {
        (skip_if(m, m.register[x] != m.register[y]), Ok(()))
    } else if class == 0xA {
        (Machine { register_i: nnn, ..m }, Ok(()))
    } else if class == 0xB {
        (Machine { program_counter: (m.register[0] + nnn) as u16, ..m }, Ok(()))
    } else if class == 0xC {
        random(m, x, lo, entropy)
    } else if class == 0xD {
        draw_sprite(m, x, y, n_of(lo))
    } else if class == 0xE {
        key_skip(m, x, lo)
    } else {
        timer_or_memory(m, x, lo)
    }
}

/// One whole cycle, given what the random source answers if it is asked.
pub open spec fn cycle(m: Machine, entropy: Result<u32, getrandom::Error>) -> (
    Machine,
    Result<(), Chip8Error>,
) {
    let (fetched, word) = begin_cycle(m);
    match word {
        Err(e) => (fetched, Err(e)),
        Ok(None) => (fetched, Ok(())),
        Ok(Some((hi, lo))) => execute(fetched, hi, lo, entropy),
    }
}

/// The first `n` cycles, cycle `i` with the answer `entropy[i]` of the
/// random source. The first failure ends the run: the machine stays as
/// that cycle left it.
pub open spec fn cycles(m: Machine, entropy: Seq<Result<u32, getrandom::Error>>, n: nat) -> (
    Machine,
    Result<(), Chip8Error>,
)
    decreases n,
{
    if n == 0 {
        (m, Ok(()))
    } else {
        let (before, res) = cycles(m, entropy, (n - 1) as nat);
        match res {
            Err(e) => (before, Err(e)),
            Ok(_) => cycle(before, entropy[n - 1]),
        }
    }
}

/// The first `n` cycles depend on the first `n` answers only.
pub proof fn lemma_cycles_use_prefix(
    m: Machine,
    first: Seq<Result<u32, getrandom::Error>>,
    second: Seq<Result<u32, getrandom::Error>>,
    n: nat,
)
    requires
        forall|i: int| 0 <= i < n ==> first[i] == second[i],
    ensures
        cycles(m, first, n) == cycles(m, second, n),
    decreases n,
{
    if n > 0 {
        lemma_cycles_use_prefix(m, first, second, (n - 1) as nat);
    }
}

/// After a failure nothing more is run.
pub proof fn lemma_cycles_end_at_failure(
    m: Machine,
    entropy: Seq<Result<u32, getrandom::Error>>,
    failed: nat,
    n: nat,
)
    requires
        failed <= n,
        cycles(m, entropy, failed).1 is Err,
    ensures
        cycles(m, entropy, n) == cycles(m, entropy, failed),
    decreases n,
{
    if n > failed {
        lemma_cycles_end_at_failure(m, entropy, failed, (n - 1) as nat);
    }
}

} // verus!
