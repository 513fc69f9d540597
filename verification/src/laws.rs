//! What holds of every machine and every instruction: the laws that the
//! semantics of a cycle obeys.

use crate::chip8error::Chip8Error;
use crate::display::law_drawn_has_the_size_of_the_display;
use crate::machine::{keys_of_mask, mask_bit, power_on, timers_ticked, Machine};
use crate::semantics::{
    arithmetic_known, begin_cycle, class_of, cycle, cycle_timers, execute, first_pressed, n_of,
    nnn_of, system_known, timer_or_memory_known, x_of, y_of,
};
use vstd::prelude::*;

verus! {

/// The failure that an instruction word earns by itself, whatever the
/// machine holds: an unknown operation of class 0, 8, E or F.
pub open spec fn unknown_operation(hi: u8, lo: u8) -> Option<Chip8Error> {
    if class_of(hi) == 0x0 && !system_known(lo) {
        Some(Chip8Error::Invalid0x0NNN(lo / 16, lo % 16))
    } else if class_of(hi) == 0x8 && !arithmetic_known(n_of(lo)) {
        Some(Chip8Error::Invalid0x8XYN((lo % 16) as u8))
    } else if class_of(hi) == 0xE && lo != 0x9E && lo != 0xA1 {
        Some(Chip8Error::Invalid0xENNN(lo / 16, lo % 16))
    } else if class_of(hi) == 0xF && !timer_or_memory_known(lo) {
        Some(Chip8Error::Invalid0xFNNN(lo / 16, lo % 16))
    } else {
        None
    }
}

/// Whether a failure says that the instruction word itself is unknown.
pub open spec fn is_decode_failure(e: Chip8Error) -> bool {
    e is InvalidFirstByte || e is Invalid0x0NNN || e is Invalid0x8XYN || e is Invalid0xENNN
        || e is Invalid0xFNNN
}

/// Decoding is total, and no instruction is dropped in silence. An
/// instruction word that names no operation, in class 0, 8, E or F, is
/// refused with the failure that classifies it and leaves the machine as
/// the fetch left it; every other word is carried out, and can then only
/// fail for what the machine holds or for want of entropy, never as an
/// unknown instruction. The top nibble always names a class.
pub proof fn law_decoding_is_total(
    m: Machine,
    hi: u8,
    lo: u8,
    entropy: Result<u32, getrandom::Error>,
)
    ensures
        match unknown_operation(hi, lo) {
            Some(e) => execute(m, hi, lo, entropy) == (m, Err::<(), Chip8Error>(e)),
            None => match execute(m, hi, lo, entropy).1 {
                Ok(_) => true,
                Err(e) => !is_decode_failure(e),
            },
        },
        !(execute(m, hi, lo, entropy).1 matches Err(Chip8Error::InvalidFirstByte(_))),
{
}

/// Reset keeps the quirks and the timer mode and nothing else: registers,
/// stack, timers, keypad and display are zero, memory holds the font and
/// zeros, the program counter is at `0x200` and nothing is awaited.
/// Resetting twice is resetting once.
pub proof fn law_reset(m: Machine)
    ensures
        ({
            let fresh = power_on(m.quirks, m.timer_mode);
            &&& fresh.quirks == m.quirks
            &&& fresh.timer_mode == m.timer_mode
            &&& fresh.well_formed()
            &&& fresh.program_counter == 0x200
            &&& fresh.register_i == 0
            &&& fresh.stack_pointer == 0
            &&& fresh.delay_timer == 0
            &&& fresh.sound_timer == 0
            &&& fresh.dt_cycle_ct == 0
            &&& !fresh.is_playing_sound
            &&& fresh.wait_for_key_press is None
            &&& forall|i: int| 0 <= i < 16 ==> fresh.register[i] == 0
            &&& forall|i: int| 0 <= i < 16 ==> fresh.stack[i] == 0
            &&& forall|i: int| 0 <= i < 16 ==> !fresh.keys[i]
            &&& forall|i: int| 0 <= i < 256 ==> fresh.frame_buffer[i] == 0
            &&& forall|a: int| 0 <= a < 4096 && !(0x050 <= a < 0x0A0) ==> fresh.memory[a] == 0
            &&& power_on(fresh.quirks, fresh.timer_mode) == fresh
        }),
{
}

/// An instruction keeps the shape of the machine: every part keeps its
/// length.
pub proof fn law_instruction_keeps_shape(
    m: Machine,
    hi: u8,
    lo: u8,
    entropy: Result<u32, getrandom::Error>,
)
    requires
        m.well_formed(),
    ensures
        execute(m, hi, lo, entropy).0.well_formed(),
{
    if class_of(hi) == 0xD {
        law_drawn_has_the_size_of_the_display(
            m.frame_buffer,
            m.memory,
            m.register_i as int,
            n_of(lo),
            m.register[x_of(hi)] as int % 64,
            m.register[y_of(lo)] as int % 32,
            m.quirks.wrap_draw,
        );
    }
}

/// A cycle keeps the shape of the machine: every part keeps its length.
pub proof fn law_cycle_keeps_shape(m: Machine, entropy: Result<u32, getrandom::Error>)
    requires
        m.well_formed(),
    ensures
        cycle(m, entropy).0.well_formed(),
{
    let (fetched, word) = begin_cycle(m);
    assert(fetched.well_formed());
    if let Ok(Some((hi, lo))) = word {
        law_instruction_keeps_shape(fetched, hi, lo, entropy);
    }
}

/// The random source matters to `CXNN` alone: a cycle that is suspended,
/// fails before its instruction or carries out an instruction of another
/// class has the same outcome whatever the source would have answered.
pub proof fn law_entropy_matters_to_random_only(
    m: Machine,
    first: Result<u32, getrandom::Error>,
    second: Result<u32, getrandom::Error>,
)
    requires
        !(begin_cycle(m).1 matches Ok(Some(word)) && class_of(word.0) == 0xC),
    ensures
        cycle(m, first) == cycle(m, second),
{
}

/// Whether the sound signal is on exactly while the sound timer runs.
pub open spec fn signal_follows_timer(m: Machine) -> bool {
    m.is_playing_sound == (m.sound_timer > 0)
}

/// Where the sound signal is on exactly while the sound timer runs, it
/// stays so when the timers move, by a cycle or by the host, and when an
/// instruction is carried out, but for one case: `FX18` with zero in VX
/// turns the signal on and leaves the timer at zero.
pub proof fn law_signal_follows_timer(
    m: Machine,
    ticks: u32,
    hi: u8,
    lo: u8,
    entropy: Result<u32, getrandom::Error>,
)
    requires
        signal_follows_timer(m),
    ensures
        signal_follows_timer(cycle_timers(m)),
        signal_follows_timer(timers_ticked(m, ticks)),
        !(class_of(hi) == 0xF && lo == 0x18 && m.register[x_of(hi)] == 0) ==> signal_follows_timer(
            execute(m, hi, lo, entropy).0,
        ),
{
}

/// Whether the instruction `hi lo` sends a machine, whose program counter
/// already points past it, anywhere but to the instruction that follows: a
/// jump, a call or a return that is carried out and leads elsewhere, or a
/// skip that is taken. A return is `0XEE` with any X.
pub open spec fn redirects(m: Machine, hi: u8, lo: u8) -> bool {
    let class = class_of(hi);
    let vx = m.register[x_of(hi)];
    let vy = m.register[y_of(lo)];
    let target = nnn_of(hi, lo);
    let sp = m.stack_pointer;
    ||| class == 0x0 && lo == 0xEE && 1 <= sp <= 15 && m.stack[sp as int] != m.program_counter
    ||| class == 0x1 && target != m.program_counter
    ||| class == 0x2 && sp < 15 && target != m.program_counter
    ||| class == 0x3 && vx == lo
    ||| class == 0x4 && vx != lo
    ||| class == 0x5 && vx == vy
    ||| class == 0x9 && vx != vy
    ||| class == 0xB && m.register[0] + target != m.program_counter
    ||| class == 0xE && (lo == 0x9E || lo == 0xA1) && vx < 16 && m.keys[vx as int] == (lo == 0x9E)
}

/// A cycle that fetches an instruction moves the program counter by
/// exactly 2, whether the instruction succeeds or fails, unless the
/// instruction redirects it.
pub proof fn law_program_counter_advances(
    m: Machine,
    hi: u8,
    lo: u8,
    entropy: Result<u32, getrandom::Error>,
)
    requires
        begin_cycle(m).1 == Ok::<Option<(u8, u8)>, Chip8Error>(Some((hi, lo))),
    ensures
        begin_cycle(m).0.program_counter == m.program_counter + 2,
        (cycle(m, entropy).0.program_counter == m.program_counter + 2) <==> !redirects(
            begin_cycle(m).0,
            hi,
            lo,
        ),
{
}

/// `7XNN` and `8XY4` leave in VF exactly 1 where the sum exceeds 255 and 0
/// where it does not, and in VX, unless X is F, the sum modulo 256.
pub proof fn law_add_sets_carry(m: Machine, hi: u8, lo: u8, entropy: Result<u32, getrandom::Error>)
    requires
        m.well_formed(),
        class_of(hi) == 0x7 || (class_of(hi) == 0x8 && n_of(lo) == 4),
    ensures
        ({
            let x = x_of(hi);
            let a = m.register[x];
            let b = if class_of(hi) == 0x7 {
                lo
            } else {
                m.register[y_of(lo)]
            };
            let (after, res) = execute(m, hi, lo, entropy);
            &&& res is Ok
            &&& after.register[0xF] == (if a + b > 255 {
                1int
            } else {
                0int
            })
            &&& x != 0xF ==> after.register[x] == (a + b) % 256
            &&& forall|k: int| 0 <= k < 16 && k != x && k != 0xF ==> after.register[k] == m.register[k]
        }),
{
}

/// `8XY5` and `8XY7` leave in VF exactly 1 where the subtraction needs no
/// borrow and 0 where it does, and in VX, unless X is F, the difference
/// modulo 256: VX - VY for `8XY5`, VY - VX for `8XY7`.
pub proof fn law_subtract_sets_no_borrow(
    m: Machine,
    hi: u8,
    lo: u8,
    entropy: Result<u32, getrandom::Error>,
)
    requires
        m.well_formed(),
        class_of(hi) == 0x8,
        n_of(lo) == 5 || n_of(lo) == 7,
    ensures
        ({
            let x = x_of(hi);
            let vx = m.register[x];
            let vy = m.register[y_of(lo)];
            let minuend = if n_of(lo) == 5 {
                vx
            } else {
                vy
            };
            let subtrahend = if n_of(lo) == 5 {
                vy
            } else {
                vx
            };
            let (after, res) = execute(m, hi, lo, entropy);
            &&& res is Ok
            &&& after.register[0xF] == (if minuend >= subtrahend {
                1int
            } else {
                0int
            })
            &&& x != 0xF ==> after.register[x] == (minuend - subtrahend) % 256
            &&& forall|k: int| 0 <= k < 16 && k != x && k != 0xF ==> after.register[k] == m.register[k]
        }),
{
}

/// `first_pressed` finds the lowest pressed key at or after `from`.
pub proof fn lemma_first_pressed_is_lowest(keys: Seq<bool>, from: int)
    requires
        0 <= from <= keys.len(),
    ensures
        from <= first_pressed(keys, from) <= keys.len(),
        first_pressed(keys, from) < keys.len() ==> keys[first_pressed(keys, from)],
        forall|k: int| from <= k < first_pressed(keys, from) ==> !keys[k],
    decreases keys.len() - from,
{
    if from < keys.len() && !keys[from] {
        lemma_first_pressed_is_lowest(keys, from + 1);
    }
}

/// `FX0A` suspends the machine on register X and changes nothing else.
pub proof fn law_wait_begins(m: Machine, hi: u8, entropy: Result<u32, getrandom::Error>)
    requires
        class_of(hi) == 0xF,
    ensures
        execute(m, hi, 0x0A, entropy) == (
            Machine { wait_for_key_press: Some(x_of(hi) as u8), ..m },
            Ok::<(), Chip8Error>(()),
        ),
{
}

/// While a machine waits for a key and none is pressed, a cycle succeeds
/// and changes nothing: the program counter stays and no instruction runs.
pub proof fn law_wait_holds(m: Machine, entropy: Result<u32, getrandom::Error>)
    requires
        m.well_formed(),
        m.wait_for_key_press matches Some(r) && r <= 0xF,
        forall|k: int| 0 <= k < 16 ==> !m.keys[k],
    ensures
        cycle(m, entropy) == (m, Ok::<(), Chip8Error>(())),
{
    lemma_first_pressed_is_lowest(m.keys, 0);
}

/// Once a key is pressed, the cycle that sees it stores the lowest pressed
/// key in the awaiting register, ends the wait, and goes on at once as a
/// cycle of the running machine: it carries out the instruction that
/// follows the wait.
pub proof fn law_wait_ends(m: Machine, key: int, entropy: Result<u32, getrandom::Error>)
    requires
        m.well_formed(),
        m.wait_for_key_press matches Some(r) && r <= 0xF,
        0 <= key < 16,
        m.keys[key],
        forall|k: int| 0 <= k < key ==> !m.keys[k],
    ensures
        cycle(m, entropy) == cycle(
            Machine {
                register: m.register.update(m.wait_for_key_press->0 as int, key as u8),
                wait_for_key_press: None,
                ..m
            },
            entropy,
        ),
{
    lemma_first_pressed_is_lowest(m.keys, 0);
}

/// A call followed by a return comes back: the program counter is the one
/// that the call found, the stack pointer is where it was, and the slot
/// that held the return address is zero again.
pub proof fn law_call_then_return(
    m: Machine,
    hi: u8,
    lo: u8,
    entropy: Result<u32, getrandom::Error>,
)
    requires
        m.well_formed(),
        class_of(hi) == 0x2,
        m.stack_pointer < 15,
    ensures
        ({
            let (called, first) = execute(m, hi, lo, entropy);
            let (back, second) = execute(called, 0x00, 0xEE, entropy);
            &&& first is Ok
            &&& second is Ok
            &&& called.program_counter == nnn_of(hi, lo)
            &&& called.stack_pointer == m.stack_pointer + 1
            &&& called.stack[m.stack_pointer + 1] == m.program_counter
            &&& back.program_counter == m.program_counter
            &&& back.stack_pointer == m.stack_pointer
            &&& back.stack[m.stack_pointer + 1] == 0
            &&& back == (Machine { stack: back.stack, ..m })
        }),
{
}

/// Registers V0 to VX that `FX55` stored are the ones that `FX65` loads
/// once the index register is back at the block, whatever the registers
/// held in between. Each of the two leaves the index register past the
/// block where the quirk is on, and where it was where the quirk is off.
pub proof fn law_store_then_load(
    m: Machine,
    hi: u8,
    between: Seq<u8>,
    entropy: Result<u32, getrandom::Error>,
)
    requires
        m.well_formed(),
        class_of(hi) == 0xF,
        between.len() == 16,
        m.register_i + x_of(hi) < 4096,
    ensures
        ({
            let x = x_of(hi);
            let (stored, first) = execute(m, hi, 0x55, entropy);
            let rewound = Machine { register_i: m.register_i, register: between, ..stored };
            let (loaded, second) = execute(rewound, hi, 0x65, entropy);
            let index_after = if m.quirks.increment_i_on_store {
                m.register_i + x + 1
            } else {
                m.register_i as int
            };
            &&& first is Ok
            &&& second is Ok
            &&& stored.register == m.register
            &&& stored.register_i == index_after
            &&& loaded.register_i == index_after
            &&& forall|k: int| 0 <= k <= x ==> loaded.register[k] == m.register[k]
            &&& forall|k: int| x < k < 16 ==> loaded.register[k] == between[k]
        }),
{
}

/// Two masks that describe the same keypad are the same mask.
pub proof fn law_mask_is_determined(first: u16, second: u16)
    requires
        keys_of_mask(first) == keys_of_mask(second),
    ensures
        first == second,
{
    assert forall|k: int| 0 <= k < 16 implies mask_bit(first, k) == mask_bit(second, k) by {
        assert(keys_of_mask(first)[k] == mask_bit(first, k));
        assert(keys_of_mask(second)[k] == mask_bit(second, k));
    }
    assert(mask_bit(first, 0) == mask_bit(second, 0));
    assert(mask_bit(first, 1) == mask_bit(second, 1));
    assert(mask_bit(first, 2) == mask_bit(second, 2));
    assert(mask_bit(first, 3) == mask_bit(second, 3));
    assert(mask_bit(first, 4) == mask_bit(second, 4));
    assert(mask_bit(first, 5) == mask_bit(second, 5));
    assert(mask_bit(first, 6) == mask_bit(second, 6));
    assert(mask_bit(first, 7) == mask_bit(second, 7));
    assert(mask_bit(first, 8) == mask_bit(second, 8));
    assert(mask_bit(first, 9) == mask_bit(second, 9));
    assert(mask_bit(first, 10) == mask_bit(second, 10));
    assert(mask_bit(first, 11) == mask_bit(second, 11));
    assert(mask_bit(first, 12) == mask_bit(second, 12));
    assert(mask_bit(first, 13) == mask_bit(second, 13));
    assert(mask_bit(first, 14) == mask_bit(second, 14));
    assert(mask_bit(first, 15) == mask_bit(second, 15));
    lemma_sixteen_bits(first, second);
}

/// A 16-bit number is its sixteen bits.
proof fn lemma_sixteen_bits(a: u16, b: u16)
    by (bit_vector)
    requires
        ((a >> 0u16) & 1 == 1) == ((b >> 0u16) & 1 == 1),
        ((a >> 1u16) & 1 == 1) == ((b >> 1u16) & 1 == 1),
        ((a >> 2u16) & 1 == 1) == ((b >> 2u16) & 1 == 1),
        ((a >> 3u16) & 1 == 1) == ((b >> 3u16) & 1 == 1),
        ((a >> 4u16) & 1 == 1) == ((b >> 4u16) & 1 == 1),
        ((a >> 5u16) & 1 == 1) == ((b >> 5u16) & 1 == 1),
        ((a >> 6u16) & 1 == 1) == ((b >> 6u16) & 1 == 1),
        ((a >> 7u16) & 1 == 1) == ((b >> 7u16) & 1 == 1),
        ((a >> 8u16) & 1 == 1) == ((b >> 8u16) & 1 == 1),
        ((a >> 9u16) & 1 == 1) == ((b >> 9u16) & 1 == 1),
        ((a >> 10u16) & 1 == 1) == ((b >> 10u16) & 1 == 1),
        ((a >> 11u16) & 1 == 1) == ((b >> 11u16) & 1 == 1),
        ((a >> 12u16) & 1 == 1) == ((b >> 12u16) & 1 == 1),
        ((a >> 13u16) & 1 == 1) == ((b >> 13u16) & 1 == 1),
        ((a >> 14u16) & 1 == 1) == ((b >> 14u16) & 1 == 1),
        ((a >> 15u16) & 1 == 1) == ((b >> 15u16) & 1 == 1),
    ensures
        a == b,
{
}

} // verus!
