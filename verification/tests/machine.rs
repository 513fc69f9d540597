use chip8sys::chip8::{
    Chip8Quirks, Chip8Sys, TimerMode, DISPLAY_HEIGHT, DISPLAY_PIXELS, DISPLAY_WIDTH, FONT,
    FRAMEBUFFER_PACKED_LEN, PROGRAM_START,
};
use chip8sys::chip8error::Chip8Error;
use chip8sys::display::unpack_framebuffer;

fn with_instruction(instruction: u16) -> Chip8Sys {
    let mut chip8 = Chip8Sys::new_chip_8();
    chip8.memory[0x200] = (instruction >> 8) as u8;
    chip8.memory[0x201] = (instruction & 0xFF) as u8;
    // then a jump to itself, so that later cycles idle
    chip8.memory[0x202] = 0x12;
    chip8.memory[0x203] = 0x02;
    chip8
}

// A machine whose program is a jump to itself.
fn idling() -> Chip8Sys {
    with_instruction(0x1200)
}

#[test]
fn constants_describe_the_display() {
    assert_eq!(DISPLAY_WIDTH, 64);
    assert_eq!(DISPLAY_HEIGHT, 32);
    assert_eq!(DISPLAY_PIXELS, 2048);
    assert_eq!(FRAMEBUFFER_PACKED_LEN, 256);
    assert_eq!(PROGRAM_START, 0x200);
}

#[test]
fn power_on_state_is_zero_but_for_font_and_program_counter() {
    let chip8 = Chip8Sys::new_chip_8();
    for (address, byte) in chip8.memory.iter().enumerate() {
        if (0x050..0x0A0).contains(&address) {
            assert_eq!(*byte, FONT[address - 0x050]);
        } else {
            assert_eq!(*byte, 0);
        }
    }
    assert_eq!(chip8.register, [0; 16]);
    assert_eq!(chip8.stack, [0; 16]);
    assert_eq!(chip8.frame_buffer, [0; 256]);
    assert_eq!(chip8.keys, [false; 16]);
    assert_eq!(chip8.program_counter, 0x200);
    assert_eq!(chip8.register_i, 0);
    assert_eq!(chip8.stack_pointer, 0);
    assert_eq!(chip8.delay_timer(), 0);
    assert_eq!(chip8.sound_timer(), 0);
    assert_eq!(chip8.dt_cycle_ct, 0);
    assert!(!chip8.is_sound_playing());
    assert_eq!(chip8.wait_for_key_press, None);
    assert_eq!(chip8.timer_mode(), TimerMode::Cycle);
}

#[test]
fn default_quirks() {
    let quirks = Chip8Quirks::default();
    assert!(quirks.increment_i_on_store);
    assert!(quirks.reset_vf_on_logic);
    assert!(!quirks.wrap_draw);
    assert!(!quirks.shift_uses_vx);
    assert_eq!(Chip8Sys::new_chip_8().quirks(), quirks);
}

#[test]
fn quirks_are_kept_as_given() {
    let chip8 = Chip8Sys::new_set_quirks(false, true, true, false);
    assert!(!chip8.is_inc_index());
    assert!(chip8.is_register_f_reset());
    assert!(chip8.is_wrap_draw());
    assert!(!chip8.is_mod_vx_in_place());
    let quirks = Chip8Quirks {
        increment_i_on_store: true,
        reset_vf_on_logic: false,
        wrap_draw: false,
        shift_uses_vx: true,
    };
    let mut other = Chip8Sys::new_with_quirks(quirks);
    assert_eq!(other.quirks(), quirks);
    let changed = Chip8Quirks {
        increment_i_on_store: false,
        reset_vf_on_logic: true,
        wrap_draw: true,
        shift_uses_vx: false,
    };
    other.register[3] = 9;
    other.set_quirks(changed);
    assert_eq!(other.quirks(), changed);
    assert_eq!(other.register[3], 9);
}

#[test]
fn reset_keeps_quirks_and_timer_mode_only() {
    let quirks = Chip8Quirks {
        increment_i_on_store: false,
        reset_vf_on_logic: false,
        wrap_draw: true,
        shift_uses_vx: true,
    };
    let mut chip8 = Chip8Sys::new_with_quirks(quirks);
    chip8.set_timer_mode(TimerMode::External);
    chip8.load_rom_bytes(&[0x12, 0x34, 0x56]);
    chip8.register = [7; 16];
    chip8.stack = [0x300; 16];
    chip8.stack_pointer = 4;
    chip8.register_i = 0x123;
    chip8.program_counter = 0x400;
    chip8.frame_buffer = [0xFF; 256];
    chip8.keys = [true; 16];
    chip8.delay_timer = 9;
    chip8.sound_timer = 9;
    chip8.dt_cycle_ct = 5;
    chip8.is_playing_sound = true;
    chip8.memory[0x10] = 1;
    chip8.wait(3).unwrap();
    chip8.reset();
    assert_eq!(chip8.quirks(), quirks);
    assert_eq!(chip8.timer_mode(), TimerMode::External);
    let fresh = Chip8Sys::new_with_quirks(quirks);
    assert_eq!(chip8.memory, fresh.memory);
    assert_eq!(chip8.register, [0; 16]);
    assert_eq!(chip8.stack, [0; 16]);
    assert_eq!(chip8.stack_pointer, 0);
    assert_eq!(chip8.register_i, 0);
    assert_eq!(chip8.program_counter, 0x200);
    assert_eq!(chip8.frame_buffer, [0; 256]);
    assert_eq!(chip8.keys, [false; 16]);
    assert_eq!(chip8.delay_timer, 0);
    assert_eq!(chip8.sound_timer, 0);
    assert_eq!(chip8.dt_cycle_ct, 0);
    assert!(!chip8.is_playing_sound);
    assert_eq!(chip8.wait_for_key_press, None);
    chip8.reset();
    assert_eq!(chip8.memory, fresh.memory);
    assert_eq!(chip8.quirks(), quirks);
    assert_eq!(chip8.timer_mode(), TimerMode::External);
}

#[test]
fn load_rom_bytes_copies_and_zero_fills() {
    let mut chip8 = Chip8Sys::new_chip_8();
    chip8.memory[0x200] = 0xEE;
    chip8.memory[0x204] = 0xEE;
    chip8.memory[0xFFF] = 0xEE;
    chip8.load_rom_bytes(&[1, 2, 3]);
    assert_eq!(chip8.memory[0x200..0x203], [1, 2, 3]);
    assert!(chip8.memory[0x203..].iter().all(|byte| *byte == 0));
    assert_eq!(chip8.memory[0x050..0x0A0], FONT);
}

#[test]
fn load_rom_bytes_truncates_what_does_not_fit() {
    let mut chip8 = Chip8Sys::new_chip_8();
    let mut rom = vec![0u8; 5000];
    for (index, byte) in rom.iter_mut().enumerate() {
        *byte = (index % 251) as u8 + 1;
    }
    chip8.load_rom_bytes(&rom);
    for address in 0x200..4096usize {
        assert_eq!(chip8.memory[address], ((address - 0x200) % 251) as u8 + 1);
    }
    assert_eq!(chip8.memory[0x050..0x0A0], FONT);
    assert_eq!(chip8.memory[0x1FF], 0);
}

#[test]
fn load_rom_bytes_of_nothing_clears_the_program() {
    let mut chip8 = Chip8Sys::new_chip_8();
    chip8.load_rom_bytes(&[9; 3584]);
    assert!(chip8.memory[0x200..].iter().all(|byte| *byte == 9));
    chip8.load_rom_bytes(&[]);
    assert!(chip8.memory[0x200..].iter().all(|byte| *byte == 0));
}

#[test]
fn keys_mask_round_trip() {
    let mut chip8 = Chip8Sys::new_chip_8();
    chip8.set_keys_mask(0b1000_0000_0000_0101);
    let mut expected = [false; 16];
    expected[0] = true;
    expected[2] = true;
    expected[15] = true;
    assert_eq!(chip8.keys, expected);
    assert_eq!(chip8.keys_mask(), 0b1000_0000_0000_0101);
    for mask in [0u16, 1, 0x8000, 0xFFFF, 0x1234, 0xA5A5] {
        chip8.set_keys_mask(mask);
        assert_eq!(chip8.keys_mask(), mask);
    }
}

#[test]
fn set_keys_replaces_the_keypad_and_nothing_else() {
    let mut chip8 = Chip8Sys::new_chip_8();
    chip8.delay_timer = 5;
    chip8.wait(2).unwrap();
    let mut keys = [false; 16];
    keys[7] = true;
    chip8.set_keys(keys);
    assert_eq!(chip8.keys, keys);
    assert_eq!(chip8.keys_mask(), 1 << 7);
    assert_eq!(chip8.delay_timer, 5);
    assert_eq!(chip8.wait_for_key_press, Some(2));
}

#[test]
fn tick_timers_floors_at_zero() {
    let mut chip8 = Chip8Sys::new_chip_8();
    chip8.delay_timer = 10;
    chip8.sound_timer = 3;
    chip8.is_playing_sound = true;
    chip8.tick_timers(2);
    assert_eq!(chip8.delay_timer(), 8);
    assert_eq!(chip8.sound_timer(), 1);
    assert!(chip8.is_sound_playing());
    chip8.tick_timers(1);
    assert_eq!(chip8.delay_timer(), 7);
    assert_eq!(chip8.sound_timer(), 0);
    assert!(!chip8.is_sound_playing());
    chip8.tick_timers(u32::MAX);
    assert_eq!(chip8.delay_timer(), 0);
    assert_eq!(chip8.sound_timer(), 0);
}

#[test]
fn tick_timers_leaves_the_signal_when_the_sound_timer_is_idle() {
    let mut chip8 = Chip8Sys::new_chip_8();
    chip8.is_playing_sound = true;
    chip8.tick_timers(4);
    assert!(chip8.is_sound_playing());
    chip8.sound_timer = 9;
    chip8.tick_timers(0);
    assert_eq!(chip8.sound_timer(), 9);
    assert!(chip8.is_sound_playing());
    chip8.tick_timers(300);
    assert!(!chip8.is_sound_playing());
}

#[test]
fn delay_timer_goes_down_every_sixth_cycle() {
    let mut chip8 = idling();
    chip8.delay_timer = 3;
    let mut seen = Vec::new();
    for _ in 0..13 {
        chip8.run().unwrap();
        seen.push(chip8.delay_timer);
    }
    assert_eq!(seen, vec![2, 2, 2, 2, 2, 2, 1, 1, 1, 1, 1, 1, 0]);
    assert_eq!(chip8.dt_cycle_ct, 13);
    chip8.run().unwrap();
    assert_eq!(chip8.dt_cycle_ct, 13);
}

#[test]
fn setting_the_delay_timer_restarts_its_count() {
    let mut chip8 = with_instruction(0xF115);
    chip8.register[1] = 20;
    chip8.delay_timer = 5;
    chip8.dt_cycle_ct = 3;
    chip8.run().unwrap();
    assert_eq!(chip8.delay_timer, 20);
    assert_eq!(chip8.dt_cycle_ct, 0);
    chip8.run().unwrap();
    assert_eq!(chip8.delay_timer, 19);
    assert_eq!(chip8.dt_cycle_ct, 1);
}

#[test]
fn delay_count_wraps_at_its_upper_bound() {
    let mut chip8 = idling();
    chip8.delay_timer = 3;
    chip8.dt_cycle_ct = u128::MAX;
    chip8.run().unwrap();
    assert_eq!(chip8.dt_cycle_ct, 0);
    assert_eq!(chip8.delay_timer, 3);
}

#[test]
fn sound_timer_goes_down_every_cycle_and_ends_the_signal() {
    let mut chip8 = with_instruction(0xF218);
    chip8.register[2] = 2;
    chip8.run().unwrap();
    assert_eq!(chip8.sound_timer(), 2);
    assert!(chip8.is_sound_playing());
    chip8.run().unwrap();
    assert_eq!(chip8.sound_timer(), 1);
    assert!(chip8.is_sound_playing());
    chip8.run().unwrap();
    assert_eq!(chip8.sound_timer(), 0);
    assert!(!chip8.is_sound_playing());
}

#[test]
fn setting_the_sound_timer_to_zero_still_raises_the_signal() {
    let mut chip8 = with_instruction(0xF218);
    chip8.run().unwrap();
    assert_eq!(chip8.sound_timer(), 0);
    assert!(chip8.is_sound_playing());
}

#[test]
fn external_timer_mode_leaves_timers_to_the_host() {
    let mut chip8 = idling();
    chip8.set_timer_mode(TimerMode::External);
    assert_eq!(chip8.timer_mode(), TimerMode::External);
    chip8.delay_timer = 4;
    chip8.sound_timer = 4;
    chip8.is_playing_sound = true;
    for _ in 0..12 {
        chip8.run().unwrap();
    }
    assert_eq!(chip8.delay_timer(), 4);
    assert_eq!(chip8.sound_timer(), 4);
    assert_eq!(chip8.dt_cycle_ct, 0);
    assert!(chip8.is_sound_playing());
    chip8.tick_timers(4);
    assert_eq!(chip8.delay_timer(), 0);
    assert_eq!(chip8.sound_timer(), 0);
    assert!(!chip8.is_sound_playing());
}

#[test]
fn wait_accepts_every_register_and_nothing_else() {
    let mut chip8 = Chip8Sys::new_chip_8();
    for register in 0..=0xFu8 {
        assert!(chip8.wait(register).is_ok());
        assert_eq!(chip8.wait_for_key_press, Some(register));
    }
    assert!(matches!(chip8.wait(0x10), Err(Chip8Error::InvalidWaitRegister(0x10))));
    assert_eq!(chip8.wait_for_key_press, Some(0xF));
}

#[test]
fn check_waiting_reports_and_resolves_the_wait() {
    let mut chip8 = Chip8Sys::new_chip_8();
    assert!(matches!(chip8.check_waiting(), Ok(false)));
    chip8.wait(0xF).unwrap();
    assert!(matches!(chip8.check_waiting(), Ok(true)));
    assert_eq!(chip8.wait_for_key_press, Some(0xF));
    chip8.keys[9] = true;
    chip8.keys[4] = true;
    assert!(matches!(chip8.check_waiting(), Ok(false)));
    assert_eq!(chip8.register[0xF], 4);
    assert_eq!(chip8.wait_for_key_press, None);
}

#[test]
fn a_wait_on_a_missing_register_is_an_error() {
    let mut chip8 = Chip8Sys::new_chip_8();
    chip8.wait_for_key_press = Some(0x20);
    chip8.keys[1] = true;
    assert!(matches!(chip8.check_waiting(), Err(Chip8Error::InvalidWaitRegister(0x20))));
    assert!(matches!(chip8.run(), Err(Chip8Error::InvalidWaitRegister(0x20))));
    assert_eq!(chip8.program_counter, 0x200);
    assert_eq!(chip8.register, [0; 16]);
}

#[test]
fn framebuffer_packed_is_the_frame_buffer() {
    let mut chip8 = Chip8Sys::new_chip_8();
    chip8.frame_buffer[0] = 0x80;
    chip8.frame_buffer[255] = 0x01;
    let packed = chip8.framebuffer_packed();
    assert_eq!(packed.len(), 256);
    assert_eq!(packed[0], 0x80);
    assert_eq!(packed[255], 0x01);
    assert!(packed[1..255].iter().all(|byte| *byte == 0));
}

#[test]
fn unpack_framebuffer_gives_one_byte_per_pixel() {
    let mut chip8 = Chip8Sys::new_chip_8();
    chip8.frame_buffer[0] = 0b1000_0001;
    chip8.frame_buffer[9] = 0b0100_0000;
    chip8.frame_buffer[255] = 0b0000_0001;
    let pixels = unpack_framebuffer(chip8.framebuffer_packed());
    assert_eq!(pixels.len(), 2048);
    for (index, pixel) in pixels.iter().enumerate() {
        let lit = index == 0 || index == 7 || index == 64 + 8 + 1 || index == 2047;
        assert_eq!(*pixel, if lit { 1 } else { 0 });
    }
}

#[test]
fn unpack_framebuffer_of_other_lengths() {
    assert_eq!(unpack_framebuffer(&[]), vec![0u8; 2048]);
    let short = unpack_framebuffer(&[0xFF]);
    assert_eq!(short.len(), 2048);
    assert_eq!(short[..8], [1u8; 8]);
    assert!(short[8..].iter().all(|pixel| *pixel == 0));
    let long = unpack_framebuffer(&[0xAA; 300]);
    assert_eq!(long.len(), 2048);
    for (index, pixel) in long.iter().enumerate() {
        assert_eq!(*pixel, if index % 2 == 0 { 1 } else { 0 });
    }
}

#[test]
fn tick_runs_the_cycles_asked_for() {
    let mut chip8 = Chip8Sys::new_chip_8();
    // 0x200: V1 += 1; 0x202: jump to 0x200
    chip8.load_rom_bytes(&[0x71, 0x01, 0x12, 0x00]);
    chip8.tick(0).unwrap();
    assert_eq!(chip8.program_counter, 0x200);
    chip8.tick(7).unwrap();
    assert_eq!(chip8.register[1], 4);
    assert_eq!(chip8.program_counter, 0x202);
}

#[test]
fn tick_stops_at_the_first_failure() {
    let mut chip8 = Chip8Sys::new_chip_8();
    // V1 += 1; an unknown operation of class 8; V1 += 1
    chip8.load_rom_bytes(&[0x71, 0x01, 0x81, 0x2F, 0x71, 0x01]);
    assert!(matches!(chip8.tick(5), Err(Chip8Error::Invalid0x8XYN(0xF))));
    assert_eq!(chip8.register[1], 1);
    assert_eq!(chip8.program_counter, 0x204);
}

#[test]
fn tick_stops_at_the_end_of_a_program() {
    let mut chip8 = Chip8Sys::new_chip_8();
    // V1 += 1, twice; what follows is empty memory
    chip8.load_rom_bytes(&[0x71, 0x01, 0x71, 0x01]);
    assert!(matches!(chip8.tick(9), Err(Chip8Error::Invalid0x0NNN(0, 0))));
    assert_eq!(chip8.register[1], 2);
    assert_eq!(chip8.program_counter, 0x206);
}
