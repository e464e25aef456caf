use chip8::Chip8;
use chip8::CpuState;
use chip8::KeyState;
use chip8::PixelState;

#[test]
fn write_byte_then_fetch_round_trip() {
    let mut c = Chip8::default();
    for a in [0u16, 1, 0x1FF, 0x200, 0x300, 4094, 4095] {
        assert!(c.set_memory_byte(a, 0x5A));
        assert_eq!(c.get_memory_byte(a), 0x5A);
    }
}

#[test]
fn write_byte_out_of_range_fails_and_leaves_memory() {
    let mut c = Chip8::default();
    assert!(c.set_memory_byte(100, 7));
    assert!(!c.set_memory_byte(4096, 0xFF));
    assert!(!c.set_memory_byte(0xFFFF, 0xFF));
    assert_eq!(c.get_memory_byte(100), 7);
    for a in 0..4096u16 {
        if a != 100 {
            let expected: u8 = if a < 80 { c.get_memory_byte(a) } else { 0 };
            assert_eq!(c.get_memory_byte(a), expected);
        }
    }
}

#[test]
fn write_word_is_big_endian_and_bounds_checked() {
    let mut c = Chip8::default();
    assert!(c.set_memory_word(0x200, 0xABCD));
    assert_eq!(c.get_memory_byte(0x200), 0xAB);
    assert_eq!(c.get_memory_byte(0x201), 0xCD);
    assert!(!c.set_memory_word(4095, 0x1234));
    assert_eq!(c.get_memory_byte(4095), 0);
    assert!(!c.set_memory_word(4096, 0x1234));
}

#[test]
fn set_key_rejects_indices_past_fifteen() {
    let mut c = Chip8::default();
    assert!(c.set_key(0, KeyState::Pressed));
    assert!(c.set_key(15, KeyState::Pressed));
    assert!(!c.set_key(16, KeyState::Pressed));
    assert!(!c.set_key(255, KeyState::Pressed));
}

#[test]
fn pixel_access_is_bounds_checked() {
    let mut c = Chip8::default();
    c.set_screen_pixel(3, 5, PixelState::Lit);
    assert_eq!(c.get_screen_pixel(3, 5), PixelState::Lit);
    c.set_screen_pixel(3, 5, PixelState::Unlit);
    assert_eq!(c.get_screen_pixel(3, 5), PixelState::Unlit);
    // out-of-range writes are ignored, out-of-range reads come back unlit
    c.set_screen_pixel(32, 0, PixelState::Lit);
    c.set_screen_pixel(0, 64, PixelState::Lit);
    assert_eq!(c.get_screen_pixel(32, 0), PixelState::Unlit);
    assert_eq!(c.get_screen_pixel(0, 64), PixelState::Unlit);
    for row in 0..32u8 {
        for col in 0..64u8 {
            assert_eq!(c.get_screen_pixel(row, col), PixelState::Unlit);
        }
    }
}

#[test]
fn set_program_counter_ignores_out_of_range_values() {
    let mut c = Chip8::default();
    c.set_program_counter(4095);
    assert_eq!(c.get_program_counter(), 4095);
    c.set_program_counter(4096);
    assert_eq!(c.get_program_counter(), 4095);
    c.set_program_counter(0x300);
    assert_eq!(c.get_program_counter(), 0x300);
}

#[test]
fn delay_timer_clamps_at_zero() {
    let mut c = Chip8::default();
    // LD V0,60 then LD DT,V0: the delay timer holds 60 ticks in fixed point
    c.set_memory_word(0x200, 0x603C);
    c.set_memory_word(0x202, 0xF015);
    c.execute();
    c.execute();
    assert_eq!(c.get_delay_counter(), 60 * 65536);
    // repeated decay never drives it below zero
    for _ in 0..10 {
        c.subtract_from_delaycounter(25 * 65536);
        assert!(c.get_delay_counter() <= 60 * 65536);
    }
    assert_eq!(c.get_delay_counter(), 0);
    c.subtract_from_delaycounter(1);
    assert_eq!(c.get_delay_counter(), 0);
}

#[test]
fn buzzer_timer_clamps_at_zero() {
    let mut c = Chip8::default();
    c.set_memory_word(0x200, 0x6002);
    c.set_memory_word(0x202, 0xF018);
    c.execute();
    c.execute();
    assert_eq!(c.get_buzzer_counter(), 2 * 65536);
    c.subtract_from_buzzercounter(65536);
    assert_eq!(c.get_buzzer_counter(), 65536);
    c.subtract_from_buzzercounter(3 * 65536);
    assert_eq!(c.get_buzzer_counter(), 0);
}

#[test]
fn delay_timer_reads_round_up() {
    let mut c = Chip8::default();
    // one tick on the delay timer, half of it decayed away
    c.set_memory_word(0x200, 0x6001);
    c.set_memory_word(0x202, 0xF015);
    c.execute();
    c.execute();
    c.subtract_from_delaycounter(32768);
    // LD V5,DT reads the ceiling: half a tick still reads as 1
    c.set_memory_word(0x204, 0xF507);
    c.execute();
    assert_eq!(c.get_register(5), 1);
    c.subtract_from_delaycounter(32768);
    c.set_memory_word(0x206, 0xF607);
    c.execute();
    assert_eq!(c.get_register(6), 0);
}

#[test]
fn construction_loads_the_font_and_starts_at_0x200() {
    let c = Chip8::default();
    assert_eq!(c.get_program_counter(), 0x200);
    assert_eq!(c.get_cpu_state(), CpuState::Ready);
    // the first glyph (0) and the last glyph (F)
    let zero = [0xF0u8, 0x90, 0x90, 0x90, 0xF0];
    let ef = [0xF0u8, 0x80, 0xF0, 0x80, 0x80];
    for i in 0..5u16 {
        assert_eq!(c.get_memory_byte(i), zero[i as usize]);
        assert_eq!(c.get_memory_byte(75 + i), ef[i as usize]);
    }
    assert_eq!(c.get_memory_byte(80), 0);
}

#[test]
fn soft_reset_clears_only_execution_control_state() {
    let mut c = Chip8::default();
    c.set_memory_word(0x200, 0x6A05);
    c.execute();
    c.set_screen_pixel(1, 1, PixelState::Lit);
    c.set_program_counter(0x400);
    c.soft_reset();
    assert_eq!(c.get_program_counter(), 0x200);
    assert_eq!(c.get_cpu_state(), CpuState::Ready);
    assert_eq!(c.get_index_register(), 0);
    assert_eq!(c.get_delay_counter(), 0);
    // memory, registers and screen survive
    assert_eq!(c.get_memory_byte(0x200), 0x6A);
    assert_eq!(c.get_register(0xA), 5);
    assert_eq!(c.get_screen_pixel(1, 1), PixelState::Lit);
}

#[test]
fn hard_reset_clears_everything_and_reloads_the_font() {
    let mut c = Chip8::default();
    c.set_memory_word(0x200, 0x6A05);
    c.execute();
    c.set_screen_pixel(1, 1, PixelState::Lit);
    c.set_key(3, KeyState::Pressed);
    c.set_memory_byte(0, 0x00);
    c.hard_reset();
    assert_eq!(c.get_program_counter(), 0x200);
    assert_eq!(c.get_register(0xA), 0);
    assert_eq!(c.get_screen_pixel(1, 1), PixelState::Unlit);
    assert_eq!(c.get_memory_byte(0x200), 0);
    assert_eq!(c.get_memory_byte(0), 0xF0);
}
