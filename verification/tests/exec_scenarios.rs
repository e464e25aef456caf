use chip8::Chip8;
use chip8::CpuState;
use chip8::KeyState;
use chip8::PixelState;

#[test]
fn cls_clears_a_fully_lit_screen() {
    let mut c = Chip8::default();
    for row in 0..32u8 {
        for col in 0..64u8 {
            c.set_screen_pixel(row, col, PixelState::Lit);
        }
    }
    c.set_memory_word(0x200, 0x00E0);
    c.execute();
    for row in 0..32u8 {
        for col in 0..64u8 {
            assert_eq!(c.get_screen_pixel(row, col), PixelState::Unlit);
        }
    }
    assert_eq!(c.get_program_counter(), 0x202);
}

#[test]
fn load_then_add_immediate() {
    let mut c = Chip8::default();
    c.set_memory_word(0x200, 0x6A05);
    c.set_memory_word(0x202, 0x7A03);
    c.execute();
    c.execute();
    assert_eq!(c.get_register(0xA), 8);
    assert_eq!(c.get_program_counter(), 0x204);
}

#[test]
fn draw_one_row_at_the_origin() {
    let mut c = Chip8::default();
    c.set_memory_word(0x200, 0xA300);
    c.set_memory_word(0x202, 0xD011);
    c.set_memory_byte(0x300, 0xFF);
    c.execute();
    c.execute();
    for col in 0..8u8 {
        assert_eq!(c.get_screen_pixel(0, col), PixelState::Lit);
    }
    for col in 8..64u8 {
        assert_eq!(c.get_screen_pixel(0, col), PixelState::Unlit);
    }
    for row in 1..32u8 {
        for col in 0..64u8 {
            assert_eq!(c.get_screen_pixel(row, col), PixelState::Unlit);
        }
    }
    assert_eq!(c.get_register(0xF), 0);
    assert_eq!(c.get_program_counter(), 0x204);
}

#[test]
fn draw_with_height_zero_draws_nothing() {
    let mut c = Chip8::default();
    c.set_memory_word(0x200, 0xA300);
    c.set_memory_word(0x202, 0xD010);
    c.set_memory_byte(0x300, 0xFF);
    c.execute();
    c.execute();
    for row in 0..32u8 {
        for col in 0..64u8 {
            assert_eq!(c.get_screen_pixel(row, col), PixelState::Unlit);
        }
    }
    assert_eq!(c.get_register(0xF), 0);
}

#[test]
fn drawing_the_same_sprite_twice_restores_the_screen() {
    let mut c = Chip8::default();
    c.set_memory_word(0x200, 0xA300);
    c.set_memory_word(0x202, 0xD012);
    c.set_memory_word(0x204, 0xD012);
    c.set_memory_byte(0x300, 0xAA);
    c.set_memory_byte(0x301, 0x55);
    c.execute();
    c.execute();
    // the first draw lit the sprite bits on a blank screen, no collision
    assert_eq!(c.get_register(0xF), 0);
    assert_eq!(c.get_screen_pixel(0, 0), PixelState::Lit);
    assert_eq!(c.get_screen_pixel(0, 1), PixelState::Unlit);
    assert_eq!(c.get_screen_pixel(1, 0), PixelState::Unlit);
    assert_eq!(c.get_screen_pixel(1, 1), PixelState::Lit);
    c.execute();
    // the second draw undoes the first exactly and reports the collision
    for row in 0..32u8 {
        for col in 0..64u8 {
            assert_eq!(c.get_screen_pixel(row, col), PixelState::Unlit);
        }
    }
    assert_eq!(c.get_register(0xF), 1);
}

#[test]
fn draw_wraps_both_coordinates() {
    let mut c = Chip8::default();
    // V0 = 60, V1 = 31: the row wraps nowhere, columns 60..63 then 0..3
    c.set_memory_word(0x200, 0x603C);
    c.set_memory_word(0x202, 0x611F);
    c.set_memory_word(0x204, 0xA300);
    c.set_memory_word(0x206, 0xD012);
    c.set_memory_byte(0x300, 0xFF);
    c.set_memory_byte(0x301, 0xFF);
    c.execute();
    c.execute();
    c.execute();
    c.execute();
    for col in [60u8, 61, 62, 63, 0, 1, 2, 3] {
        assert_eq!(c.get_screen_pixel(31, col), PixelState::Lit);
        // the second sprite row wraps from row 31 to row 0
        assert_eq!(c.get_screen_pixel(0, col), PixelState::Lit);
    }
    assert_eq!(c.get_screen_pixel(31, 4), PixelState::Unlit);
    assert_eq!(c.get_register(0xF), 0);
}

#[test]
fn key_wait_never_completes_on_a_key_held_at_entry() {
    let mut c = Chip8::default();
    c.set_memory_word(0x200, 0xF30A);
    c.set_key(5, KeyState::Pressed);
    c.execute();
    assert_eq!(c.get_cpu_state(), CpuState::WaitingForKeypress);
    assert_eq!(c.get_program_counter(), 0x200);
    // the held key must not complete the wait
    c.execute();
    assert_eq!(c.get_cpu_state(), CpuState::WaitingForKeypress);
    assert_eq!(c.get_program_counter(), 0x200);
    // releasing it does not either
    c.set_key(5, KeyState::Unpressed);
    c.execute();
    assert_eq!(c.get_cpu_state(), CpuState::WaitingForKeypress);
    // the snapshot taken at entry still shows key 5 as held, and polling
    // is a pure no-op, so even a re-press of that key never completes
    c.set_key(5, KeyState::Pressed);
    c.execute();
    assert_eq!(c.get_cpu_state(), CpuState::WaitingForKeypress);
    assert_eq!(c.get_program_counter(), 0x200);
    // a key that was unpressed in the snapshot completes the wait
    c.set_key(7, KeyState::Pressed);
    c.execute();
    assert_eq!(c.get_cpu_state(), CpuState::Ready);
    assert_eq!(c.get_register(3), 7);
    assert_eq!(c.get_program_counter(), 0x202);
}

#[test]
fn key_wait_takes_the_lowest_new_key() {
    let mut c = Chip8::default();
    c.set_memory_word(0x200, 0xF00A);
    c.execute();
    c.set_key(9, KeyState::Pressed);
    c.set_key(4, KeyState::Pressed);
    c.execute();
    assert_eq!(c.get_register(0), 4);
}

#[test]
fn seventeen_calls_wrap_the_stack_ring() {
    let mut c = Chip8::default();
    // a chain of 17 calls at 0x200, 0x210, ..., 0x300; then one return
    for k in 0..17u16 {
        let site = 0x200 + 0x10 * k;
        let target = site + 0x10;
        assert!(c.set_memory_word(site, 0x2000 | target));
    }
    for _ in 0..17 {
        c.execute();
    }
    assert_eq!(c.get_program_counter(), 0x310);
    c.set_memory_word(0x310, 0x00EE);
    c.execute();
    // the return resumes after the seventeenth call, whose saved address
    // overwrote the first call's slot when the pointer wrapped 15 -> 0 -> 1
    assert_eq!(c.get_program_counter(), 0x302);
}

#[test]
fn call_then_ret_is_last_in_first_out() {
    let mut c = Chip8::default();
    c.set_memory_word(0x200, 0x2300);
    c.set_memory_word(0x300, 0x2380);
    c.set_memory_word(0x380, 0x00EE);
    c.execute();
    assert_eq!(c.get_program_counter(), 0x300);
    c.execute();
    assert_eq!(c.get_program_counter(), 0x380);
    c.execute();
    assert_eq!(c.get_program_counter(), 0x302);
    c.set_memory_word(0x302, 0x00EE);
    c.execute();
    assert_eq!(c.get_program_counter(), 0x202);
}

#[test]
fn flag_register_arithmetic_reads_the_fresh_flag() {
    // the carry is stored into VF before the sum is formed, so an addition
    // into VF sums the fresh flag with the other operand
    let mut c = Chip8::default();
    c.set_memory_word(0x200, 0x6F05); // VF = 5
    c.set_memory_word(0x202, 0x6B0A); // VB = 10
    c.set_memory_word(0x204, 0x8FB4); // ADD VF,VB: no carry, VF = 0 + 10
    c.execute();
    c.execute();
    c.execute();
    assert_eq!(c.get_register(0xF), 10);
    // likewise a shift of VF shifts the fresh flag
    let mut d = Chip8::default();
    d.set_memory_word(0x200, 0x6F05); // VF = 5
    d.set_memory_word(0x202, 0x8F06); // SHR VF: flag 1, then 1 >> 1
    d.execute();
    d.execute();
    assert_eq!(d.get_register(0xF), 0);
}

#[test]
fn return_on_an_empty_stack_degrades_to_slot_zero() {
    // nothing was ever pushed: the pop reads slot 0, which holds 0, and
    // resumes at 2 rather than faulting
    let mut c = Chip8::default();
    c.set_memory_word(0x200, 0x00EE);
    c.execute();
    assert_eq!(c.get_program_counter(), 2);
}

#[test]
fn bcd_at_the_edge_of_memory_drops_only_the_overflowing_digit() {
    let mut c = Chip8::default();
    c.set_memory_word(0x200, 0x60FE); // V0 = 254
    c.set_memory_word(0x202, 0xAFFE); // I = 4094
    c.set_memory_word(0x204, 0xF033);
    c.execute();
    c.execute();
    c.execute();
    assert_eq!(c.get_memory_byte(4094), 2);
    assert_eq!(c.get_memory_byte(4095), 5);
    assert_eq!(c.get_program_counter(), 0x206);
}

#[test]
fn sprite_rows_past_the_end_of_memory_read_as_clear() {
    let mut c = Chip8::default();
    c.set_memory_word(0x200, 0xAFFF); // I = 4095
    c.set_memory_word(0x202, 0xD012); // two rows: 4095 in range, 4096 not
    c.set_memory_byte(4095, 0xFF);
    c.execute();
    c.execute();
    for col in 0..8u8 {
        assert_eq!(c.get_screen_pixel(0, col), PixelState::Lit);
        assert_eq!(c.get_screen_pixel(1, col), PixelState::Unlit);
    }
    assert_eq!(c.get_register(0xF), 0);
}

#[test]
fn skips_compare_immediates_and_registers() {
    let mut c = Chip8::default();
    c.set_memory_word(0x200, 0x6007); // V0 = 7
    c.set_memory_word(0x202, 0x3007); // SE V0,7: skips
    c.set_memory_word(0x206, 0x3008); // SE V0,8: does not skip
    c.set_memory_word(0x208, 0x4008); // SNE V0,8: skips
    c.set_memory_word(0x20C, 0x6107); // V1 = 7
    c.set_memory_word(0x20E, 0x5010); // SE V0,V1: skips
    c.set_memory_word(0x212, 0x9010); // SNE V0,V1: does not skip
    for _ in 0..7 {
        c.execute();
    }
    assert_eq!(c.get_program_counter(), 0x214);
}

#[test]
fn register_arithmetic_sets_the_carry_flag() {
    let mut c = Chip8::default();
    c.set_memory_word(0x200, 0x6005); // V0 = 5
    c.set_memory_word(0x202, 0x61FB); // V1 = 251
    c.set_memory_word(0x204, 0x8014); // ADD V0,V1: 256 wraps to 0, carry
    c.execute();
    c.execute();
    c.execute();
    assert_eq!(c.get_register(0), 0);
    assert_eq!(c.get_register(0xF), 1);
    let mut d = Chip8::default();
    d.set_memory_word(0x200, 0x6005);
    d.set_memory_word(0x202, 0x6103);
    d.set_memory_word(0x204, 0x8014);
    d.execute();
    d.execute();
    d.execute();
    assert_eq!(d.get_register(0), 8);
    assert_eq!(d.get_register(0xF), 0);
}

#[test]
fn subtraction_sets_the_no_borrow_flag() {
    let mut c = Chip8::default();
    c.set_memory_word(0x200, 0x6005);
    c.set_memory_word(0x202, 0x6103);
    c.set_memory_word(0x204, 0x8015); // SUB V0,V1: 5 - 3
    c.execute();
    c.execute();
    c.execute();
    assert_eq!(c.get_register(0), 2);
    assert_eq!(c.get_register(0xF), 1);
    let mut d = Chip8::default();
    d.set_memory_word(0x200, 0x6003);
    d.set_memory_word(0x202, 0x6105);
    d.set_memory_word(0x204, 0x8015); // SUB V0,V1: 3 - 5 borrows
    d.execute();
    d.execute();
    d.execute();
    assert_eq!(d.get_register(0), 254);
    assert_eq!(d.get_register(0xF), 0);
}

#[test]
fn reverse_subtraction_swaps_the_operands() {
    let mut c = Chip8::default();
    c.set_memory_word(0x200, 0x6003);
    c.set_memory_word(0x202, 0x6105);
    c.set_memory_word(0x204, 0x8017); // SUBN V0,V1: 5 - 3
    c.execute();
    c.execute();
    c.execute();
    assert_eq!(c.get_register(0), 2);
    assert_eq!(c.get_register(0xF), 1);
}

#[test]
fn shifts_capture_the_shifted_out_bit() {
    let mut c = Chip8::default();
    c.set_memory_word(0x200, 0x6005);
    c.set_memory_word(0x202, 0x8006); // SHR V0: 5 >> 1
    c.execute();
    c.execute();
    assert_eq!(c.get_register(0), 2);
    assert_eq!(c.get_register(0xF), 1);
    let mut d = Chip8::default();
    d.set_memory_word(0x200, 0x6081);
    d.set_memory_word(0x202, 0x800E); // SHL V0: 0x81 << 1
    d.execute();
    d.execute();
    assert_eq!(d.get_register(0), 2);
    assert_eq!(d.get_register(0xF), 1);
}

#[test]
fn bitwise_ops_combine_registers() {
    let mut c = Chip8::default();
    c.set_memory_word(0x200, 0x60CC);
    c.set_memory_word(0x202, 0x61AA);
    c.set_memory_word(0x204, 0x8011); // OR
    c.execute();
    c.execute();
    c.execute();
    assert_eq!(c.get_register(0), 0xEE);
    let mut d = Chip8::default();
    d.set_memory_word(0x200, 0x60CC);
    d.set_memory_word(0x202, 0x61AA);
    d.set_memory_word(0x204, 0x8013); // XOR
    d.execute();
    d.execute();
    d.execute();
    assert_eq!(d.get_register(0), 0x66);
}

#[test]
fn jumps_are_absolute_and_offset_by_v0() {
    let mut c = Chip8::default();
    c.set_memory_word(0x200, 0x1234);
    c.execute();
    assert_eq!(c.get_program_counter(), 0x234);
    let mut d = Chip8::default();
    d.set_memory_word(0x200, 0x6004);
    d.set_memory_word(0x202, 0xB300);
    d.execute();
    d.execute();
    assert_eq!(d.get_program_counter(), 0x304);
}

#[test]
fn index_register_loads_and_wrapping_addition() {
    let mut c = Chip8::default();
    c.set_memory_word(0x200, 0xAFFF); // I = 0xFFF
    c.set_memory_word(0x202, 0x60FF); // V0 = 255
    c.set_memory_word(0x204, 0xF01E); // ADD I,V0: wraps only at 16 bits
    c.execute();
    c.execute();
    c.execute();
    assert_eq!(c.get_index_register(), 0x10FE);
}

#[test]
fn font_pointer_uses_the_low_nibble() {
    let mut c = Chip8::default();
    c.set_memory_word(0x200, 0x601B); // V0 = 0x1B: low nibble B
    c.set_memory_word(0x202, 0xF029);
    c.execute();
    c.execute();
    assert_eq!(c.get_index_register(), 55);
    // the glyph for B starts with 0xE0
    assert_eq!(c.get_memory_byte(55), 0xE0);
}

#[test]
fn bcd_stores_three_decimal_digits() {
    let mut c = Chip8::default();
    c.set_memory_word(0x200, 0x60FE); // V0 = 254
    c.set_memory_word(0x202, 0xA300);
    c.set_memory_word(0x204, 0xF033);
    c.execute();
    c.execute();
    c.execute();
    assert_eq!(c.get_memory_byte(0x300), 2);
    assert_eq!(c.get_memory_byte(0x301), 5);
    assert_eq!(c.get_memory_byte(0x302), 4);
}

#[test]
fn bulk_register_store_and_load() {
    let mut c = Chip8::default();
    c.set_memory_word(0x200, 0x600A);
    c.set_memory_word(0x202, 0x610B);
    c.set_memory_word(0x204, 0x620C);
    c.set_memory_word(0x206, 0xA300);
    c.set_memory_word(0x208, 0xF255); // store V0..=V2 at 0x300
    for _ in 0..5 {
        c.execute();
    }
    assert_eq!(c.get_memory_byte(0x300), 0x0A);
    assert_eq!(c.get_memory_byte(0x301), 0x0B);
    assert_eq!(c.get_memory_byte(0x302), 0x0C);
    assert_eq!(c.get_memory_byte(0x303), 0);
    // overwrite the registers, then load them back
    c.set_memory_word(0x20A, 0x6000);
    c.set_memory_word(0x20C, 0x6100);
    c.set_memory_word(0x20E, 0x6200);
    c.set_memory_word(0x210, 0xF265);
    for _ in 0..4 {
        c.execute();
    }
    assert_eq!(c.get_register(0), 0x0A);
    assert_eq!(c.get_register(1), 0x0B);
    assert_eq!(c.get_register(2), 0x0C);
}

#[test]
fn bulk_store_stops_at_the_end_of_memory() {
    let mut c = Chip8::default();
    c.set_memory_word(0x200, 0x6011);
    c.set_memory_word(0x202, 0x6122);
    c.set_memory_word(0x204, 0x6233);
    c.set_memory_word(0x206, 0xAFFE); // I = 4094
    c.set_memory_word(0x208, 0xF255); // only V0 and V1 fit
    for _ in 0..5 {
        c.execute();
    }
    assert_eq!(c.get_memory_byte(4094), 0x11);
    assert_eq!(c.get_memory_byte(4095), 0x22);
    assert_eq!(c.get_program_counter(), 0x20A);
}

#[test]
fn skip_if_pressed_reads_the_live_key_named_by_the_register() {
    let mut c = Chip8::default();
    c.set_memory_word(0x200, 0x6003); // V0 = 3
    c.set_memory_word(0x202, 0xE09E); // SKP V0
    c.set_key(3, KeyState::Pressed);
    c.execute();
    c.execute();
    assert_eq!(c.get_program_counter(), 0x206);
    let mut d = Chip8::default();
    d.set_memory_word(0x200, 0x6003);
    d.set_memory_word(0x202, 0xE0A1); // SKNP V0, key 3 not pressed: skips
    d.execute();
    d.execute();
    assert_eq!(d.get_program_counter(), 0x206);
}

#[test]
fn skip_if_pressed_treats_out_of_range_key_values_as_unpressed() {
    let mut c = Chip8::default();
    c.set_memory_word(0x200, 0x60C8); // V0 = 200: names no key
    c.set_memory_word(0x202, 0xE09E);
    c.execute();
    c.execute();
    assert_eq!(c.get_program_counter(), 0x204);
    let mut d = Chip8::default();
    d.set_memory_word(0x200, 0x60C8);
    d.set_memory_word(0x202, 0xE0A1);
    d.execute();
    d.execute();
    assert_eq!(d.get_program_counter(), 0x206);
}

#[test]
fn masked_random_load_with_a_zero_mask_is_zero() {
    let mut c = Chip8::default();
    c.set_memory_word(0x200, 0x6077); // V0 = 0x77
    c.set_memory_word(0x202, 0xC000); // RND V0 with mask 0: always 0
    c.execute();
    c.execute();
    assert_eq!(c.get_register(0), 0);
    assert_eq!(c.get_program_counter(), 0x204);
}

#[test]
fn masked_random_load_stays_inside_the_mask() {
    let mut c = Chip8::default();
    c.set_memory_word(0x200, 0xC00F);
    c.execute();
    assert!(c.get_register(0) <= 0x0F);
    assert_eq!(c.get_program_counter(), 0x202);
}

#[test]
fn unknown_words_freeze_the_program_counter() {
    let mut c = Chip8::default();
    for word in [0x5AB1u16, 0x8AB8, 0xE0FF, 0xF0FF] {
        c.set_program_counter(0x200);
        c.set_memory_word(0x200, word);
        c.execute();
        assert_eq!(c.get_program_counter(), 0x200);
    }
}

#[test]
fn sys_words_are_plain_no_ops_that_advance() {
    let mut c = Chip8::default();
    c.set_memory_word(0x200, 0x0123);
    c.execute();
    assert_eq!(c.get_program_counter(), 0x202);
}

#[test]
fn program_counter_wraps_at_the_end_of_the_address_space() {
    let mut c = Chip8::default();
    // SE V0,0 at 4094 with V0 == 0 skips: 4094 + 4 wraps to 2
    c.set_memory_word(4094, 0x3000);
    c.set_program_counter(4094);
    c.execute();
    assert_eq!(c.get_program_counter(), 2);
}

#[test]
fn program_counter_stays_bounded_and_even_through_a_program() {
    let mut c = Chip8::default();
    let words = [
        0x6A05u16, 0x7A03, 0x6B01, 0x8AB4, 0x00E0, 0x0123, 0xA300, 0xF01E, 0x3A00, 0x2400,
    ];
    for (i, w) in words.iter().enumerate() {
        c.set_memory_word(0x200 + 2 * i as u16, *w);
    }
    c.set_memory_word(0x400, 0x00EE);
    for _ in 0..12 {
        c.execute();
        let pc = c.get_program_counter();
        assert!(pc < 4096);
        assert_eq!(pc % 2, 0);
    }
}

#[test]
fn a_jump_to_an_odd_address_stays_bounded_but_breaks_parity() {
    let mut c = Chip8::default();
    c.set_memory_word(0x200, 0x1201);
    c.execute();
    assert_eq!(c.get_program_counter(), 0x201);
    assert!(c.get_program_counter() < 4096);
}

#[test]
fn fetch_at_the_last_byte_reads_a_zero_low_byte() {
    let mut c = Chip8::default();
    // only the high byte of the word is in memory: 0x12 ?? reads as 0x1200
    c.set_memory_byte(4095, 0x12);
    c.set_program_counter(4095);
    c.execute();
    assert_eq!(c.get_program_counter(), 0x200);
}
