//! Behavior tests for drawing, scrolling, mode switching, timers, keys,
//! the error conditions, and the framebuffer primitives.

use chip8::cpu::{CpuError, CPU};
use chip8::graphics::{Graphics, Mode};
use chip8::io::{index, IOImpl, IO};

fn setup_blank_cpu() -> CPU {
    CPU::new(vec![0u8])
}

fn schip_cpu() -> CPU {
    let mut cpu = setup_blank_cpu();
    cpu.interpret(0x00FF).unwrap(); // switch to SuperCHIP mode
    cpu
}

#[test]
fn construction_loads_font_and_rom() {
    let cpu = CPU::new(vec![0xAA, 0xBB]);
    assert_eq!(cpu.get_mem(0x000), 0xF0); // first byte of glyph 0
    assert_eq!(cpu.get_mem(0x04F), 0x80); // last byte of glyph F
    assert_eq!(cpu.get_mem(0x050), 0x00); // first byte of extended glyph 0
    assert_eq!(cpu.get_mem(0x200), 0xAA);
    assert_eq!(cpu.get_mem(0x201), 0xBB);
    assert_eq!(cpu.get_mem(0x202), 0x00);
    assert_eq!(cpu.get_pc(), 0x200);
    assert_eq!(cpu.get_index_reg(), 0);
    assert!(!cpu.is_finished());
}

#[test]
fn memory_accessor_wraps() {
    let cpu = setup_blank_cpu();
    assert_eq!(cpu.get_mem(0x1000), cpu.get_mem(0x000));
}

#[test]
fn mode_dimensions() {
    assert_eq!(Mode::Chip.get_width(), 64);
    assert_eq!(Mode::Chip.get_height(), 32);
    assert_eq!(Mode::Schip.get_width(), 128);
    assert_eq!(Mode::Schip.get_height(), 64);
}

#[test]
fn add_reg_val_wraps() {
    let mut cpu = setup_blank_cpu();
    cpu.interpret(0x60FF).unwrap();
    cpu.interpret(0x7002).unwrap();
    assert_eq!(cpu.get_reg(0), 0x01);
}

#[test]
fn bitwise_register_ops() {
    let mut cpu = setup_blank_cpu();
    cpu.interpret(0x60F0).unwrap();
    cpu.interpret(0x610F).unwrap();
    cpu.interpret(0x8011).unwrap(); // or
    assert_eq!(cpu.get_reg(0), 0xFF);
    cpu.interpret(0x6033).unwrap();
    cpu.interpret(0x8012).unwrap(); // and
    assert_eq!(cpu.get_reg(0), 0x03);
    cpu.interpret(0x8013).unwrap(); // xor
    assert_eq!(cpu.get_reg(0), 0x0C);
    cpu.interpret(0x8010).unwrap(); // mov
    assert_eq!(cpu.get_reg(0), 0x0F);
}

#[test]
fn shift_right_keeps_low_bit_in_flag() {
    let mut cpu = setup_blank_cpu();
    cpu.interpret(0x6081).unwrap();
    cpu.interpret(0x8006).unwrap();
    assert_eq!(cpu.get_reg(0xF), 0x1);
    assert_eq!(cpu.get_reg(0), 0x40);
}

#[test]
fn shift_left_keeps_high_bit_in_flag() {
    let mut cpu = setup_blank_cpu();
    cpu.interpret(0x6081).unwrap();
    cpu.interpret(0x800E).unwrap();
    assert_eq!(cpu.get_reg(0xF), 0x1);
    assert_eq!(cpu.get_reg(0), 0x02);
}

#[test]
fn random_mask_clears_bits_outside_mask() {
    let mut cpu = setup_blank_cpu();
    for _ in 0..32 {
        cpu.interpret(0xC0F0).unwrap();
        assert_eq!(cpu.get_reg(0) & 0x0F, 0);
    }
}

#[test]
fn binary_decimal_digits() {
    let mut cpu = setup_blank_cpu();
    cpu.interpret(0x63FE).unwrap(); // V3 = 254
    cpu.interpret(0xA300).unwrap();
    cpu.interpret(0xF333).unwrap();
    assert_eq!(cpu.get_mem(0x300), 2);
    assert_eq!(cpu.get_mem(0x301), 5);
    assert_eq!(cpu.get_mem(0x302), 4);
}

#[test]
fn store_and_load_registers_round_trip() {
    let mut cpu = setup_blank_cpu();
    cpu.interpret(0x6011).unwrap();
    cpu.interpret(0x6122).unwrap();
    cpu.interpret(0x6233).unwrap();
    cpu.interpret(0xA400).unwrap();
    cpu.interpret(0xF255).unwrap(); // store V0..=V2 at 0x400
    assert_eq!(cpu.get_mem(0x400), 0x11);
    assert_eq!(cpu.get_mem(0x401), 0x22);
    assert_eq!(cpu.get_mem(0x402), 0x33);
    assert_eq!(cpu.get_mem(0x403), 0x00);
    cpu.interpret(0x6000).unwrap();
    cpu.interpret(0x6100).unwrap();
    cpu.interpret(0x6200).unwrap();
    cpu.interpret(0xF265).unwrap(); // load V0..=V2 back
    assert_eq!(cpu.get_reg(0), 0x11);
    assert_eq!(cpu.get_reg(1), 0x22);
    assert_eq!(cpu.get_reg(2), 0x33);
}

#[test]
fn hp48_flags_survive_register_changes() {
    let mut cpu = schip_cpu();
    cpu.interpret(0x60AB).unwrap();
    cpu.interpret(0x61CD).unwrap();
    cpu.interpret(0xF175).unwrap(); // store V0..=V1 into the HP48 bytes
    cpu.interpret(0x6000).unwrap();
    cpu.interpret(0x6100).unwrap();
    cpu.interpret(0xF185).unwrap(); // load them back
    assert_eq!(cpu.get_reg(0), 0xAB);
    assert_eq!(cpu.get_reg(1), 0xCD);
}

#[test]
fn font_addresses() {
    let mut cpu = setup_blank_cpu();
    cpu.interpret(0x600F).unwrap();
    cpu.interpret(0xF029).unwrap(); // standard glyph for V0
    assert_eq!(cpu.get_index_reg(), 5 * 0xF);
    let mut cpu = schip_cpu();
    cpu.interpret(0x6002).unwrap();
    cpu.interpret(0xF030).unwrap(); // extended glyph for V0
    assert_eq!(cpu.get_index_reg(), 0x50 + 10 * 2);
}

#[test]
fn timers_count_down_once_per_cycle() {
    let mut cpu = setup_blank_cpu();
    cpu.interpret(0x6005).unwrap(); // V0 = 5
    cpu.interpret(0xF015).unwrap(); // delay = 5, then ticks to 4
    cpu.interpret(0xF107).unwrap(); // V1 = delay (4), then ticks to 3
    assert_eq!(cpu.get_reg(1), 4);
    cpu.interpret(0xF018).unwrap(); // sound = V0, runs without a counter read
}

#[test]
fn unknown_opcode_is_fatal_and_reported() {
    let mut cpu = setup_blank_cpu();
    let before_pc = cpu.get_pc();
    assert_eq!(cpu.interpret(0x8FF8), Err(CpuError::UnknownOpcode(0x8FF8)));
    assert_eq!(cpu.get_pc(), before_pc + 2);
}

#[test]
fn machine_code_calls_are_unknown_opcodes() {
    let mut cpu = setup_blank_cpu();
    let before_pc = cpu.get_pc();
    assert_eq!(cpu.interpret(0x0123), Err(CpuError::UnknownOpcode(0x0123)));
    assert_eq!(cpu.get_pc(), before_pc + 2);
}

#[test]
fn schip_only_opcodes_are_unknown_in_chip_mode() {
    let mut cpu = setup_blank_cpu();
    assert_eq!(cpu.interpret(0xF075), Err(CpuError::UnknownOpcode(0xF075)));
    let mut cpu = schip_cpu();
    assert_eq!(cpu.interpret(0xF075), Ok(()));
}

#[test]
fn stack_underflow_on_extra_return() {
    let mut cpu = setup_blank_cpu();
    cpu.interpret(0x00EE).unwrap(); // one frame is available at start
    assert_eq!(cpu.interpret(0x00EE), Err(CpuError::StackUnderflow));
}

#[test]
fn stack_overflow_on_deep_calls() {
    let mut cpu = setup_blank_cpu();
    for _ in 0..14 {
        cpu.interpret(0x2300).unwrap();
    }
    assert_eq!(cpu.interpret(0x2300), Err(CpuError::StackOverflow));
}

#[test]
fn exit_halts_only_in_schip_mode() {
    let mut cpu = setup_blank_cpu();
    assert_eq!(cpu.interpret(0x00FD), Err(CpuError::UnknownOpcode(0x00FD)));
    assert!(!cpu.is_finished());
    let mut cpu = schip_cpu();
    cpu.interpret(0x00FD).unwrap();
    assert!(cpu.is_finished());
}

#[test]
fn mode_switch_opcodes() {
    let mut cpu = setup_blank_cpu();
    assert!(cpu.graphics.mode == Mode::Chip);
    cpu.interpret(0x00FF).unwrap();
    assert!(cpu.graphics.mode == Mode::Schip);
    cpu.interpret(0x00FE).unwrap();
    assert!(cpu.graphics.mode == Mode::Chip);
}

#[test]
fn key_skip_instructions() {
    let mut cpu = setup_blank_cpu();
    let mut pressed = [false; 16];
    pressed[4] = true;
    cpu.io.set_key_state(pressed);
    cpu.interpret(0x6404).unwrap(); // V4 = 4
    let before_pc = cpu.get_pc();
    cpu.interpret(0xE49E).unwrap(); // skip if key V4 pressed
    assert_eq!(cpu.get_pc(), before_pc + 4);
    let before_pc = cpu.get_pc();
    cpu.interpret(0xE4A1).unwrap(); // skip if key V4 not pressed
    assert_eq!(cpu.get_pc(), before_pc + 2);
}

#[test]
fn wait_for_key_stores_delivered_key() {
    let mut cpu = setup_blank_cpu();
    cpu.io.set_next_key(9);
    cpu.interpret(0xF60A).unwrap();
    assert_eq!(cpu.get_reg(6), 9);
}

#[test]
fn perform_cycle_fetches_from_memory() {
    // program: 0x6A42 at 0x200
    let cpu_rom = vec![0x6A, 0x42];
    let mut cpu = CPU::new(cpu_rom);
    cpu.perform_cycle().unwrap();
    assert_eq!(cpu.get_reg(0xA), 0x42);
    assert_eq!(cpu.get_pc(), 0x202);
}

#[test]
fn draw_glyph_and_collision_flag() {
    let mut cpu = setup_blank_cpu();
    cpu.interpret(0x6000).unwrap(); // V0 = 0 (x)
    cpu.interpret(0x6100).unwrap(); // V1 = 0 (y)
    cpu.interpret(0xF029).unwrap(); // I = glyph 0
    cpu.interpret(0xD015).unwrap(); // draw 5 rows at (0, 0)
    assert_eq!(cpu.get_reg(0xF), 0);
    // glyph 0 starts with row 0xF0: pixels 0..4 set, 4..8 clear
    assert!(cpu.graphics.get_pix(0, 0));
    assert!(cpu.graphics.get_pix(3, 0));
    assert!(!cpu.graphics.get_pix(4, 0));
    // drawing the same glyph again erases it and reports the collision
    cpu.interpret(0xD015).unwrap();
    assert_eq!(cpu.get_reg(0xF), 1);
    for y in 0..5 {
        for x in 0..8 {
            assert!(!cpu.graphics.get_pix(x, y));
        }
    }
}

#[test]
fn clear_screen_blanks_everything_before_a_draw() {
    let mut cpu = setup_blank_cpu();
    cpu.interpret(0x6000).unwrap();
    cpu.interpret(0x6100).unwrap();
    cpu.interpret(0xF029).unwrap();
    cpu.interpret(0xD015).unwrap();
    assert!(cpu.graphics.get_pix(0, 0));
    cpu.interpret(0x00E0).unwrap();
    for y in 0..64 {
        for x in 0..128 {
            assert!(!cpu.graphics.get_pix(x, y));
        }
    }
    // a draw on the cleared screen starts from the blank state
    cpu.interpret(0xD015).unwrap();
    assert_eq!(cpu.get_reg(0xF), 0);
    assert!(cpu.graphics.get_pix(0, 0));
}

#[test]
fn extended_sprite_joins_two_bytes_per_row() {
    let mut cpu = schip_cpu();
    cpu.mem[0x500] = 0xFF;
    cpu.mem[0x501] = 0x00;
    cpu.interpret(0xA500).unwrap();
    cpu.interpret(0x6100).unwrap(); // V1 = 0 (x)
    cpu.interpret(0x6200).unwrap(); // V2 = 0 (y)
    cpu.interpret(0xD120).unwrap(); // extended sprite at (0, 0)
    // row 0 line is (0xFF << 8) | 0x00 == 0xFF00: pixels 0..8 set
    assert!(cpu.graphics.get_pix(0, 0));
    assert!(cpu.graphics.get_pix(7, 0));
    assert!(!cpu.graphics.get_pix(8, 0));
    assert!(!cpu.graphics.get_pix(15, 0));
}

#[test]
fn scroll_opcodes_move_pixels() {
    let mut cpu = schip_cpu();
    cpu.graphics.draw_pix(10, 5, true);
    cpu.interpret(0x00FB).unwrap(); // scroll right by 4
    assert!(cpu.graphics.get_pix(14, 5));
    assert!(!cpu.graphics.get_pix(10, 5));
    cpu.interpret(0x00FC).unwrap(); // scroll left by 4
    assert!(cpu.graphics.get_pix(10, 5));
    cpu.interpret(0x00C3).unwrap(); // scroll down by 3
    assert!(cpu.graphics.get_pix(10, 8));
    assert!(!cpu.graphics.get_pix(10, 5));
}

#[test]
fn draw_line_reports_collision_only_on_unset() {
    let mut g = Graphics::new();
    assert!(!g.draw_line(0, 0, 0xAA, 8));
    assert!(g.get_pix(0, 0));
    assert!(!g.get_pix(1, 0));
    // a disjoint pattern composes without collision
    assert!(!g.draw_line(0, 0, 0x55, 8));
    // compositing over set pixels unsets them and reports the collision
    assert!(g.draw_line(0, 0, 0xFF, 8));
    for x in 0..8 {
        assert!(!g.get_pix(x, 0));
    }
}

#[test]
fn draw_line_wraps_y_by_mode_height() {
    let mut g = Graphics::new();
    assert!(g.mode == Mode::Chip);
    g.draw_line(0, 33, 0x80, 8); // row 33 wraps to row 1 at height 32
    assert!(g.get_pix(0, 1));
    assert!(!g.get_pix(0, 33));
}

#[test]
fn draw_line_clips_at_right_edge() {
    let mut g = Graphics::new();
    assert!(!g.draw_line(126, 0, 0xFF, 8));
    assert!(g.get_pix(126, 0));
    assert!(g.get_pix(127, 0));
    assert!(!g.get_pix(0, 0)); // no wrap back to the left edge
}

#[test]
fn scroll_discards_and_blanks() {
    let mut g = Graphics::new();
    g.set_mode(Mode::Schip);
    g.draw_pix(127, 0, true);
    g.draw_pix(0, 63, true);
    g.scroll_right(4);
    assert!(!g.get_pix(127, 0)); // shifted off the right edge
    assert!(g.get_pix(4, 63));
    g.scroll_down(1);
    assert!(!g.get_pix(4, 63)); // shifted off the bottom edge
    g.scroll_left(4);
    for x in 0..128 {
        assert!(!g.get_pix(x, 63));
    }
}

#[test]
fn key_lookup_finds_only_members() {
    let keys = [
        'z', 'x', 'c', 'v', 'a', 's', 'd', 'f', 'q', 'w', 'e', 'r', '1', '2', '3', '4',
    ];
    assert_eq!(index(keys, 'z'), Some(0));
    assert_eq!(index(keys, 'f'), Some(7));
    assert_eq!(index(keys, '4'), Some(15));
    assert_eq!(index(keys, '9'), None);
    let io_impl = IOImpl::new(keys);
    assert_eq!(io_impl.key_set[0], 'z');
}

#[test]
fn io_snapshot_reports_what_was_set() {
    let mut io = IO::new();
    assert!(!io.is_key_pressed(0));
    assert_eq!(io.wait_for_key(), 0);
    let mut pressed = [false; 16];
    pressed[15] = true;
    io.set_key_state(pressed);
    assert!(io.is_key_pressed(15));
    assert!(!io.is_key_pressed(14));
    io.set_next_key(12);
    assert_eq!(io.wait_for_key(), 12);
}

#[test]
fn rom_size_rule() {
    assert!(chip8::cpu::rom_fits(0));
    assert!(chip8::cpu::rom_fits(0xE00));
    assert!(!chip8::cpu::rom_fits(0xE01));
}
