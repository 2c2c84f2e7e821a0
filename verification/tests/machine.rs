//! Whole-machine scenarios: boot, instruction semantics, echo RAM, OAM DMA,
//! frame timing and the rendered output.

use gb_core::cpu::{Cpu, EmuError};
use gb_core::utils::DISPLAY_BUFFER;

/// A blank 32 KiB image (mapper NONE) with a program at the entry point.
fn rom_with(program: &[u8]) -> Vec<u8> {
    let mut rom = vec![0u8; 0x8000];
    for (i, b) in program.iter().enumerate() {
        rom[0x100 + i] = *b;
    }
    rom
}

fn boot(program: &[u8]) -> Cpu {
    let mut cpu = Cpu::new();
    cpu.load_rom(&rom_with(program)).unwrap();
    cpu
}

#[test]
fn boot_registers() {
    let cpu = Cpu::new();
    assert_eq!(cpu.a, 0x01);
    assert_eq!(cpu.f, 0xB0);
    assert_eq!(cpu.b, 0x00);
    assert_eq!(cpu.c, 0x13);
    assert_eq!(cpu.d, 0x00);
    assert_eq!(cpu.e, 0xD8);
    assert_eq!(cpu.h, 0x01);
    assert_eq!(cpu.l, 0x4D);
    assert_eq!(cpu.sp, 0xFFFE);
    assert_eq!(cpu.pc, 0x0100);
    // The fixed post-boot I/O values.
    assert_eq!(cpu.bus.read_ram(0xFF40), 0x91);
    assert_eq!(cpu.bus.read_ram(0xFF47), 0xFC);
    assert_eq!(cpu.bus.read_ram(0xFF26), 0xF1);
}

#[test]
fn all_zero_rom_renders_white() {
    let mut cpu = boot(&[]);
    // Run until the first frame completes: LCDC starts at $91 and the zero
    // tiles map to shade 0 through BGP, so every rendered line is white.
    // The machine boots partway into line 0 (in its horizontal blank), so
    // that one line is painted on the following frame; render it here to
    // check the whole buffer.
    let mut frames = 0;
    while frames == 0 {
        if cpu.tick().unwrap() {
            frames += 1;
        }
    }
    cpu.write_ram(0xFF44, 0);
    cpu.bus.render_scanline();
    let frame = cpu.render();
    assert_eq!(frame.len(), DISPLAY_BUFFER);
    assert!(frame.iter().all(|&b| b == 0xFF));
}

#[test]
fn frame_cycle_budget() {
    // A halted CPU idles one cycle per tick and the pixel unit consumes
    // exactly that, so successive frame boundaries are exactly one frame
    // budget of 70224 dots apart.
    let mut cpu = boot(&[0x76]);
    while !cpu.tick().unwrap() {}
    let mut ticks: u64 = 0;
    loop {
        ticks += 1;
        if cpu.tick().unwrap() {
            break;
        }
    }
    assert_eq!(ticks, 70224);
}

#[test]
fn echo_ram_alias() {
    // LD A, $42; LD ($C000), A; LD A, 0; LD A, ($E000)
    let mut cpu = boot(&[0x3E, 0x42, 0xEA, 0x00, 0xC0, 0x3E, 0x00, 0xFA, 0x00, 0xE0]);
    for _ in 0..4 {
        cpu.tick().unwrap();
    }
    assert_eq!(cpu.a, 0x42);
}

#[test]
fn add_carry_flags() {
    // LD A, $FF; ADD A, $01 leaves A=0, Z=1, N=0, H=1, C=1.
    let mut cpu = boot(&[0x3E, 0xFF, 0xC6, 0x01]);
    cpu.tick().unwrap();
    cpu.tick().unwrap();
    assert_eq!(cpu.a, 0x00);
    assert_eq!(cpu.f, 0xB0);
}

#[test]
fn inc_keeps_carry() {
    // LD A, $0F; INC A leaves A=$10, Z=0, N=0, H=1, C unchanged (C is set
    // by the post-boot flags).
    let mut cpu = boot(&[0x3E, 0x0F, 0x3C]);
    cpu.tick().unwrap();
    cpu.tick().unwrap();
    assert_eq!(cpu.a, 0x10);
    assert_eq!(cpu.f, 0x30);
}

#[test]
fn add_sp_flags() {
    // LD SP, $FFF8; ADD SP, $02 leaves SP=$FFFA with all flags clear.
    let mut cpu = boot(&[0x31, 0xF8, 0xFF, 0xE8, 0x02]);
    cpu.tick().unwrap();
    cpu.tick().unwrap();
    assert_eq!(cpu.sp, 0xFFFA);
    assert_eq!(cpu.f, 0x00);
}

#[test]
fn black_tile_scanline() {
    // A single tile whose first row is eight pixels of colour 3 paints
    // scanline 0 black through the default BGP of $FC.
    let mut cpu = boot(&[]);
    cpu.write_ram(0x8000, 0xFF);
    cpu.write_ram(0x8001, 0xFF);
    cpu.bus.render_scanline();
    let buf = &cpu.bus.ppu.screen_buffer;
    for px in 0..160 {
        assert_eq!(buf[4 * px], 0x00);
        assert_eq!(buf[4 * px + 1], 0x00);
        assert_eq!(buf[4 * px + 2], 0x00);
        assert_eq!(buf[4 * px + 3], 0xFF);
    }
}

#[test]
fn sprite_8x16_y_flip_boundary_row() {
    // An 8x16 sprite with vertical flip shows data row 7 on screen row 8,
    // and row 7 lies in the top tile (index with the low bit cleared).
    let mut cpu = boot(&[]);
    // Top tile (0): row 7 is eight pixels of colour 3.
    cpu.write_ram(0x800E, 0xFF);
    cpu.write_ram(0x800F, 0xFF);
    // Bottom tile (1): row 7 is eight pixels of colour 1.
    cpu.write_ram(0x801E, 0xFF);
    // One sprite at the top-left corner, tile 0, vertically flipped.
    cpu.write_ram(0xFE00, 16);
    cpu.write_ram(0xFE01, 8);
    cpu.write_ram(0xFE02, 0);
    cpu.write_ram(0xFE03, 0x40);
    cpu.write_ram(0xFF40, 0x97); // LCD and BG on, sprites on, 8x16 mode
    cpu.write_ram(0xFF48, 0xE4); // OBP0 maps each colour to its own shade
    cpu.write_ram(0xFF44, 8);
    cpu.bus.render_scanline();
    let buf = &cpu.bus.ppu.screen_buffer;
    let start = 8 * 4 * 160;
    for px in 0..8 {
        // The top tile's row 7 through OBP0 entry 3: black, not the bottom
        // tile's grey.
        assert_eq!(buf[start + 4 * px], 0x00);
        assert_eq!(buf[start + 4 * px + 1], 0x00);
        assert_eq!(buf[start + 4 * px + 2], 0x00);
        assert_eq!(buf[start + 4 * px + 3], 0xFF);
    }
}

#[test]
fn oam_dma_copies_wram() {
    let mut cpu = boot(&[]);
    for i in 0..160u16 {
        cpu.write_ram(0xC000 + i, (i as u8).wrapping_mul(3).wrapping_add(7));
    }
    cpu.write_ram(0xFF46, 0xC0);
    for i in 0..160u16 {
        let expect = (i as u8).wrapping_mul(3).wrapping_add(7);
        let got = cpu.bus.read_ram(0xFE00 + i);
        if i % 4 == 3 {
            // OAM stores only the four attribute bits of every fourth byte.
            assert_eq!(got, expect & 0xF0);
        } else {
            assert_eq!(got, expect);
        }
    }
}

#[test]
fn invalid_opcode_is_fatal() {
    let mut cpu = boot(&[0xD3]);
    assert_eq!(cpu.tick(), Err(EmuError::InvalidOpcode(0x0100)));
}

#[test]
fn interrupt_dispatch() {
    // EI, then a pending VBLANK request: the interrupt is taken, the master
    // enable clears, the IF bit clears, and PC lands on the vector.
    let mut cpu = boot(&[0xFB, 0x00]);
    cpu.write_ram(0xFFFF, 0x01);
    cpu.write_ram(0xFF0F, 0x01);
    cpu.tick().unwrap();
    assert_eq!(cpu.pc, 0x0040);
    assert!(!cpu.irq_enabled);
    assert_eq!(cpu.bus.read_ram(0xFF0F) & 0x01, 0);
    // The old PC (after EI) sits on the stack.
    assert_eq!(cpu.bus.read_ram(0xFFFC), 0x01);
    assert_eq!(cpu.bus.read_ram(0xFFFD), 0x01);
}

#[test]
fn halt_wakes_on_interrupt() {
    // HALT with interrupts disabled still wakes on a pending interrupt.
    let mut cpu = boot(&[0x76, 0x3C]);
    cpu.tick().unwrap();
    assert!(cpu.halted);
    cpu.write_ram(0xFFFF, 0x04);
    cpu.write_ram(0xFF0F, 0x04);
    cpu.tick().unwrap();
    assert!(!cpu.halted);
}

#[test]
fn call_and_ret() {
    // CALL $0110; at $0110 RET; back at $0105.
    let mut program = vec![0xCD, 0x10, 0x01];
    program.resize(0x10, 0x00);
    program.push(0xC9);
    let mut cpu = boot(&program);
    cpu.tick().unwrap();
    assert_eq!(cpu.pc, 0x0110);
    assert_eq!(cpu.sp, 0xFFFC);
    cpu.tick().unwrap();
    assert_eq!(cpu.pc, 0x0103);
    assert_eq!(cpu.sp, 0xFFFE);
}

#[test]
fn daa_adjusts_bcd_addition() {
    // LD A, $09; ADD A, $01; DAA gives the decimal 10.
    let mut cpu = boot(&[0x3E, 0x09, 0xC6, 0x01, 0x27]);
    cpu.tick().unwrap();
    cpu.tick().unwrap();
    cpu.tick().unwrap();
    assert_eq!(cpu.a, 0x10);
}

#[test]
fn relative_jump_backwards() {
    // JR +2 skips two bytes; JR -4 at $0104 returns to $0102.
    let mut cpu = boot(&[0x18, 0x02, 0x00, 0x00, 0x18, 0xFC]);
    cpu.tick().unwrap();
    assert_eq!(cpu.pc, 0x0104);
    cpu.tick().unwrap();
    assert_eq!(cpu.pc, 0x0102);
}

#[test]
fn cb_bit_and_set() {
    // CB SWAP A on $F0 gives $0F; CB SET 7, A raises bit 7.
    let mut cpu = boot(&[0x3E, 0xF0, 0xCB, 0x37, 0xCB, 0xFF]);
    cpu.tick().unwrap();
    cpu.tick().unwrap();
    assert_eq!(cpu.a, 0x0F);
    cpu.tick().unwrap();
    assert_eq!(cpu.a, 0x8F);
}

#[test]
fn lcd_disable_zeroes_the_mode_machine() {
    // Clearing LCDC bit 7 forces LY to 0 and the mode to the horizontal
    // blank, and the blanked screen renders as zeroes.
    let mut cpu = boot(&[0x76]);
    for _ in 0..30000 {
        cpu.tick().unwrap();
    }
    assert_ne!(cpu.bus.read_ram(0xFF44), 0);
    cpu.write_ram(0xFF40, 0x11);
    cpu.tick().unwrap();
    assert_eq!(cpu.bus.read_ram(0xFF44), 0);
    assert_eq!(cpu.bus.read_ram(0xFF41) & 0b11, 0);
    for _ in 0..1000 {
        cpu.tick().unwrap();
    }
    assert_eq!(cpu.bus.read_ram(0xFF44), 0);
    assert!(cpu.render().iter().all(|&b| b == 0));
    // Re-enabling restarts the machine from line 0.
    cpu.write_ram(0xFF40, 0x91);
    for _ in 0..300 {
        cpu.tick().unwrap();
    }
    assert_eq!(cpu.bus.read_ram(0xFF44), 1);
}

#[test]
fn pc_wraps_modulo_65536() {
    // JP $FFFF, then the fetch at $FFFF wraps PC to 0 (the opcode there is
    // whatever IE holds; 0 reads as NOP).
    let mut cpu = boot(&[0xC3, 0xFF, 0xFF]);
    cpu.tick().unwrap();
    assert_eq!(cpu.pc, 0xFFFF);
    cpu.tick().unwrap();
    assert_eq!(cpu.pc, 0x0000);
}
