//! Component-level checks: the bit and palette utilities, the tile codec,
//! the timer, the joypad, the mappers, the real-time clock and the error
//! paths.

use gb_core::cart::{Cart, CartError, MBC};
use gb_core::cpu::Cpu;
use gb_core::io::Buttons;
use gb_core::tile::Tile;
use gb_core::timer::Timer;
use gb_core::utils;

fn rom_of_type(cart_type: u8, ram_size: u8) -> Vec<u8> {
    let mut rom = vec![0u8; 0x8000];
    rom[0x147] = cart_type;
    rom[0x149] = ram_size;
    rom
}

#[test]
fn merge_and_split_bytes() {
    assert_eq!(utils::merge_bytes(0x12, 0x34), 0x1234);
    assert_eq!(utils::high_byte(0x1234), 0x12);
    assert_eq!(utils::low_byte(0x1234), 0x34);
    for h in [0u8, 1, 0x7F, 0x80, 0xFF] {
        for l in [0u8, 1, 0x7F, 0x80, 0xFF] {
            let m = utils::merge_bytes(h, l);
            assert_eq!(utils::high_byte(m), h);
            assert_eq!(utils::low_byte(m), l);
        }
    }
}

#[test]
fn palette_pack_roundtrip() {
    for b in 0..=255u8 {
        let fields = utils::unpack_u8(b);
        assert!(fields.iter().all(|&f| f < 4));
        assert_eq!(utils::pack_u8(&fields), b);
    }
    assert_eq!(utils::unpack_u8(0xE4), [0, 1, 2, 3]);
}

#[test]
fn carry_predicates() {
    assert!(utils::check_h_carry_u8(0x0F, 0x01));
    assert!(!utils::check_h_carry_u8(0x0E, 0x01));
    assert!(utils::check_c_carry_u8(0xFF, 0x01));
    assert!(!utils::check_c_carry_u8(0xFE, 0x01));
    assert!(utils::check_h_borrow_u8(0x10, 0x01));
    assert!(!utils::check_h_borrow_u8(0x11, 0x01));
    assert!(utils::check_c_borrow_u8(0x00, 0x01));
    assert!(utils::check_h_carry_u16(0x0FFF, 0x0001));
    assert!(!utils::check_h_carry_u16(0x0FFE, 0x0001));
    assert!(utils::check_c_carry_u16(0xFFFF, 0x0001));
}

#[test]
fn tile_roundtrip_sixteen_bytes() {
    let mut tile = Tile::new();
    let bytes: Vec<u8> = (0..16u8).map(|i| i.wrapping_mul(0x1D).wrapping_add(5)).collect();
    for (i, b) in bytes.iter().enumerate() {
        tile.write_u8(i as u16, *b);
    }
    for (i, b) in bytes.iter().enumerate() {
        assert_eq!(tile.read_u8(i as u16), *b);
    }
    // Row 0 of an $FF/$FF pair is eight pixels of colour 3.
    let mut black = Tile::new();
    black.write_u8(0, 0xFF);
    black.write_u8(1, 0xFF);
    assert_eq!(black.get_row(0), [3; 8]);
    // The two planes weight as low and high bit: $FF/$00 is colour 1.
    let mut light = Tile::new();
    light.write_u8(0, 0xFF);
    assert_eq!(light.get_row(0), [1; 8]);
}

#[test]
fn timer_counts_falling_edges() {
    let mut t = Timer::new();
    // Enable with clock select 2: TIMA counts the falling edge of divider
    // bit 5, once every 64 T-cycles (16 machine cycles).
    t.write_timer(0xFF07, 0b110);
    let mut fired = false;
    for _ in 0..16 {
        fired |= t.tick(1);
    }
    assert_eq!(t.read_timer(0xFF05), 1);
    for _ in 16..1024 {
        fired |= t.tick(1);
    }
    // 4096 T-cycles: 64 edges counted, DIV (the divider's high byte) at 16.
    assert_eq!(t.read_timer(0xFF04), 16);
    assert_eq!(t.read_timer(0xFF05), 64);
    assert!(!fired);
    // A DIV write resets DIV.
    t.write_timer(0xFF04, 0x55);
    assert_eq!(t.read_timer(0xFF04), 0);
}

#[test]
fn timer_overflow_reload_delay() {
    let mut t = Timer::new();
    // Clock select 1: divider bit 3 falls every 16 T-cycles, first at the
    // 16th T-cycle, i.e. during the 4th machine cycle.
    t.write_timer(0xFF07, 0b101);
    t.write_timer(0xFF06, 0xAB);
    t.write_timer(0xFF05, 0xFF);
    for _ in 0..3 {
        assert!(!t.tick(1));
        assert_eq!(t.read_timer(0xFF05), 0xFF);
    }
    // The 4th machine cycle sees the overflow: TIMA reads 0 and no
    // interrupt yet; the 4-T-cycle delay expires within the next machine
    // cycle, loading TMA and raising the interrupt.
    assert!(!t.tick(1));
    assert_eq!(t.read_timer(0xFF05), 0x00);
    assert!(t.tick(1));
    assert_eq!(t.read_timer(0xFF05), 0xAB);
}

#[test]
fn joypad_banks_are_active_low() {
    let mut cpu = Cpu::new();
    cpu.load_rom(&rom_of_type(0x00, 0x00)).unwrap();
    cpu.press_button(Buttons::Right, true);
    cpu.press_button(Buttons::A, true);
    // Neither or both banks selected reads 0.
    cpu.write_ram(0xFF00, 0x30);
    assert_eq!(cpu.bus.read_ram(0xFF00), 0x00);
    // Directional bank: Right pressed clears bit 0.
    cpu.write_ram(0xFF00, 0x20);
    assert_eq!(cpu.bus.read_ram(0xFF00), 0x0E);
    // Face bank: A pressed clears bit 0.
    cpu.write_ram(0xFF00, 0x10);
    assert_eq!(cpu.bus.read_ram(0xFF00), 0x0E);
    // Releasing turns the bit back on.
    cpu.press_button(Buttons::A, false);
    assert_eq!(cpu.bus.read_ram(0xFF00), 0x0F);
}

#[test]
fn mbc1_ram_enable_roundtrip() {
    let mut cpu = Cpu::new();
    cpu.load_rom(&rom_of_type(0x03, 0x02)).unwrap();
    cpu.write_ram(0x0000, 0x0A);
    cpu.write_ram(0xA000, 0x5A);
    assert_eq!(cpu.bus.read_ram(0xA000), 0x5A);
    // Disabled writes are discarded.
    cpu.write_ram(0x0000, 0x00);
    cpu.write_ram(0xA000, 0xFF);
    cpu.write_ram(0x0000, 0x0A);
    assert_eq!(cpu.bus.read_ram(0xA000), 0x5A);
}

#[test]
fn mbc1_bank_remap() {
    let mut cpu = Cpu::new();
    cpu.load_rom(&rom_of_type(0x01, 0x00)).unwrap();
    for (val, bank) in [(0x00u8, 0x01u16), (0x20, 0x21), (0x40, 0x41), (0x60, 0x61), (0x1F, 0x1F)]
    {
        cpu.write_ram(0x2000, val);
        assert_eq!(cpu.bus.rom.rom_bank, bank);
    }
}

#[test]
fn mbc2_masks_ram_nibbles() {
    let mut cpu = Cpu::new();
    cpu.load_rom(&rom_of_type(0x06, 0x00)).unwrap();
    assert_eq!(cpu.bus.rom.ram.len(), 512);
    cpu.write_ram(0x0000, 0x0A);
    cpu.write_ram(0xA000, 0xAB);
    assert_eq!(cpu.bus.read_ram(0xA000), 0x0B);
}

#[test]
fn mbc3_rom_bank_select() {
    let mut cpu = Cpu::new();
    cpu.load_rom(&rom_of_type(0x11, 0x00)).unwrap();
    cpu.write_ram(0x2000, 0x00);
    assert_eq!(cpu.bus.rom.rom_bank, 1);
    cpu.write_ram(0x2000, 0x45);
    assert_eq!(cpu.bus.rom.rom_bank, 0x45);
}

#[test]
fn mbc5_rom_bank_low_byte() {
    let mut cpu = Cpu::new();
    cpu.load_rom(&rom_of_type(0x19, 0x00)).unwrap();
    cpu.write_ram(0x2000, 0xC4);
    assert_eq!(cpu.bus.rom.rom_bank, 0xC4);
    cpu.write_ram(0x4000, 0x1F);
    assert_eq!(cpu.bus.rom.ram_bank, 0x0F);
}

#[test]
fn banked_rom_reads() {
    let mut rom = rom_of_type(0x01, 0x00);
    rom[0x4000] = 0x11;  // bank 1
    rom[0x7FFF] = 0x22;
    let mut cpu = Cpu::new();
    cpu.load_rom(&rom).unwrap();
    assert_eq!(cpu.bus.read_ram(0x4000), 0x11);
    assert_eq!(cpu.bus.read_ram(0x7FFF), 0x22);
    // A bank past the image's end reads 0.
    cpu.write_ram(0x2000, 0x02);
    assert_eq!(cpu.bus.read_ram(0x4000), 0x00);
}

#[test]
fn rtc_latches_elapsed_time() {
    let mut cpu = Cpu::new();
    cpu.load_rom(&rom_of_type(0x0F, 0x00)).unwrap();
    cpu.set_clock(100);
    // First latch records the reference instant.
    cpu.write_ram(0x6000, 0x00);
    cpu.write_ram(0x6000, 0x01);
    // 1 hour, 2 minutes, 3 seconds later, re-latch and read the units.
    cpu.set_clock(100 + 3723);
    cpu.write_ram(0x6000, 0x00);
    cpu.write_ram(0x6000, 0x01);
    cpu.write_ram(0x4000, 0x08);
    assert_eq!(cpu.bus.read_ram(0xA000), 3);
    cpu.write_ram(0x4000, 0x09);
    assert_eq!(cpu.bus.read_ram(0xA000), 2);
    cpu.write_ram(0x4000, 0x0A);
    assert_eq!(cpu.bus.read_ram(0xA000), 1);
}

#[test]
fn unsupported_mapper_is_rejected() {
    let mut cpu = Cpu::new();
    let rom = rom_of_type(0x20, 0x00);
    assert_eq!(cpu.load_rom(&rom), Err(CartError::UnsupportedMapper));
    assert_eq!(cpu.bus.rom.mbc, MBC::NONE);
}

#[test]
fn battery_blob_length_is_checked() {
    let mut cpu = Cpu::new();
    cpu.load_rom(&rom_of_type(0x03, 0x02)).unwrap();
    assert_eq!(cpu.bus.rom.ram.len(), 8192);
    let wrong = vec![1u8; 100];
    assert_eq!(cpu.set_battery_data(&wrong), Err(CartError::BatteryBlobSizeMismatch));
    let right = vec![9u8; 8192];
    assert!(cpu.set_battery_data(&right).is_ok());
    assert_eq!(cpu.get_battery_data()[4321], 9);
}

#[test]
fn battery_dirty_latches_on_external_ram_write() {
    let mut cpu = Cpu::new();
    cpu.load_rom(&rom_of_type(0x03, 0x02)).unwrap();
    assert!(cpu.has_battery());
    assert!(!cpu.is_battery_dirty());
    cpu.write_ram(0x0000, 0x0A);
    cpu.write_ram(0xA123, 0x77);
    assert!(cpu.is_battery_dirty());
    cpu.clean_battery();
    assert!(!cpu.is_battery_dirty());
}

#[test]
fn title_reads_up_to_first_nul() {
    let mut rom = rom_of_type(0x00, 0x00);
    for (i, b) in b"TILES".iter().enumerate() {
        rom[0x134 + i] = *b;
    }
    let mut cpu = Cpu::new();
    cpu.load_rom(&rom).unwrap();
    assert_eq!(cpu.get_title(), "TILES");
}

#[test]
fn zero_ram_header_is_patched_for_ram_types() {
    // Type $03 wants external RAM; a zero size byte is coerced to 2 KiB.
    let mut cart = Cart::new();
    cart.load_cart(&rom_of_type(0x03, 0x00)).unwrap();
    assert_eq!(cart.ram.len(), 2048);
}
