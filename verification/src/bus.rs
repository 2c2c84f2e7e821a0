//! The memory bus: decodes every address to its owner — cartridge ROM,
//! VRAM, external cartridge RAM, work RAM and its echo, OAM, the I/O block,
//! the LCD registers, high RAM — and performs OAM DMA on a write to `$FF46`.
//! Reads of unmapped addresses return 0; writes there are discarded.  A
//! write into the external-RAM window is reported to the caller so the CPU
//! can mark the battery dirty.

use vstd::prelude::*;

use crate::cart::{
    spec_read_cart, spec_read_ram, spec_write_cart, spec_write_ram, Cart, CartError, CartV,
    EXT_RAM_START, EXT_RAM_STOP, HEADER_SIZE, ROM_STOP,
};
use crate::io::{spec_io_read, spec_io_write, Buttons, IoV, IO, IO_START, IO_STOP};
use crate::ppu::{
    spec_read_vram, spec_render_scanline, spec_write_vram, Ppu, PpuUpdateResult, PpuV,
    LCD_REG_START, LCD_REG_STOP, OAM_START, OAM_STOP, VRAM_START, VRAM_STOP,
};
use crate::rtc::Rtc;
use crate::sprite::{spec_sprite_read, spec_sprite_write};
use crate::utils::{spec_bit8, DISPLAY_BUFFER};
use crate::wram::{spec_wram_index, ECHO_STOP, WRAM, WRAM_SIZE, WRAM_START};

verus! {

pub const OAM_DMA: u16 = 0xFF46;

pub const HRAM_START: u16 = 0xFF80;

pub const HRAM_STOP: u16 = 0xFFFF;

pub const HRAM_SIZE: usize = 128;

pub const DMA_LEN: u16 = 0xA0;

/// The bus as contracts see it.
#[verifier::ext_equal]
pub ghost struct BusV {
    pub cart: CartV,
    pub ppu: PpuV,
    pub io: IoV,
    pub wram: Seq<u8>,
    pub hram: Seq<u8>,
}

pub struct Bus {
    pub rom: Cart,
    pub ppu: Ppu,
    pub io: IO,
    pub wram: WRAM,
    pub hram: Vec<u8>,
}

impl View for Bus {
    type V = BusV;

    open spec fn view(&self) -> BusV {
        BusV { cart: self.rom@, ppu: self.ppu@, io: self.io@, wram: self.wram@, hram: self.hram@ }
    }
}

impl BusV {
    pub open spec fn wf(self) -> bool {
        &&& self.cart.wf()
        &&& self.ppu.wf()
        &&& self.io.wf()
        &&& self.wram.len() == WRAM_SIZE
        &&& self.hram.len() == HRAM_SIZE
    }
}

/// The bus at power-on.
pub open spec fn spec_bus_boot() -> BusV {
    BusV {
        cart: crate::cart::spec_cart_boot(),
        ppu: crate::ppu::spec_ppu_boot(),
        io: crate::io::spec_io_boot(),
        wram: Seq::new(WRAM_SIZE as nat, |i: int| 0u8),
        hram: Seq::new(HRAM_SIZE as nat, |i: int| 0u8),
    }
}

/// What a bus read returns, by the memory map.  Opaque: everything above
/// the bus works through this function's name, not its body.
#[verifier::opaque]
pub open spec fn spec_bus_read(v: BusV, addr: u16) -> u8 {
    if addr <= ROM_STOP {
        spec_read_cart(v.cart, addr)
    } else if VRAM_START <= addr <= VRAM_STOP {
        spec_read_vram(v.ppu, addr)
    } else if EXT_RAM_START <= addr <= EXT_RAM_STOP {
        spec_read_ram(v.cart, addr)
    } else if WRAM_START <= addr <= ECHO_STOP {
        v.wram[spec_wram_index(addr)]
    } else if OAM_START <= addr <= OAM_STOP {
        spec_sprite_read(v.ppu.oam[(addr - OAM_START) / 4], addr)
    } else if IO_START <= addr <= IO_STOP {
        spec_io_read(v.io, addr)
    } else if LCD_REG_START <= addr <= LCD_REG_STOP {
        v.ppu.reg(addr)
    } else if HRAM_START <= addr {
        v.hram[addr - HRAM_START]
    } else {
        0u8
    }
}

/// The first `n` bytes of an OAM DMA from page `high`: byte `i` is read from
/// the bus at `(high << 8) + i` — through the state the transfer has built
/// so far — and stored into the OAM entry at `$FE00 + i`.
pub open spec fn spec_dma_n(v: BusV, high: u8, n: int) -> BusV
    decreases n,
{
    if n <= 0 {
        v
    } else {
        let v1 = spec_dma_n(v, high, n - 1);
        let i = n - 1;
        let val = spec_bus_read(v1, (((high as u16) << 8) + i) as u16);
        let dst = (OAM_START + i) as u16;
        BusV {
            ppu: PpuV {
                oam: v1.ppu.oam.update(i / 4, spec_sprite_write(v1.ppu.oam[i / 4], dst, val)),
                ..v1.ppu
            },
            ..v1
        }
    }
}

/// The bus after a write, by the memory map, and whether the write hit the
/// battery-backed external-RAM window.  A write to `$FF46` first performs
/// the whole 160-byte OAM DMA, then lands in the LCD register file.  Opaque:
/// everything above the bus works through this function's name.
#[verifier::opaque]
pub open spec fn spec_bus_write(v: BusV, addr: u16, val: u8) -> (BusV, bool) {
    if addr <= ROM_STOP {
        (BusV { cart: spec_write_cart(v.cart, addr, val), ..v }, false)
    } else if VRAM_START <= addr <= VRAM_STOP {
        (BusV { ppu: spec_write_vram(v.ppu, addr, val), ..v }, false)
    } else if EXT_RAM_START <= addr <= EXT_RAM_STOP {
        (BusV { cart: spec_write_ram(v.cart, addr, val), ..v }, true)
    } else if WRAM_START <= addr <= ECHO_STOP {
        (BusV { wram: v.wram.update(spec_wram_index(addr), val), ..v }, false)
    } else if OAM_START <= addr <= OAM_STOP {
        (
            BusV {
                ppu: PpuV {
                    oam: v.ppu.oam.update(
                        (addr - OAM_START) / 4,
                        spec_sprite_write(v.ppu.oam[(addr - OAM_START) / 4], addr, val),
                    ),
                    ..v.ppu
                },
                ..v
            },
            false,
        )
    } else if IO_START <= addr <= IO_STOP {
        (BusV { io: spec_io_write(v.io, addr, val), ..v }, false)
    } else if LCD_REG_START <= addr <= LCD_REG_STOP {
        let v1 = if addr == OAM_DMA {
            spec_dma_n(v, val, DMA_LEN as int)
        } else {
            v
        };
        (
            BusV {
                ppu: PpuV {
                    lcd_regs: v1.ppu.lcd_regs.update(addr - LCD_REG_START, val),
                    ..v1.ppu
                },
                ..v1
            },
            false,
        )
    } else if HRAM_START <= addr {
        (BusV { hram: v.hram.update(addr - HRAM_START, val), ..v }, false)
    } else {
        (v, false)
    }
}

impl Bus {
    pub fn new() -> (b: Bus)
        ensures
            b@.wf(),
            b@ == spec_bus_boot(),
    {
        let mut hram: Vec<u8> = Vec::new();
        let mut i: usize = 0;
        while i < HRAM_SIZE
            invariant
                i <= HRAM_SIZE,
                hram@.len() == i,
                forall|j: int| 0 <= j < i ==> hram@[j] == 0u8,
            decreases HRAM_SIZE - i,
        {
            hram.push(0);
            i += 1;
        }
        let b = Bus { rom: Cart::new(), ppu: Ppu::new(), io: IO::new(), wram: WRAM::new(), hram };
        proof {
            assert(b@.wram =~= spec_bus_boot().wram);
            assert(b@.hram =~= spec_bus_boot().hram);
            assert(b@ =~= spec_bus_boot());
        }
        b
    }

    fn dma_transfer(&mut self, high: u8)
        requires
            old(self)@.wf(),
        ensures
            final(self)@.wf(),
            final(self)@ == spec_dma_n(old(self)@, high, DMA_LEN as int),
    {
        let src = (high as u16) << 8;
        let mut i: u16 = 0;
        while i < DMA_LEN
            invariant
                i <= DMA_LEN,
                src == (high as u16) << 8,
                self@.wf(),
                self@ == spec_dma_n(old(self)@, high, i as int),
            decreases DMA_LEN - i,
        {
            let ghost pre = self@;
            proof {
                assert(src <= 0xFF00) by {
                    assert((high as u16) << 8 <= 0xFF00) by (bit_vector);
                }
            }
            let val = self.read_ram(src + i);
            let relative = OAM_START + i;
            let oam_idx = ((relative - OAM_START) / 4) as usize;
            let mut s = self.ppu.oam[oam_idx];
            s.write_u8(relative, val);
            self.ppu.oam[oam_idx] = s;
            proof {
                assert(self@ =~= spec_dma_n(old(self)@, high, i as int + 1));
            }
            i += 1;
        }
    }

    /// Read one byte through the memory map.
    pub fn read_ram(&self, addr: u16) -> (r: u8)
        requires
            self@.wf(),
        ensures
            r == spec_bus_read(self@, addr),
    {
        proof {
            reveal(spec_bus_read);
        }
        if addr <= ROM_STOP {
            self.rom.read_cart(addr)
        } else if addr <= VRAM_STOP {
            self.ppu.read_vram(addr)
        } else if addr <= EXT_RAM_STOP {
            self.rom.read_ram(addr)
        } else if addr <= ECHO_STOP {
            self.wram.read_u8(addr)
        } else if OAM_START <= addr && addr <= OAM_STOP {
            self.ppu.read_oam(addr)
        } else if IO_START <= addr && addr <= IO_STOP {
            self.io.read_u8(addr)
        } else if LCD_REG_START <= addr && addr <= LCD_REG_STOP {
            self.ppu.read_lcd_reg(addr)
        } else if HRAM_START <= addr {
            proof {
                reveal(spec_bus_read);
            }
            let relative_addr = addr - HRAM_START;
            self.hram[relative_addr as usize]
        } else {
            proof {
                reveal(spec_bus_read);
            }
            0
        }
    }

    /// Write one byte through the memory map; reports whether the write hit
    /// the battery-backed external-RAM window.
    pub fn write_ram(&mut self, addr: u16, val: u8) -> (battery_write: bool)
        requires
            old(self)@.wf(),
        ensures
            final(self)@.wf(),
            (final(self)@, battery_write) == spec_bus_write(old(self)@, addr, val),
    {
        proof {
            reveal(spec_bus_write);
        }
        let mut battery_write = false;
        if addr <= ROM_STOP {
            self.rom.write_cart(addr, val);
        } else if addr <= VRAM_STOP {
            self.ppu.write_vram(addr, val);
        } else if addr <= EXT_RAM_STOP {
            self.rom.write_ram(addr, val);
            battery_write = true;
        } else if addr <= ECHO_STOP {
            self.wram.write_u8(addr, val);
        } else if OAM_START <= addr && addr <= OAM_STOP {
            self.ppu.write_oam(addr, val);
        } else if IO_START <= addr && addr <= IO_STOP {
            self.io.write_u8(addr, val);
        } else if LCD_REG_START <= addr && addr <= LCD_REG_STOP {
            if addr == OAM_DMA {
                self.dma_transfer(val);
            }
            self.ppu.write_lcd_reg(addr, val);
        } else if HRAM_START <= addr {
            let relative_addr = addr - HRAM_START;
            self.hram[relative_addr as usize] = val;
        }
        proof {
            assert(self@ =~= spec_bus_write(old(self)@, addr, val).0);
        }
        battery_write
    }

    /// Borrow the external RAM for battery persistence.
    pub fn get_battery_data(&self) -> (r: &Vec<u8>)
        ensures
            r@ == self@.cart.ram,
    {
        self.rom.get_battery_data()
    }

    pub fn get_title(&self) -> (r: String)
        requires
            self@.cart.wf(),
        ensures
            self@.cart.rom.len() >= HEADER_SIZE ==> r@ == crate::cart::spec_title(self@.cart.rom),
            self@.cart.rom.len() < HEADER_SIZE ==> r@ == Seq::<char>::empty(),
    {
        self.rom.get_title()
    }

    pub fn has_battery(&self) -> (r: bool)
        requires
            self@.cart.rom.len() >= HEADER_SIZE,
        ensures
            r == crate::cart::spec_has_battery(
                self@.cart.rom[crate::cart::CART_TYPE_ADDR as int],
            ),
    {
        self.rom.has_battery()
    }

    pub fn load_rom(&mut self, data: &[u8]) -> (r: Result<(), CartError>)
        requires
            data@.len() >= HEADER_SIZE,
            old(self)@.wf(),
        ensures
            final(self)@.wf(),
            crate::cart::spec_mbc_of(data@[crate::cart::CART_TYPE_ADDR as int])
                == crate::cart::MBC::INV ==> r == Err::<(), CartError>(
                CartError::UnsupportedMapper,
            ) && final(self)@ == old(self)@,
            crate::cart::spec_mbc_of(data@[crate::cart::CART_TYPE_ADDR as int])
                != crate::cart::MBC::INV ==> r is Ok && final(self)@ == (BusV {
                cart: (CartV {
                    rom: data@,
                    mbc: crate::cart::spec_mbc_of(data@[crate::cart::CART_TYPE_ADDR as int]),
                    ram: Seq::new(crate::cart::spec_ram_len(data@) as nat, |i: int| 0u8),
                    ..old(self)@.cart
                }),
                ..old(self)@
            }),
    {
        let r = self.rom.load_cart(data);
        proof {
            if crate::cart::spec_mbc_of(data@[crate::cart::CART_TYPE_ADDR as int])
                == crate::cart::MBC::INV {
                assert(self@ =~= old(self)@);
            } else {
                assert(self@ =~= (BusV {
                    cart: (CartV {
                        rom: data@,
                        mbc: crate::cart::spec_mbc_of(data@[crate::cart::CART_TYPE_ADDR as int]),
                        ram: Seq::new(crate::cart::spec_ram_len(data@) as nat, |i: int| 0u8),
                        ..old(self)@.cart
                    }),
                    ..old(self)@
                }));
            }
        }
        r
    }

    pub fn press_button(&mut self, button: Buttons, pressed: bool)
        ensures
            final(self)@ == (BusV {
                io: (IoV {
                    buttons: old(self)@.io.buttons.update(
                        crate::io::spec_button_idx(button),
                        pressed,
                    ),
                    ..old(self)@.io
                }),
                ..old(self)@
            }),
    {
        self.io.set_button(button, pressed);
        proof {
            assert(self@ =~= (BusV {
                io: (IoV {
                    buttons: old(self)@.io.buttons.update(
                        crate::io::spec_button_idx(button),
                        pressed,
                    ),
                    ..old(self)@.io
                }),
                ..old(self)@
            }));
        }
    }

    /// The frame as RGBA bytes, or an all-zero buffer while the LCD is off.
    pub fn render(&self) -> (r: Vec<u8>)
        requires
            self@.wf(),
        ensures
            r@.len() == DISPLAY_BUFFER,
            spec_bit8(self@.ppu.reg(crate::ppu::LCDC), crate::ppu::LCDC_LCD_ENABLED_BIT) ==> r@
                == self@.ppu.screen_buffer,
            !spec_bit8(self@.ppu.reg(crate::ppu::LCDC), crate::ppu::LCDC_LCD_ENABLED_BIT) ==> r@
                == Seq::new(DISPLAY_BUFFER as nat, |i: int| 0u8),
    {
        self.ppu.render()
    }

    pub fn render_scanline(&mut self)
        requires
            old(self)@.wf(),
        ensures
            final(self)@.wf(),
            final(self)@ == (BusV { ppu: spec_render_scanline(old(self)@.ppu), ..old(self)@ }),
    {
        self.ppu.render_scanline();
        proof {
            assert(self@ =~= (BusV { ppu: spec_render_scanline(old(self)@.ppu), ..old(self)@ }));
        }
    }

    /// Restore the external RAM from a battery blob.
    pub fn set_battery_data(&mut self, data: &[u8]) -> (r: Result<(), CartError>)
        ensures
            data@.len() == old(self)@.cart.ram.len() ==> r is Ok && final(self)@ == (BusV {
                cart: (CartV { ram: data@, ..old(self)@.cart }),
                ..old(self)@
            }),
            data@.len() != old(self)@.cart.ram.len() ==> r == Err::<(), CartError>(
                CartError::BatteryBlobSizeMismatch,
            ) && final(self)@ == old(self)@,
            old(self)@.wf() ==> final(self)@.wf(),
    {
        let r = self.rom.set_battery_data(data);
        proof {
            if data@.len() == old(self)@.cart.ram.len() {
                assert(self@ =~= (BusV {
                    cart: (CartV { ram: data@, ..old(self)@.cart }),
                    ..old(self)@
                }));
            } else {
                assert(self@ =~= old(self)@);
            }
        }
        r
    }

    /// Inject the host's wall clock for the RTC, in seconds.
    pub fn set_clock(&mut self, now: u64)
        ensures
            final(self)@ == (BusV {
                cart: (CartV { rtc: Rtc { now, ..old(self)@.cart.rtc }, ..old(self)@.cart }),
                ..old(self)@
            }),
    {
        self.rom.set_clock(now);
        proof {
            assert(self@ =~= (BusV {
                cart: (CartV { rtc: Rtc { now, ..old(self)@.cart.rtc }, ..old(self)@.cart }),
                ..old(self)@
            }));
        }
    }

    /// Advance the timer; reports whether the timer interrupt was raised.
    pub fn update_timer(&mut self, cycles: u8) -> (interrupt: bool)
        ensures
            final(self)@ == (BusV {
                io: (IoV {
                    timer: crate::timer::spec_timer_steps(
                        old(self)@.io.timer,
                        4 * cycles as int,
                    ).0,
                    ..old(self)@.io
                }),
                ..old(self)@
            }),
            interrupt == crate::timer::spec_timer_steps(old(self)@.io.timer, 4 * cycles as int).1,
    {
        let r = self.io.update_timer(cycles);
        proof {
            assert(self@ =~= (BusV {
                io: (IoV {
                    timer: crate::timer::spec_timer_steps(
                        old(self)@.io.timer,
                        4 * cycles as int,
                    ).0,
                    ..old(self)@.io
                }),
                ..old(self)@
            }));
        }
        r
    }

    /// Advance the pixel unit.
    pub fn update_ppu(&mut self, cycles: u8) -> (r: PpuUpdateResult)
        requires
            old(self)@.wf(),
        ensures
            final(self)@.wf(),
            final(self)@ == (BusV {
                ppu: crate::ppu::spec_ppu_update(old(self)@.ppu, cycles).0,
                ..old(self)@
            }),
            r == crate::ppu::spec_ppu_update(old(self)@.ppu, cycles).1,
    {
        let r = self.ppu.update(cycles);
        proof {
            assert(self@ =~= (BusV {
                ppu: crate::ppu::spec_ppu_update(old(self)@.ppu, cycles).0,
                ..old(self)@
            }));
        }
        r
    }
}

} // verus!

verus! {

/// A bus state that differs only in OAM reads the same everywhere outside
/// OAM.
proof fn lemma_bus_read_oam_independent(v: BusV, w: BusV, addr: u16)
    requires
        w == (BusV { ppu: PpuV { oam: w.ppu.oam, ..v.ppu }, ..v }),
        !(OAM_START <= addr <= OAM_STOP),
    ensures
        spec_bus_read(w, addr) == spec_bus_read(v, addr),
{
    reveal(spec_bus_read);
}

/// The first `n` DMA steps only change OAM, and the bytes already written
/// read back as the source bytes of the untouched state (attribute bytes
/// keep their high nibble).  The source page must not itself be OAM.
proof fn lemma_dma_n(v: BusV, high: u8, n: int)
    requires
        v.wf(),
        high != 0xFE,
        0 <= n <= 160,
    ensures
        spec_dma_n(v, high, n) == (BusV {
            ppu: PpuV { oam: spec_dma_n(v, high, n).ppu.oam, ..v.ppu },
            ..v
        }),
        spec_dma_n(v, high, n).ppu.oam.len() == v.ppu.oam.len(),
        forall|i: int|
            0 <= i < n ==> crate::sprite::spec_sprite_read(
                #[trigger] spec_dma_n(v, high, n).ppu.oam[i / 4],
                (OAM_START + i) as u16,
            ) == ({
                let src = spec_bus_read(v, (((high as u16) << 8) + i) as u16);
                if i % 4 == 3 {
                    src & 0xF0
                } else {
                    src
                }
            }),
    decreases n,
{
    if n > 0 {
        lemma_dma_n(v, high, n - 1);
        let v1 = spec_dma_n(v, high, n - 1);
        let w = spec_dma_n(v, high, n);
        let k = n - 1;
        let srcaddr = (((high as u16) << 8) + k) as u16;
        let ghost ku = k as u16;
        assert(!(OAM_START <= srcaddr <= OAM_STOP)) by {
            assert(((high as u16) << 8) + ku <= 0xFFFF && !(0xFE00 <= ((high as u16) << 8) + ku
                <= 0xFE9F)) by (bit_vector)
                requires
                    high != 0xFE,
                    ku < 160,
            ;
        }
        lemma_bus_read_oam_independent(v, v1, srcaddr);
        let val = spec_bus_read(v, srcaddr);
        crate::sprite::lemma_sprite_write_same(v1.ppu.oam[k / 4], (OAM_START + k) as u16, val);
        assert((OAM_START + k) % 4 == k % 4);
        assert forall|i: int| 0 <= i < n implies crate::sprite::spec_sprite_read(
            #[trigger] w.ppu.oam[i / 4],
            (OAM_START + i) as u16,
        ) == ({
            let src = spec_bus_read(v, (((high as u16) << 8) + i) as u16);
            if i % 4 == 3 {
                src & 0xF0
            } else {
                src
            }
        }) by {
            if i < k {
                if i / 4 == k / 4 {
                    crate::sprite::lemma_sprite_write_other(
                        v1.ppu.oam[i / 4],
                        (OAM_START + k) as u16,
                        (OAM_START + i) as u16,
                        val,
                    );
                }
            }
        }
    }
}

/// OAM DMA: writing a page number to `$FF46` copies the 160 bytes at
/// `page << 8` into OAM at `$FE00-$FE9F`.  Every byte reads back as its
/// source byte, except the 40 attribute bytes (every fourth), where OAM
/// stores only the four attribute bits of the high nibble.  The source page
/// must not itself be OAM.
pub proof fn lemma_oam_dma(v: BusV, high: u8)
    requires
        v.wf(),
        high != 0xFE,
    ensures
        forall|i: int|
            0 <= i < 160 ==> crate::sprite::spec_sprite_read(
                #[trigger] spec_bus_write(v, OAM_DMA, high).0.ppu.oam[i / 4],
                (OAM_START + i) as u16,
            ) == ({
                let src = spec_bus_read(v, (((high as u16) << 8) + i) as u16);
                if i % 4 == 3 {
                    src & 0xF0
                } else {
                    src
                }
            }),
{
    reveal(spec_bus_write);
    lemma_dma_n(v, high, 160);
}

} // verus!
