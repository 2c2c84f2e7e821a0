//! The pixel processing unit: the tile set, the two background maps, OAM,
//! the LCD register file and the scanline framebuffer.  `update` drives the
//! mode state machine, maintains LY and the STAT register and aggregates the
//! STAT interrupt sources; `render_scanline` composites one line of
//! background, window and sprite layers into the framebuffer.

use vstd::prelude::*;

use crate::modes::{spec_lcd_step, spec_mode_idx, Lcd, LcdModeType, LcdResults};
use crate::sprite::{spec_sprite_clear, spec_sprite_read, spec_sprite_write, Sprite};
use crate::tile::{spec_tile_clear, spec_tile_read, spec_tile_write, Tile};
use crate::utils::{
    get_bit8, palette_color, set_bit8, spec_bit8, spec_palette, spec_set_bit8, spec_unpack_u8,
    unpack_u8, DISPLAY_BUFFER, SCREEN_HEIGHT, SCREEN_WIDTH,
};

verus! {

pub const VRAM_START: u16 = 0x8000;

pub const VRAM_STOP: u16 = 0x9FFF;

pub const OAM_START: u16 = 0xFE00;

pub const OAM_STOP: u16 = 0xFE9F;

pub const LCD_REG_START: u16 = 0xFF40;

pub const LCD_REG_STOP: u16 = 0xFF4B;

pub const TILE_SET_STOP: u16 = 0x97FF;

pub const TILE_MAP_START: u16 = 0x9800;

pub const BYTES_PER_TILE: u16 = 16;

pub const NUM_TILES: usize = 384;

pub const TILE_MAP_SIZE: usize = 2048;

pub const LCD_REG_SIZE: usize = 12;

pub const TILE_MAP_TABLE_SIZE: usize = 1024;

pub const NUM_OAM_SPRITES: usize = 40;

pub const BYTES_PER_SPRITE: u16 = 4;

pub const LCDC: u16 = 0xFF40;

pub const STAT: u16 = 0xFF41;

pub const SCY: u16 = 0xFF42;

pub const SCX: u16 = 0xFF43;

pub const LY: u16 = 0xFF44;

pub const LYC: u16 = 0xFF45;

pub const BGP: u16 = 0xFF47;

pub const OBP0: u16 = 0xFF48;

pub const OBP1: u16 = 0xFF49;

pub const WY: u16 = 0xFF4A;

pub const WX: u16 = 0xFF4B;

pub const LCDC_LCD_ENABLED_BIT: u8 = 7;

pub const LCDC_WNDW_MAP_BIT: u8 = 6;

pub const LCDC_WNDW_ENABLED_BIT: u8 = 5;

pub const LCDC_BG_WNDW_TILE_BIT: u8 = 4;

pub const LCDC_BG_MAP_BIT: u8 = 3;

pub const LCDC_SPR_SIZE_BIT: u8 = 2;

pub const LCDC_SPR_ENABLED_BIT: u8 = 1;

pub const LCDC_BG_WNDW_ENABLED_BIT: u8 = 0;

pub const STAT_LY_LYC_IRQ_BIT: u8 = 6;

pub const STAT_OAM_IRQ_BIT: u8 = 5;

pub const STAT_VBLANK_IRQ_BIT: u8 = 4;

pub const STAT_HBLANK_IRQ_BIT: u8 = 3;

pub const STAT_LY_EQ_LYC_BIT: u8 = 2;

/// What one `update` hands back: the state machine's verdict and whether a
/// STAT interrupt fired.
pub struct PpuUpdateResult {
    pub lcd_result: LcdResults,
    pub irq: bool,
}

/// The pixel unit as contracts see it.
#[verifier::ext_equal]
pub ghost struct PpuV {
    pub screen_buffer: Seq<u8>,
    pub mode: Lcd,
    pub tiles: Seq<Seq<Seq<u8>>>,
    pub maps: Seq<u8>,
    pub lcd_regs: Seq<u8>,
    pub oam: Seq<Sprite>,
}

pub struct Ppu {
    pub screen_buffer: Vec<u8>,
    pub mode: Lcd,
    pub tiles: Vec<Tile>,
    pub maps: Vec<u8>,
    pub lcd_regs: Vec<u8>,
    pub oam: Vec<Sprite>,
}

impl View for Ppu {
    type V = PpuV;

    open spec fn view(&self) -> PpuV {
        PpuV {
            screen_buffer: self.screen_buffer@,
            mode: self.mode,
            tiles: self.tiles@.map_values(|t: Tile| t@),
            maps: self.maps@,
            lcd_regs: self.lcd_regs@,
            oam: self.oam@,
        }
    }
}

impl PpuV {
    pub open spec fn wf(self) -> bool {
        &&& self.screen_buffer.len() == DISPLAY_BUFFER
        &&& self.mode.wf()
        &&& self.tiles.len() == NUM_TILES
        &&& (forall|i: int|
            0 <= i < NUM_TILES ==> (#[trigger] self.tiles[i]).len() == 8 && forall|r: int|
                0 <= r < 8 ==> (#[trigger] self.tiles[i][r]).len() == 8)
        &&& (forall|i: int, r: int, c: int|
            0 <= i < NUM_TILES && 0 <= r < 8 && 0 <= c < 8 ==> #[trigger] self.tiles[i][r][c] < 4)
        &&& self.maps.len() == TILE_MAP_SIZE
        &&& self.lcd_regs.len() == LCD_REG_SIZE
        &&& self.oam.len() == NUM_OAM_SPRITES
    }

    /// An LCD register, by address.
    pub open spec fn reg(self, addr: u16) -> u8
        recommends
            LCD_REG_START <= addr <= LCD_REG_STOP,
    {
        self.lcd_regs[addr - LCD_REG_START]
    }
}

/// The pixel unit at power-on: everything cleared, the mode machine at the
/// start of a horizontal blank on line 0.
pub open spec fn spec_ppu_boot() -> PpuV {
    PpuV {
        screen_buffer: Seq::new(DISPLAY_BUFFER as nat, |i: int| 0u8),
        mode: Lcd { mode: LcdModeType::HBLANK, cycles: 0, line: 0 },
        tiles: Seq::new(NUM_TILES as nat, |i: int| spec_tile_clear()),
        maps: Seq::new(TILE_MAP_SIZE as nat, |i: int| 0u8),
        lcd_regs: Seq::new(LCD_REG_SIZE as nat, |i: int| 0u8),
        oam: Seq::new(NUM_OAM_SPRITES as nat, |i: int| spec_sprite_clear()),
    }
}

/// What a VRAM read returns: a byte of the packed tile set below `$9800`, a
/// tile-map byte above it.
pub open spec fn spec_read_vram(v: PpuV, addr: u16) -> u8
    recommends
        VRAM_START <= addr <= VRAM_STOP,
{
    if addr <= TILE_SET_STOP {
        let rel = addr - VRAM_START;
        spec_tile_read(v.tiles[rel / 16], (rel % 16) as u16)
    } else {
        v.maps[addr - TILE_MAP_START]
    }
}

/// The unit after a VRAM write: below `$9800` the byte lands in the packed
/// form of one tile row, above it in a tile map.
pub open spec fn spec_write_vram(v: PpuV, addr: u16, val: u8) -> PpuV
    recommends
        VRAM_START <= addr <= VRAM_STOP,
{
    if addr <= TILE_SET_STOP {
        let rel = addr - VRAM_START;
        PpuV {
            tiles: v.tiles.update(rel / 16, spec_tile_write(v.tiles[rel / 16], (rel % 16) as u16, val)),
            ..v
        }
    } else {
        PpuV { maps: v.maps.update(addr - TILE_MAP_START, val), ..v }
    }
}

/// The state machine's verdict plus the STAT/LY maintenance.  With the LCD
/// off (LCDC bit 7 clear) the machine is held zeroed and restarts from
/// there: the mode sits at the start of a horizontal blank on line 0, LY is
/// forced to 0, and the low STAT bits hold that mode.  With the LCD on: when
/// the line changed, LY follows it and the LY=LYC coincidence bit (with its
/// interrupt source) is refreshed; when the mode changed, the matching STAT
/// interrupt source can fire; the low two STAT bits always reflect the mode.
#[verifier::opaque]
pub open spec fn spec_ppu_update(v: PpuV, cycles: u8) -> (PpuV, PpuUpdateResult)
    recommends
        v.wf(),
{
    if !spec_bit8(v.reg(LCDC), LCDC_LCD_ENABLED_BIT) {
        let lcd = Lcd { mode: LcdModeType::HBLANK, cycles: 0, line: 0 };
        let stat = (v.reg(STAT) & 0b1111_1100) | spec_mode_idx(LcdModeType::HBLANK);
        let regs = v.lcd_regs.update(LY - LCD_REG_START, 0u8).update(STAT - LCD_REG_START, stat);
        (
            PpuV { mode: lcd, lcd_regs: regs, ..v },
            PpuUpdateResult { lcd_result: LcdResults::NoAction, irq: false },
        )
    } else {
        spec_ppu_step(v, cycles)
    }
}

/// The running machine's part of `spec_ppu_update`.
pub open spec fn spec_ppu_step(v: PpuV, cycles: u8) -> (PpuV, PpuUpdateResult)
    recommends
        v.wf(),
{
    let old_mode = v.mode.mode;
    let old_line = v.mode.line;
    let stepped = spec_lcd_step(v.mode, cycles);
    let lcd = stepped.0;
    let lcd_result = stepped.1;
    let stat0 = v.reg(STAT);
    let scanline = lcd.line;
    let lyc = v.reg(LYC);
    let stat1 = if old_line != scanline {
        spec_set_bit8(stat0, STAT_LY_EQ_LYC_BIT, scanline == lyc)
    } else {
        stat0
    };
    let irq1 = if old_line != scanline {
        scanline == lyc && spec_bit8(stat1, STAT_LY_LYC_IRQ_BIT)
    } else {
        false
    };
    let regs1 = if old_line != scanline {
        v.lcd_regs.update(LY - LCD_REG_START, scanline)
    } else {
        v.lcd_regs
    };
    let mode = lcd.mode;
    let irq2 = irq1 || (old_mode != mode && (match mode {
        LcdModeType::HBLANK => spec_bit8(stat1, STAT_HBLANK_IRQ_BIT),
        LcdModeType::VBLANK => spec_bit8(stat1, STAT_VBLANK_IRQ_BIT),
        LcdModeType::OAMReadMode => spec_bit8(stat1, STAT_OAM_IRQ_BIT),
        LcdModeType::VRAMReadMode => false,
    }));
    let stat2 = (stat1 & 0b1111_1100) | spec_mode_idx(mode);
    let regs2 = regs1.update(STAT - LCD_REG_START, stat2);
    (
        PpuV { mode: lcd, lcd_regs: regs2, ..v },
        PpuUpdateResult { lcd_result, irq: irq2 },
    )
}

impl Ppu {
    pub fn new() -> (p: Ppu)
        ensures
            p@.wf(),
            p@ == spec_ppu_boot(),
    {
        let mut screen_buffer: Vec<u8> = Vec::new();
        let mut i: usize = 0;
        while i < DISPLAY_BUFFER
            invariant
                i <= DISPLAY_BUFFER,
                screen_buffer@.len() == i,
                forall|j: int| 0 <= j < i ==> screen_buffer@[j] == 0u8,
            decreases DISPLAY_BUFFER - i,
        {
            screen_buffer.push(0);
            i += 1;
        }
        let mut tiles: Vec<Tile> = Vec::new();
        let mut i: usize = 0;
        while i < NUM_TILES
            invariant
                i <= NUM_TILES,
                tiles@.len() == i,
                forall|j: int| 0 <= j < i ==> (#[trigger] tiles@[j])@ == spec_tile_clear(),
            decreases NUM_TILES - i,
        {
            tiles.push(Tile::new());
            i += 1;
        }
        let mut maps: Vec<u8> = Vec::new();
        let mut i: usize = 0;
        while i < TILE_MAP_SIZE
            invariant
                i <= TILE_MAP_SIZE,
                maps@.len() == i,
                forall|j: int| 0 <= j < i ==> maps@[j] == 0u8,
            decreases TILE_MAP_SIZE - i,
        {
            maps.push(0);
            i += 1;
        }
        let mut lcd_regs: Vec<u8> = Vec::new();
        let mut i: usize = 0;
        while i < LCD_REG_SIZE
            invariant
                i <= LCD_REG_SIZE,
                lcd_regs@.len() == i,
                forall|j: int| 0 <= j < i ==> lcd_regs@[j] == 0u8,
            decreases LCD_REG_SIZE - i,
        {
            lcd_regs.push(0);
            i += 1;
        }
        let mut oam: Vec<Sprite> = Vec::new();
        let mut i: usize = 0;
        while i < NUM_OAM_SPRITES
            invariant
                i <= NUM_OAM_SPRITES,
                oam@.len() == i,
                forall|j: int| 0 <= j < i ==> oam@[j] == spec_sprite_clear(),
            decreases NUM_OAM_SPRITES - i,
        {
            oam.push(Sprite::new());
            i += 1;
        }
        let p = Ppu { screen_buffer, mode: Lcd::new(), tiles, maps, lcd_regs, oam };
        proof {
            assert(p@.screen_buffer =~= spec_ppu_boot().screen_buffer);
            assert(p@.tiles =~= spec_ppu_boot().tiles);
            assert(p@.maps =~= spec_ppu_boot().maps);
            assert(p@.lcd_regs =~= spec_ppu_boot().lcd_regs);
            assert(p@.oam =~= spec_ppu_boot().oam);
            assert(p@ =~= spec_ppu_boot());
        }
        p
    }

    pub fn read_lcd_reg(&self, addr: u16) -> (r: u8)
        requires
            LCD_REG_START <= addr <= LCD_REG_STOP,
            self@.wf(),
        ensures
            r == self@.reg(addr),
    {
        let relative_addr = addr - LCD_REG_START;
        self.lcd_regs[relative_addr as usize]
    }

    pub fn write_lcd_reg(&mut self, addr: u16, val: u8)
        requires
            LCD_REG_START <= addr <= LCD_REG_STOP,
            old(self)@.wf(),
        ensures
            final(self)@.wf(),
            final(self)@ == (PpuV {
                lcd_regs: old(self)@.lcd_regs.update(addr - LCD_REG_START, val),
                ..old(self)@
            }),
    {
        let relative_addr = addr - LCD_REG_START;
        self.lcd_regs[relative_addr as usize] = val;
        proof {
            assert(self@ =~= (PpuV {
                lcd_regs: old(self)@.lcd_regs.update(addr - LCD_REG_START, val),
                ..old(self)@
            }));
        }
    }

    pub fn read_oam(&self, addr: u16) -> (r: u8)
        requires
            OAM_START <= addr <= OAM_STOP,
            self@.wf(),
        ensures
            r == spec_sprite_read(self@.oam[(addr - OAM_START) / 4], addr),
    {
        let relative_addr = addr - OAM_START;
        let oam_idx = relative_addr / BYTES_PER_SPRITE;
        self.oam[oam_idx as usize].read_u8(addr)
    }

    pub fn write_oam(&mut self, addr: u16, val: u8)
        requires
            OAM_START <= addr <= OAM_STOP,
            old(self)@.wf(),
        ensures
            final(self)@.wf(),
            final(self)@ == (PpuV {
                oam: old(self)@.oam.update(
                    (addr - OAM_START) / 4,
                    spec_sprite_write(old(self)@.oam[(addr - OAM_START) / 4], addr, val),
                ),
                ..old(self)@
            }),
    {
        let relative_addr = addr - OAM_START;
        let oam_idx = (relative_addr / BYTES_PER_SPRITE) as usize;
        let mut s = self.oam[oam_idx];
        s.write_u8(addr, val);
        self.oam[oam_idx] = s;
        proof {
            assert(self@ =~= (PpuV {
                oam: old(self)@.oam.update(
                    (addr - OAM_START) / 4,
                    spec_sprite_write(old(self)@.oam[(addr - OAM_START) / 4], addr, val),
                ),
                ..old(self)@
            }));
        }
    }

    pub fn read_vram(&self, addr: u16) -> (r: u8)
        requires
            VRAM_START <= addr <= VRAM_STOP,
            self@.wf(),
        ensures
            r == spec_read_vram(self@, addr),
    {
        if addr <= TILE_SET_STOP {
            let relative_addr = addr - VRAM_START;
            let tile_idx = relative_addr / BYTES_PER_TILE;
            let offset = relative_addr % BYTES_PER_TILE;
            self.tiles[tile_idx as usize].read_u8(offset)
        } else {
            let relative_addr = addr - TILE_MAP_START;
            self.maps[relative_addr as usize]
        }
    }

    pub fn write_vram(&mut self, addr: u16, val: u8)
        requires
            VRAM_START <= addr <= VRAM_STOP,
            old(self)@.wf(),
        ensures
            final(self)@.wf(),
            final(self)@ == spec_write_vram(old(self)@, addr, val),
    {
        if addr <= TILE_SET_STOP {
            let relative_addr = addr - VRAM_START;
            let tile_idx = (relative_addr / BYTES_PER_TILE) as usize;
            let offset = relative_addr % BYTES_PER_TILE;
            let mut t = self.tiles[tile_idx];
            proof {
                crate::tile::lemma_tile_write_px_bound(t@, offset, val);
            }
            t.write_u8(offset, val);
            self.tiles[tile_idx] = t;
        } else {
            let relative_addr = addr - TILE_MAP_START;
            self.maps[relative_addr as usize] = val;
        }
        proof {
            assert(self@ =~= spec_write_vram(old(self)@, addr, val));
        }
    }

    /// Advance the mode machine and maintain LY, the coincidence bit and the
    /// STAT mode bits; reports the render verdict and any STAT interrupt.
    pub fn update(&mut self, cycles: u8) -> (r: PpuUpdateResult)
        requires
            old(self)@.wf(),
        ensures
            final(self)@.wf(),
            (final(self)@, r) == spec_ppu_update(old(self)@, cycles),
    {
        if !self.is_lcd_enabled() {
            self.mode = Lcd { mode: LcdModeType::HBLANK, cycles: 0, line: 0 };
            self.write_lcd_reg(LY, 0);
            let mut stat = self.read_lcd_reg(STAT);
            stat = stat & 0b1111_1100;
            stat = stat | LcdModeType::HBLANK.get_idx();
            self.write_lcd_reg(STAT, stat);
            let r = PpuUpdateResult { lcd_result: LcdResults::NoAction, irq: false };
            proof {
                reveal(spec_ppu_update);
                assert(self@ =~= spec_ppu_update(old(self)@, cycles).0);
            }
            return r;
        }
        let old_mode = self.mode.get_mode();
        let old_line = self.mode.get_line();
        let lcd_result = self.mode.step(cycles);
        let mut stat = self.read_lcd_reg(STAT);
        let mut irq = false;

        let scanline = self.mode.get_line();
        if old_line != scanline {
            let lyc = self.read_lcd_reg(LYC);
            stat = set_bit8(stat, STAT_LY_EQ_LYC_BIT, scanline == lyc);
            irq = (scanline == lyc) && get_bit8(stat, STAT_LY_LYC_IRQ_BIT);
            self.write_lcd_reg(LY, scanline);
        }

        let mode = self.mode.get_mode();
        if old_mode != mode {
            match mode {
                LcdModeType::HBLANK => {
                    irq = irq || get_bit8(stat, STAT_HBLANK_IRQ_BIT);
                },
                LcdModeType::VBLANK => {
                    irq = irq || get_bit8(stat, STAT_VBLANK_IRQ_BIT);
                },
                LcdModeType::OAMReadMode => {
                    irq = irq || get_bit8(stat, STAT_OAM_IRQ_BIT);
                },
                LcdModeType::VRAMReadMode => {},
            }
        }

        stat = stat & 0b1111_1100;
        stat = stat | mode.get_idx();
        self.write_lcd_reg(STAT, stat);

        let r = PpuUpdateResult { lcd_result, irq };
        proof {
            reveal(spec_ppu_update);
            assert(self@ =~= spec_ppu_update(old(self)@, cycles).0);
        }
        r
    }

    /// The frame as RGBA bytes, or an all-zero buffer while the LCD is off.
    pub fn render(&self) -> (r: Vec<u8>)
        requires
            self@.wf(),
        ensures
            r@.len() == DISPLAY_BUFFER,
            spec_bit8(self@.reg(LCDC), LCDC_LCD_ENABLED_BIT) ==> r@ == self@.screen_buffer,
            !spec_bit8(self@.reg(LCDC), LCDC_LCD_ENABLED_BIT) ==> r@ == Seq::new(
                DISPLAY_BUFFER as nat,
                |i: int| 0u8,
            ),
    {
        let enabled = self.is_lcd_enabled();
        let mut out: Vec<u8> = Vec::new();
        let mut i: usize = 0;
        while i < DISPLAY_BUFFER
            invariant
                i <= DISPLAY_BUFFER,
                out@.len() == i,
                self@.wf(),
                enabled == spec_bit8(self@.reg(LCDC), LCDC_LCD_ENABLED_BIT),
                forall|j: int|
                    0 <= j < i ==> out@[j] == (if enabled {
                        self@.screen_buffer[j]
                    } else {
                        0u8
                    }),
            decreases DISPLAY_BUFFER - i,
        {
            if enabled {
                let b = self.screen_buffer[i];
                out.push(b);
            } else {
                out.push(0);
            }
            i += 1;
        }
        proof {
            if spec_bit8(self@.reg(LCDC), LCDC_LCD_ENABLED_BIT) {
                assert(out@ =~= self@.screen_buffer);
            } else {
                assert(out@ =~= Seq::new(DISPLAY_BUFFER as nat, |i: int| 0u8));
            }
        }
        out
    }

    fn is_lcd_enabled(&self) -> (r: bool)
        requires
            self@.wf(),
        ensures
            r == spec_bit8(self@.reg(LCDC), LCDC_LCD_ENABLED_BIT),
    {
        let lcdc = self.read_lcd_reg(LCDC);
        get_bit8(lcdc, LCDC_LCD_ENABLED_BIT)
    }
}

} // verus!

verus! {

/// The tile-set slot a map byte names: with the unsigned tile set it indexes
/// tile 0 up; with the signed set it is an 8-bit signed offset from tile 256.
pub open spec fn spec_adjusted_tile_index(set1: bool, ti: u8) -> int {
    if set1 {
        ti as int
    } else if ti < 128 {
        256 + ti
    } else {
        ti as int
    }
}

/// The 2-bit colour of the background plane at pixel (x, y) of the 256x256
/// map plane, through the selected map and tile set.
pub open spec fn spec_bg_cell(v: PpuV, map1: bool, y: int, x: int) -> u8
    recommends
        v.wf(),
        0 <= y < 256,
        0 <= x < 256,
{
    let map_off = if map1 {
        1024int
    } else {
        0int
    };
    let map_num = (y / 8) * 32 + x / 8;
    let ti = v.maps[map_off + map_num];
    let set1 = spec_bit8(v.reg(LCDC), LCDC_BG_WNDW_TILE_BIT);
    v.tiles[spec_adjusted_tile_index(set1, ti)][y % 8][x % 8]
}

/// One byte of the RGBA colour a 2-bit cell takes through a palette
/// register.
pub open spec fn spec_shade_rgba(palette_reg: u8, cell: u8) -> Seq<u8>
    recommends
        cell < 4,
{
    spec_palette(spec_unpack_u8(palette_reg)[cell as int])
}

/// One scanline of the background layer: pixel `px` comes from the map plane
/// at the viewport origin (SCY, SCX) plus (line, px), wrapping at 256, and
/// takes its colour through the BGP palette.
pub open spec fn spec_bg_row(v: PpuV, line: u8) -> Seq<u8>
    recommends
        v.wf(),
{
    let scy = v.reg(SCY);
    let scx = v.reg(SCX);
    let bgp = v.reg(BGP);
    let map1 = spec_bit8(v.reg(LCDC), LCDC_BG_MAP_BIT);
    Seq::new(
        (4 * SCREEN_WIDTH) as nat,
        |i: int|
            spec_shade_rgba(
                bgp,
                spec_bg_cell(v, map1, (scy + line) % 256, (scx + i / 4) % 256),
            )[i % 4],
    )
}

impl Ppu {
    /// Composite the background layer over the whole row.
    fn render_bg(&self, buffer: &mut Vec<u8>, line: u8)
        requires
            self@.wf(),
            old(buffer)@.len() == 4 * SCREEN_WIDTH,
        ensures
            final(buffer)@ == spec_bg_row(self@, line),
    {
        let map1 = self.get_bg_tile_map_index() == 1;
        let map_offset: usize = if map1 {
            1024
        } else {
            0
        };
        let set1 = self.get_bg_wndw_tile_set_index() == 1;
        let palette = self.get_bg_palette();
        let scx = self.read_lcd_reg(SCX) as usize;
        let scy = self.read_lcd_reg(SCY) as usize;
        let current_y = scy + line as usize;
        let y = current_y % 256;
        let row = y % 8;
        let mut px: usize = 0;
        while px < SCREEN_WIDTH
            invariant
                px <= SCREEN_WIDTH,
                self@.wf(),
                buffer@.len() == 4 * SCREEN_WIDTH,
                map1 == spec_bit8(self@.reg(LCDC), LCDC_BG_MAP_BIT),
                map_offset == (if map1 {
                    1024int
                } else {
                    0int
                }),
                set1 == spec_bit8(self@.reg(LCDC), LCDC_BG_WNDW_TILE_BIT),
                palette@ == spec_unpack_u8(self@.reg(BGP)),
                forall|k: int| 0 <= k < 4 ==> palette@[k] < 4,
                scx == self@.reg(SCX),
                scy == self@.reg(SCY),
                y == (scy + line) % 256,
                row == y % 8,
                forall|j: int| 0 <= j < 4 * px ==> buffer@[j] == spec_bg_row(self@, line)[j],
            decreases SCREEN_WIDTH - px,
        {
            let current_x = scx + px;
            let x = current_x % 256;
            let col = x % 8;
            let map_num = (y / 8) * 32 + (x / 8);
            let tile_index = self.maps[map_offset + map_num];
            let adjusted: usize = if set1 {
                tile_index as usize
            } else if tile_index < 128 {
                256 + tile_index as usize
            } else {
                tile_index as usize
            };
            let tile = self.tiles[adjusted];
            let data = tile.get_row(row);
            let cell = data[col];
            assert(cell == spec_bg_cell(self@, map1, y as int, x as int));
            let color_idx = palette[cell as usize];
            let color = palette_color(color_idx);
            buffer[4 * px] = color[0];
            buffer[4 * px + 1] = color[1];
            buffer[4 * px + 2] = color[2];
            buffer[4 * px + 3] = color[3];
            proof {
                assert forall|j: int| 0 <= j < 4 * (px + 1) implies buffer@[j] == spec_bg_row(
                    self@,
                    line,
                )[j] by {
                    if 4 * px <= j {
                        assert(j / 4 == px && (scx + j / 4) % 256 == x);
                    }
                }
            }
            px += 1;
        }
        proof {
            assert(buffer@ =~= spec_bg_row(self@, line));
        }
    }

    fn get_bg_palette(&self) -> (r: [u8; 4])
        requires
            self@.wf(),
        ensures
            r@ == spec_unpack_u8(self@.reg(BGP)),
            forall|k: int| 0 <= k < 4 ==> r@[k] < 4,
    {
        unpack_u8(self.read_lcd_reg(BGP))
    }

    fn get_sprite_palette(&self, palette1: bool) -> (r: [u8; 4])
        requires
            self@.wf(),
        ensures
            r@ == spec_unpack_u8(
                if palette1 {
                    self@.reg(OBP1)
                } else {
                    self@.reg(OBP0)
                },
            ),
            forall|k: int| 0 <= k < 4 ==> r@[k] < 4,
    {
        if palette1 {
            unpack_u8(self.read_lcd_reg(OBP1))
        } else {
            unpack_u8(self.read_lcd_reg(OBP0))
        }
    }

    fn get_bg_wndw_tile_set_index(&self) -> (r: u8)
        requires
            self@.wf(),
        ensures
            (r == 1) == spec_bit8(self@.reg(LCDC), LCDC_BG_WNDW_TILE_BIT),
            r == 1 || r == 0,
    {
        let lcdc = self.read_lcd_reg(LCDC);
        if get_bit8(lcdc, LCDC_BG_WNDW_TILE_BIT) {
            1
        } else {
            0
        }
    }

    fn get_bg_tile_map_index(&self) -> (r: u8)
        requires
            self@.wf(),
        ensures
            (r == 1) == spec_bit8(self@.reg(LCDC), LCDC_BG_MAP_BIT),
            r == 1 || r == 0,
    {
        let lcdc = self.read_lcd_reg(LCDC);
        if get_bit8(lcdc, LCDC_BG_MAP_BIT) {
            1
        } else {
            0
        }
    }

    fn get_wndw_tile_map_index(&self) -> (r: u8)
        requires
            self@.wf(),
        ensures
            (r == 1) == spec_bit8(self@.reg(LCDC), LCDC_WNDW_MAP_BIT),
            r == 1 || r == 0,
    {
        let lcdc = self.read_lcd_reg(LCDC);
        if get_bit8(lcdc, LCDC_WNDW_MAP_BIT) {
            1
        } else {
            0
        }
    }

    fn are_sprites_8x16(&self) -> (r: bool)
        requires
            self@.wf(),
        ensures
            r == spec_bit8(self@.reg(LCDC), LCDC_SPR_SIZE_BIT),
    {
        let lcdc = self.read_lcd_reg(LCDC);
        get_bit8(lcdc, LCDC_SPR_SIZE_BIT)
    }

    fn is_bg_layer_displayed(&self) -> (r: bool)
        requires
            self@.wf(),
        ensures
            r == spec_bit8(self@.reg(LCDC), LCDC_BG_WNDW_ENABLED_BIT),
    {
        let lcdc = self.read_lcd_reg(LCDC);
        get_bit8(lcdc, LCDC_BG_WNDW_ENABLED_BIT)
    }

    fn is_sprite_layer_displayed(&self) -> (r: bool)
        requires
            self@.wf(),
        ensures
            r == spec_bit8(self@.reg(LCDC), LCDC_SPR_ENABLED_BIT),
    {
        let lcdc = self.read_lcd_reg(LCDC);
        get_bit8(lcdc, LCDC_SPR_ENABLED_BIT)
    }

    fn is_window_layer_displayed(&self) -> (r: bool)
        requires
            self@.wf(),
        ensures
            r == (spec_bit8(self@.reg(LCDC), LCDC_BG_WNDW_ENABLED_BIT) && spec_bit8(
                self@.reg(LCDC),
                LCDC_WNDW_ENABLED_BIT,
            )),
    {
        let lcdc = self.read_lcd_reg(LCDC);
        get_bit8(lcdc, LCDC_BG_WNDW_ENABLED_BIT) && get_bit8(lcdc, LCDC_WNDW_ENABLED_BIT)
    }
}

} // verus!

verus! {

/// The 2-bit colour of the window plane at window-space row `y`, screen
/// column `x`, through the selected map and tile set.
pub open spec fn spec_wndw_cell(v: PpuV, map1: bool, y: int, x: int) -> u8
    recommends
        v.wf(),
        0 <= y < 256,
        0 <= x < SCREEN_WIDTH,
{
    let map_off = if map1 {
        1024int
    } else {
        0int
    };
    let map_num = (y / 8) * 32 + x / 8;
    let ti = v.maps[map_off + map_num];
    let set1 = spec_bit8(v.reg(LCDC), LCDC_BG_WNDW_TILE_BIT);
    v.tiles[spec_adjusted_tile_index(set1, ti)][y % 8][x % 8]
}

/// Where the window starts on screen: WX minus the 7-pixel hardware offset,
/// clamped at 0.
pub open spec fn spec_wndw_start(v: PpuV) -> int {
    if v.reg(WX) >= 7 {
        v.reg(WX) - 7
    } else {
        0int
    }
}

/// The row after the window layer: when the window has started (its origin
/// row is at or above the line and its start column is on screen), the
/// pixels from the start column on are redrawn from the window plane through
/// the BGP palette; pixels to the left keep the base row.
pub open spec fn spec_wndw_apply(v: PpuV, line: u8, base: Seq<u8>) -> Seq<u8>
    recommends
        v.wf(),
        base.len() == 4 * SCREEN_WIDTH,
{
    let startx = spec_wndw_start(v);
    let wy = v.reg(WY);
    if startx > SCREEN_WIDTH || wy > line {
        base
    } else {
        let y = line - wy;
        let bgp = v.reg(BGP);
        let map1 = spec_bit8(v.reg(LCDC), LCDC_WNDW_MAP_BIT);
        Seq::new(
            (4 * SCREEN_WIDTH) as nat,
            |i: int|
                if i / 4 >= startx {
                    spec_shade_rgba(bgp, spec_wndw_cell(v, map1, y, i / 4))[i % 4]
                } else {
                    base[i]
                },
        )
    }
}

impl Ppu {
    /// Composite the window layer over the row from its start column on.
    fn render_window(&self, buffer: &mut Vec<u8>, line: u8)
        requires
            self@.wf(),
            old(buffer)@.len() == 4 * SCREEN_WIDTH,
        ensures
            final(buffer)@ == spec_wndw_apply(self@, line, old(buffer)@),
    {
        let map1 = self.get_wndw_tile_map_index() == 1;
        let map_offset: usize = if map1 {
            1024
        } else {
            0
        };
        let set1 = self.get_bg_wndw_tile_set_index() == 1;
        let palette = self.get_bg_palette();
        let wx = self.read_lcd_reg(WX);
        let wy = self.read_lcd_reg(WY);
        let startx: usize = if wx >= 7 {
            (wx - 7) as usize
        } else {
            0
        };
        if startx > SCREEN_WIDTH || wy > line {
            return ;
        }
        let y = (line - wy) as usize;
        let row = y % 8;
        let mut x: usize = startx;
        while x < SCREEN_WIDTH
            invariant
                startx <= x <= SCREEN_WIDTH,
                self@.wf(),
                buffer@.len() == 4 * SCREEN_WIDTH,
                startx == spec_wndw_start(self@),
                startx <= SCREEN_WIDTH,
                self@.reg(WY) <= line,
                map1 == spec_bit8(self@.reg(LCDC), LCDC_WNDW_MAP_BIT),
                map_offset == (if map1 {
                    1024int
                } else {
                    0int
                }),
                set1 == spec_bit8(self@.reg(LCDC), LCDC_BG_WNDW_TILE_BIT),
                palette@ == spec_unpack_u8(self@.reg(BGP)),
                forall|k: int| 0 <= k < 4 ==> palette@[k] < 4,
                y == line - self@.reg(WY),
                row == y % 8,
                forall|j: int|
                    0 <= j < buffer@.len() && !(4 * startx <= j < 4 * x) ==> buffer@[j] == old(
                        buffer,
                    )@[j],
                forall|j: int|
                    4 * startx <= j < 4 * x ==> buffer@[j] == spec_shade_rgba(
                        self@.reg(BGP),
                        spec_wndw_cell(self@, map1, y as int, j / 4),
                    )[j % 4],
            decreases SCREEN_WIDTH - x,
        {
            let col = x % 8;
            let map_num = (y / 8) * 32 + (x / 8);
            let tile_index = self.maps[map_offset + map_num];
            let adjusted: usize = if set1 {
                tile_index as usize
            } else if tile_index < 128 {
                256 + tile_index as usize
            } else {
                tile_index as usize
            };
            let tile = self.tiles[adjusted];
            let data = tile.get_row(row);
            let cell = data[col];
            assert(cell == spec_wndw_cell(self@, map1, y as int, x as int));
            let color_idx = palette[cell as usize];
            let color = palette_color(color_idx);
            buffer[4 * x] = color[0];
            buffer[4 * x + 1] = color[1];
            buffer[4 * x + 2] = color[2];
            buffer[4 * x + 3] = color[3];
            proof {
                assert forall|j: int| 4 * startx <= j < 4 * (x + 1) implies buffer@[j]
                    == spec_shade_rgba(
                    self@.reg(BGP),
                    spec_wndw_cell(self@, map1, y as int, j / 4),
                )[j % 4] by {
                    if 4 * x <= j {
                        assert(j / 4 == x);
                    }
                }
            }
            x += 1;
        }
        proof {
            assert(buffer@ =~= spec_wndw_apply(self@, line, old(buffer)@));
        }
    }
}

} // verus!

verus! {

/// Draw precedence of an OAM entry: sprites are drawn from the highest key
/// down, so the lowest key (leftmost x, then lowest OAM index) is drawn last
/// and wins overlaps.
pub open spec fn spec_spr_key(p: (Sprite, usize)) -> int {
    p.0.pos.x as int * 64 + p.1 as int
}

/// The OAM entries paired with their indices.
pub open spec fn spec_oam_pairs(v: PpuV) -> Seq<(Sprite, usize)> {
    Seq::new(NUM_OAM_SPRITES as nat, |i: int| (v.oam[i], i as usize))
}

/// Insert an entry into a descending-key list, behind every entry of equal
/// or higher key.
pub open spec fn spec_insert_desc(s: Seq<(Sprite, usize)>, x: (Sprite, usize)) -> Seq<
    (Sprite, usize),
>
    decreases s.len(),
{
    if s.len() == 0 {
        seq![x]
    } else if spec_spr_key(x) > spec_spr_key(s[0]) {
        seq![x] + s
    } else {
        seq![s[0]] + spec_insert_desc(s.skip(1), x)
    }
}

/// The first `n` OAM entries, ordered by descending key.
pub open spec fn spec_sort_pre(p: Seq<(Sprite, usize)>, n: int) -> Seq<(Sprite, usize)>
    decreases n,
{
    if n <= 0 {
        Seq::empty()
    } else {
        spec_insert_desc(spec_sort_pre(p, n - 1), p[n - 1])
    }
}

/// All 40 OAM entries in draw order: descending x, ties broken towards the
/// higher OAM index first, so the lower index is drawn later and wins.
pub open spec fn spec_sorted_oam(v: PpuV) -> Seq<(Sprite, usize)> {
    spec_sort_pre(spec_oam_pairs(v), NUM_OAM_SPRITES as int)
}

/// Whether the row's pixel `px` currently holds exactly the colour `c`.
pub open spec fn spec_rgba_eq(row: Seq<u8>, px: int, c: Seq<u8>) -> bool {
    &&& row[4 * px] == c[0]
    &&& row[4 * px + 1] == c[1]
    &&& row[4 * px + 2] == c[2]
    &&& row[4 * px + 3] == c[3]
}

/// The row with pixel `px` recoloured to `c`.
pub open spec fn spec_put_rgba(row: Seq<u8>, px: int, c: Seq<u8>) -> Seq<u8> {
    row.update(4 * px, c[0]).update(4 * px + 1, c[1]).update(4 * px + 2, c[2]).update(
        4 * px + 3,
        c[3],
    )
}

/// One sprite's first `n` columns overlaid onto the row, column 0 first.  A
/// column is skipped when its cell is transparent, off screen, or when the
/// sprite hides behind a background pixel that differs from the background
/// palette's entry-0 colour.
pub open spec fn spec_draw_cols(
    v: PpuV,
    row: Seq<u8>,
    trow: Seq<u8>,
    preg: u8,
    behind: bool,
    xflip: bool,
    sx: int,
    n: int,
) -> Seq<u8>
    decreases n,
{
    if n <= 0 {
        row
    } else {
        let row1 = spec_draw_cols(v, row, trow, preg, behind, xflip, sx, n - 1);
        let x = n - 1;
        let data_x = if xflip {
            7 - x
        } else {
            x
        };
        let cell = trow[data_x];
        let screen_x = x + sx;
        if cell == 0 || screen_x < 0 || screen_x >= SCREEN_WIDTH {
            row1
        } else if behind && !spec_rgba_eq(row1, screen_x, spec_shade_rgba(v.reg(BGP), 0)) {
            row1
        } else {
            spec_put_rgba(row1, screen_x, spec_shade_rgba(preg, cell))
        }
    }
}

/// The row after one whole sprite: nothing changes when the line misses the
/// sprite's rows or lies off screen; otherwise the sprite's row (respecting
/// the flips, and the half-tile selection in 8x16 mode) is overlaid.
pub open spec fn spec_draw_sprite(v: PpuV, line: u8, row: Seq<u8>, s: Sprite) -> Seq<u8>
    recommends
        v.wf(),
        row.len() == 4 * SCREEN_WIDTH,
{
    let is16 = spec_bit8(v.reg(LCDC), LCDC_SPR_SIZE_BIT);
    let height = if is16 {
        16int
    } else {
        8int
    };
    let sy = s.pos.y as int - 16;
    let sx = s.pos.x as int - 8;
    if line < sy || sy + height <= line || line >= SCREEN_HEIGHT {
        row
    } else {
        let y = line - sy;
        let spr_idx = if is16 {
            if (y < 8 && !s.y_flip) || (8 <= y && s.y_flip) {
                s.tile_num & 0xFE
            } else {
                s.tile_num | 0x01
            }
        } else {
            s.tile_num
        };
        let data_y = (if s.y_flip {
            height - y - 1
        } else {
            y
        }) % 8;
        let trow = v.tiles[spr_idx as int][data_y];
        let preg = if s.palette1 {
            v.reg(OBP1)
        } else {
            v.reg(OBP0)
        };
        spec_draw_cols(v, row, trow, preg, s.bg_priority, s.x_flip, sx, 8)
    }
}

/// The row after a list of sprites, drawn first to last.
pub open spec fn spec_draw_list(
    v: PpuV,
    line: u8,
    row: Seq<u8>,
    list: Seq<(Sprite, usize)>,
) -> Seq<u8>
    decreases list.len(),
{
    if list.len() == 0 {
        row
    } else {
        spec_draw_list(v, line, spec_draw_sprite(v, line, row, list[0].0), list.skip(1))
    }
}

/// An element inserted where the scan stopped: if everything before `p` has
/// key at least the new entry's and the element at `p` (if any) has a
/// strictly smaller key, the descending insert puts it exactly at `p`.
proof fn lemma_insert_desc_at(s: Seq<(Sprite, usize)>, x: (Sprite, usize), p: int)
    requires
        0 <= p <= s.len(),
        forall|j: int| 0 <= j < p ==> spec_spr_key(#[trigger] s[j]) >= spec_spr_key(x),
        p < s.len() ==> spec_spr_key(x) > spec_spr_key(s[p]),
    ensures
        spec_insert_desc(s, x) == s.insert(p, x),
    decreases p,
{
    if p == 0 {
        if s.len() == 0 {
            assert(spec_insert_desc(s, x) =~= s.insert(0, x));
        } else {
            assert(spec_insert_desc(s, x) =~= s.insert(0, x));
        }
    } else {
        lemma_insert_desc_at(s.skip(1), x, p - 1);
        assert(spec_insert_desc(s, x) =~= s.insert(p, x));
    }
}

impl Ppu {
    /// The OAM entries in draw order (see `spec_sorted_oam`).
    fn sort_sprites(&self) -> (r: Vec<(Sprite, usize)>)
        requires
            self@.wf(),
        ensures
            r@ == spec_sorted_oam(self@),
            r@.len() == NUM_OAM_SPRITES,
    {
        let mut sorted: Vec<(Sprite, usize)> = Vec::new();
        let mut i: usize = 0;
        while i < NUM_OAM_SPRITES
            invariant
                i <= NUM_OAM_SPRITES,
                self@.wf(),
                sorted@.len() == i,
                sorted@ == spec_sort_pre(spec_oam_pairs(self@), i as int),
                forall|j: int|
                    0 <= j < sorted@.len() ==> (#[trigger] sorted@[j]).1 < NUM_OAM_SPRITES,
            decreases NUM_OAM_SPRITES - i,
        {
            let s = self.oam[i];
            let x = (s, i);
            let key_x: usize = (s.pos.x as usize) * 64 + i;
            let mut p: usize = 0;
            while p < sorted.len() && (sorted[p].0.pos.x as usize) * 64 + sorted[p].1 >= key_x
                invariant
                    p <= sorted@.len(),
                    i < NUM_OAM_SPRITES,
                    key_x == spec_spr_key((s, i as usize)),
                    forall|j: int|
                        0 <= j < p ==> spec_spr_key(#[trigger] sorted@[j]) >= key_x,
                    forall|j: int|
                        0 <= j < sorted@.len() ==> (#[trigger] sorted@[j]).1 < NUM_OAM_SPRITES,
                decreases sorted@.len() - p,
            {
                p += 1;
            }
            proof {
                lemma_insert_desc_at(sorted@, (s, i as usize), p as int);
            }
            sorted.insert(p, x);
            proof {
                assert(spec_oam_pairs(self@)[i as int] == (s, i as usize));
            }
            i += 1;
        }
        sorted
    }
}

} // verus!

verus! {

/// The framebuffer with one line's 640 bytes replaced.
pub open spec fn spec_splice_row(buf: Seq<u8>, line: u8, row: Seq<u8>) -> Seq<u8>
    recommends
        buf.len() == DISPLAY_BUFFER,
        row.len() == 4 * SCREEN_WIDTH,
        line < SCREEN_HEIGHT,
{
    Seq::new(
        DISPLAY_BUFFER as nat,
        |i: int|
            if 640 * line <= i < 640 * line + 640 {
                row[i - 640 * line]
            } else {
                buf[i]
            },
    )
}

/// One whole scanline composited into the framebuffer, at the line LY names:
/// over a white row, the background layer when LCDC bit 0 is set, then the
/// window when bits 0 and 5 are, then the sprites when bit 1 is.  A line at
/// or past the visible height leaves the unit untouched.
#[verifier::opaque]
pub open spec fn spec_render_scanline(v: PpuV) -> PpuV
    recommends
        v.wf(),
{
    let line = v.reg(LY);
    if line >= SCREEN_HEIGHT {
        v
    } else {
        let lcdc = v.reg(LCDC);
        let row0 = Seq::new((4 * SCREEN_WIDTH) as nat, |i: int| 0xFFu8);
        let row1 = if spec_bit8(lcdc, LCDC_BG_WNDW_ENABLED_BIT) {
            spec_bg_row(v, line)
        } else {
            row0
        };
        let row2 = if spec_bit8(lcdc, LCDC_BG_WNDW_ENABLED_BIT) && spec_bit8(
            lcdc,
            LCDC_WNDW_ENABLED_BIT,
        ) {
            spec_wndw_apply(v, line, row1)
        } else {
            row1
        };
        let row3 = if spec_bit8(lcdc, LCDC_SPR_ENABLED_BIT) {
            spec_draw_list(v, line, row2, spec_sorted_oam(v))
        } else {
            row2
        };
        PpuV { screen_buffer: spec_splice_row(v.screen_buffer, line, row3), ..v }
    }
}

impl Ppu {
    /// Overlay every OAM sprite that crosses the line, in draw order.
    fn render_sprites(&self, buffer: &mut Vec<u8>, line: u8)
        requires
            self@.wf(),
            old(buffer)@.len() == 4 * SCREEN_WIDTH,
        ensures
            final(buffer)@ == spec_draw_list(self@, line, old(buffer)@, spec_sorted_oam(self@)),
            final(buffer)@.len() == 4 * SCREEN_WIDTH,
    {
        let sorted = self.sort_sprites();
        let is16 = self.are_sprites_8x16();
        let height: usize = if is16 {
            16
        } else {
            8
        };
        let bg_palette = self.get_bg_palette();
        let bg0 = palette_color(bg_palette[0]);
        proof {
            assert(sorted@.skip(0) =~= sorted@);
        }
        let mut i: usize = 0;
        while i < sorted.len()
            invariant
                i <= sorted@.len(),
                self@.wf(),
                sorted@ == spec_sorted_oam(self@),
                sorted@.len() == NUM_OAM_SPRITES,
                buffer@.len() == 4 * SCREEN_WIDTH,
                is16 == spec_bit8(self@.reg(LCDC), LCDC_SPR_SIZE_BIT),
                height == (if is16 {
                    16int
                } else {
                    8int
                }),
                bg0@ == spec_shade_rgba(self@.reg(BGP), 0),
                spec_draw_list(self@, line, old(buffer)@, sorted@) == spec_draw_list(
                    self@,
                    line,
                    buffer@,
                    sorted@.skip(i as int),
                ),
            decreases sorted@.len() - i,
        {
            let ghost row_pre = buffer@;
            let spr = sorted[i].0;
            let coords = spr.get_coords();
            let signed_line = line as isize;
            let skip_line = signed_line < coords.1 || coords.1 + height as isize <= signed_line
                || line as usize >= SCREEN_HEIGHT;
            if !skip_line {
                let y: usize = (signed_line - coords.1) as usize;
                let tile_num = spr.get_tile_num();
                let y_flipped = spr.is_y_flipped();
                let spr_idx: u8 = if is16 {
                    if (y < 8 && !y_flipped) || (8 <= y && y_flipped) {
                        tile_num & 0xFE
                    } else {
                        tile_num | 0x01
                    }
                } else {
                    tile_num
                };
                let data_y: usize = (if y_flipped {
                    height - y - 1
                } else {
                    y
                }) % 8;
                let tile = self.tiles[spr_idx as usize];
                let trow = tile.get_row(data_y);
                let ghost trowv = self@.tiles[spr_idx as int][data_y as int];
                proof {
                    assert(trow@ == trowv);
                }
                let palette = self.get_sprite_palette(spr.use_palette1());
                let ghost preg = if spr.palette1 {
                    self@.reg(OBP1)
                } else {
                    self@.reg(OBP0)
                };
                let behind = spr.get_bg_priority();
                let x_flipped = spr.is_x_flipped();
                let mut x: usize = 0;
                while x < 8
                    invariant
                        x <= 8,
                        self@.wf(),
                        buffer@.len() == 4 * SCREEN_WIDTH,
                        trowv.len() == 8,
                        forall|k: int| 0 <= k < 8 ==> trowv[k] < 4,
                        trow@ == trowv,
                        palette@ == spec_unpack_u8(preg),
                        forall|k: int| 0 <= k < 4 ==> palette@[k] < 4,
                        bg0@ == spec_shade_rgba(self@.reg(BGP), 0),
                        behind == spr.bg_priority,
                        x_flipped == spr.x_flip,
                        coords.0 == spr.pos.x as int - 8,
                        buffer@ == spec_draw_cols(
                            self@,
                            row_pre,
                            trowv,
                            preg,
                            behind,
                            x_flipped,
                            spr.pos.x as int - 8,
                            x as int,
                        ),
                    decreases 8 - x,
                {
                    let ghost row1 = buffer@;
                    let data_x: usize = if x_flipped {
                        7 - x
                    } else {
                        x
                    };
                    let cell = trow[data_x];
                    let screen_x = x as isize + coords.0;
                    if cell != 0 && screen_x >= 0 && screen_x < SCREEN_WIDTH as isize {
                        let sxu = screen_x as usize;
                        let idx = 4 * sxu;
                        let cur_is_bg0 = buffer[idx] == bg0[0] && buffer[idx + 1] == bg0[1]
                            && buffer[idx + 2] == bg0[2] && buffer[idx + 3] == bg0[3];
                        proof {
                            assert(cur_is_bg0 == spec_rgba_eq(
                                row1,
                                screen_x as int,
                                spec_shade_rgba(self@.reg(BGP), 0),
                            ));
                        }
                        if !(behind && !cur_is_bg0) {
                            let color = palette_color(palette[cell as usize]);
                            buffer[idx] = color[0];
                            buffer[idx + 1] = color[1];
                            buffer[idx + 2] = color[2];
                            buffer[idx + 3] = color[3];
                            proof {
                                assert(buffer@ =~= spec_put_rgba(
                                    row1,
                                    screen_x as int,
                                    spec_shade_rgba(preg, cell),
                                ));
                            }
                        }
                    }
                    x += 1;
                }
                proof {
                    assert(buffer@ == spec_draw_sprite(self@, line, row_pre, spr));
                }
            } else {
                proof {
                    assert(buffer@ == spec_draw_sprite(self@, line, row_pre, spr));
                }
            }
            proof {
                assert(sorted@.skip(i as int)[0] == sorted@[i as int]);
                assert(sorted@.skip(i as int).skip(1) =~= sorted@.skip(i as int + 1));
            }
            i += 1;
        }
        proof {
            assert(sorted@.skip(sorted@.len() as int).len() == 0);
        }
    }

    /// Composite the line LY names into the framebuffer.
    pub fn render_scanline(&mut self)
        requires
            old(self)@.wf(),
        ensures
            final(self)@.wf(),
            final(self)@ == spec_render_scanline(old(self)@),
    {
        proof {
            reveal(spec_render_scanline);
        }
        let line = self.read_lcd_reg(LY);
        if line as usize >= SCREEN_HEIGHT {
            return ;
        }
        let mut row: Vec<u8> = Vec::new();
        let mut k: usize = 0;
        while k < 4 * SCREEN_WIDTH
            invariant
                k <= 4 * SCREEN_WIDTH,
                row@.len() == k,
                forall|j: int| 0 <= j < k ==> row@[j] == 0xFFu8,
            decreases 4 * SCREEN_WIDTH - k,
        {
            row.push(0xFF);
            k += 1;
        }
        proof {
            assert(row@ =~= Seq::new((4 * SCREEN_WIDTH) as nat, |i: int| 0xFFu8));
        }
        if self.is_bg_layer_displayed() {
            self.render_bg(&mut row, line);
        }
        if self.is_window_layer_displayed() {
            self.render_window(&mut row, line);
        }
        if self.is_sprite_layer_displayed() {
            self.render_sprites(&mut row, line);
        }
        let start: usize = line as usize * 4 * SCREEN_WIDTH;
        let mut k: usize = 0;
        while k < 4 * SCREEN_WIDTH
            invariant
                k <= 4 * SCREEN_WIDTH,
                start == 640 * line,
                line < SCREEN_HEIGHT,
                row@.len() == 4 * SCREEN_WIDTH,
                self@.screen_buffer.len() == DISPLAY_BUFFER,
                self@ == (PpuV { screen_buffer: self@.screen_buffer, ..old(self)@ }),
                forall|j: int|
                    0 <= j < k ==> self@.screen_buffer[start + j] == row@[j],
                forall|j: int|
                    0 <= j < DISPLAY_BUFFER && !(start <= j < start + k)
                        ==> self@.screen_buffer[j] == old(self)@.screen_buffer[j],
            decreases 4 * SCREEN_WIDTH - k,
        {
            let b = row[k];
            self.screen_buffer[start + k] = b;
            k += 1;
        }
        proof {
            assert(self@ =~= spec_render_scanline(old(self)@));
        }
    }
}

} // verus!
