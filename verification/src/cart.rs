//! The cartridge: the ROM image, the banked external RAM, and the memory
//! bank controller (MBC) that decodes writes into the ROM address space as
//! bank-switching register writes.  The supported controller families are
//! NONE, MBC1, MBC2, MBC3 (with the real-time clock) and MBC5; the header
//! byte at `$0147` selects the family, `$0149` sizes the external RAM.

use vstd::prelude::*;

use crate::rtc::{spec_rtc_read, spec_rtc_write, Rtc};
use crate::utils::{get_bit16, set_bit16, spec_set_bit16};

verus! {

pub const ROM_START: u16 = 0x0000;

pub const ROM_STOP: u16 = 0x7FFF;

pub const EXT_RAM_START: u16 = 0xA000;

pub const EXT_RAM_STOP: u16 = 0xBFFF;

pub const RAM_ENABLE_STOP: u16 = 0x1FFF;

pub const ROM_BANK_NUM_STOP: u16 = 0x3FFF;

pub const RAM_BANK_NUM_STOP: u16 = 0x5FFF;

pub const ROM_BANK_LOW_STOP: u16 = 0x2FFF;

pub const TITLE_START: usize = 0x0134;

pub const TITLE_STOP: usize = 0x0142;

pub const CART_TYPE_ADDR: usize = 0x0147;

pub const RAM_SIZE_ADDR: usize = 0x0149;

pub const HEADER_SIZE: usize = 0x0150;

pub const ROM_BANK_SIZE: usize = 0x4000;

pub const RAM_BANK_SIZE: usize = 0x2000;

#[derive(Clone, Copy, PartialEq, Eq, Structural, Debug)]
pub enum MBC {
    NONE,
    MBC1,
    MBC2,
    MBC3,
    MBC5,
    INV,
}

/// What loading a cartridge or restoring its battery RAM can reject.
#[derive(Clone, Copy, PartialEq, Eq, Structural, Debug)]
pub enum CartError {
    /// The header names a mapper outside the implemented set.
    UnsupportedMapper,
    /// The battery blob's length differs from the sized external RAM.
    BatteryBlobSizeMismatch,
}

/// The mapper family selected by the cartridge-type header byte.
pub open spec fn spec_mbc_of(cart_type: u8) -> MBC {
    if cart_type == 0x00 {
        MBC::NONE
    } else if 0x01 <= cart_type <= 0x03 {
        MBC::MBC1
    } else if 0x05 <= cart_type <= 0x06 {
        MBC::MBC2
    } else if 0x0F <= cart_type <= 0x13 {
        MBC::MBC3
    } else if 0x19 <= cart_type <= 0x1E {
        MBC::MBC5
    } else {
        MBC::INV
    }
}

/// The cartridge types that carry a battery behind their external RAM.
pub open spec fn spec_has_battery(cart_type: u8) -> bool {
    ||| cart_type == 0x03
    ||| cart_type == 0x06
    ||| cart_type == 0x09
    ||| cart_type == 0x0D
    ||| cart_type == 0x0F
    ||| cart_type == 0x10
    ||| cart_type == 0x13
    ||| cart_type == 0x1B
    ||| cart_type == 0x1E
}

/// The cartridge types that carry external RAM; used only to patch headers
/// that report none despite needing it.
pub open spec fn spec_has_ext_ram(cart_type: u8) -> bool {
    ||| cart_type == 0x02
    ||| cart_type == 0x03
    ||| cart_type == 0x08
    ||| cart_type == 0x09
    ||| cart_type == 0x0C
    ||| cart_type == 0x0D
    ||| cart_type == 0x10
    ||| cart_type == 0x12
    ||| cart_type == 0x13
    ||| cart_type == 0x16
    ||| cart_type == 0x17
    ||| cart_type == 0x1A
    ||| cart_type == 0x1B
    ||| cart_type == 0x1D
    ||| cart_type == 0x1E
}

/// The external RAM capacity in KiB named by the RAM-size header byte; bytes
/// beyond the table mean none.
pub open spec fn spec_ram_size_kb(idx: u8) -> int {
    if idx == 1 {
        2int
    } else if idx == 2 {
        8int
    } else if idx == 3 {
        32int
    } else if idx == 4 {
        128int
    } else if idx == 5 {
        64int
    } else {
        0int
    }
}

/// How many bytes of external RAM a loaded header sizes: MBC2 always has its
/// fixed 512 on-chip bytes; a zero size on a type that needs RAM is coerced
/// to 2 KiB.
pub open spec fn spec_ram_len(rom: Seq<u8>) -> int
    recommends
        rom.len() >= HEADER_SIZE,
{
    let cart_type = rom[CART_TYPE_ADDR as int];
    let idx = rom[RAM_SIZE_ADDR as int];
    if spec_mbc_of(cart_type) == MBC::MBC2 {
        512int
    } else if spec_has_ext_ram(cart_type) && idx == 0 {
        2048int
    } else {
        spec_ram_size_kb(idx) * 1024
    }
}

/// The cartridge as contracts see it.
#[verifier::ext_equal]
pub ghost struct CartV {
    pub rom: Seq<u8>,
    pub ram: Seq<u8>,
    pub rom_bank: u16,
    pub ram_bank: u8,
    pub mbc: MBC,
    pub rtc: Rtc,
    pub rom_mode: bool,
    pub ram_enabled: bool,
}

pub struct Cart {
    pub rom: Vec<u8>,
    pub ram: Vec<u8>,
    pub rom_bank: u16,
    pub ram_bank: u8,
    pub mbc: MBC,
    pub rtc: Rtc,
    pub rom_mode: bool,
    pub ram_enabled: bool,
}

impl View for Cart {
    type V = CartV;

    open spec fn view(&self) -> CartV {
        CartV {
            rom: self.rom@,
            ram: self.ram@,
            rom_bank: self.rom_bank,
            ram_bank: self.ram_bank,
            mbc: self.mbc,
            rtc: self.rtc,
            rom_mode: self.rom_mode,
            ram_enabled: self.ram_enabled,
        }
    }
}

impl CartV {
    /// Either nothing is loaded yet, or the ROM holds a complete header of a
    /// supported mapper and the RAM has the length the header sizes.
    pub open spec fn wf(self) -> bool {
        &&& self.mbc != MBC::INV
        &&& (self.rom.len() > 0 ==> {
            &&& self.rom.len() >= HEADER_SIZE
            &&& self.mbc == spec_mbc_of(self.rom[CART_TYPE_ADDR as int])
            &&& self.ram.len() == spec_ram_len(self.rom)
        })
        &&& (self.rom.len() == 0 ==> self.mbc == MBC::NONE && self.ram.len() == 0)
    }
}

/// A cartridge with nothing loaded.
pub open spec fn spec_cart_boot() -> CartV {
    CartV {
        rom: Seq::empty(),
        ram: Seq::empty(),
        rom_bank: 1,
        ram_bank: 0,
        mbc: MBC::NONE,
        rtc: Rtc {
            now: 0,
            start: 0,
            started: false,
            seconds: 0,
            minutes: 0,
            hours: 0,
            days: 0,
            enabled: false,
            halted: false,
        },
        rom_mode: true,
        ram_enabled: false,
    }
}

/// What a read of the ROM address space returns: below `$4000` bank 0, above
/// it the selected bank; a read past the image's end returns 0.
pub open spec fn spec_read_cart(v: CartV, addr: u16) -> u8
    recommends
        addr <= ROM_STOP,
{
    if addr < 0x4000 {
        if addr < v.rom.len() {
            v.rom[addr as int]
        } else {
            0u8
        }
    } else {
        let bank_addr = v.rom_bank as int * 0x4000 + (addr - 0x4000);
        if bank_addr < v.rom.len() {
            v.rom[bank_addr]
        } else {
            0u8
        }
    }
}

/// The external-RAM byte an address selects through the current RAM bank.
pub open spec fn spec_ram_index(v: CartV, addr: u16) -> int {
    v.ram_bank as int * RAM_BANK_SIZE + (addr - EXT_RAM_START)
}

/// What a read of the external-RAM window returns: on MBC3 with an armed
/// clock and an RTC selector, the selected clock register; otherwise the
/// banked RAM byte, with 0 for an index past the sized RAM.
pub open spec fn spec_read_ram(v: CartV, addr: u16) -> u8
    recommends
        EXT_RAM_START <= addr <= EXT_RAM_STOP,
{
    if v.mbc == MBC::MBC3 && v.rtc.enabled && 0x08 <= v.ram_bank <= 0x0C {
        spec_rtc_read(v.rtc, v.ram_bank)
    } else {
        if spec_ram_index(v, addr) < v.ram.len() {
            v.ram[spec_ram_index(v, addr)]
        } else {
            0u8
        }
    }
}

/// The banked RAM write shared by the mappers: it lands only while RAM is
/// enabled and the index is inside the sized RAM.
pub open spec fn spec_write_ram_banked(v: CartV, addr: u16, val: u8) -> CartV {
    if v.ram_enabled && spec_ram_index(v, addr) < v.ram.len() {
        CartV { ram: v.ram.update(spec_ram_index(v, addr), val), ..v }
    } else {
        v
    }
}

/// The cartridge after a write into the external-RAM window.  NONE writes
/// land unconditionally; MBC1 and MBC5 write the banked RAM when enabled;
/// MBC2 keeps only the low four bits of each byte; MBC3 routes RTC selectors
/// to the clock and bank selectors 0-3 to the banked RAM.
pub open spec fn spec_write_ram(v: CartV, addr: u16, val: u8) -> CartV
    recommends
        EXT_RAM_START <= addr <= EXT_RAM_STOP,
{
    match v.mbc {
        MBC::NONE => {
            if addr - EXT_RAM_START < v.ram.len() {
                CartV { ram: v.ram.update(addr - EXT_RAM_START, val), ..v }
            } else {
                v
            }
        },
        MBC::MBC1 => spec_write_ram_banked(v, addr, val),
        MBC::MBC2 => spec_write_ram_banked(v, addr, val & 0x0F),
        MBC::MBC5 => spec_write_ram_banked(v, addr, val),
        MBC::MBC3 => {
            if v.ram_bank <= 0x03 {
                spec_write_ram_banked(v, addr, val)
            } else if 0x08 <= v.ram_bank <= 0x0C && v.ram_enabled {
                CartV { rtc: spec_rtc_write(v.rtc, v.ram_bank, val), ..v }
            } else {
                v
            }
        },
        MBC::INV => v,
    }
}

/// MBC1's registers.  The ROM-bank register remaps the unusable banks 0,
/// `$20`, `$40`, `$60` to the bank above; the two-bit register at
/// `$4000-$5FFF` feeds ROM bank bits 5-6 in ROM mode and the RAM bank
/// otherwise.
pub open spec fn spec_mbc1_write(v: CartV, addr: u16, val: u8) -> CartV {
    if addr <= RAM_ENABLE_STOP {
        CartV { ram_enabled: val == 0x0A, ..v }
    } else if addr <= ROM_BANK_NUM_STOP {
        if val & 0x1F == 0 {
            CartV { rom_bank: ((val & 0x7F) + 1) as u16, ..v }
        } else {
            CartV { rom_bank: (val & 0x1F) as u16, ..v }
        }
    } else if addr <= RAM_BANK_NUM_STOP {
        if v.rom_mode {
            CartV { rom_bank: v.rom_bank | (((val & 0b11) as u16) << 5), ..v }
        } else {
            CartV { ram_bank: val & 0b11, ..v }
        }
    } else {
        CartV { rom_mode: val == 0, ..v }
    }
}

/// MBC2's single register: address bit 8 selects between the four-bit ROM
/// bank and the RAM-enable latch.
pub open spec fn spec_mbc2_write(v: CartV, addr: u16, val: u8) -> CartV {
    if addr & 0x100 != 0 {
        CartV { rom_bank: (val & 0x0F) as u16, ..v }
    } else {
        CartV { ram_enabled: val == 0x0A, ..v }
    }
}

/// MBC3's registers: RAM/RTC enable, the full seven-bit ROM bank (0 reads as
/// 1), the RAM-bank/RTC selector, and the RTC latch trigger.
pub open spec fn spec_mbc3_write(v: CartV, addr: u16, val: u8) -> CartV {
    if addr <= RAM_ENABLE_STOP {
        CartV { ram_enabled: val == 0x0A, ..v }
    } else if addr <= ROM_BANK_NUM_STOP {
        if val & 0x7F == 0 {
            CartV { rom_bank: 1, ..v }
        } else {
            CartV { rom_bank: (val & 0x7F) as u16, ..v }
        }
    } else if addr <= RAM_BANK_NUM_STOP {
        CartV { ram_bank: val, ..v }
    } else {
        CartV { rtc: spec_rtc_write(v.rtc, v.ram_bank, val), ..v }
    }
}

/// MBC5's registers: RAM enable, the low eight ROM-bank bits, the high
/// ROM-bank bit, and the four-bit RAM bank; `$6000-$7FFF` is unmapped.
pub open spec fn spec_mbc5_write(v: CartV, addr: u16, val: u8) -> CartV {
    if addr <= RAM_ENABLE_STOP {
        CartV { ram_enabled: val == 0x0A, ..v }
    } else if addr <= ROM_BANK_LOW_STOP {
        CartV { rom_bank: (v.rom_bank & 0xFF00) | (val as u16), ..v }
    } else if addr <= ROM_BANK_NUM_STOP {
        CartV { rom_bank: spec_set_bit16(v.rom_bank, 9, val != 0), ..v }
    } else if addr <= RAM_BANK_NUM_STOP {
        CartV { ram_bank: val & 0x0F, ..v }
    } else {
        v
    }
}

/// The cartridge after a write into the ROM address space: a register write
/// of the mapper, never a ROM mutation.
pub open spec fn spec_write_cart(v: CartV, addr: u16, val: u8) -> CartV
    recommends
        addr <= ROM_STOP,
{
    match v.mbc {
        MBC::NONE => v,
        MBC::MBC1 => spec_mbc1_write(v, addr, val),
        MBC::MBC2 => spec_mbc2_write(v, addr, val),
        MBC::MBC3 => spec_mbc3_write(v, addr, val),
        MBC::MBC5 => spec_mbc5_write(v, addr, val),
        MBC::INV => v,
    }
}

/// How many title bytes are in use: the header title region up to its first
/// NUL or non-ASCII byte.
pub open spec fn spec_title_len(rom: Seq<u8>) -> int
    decreases TITLE_STOP - TITLE_START,
{
    spec_title_len_from(rom, TITLE_START as int)
}

pub open spec fn spec_title_len_from(rom: Seq<u8>, i: int) -> int
    decreases TITLE_STOP - i,
{
    if i < TITLE_START || i >= TITLE_STOP {
        0
    } else if rom[i] == 0 || rom[i] >= 0x80 {
        0
    } else {
        1 + spec_title_len_from(rom, i + 1)
    }
}

/// The title: the used title bytes, as characters.
pub open spec fn spec_title(rom: Seq<u8>) -> Seq<char> {
    Seq::new(spec_title_len(rom) as nat, |i: int| rom[TITLE_START + i] as char)
}

/// Relies on `String::push`: appends exactly the given character.
#[verifier::external_body]
fn push_char(s: &mut String, c: char)
    ensures
        final(s)@ == old(s)@.push(c),
{
    s.push(c);
}

impl Cart {
    pub fn new() -> (c: Cart)
        ensures
            c@ == spec_cart_boot(),
            c@.wf(),
    {
        let c = Cart {
            rom: Vec::new(),
            ram: Vec::new(),
            rom_bank: 1,
            ram_bank: 0,
            mbc: MBC::NONE,
            rtc: Rtc::new(),
            rom_mode: true,
            ram_enabled: false,
        };
        proof {
            assert(c@ =~= spec_cart_boot());
        }
        c
    }

    /// Inject the host's wall clock for the RTC, in seconds.
    pub fn set_clock(&mut self, now: u64)
        ensures
            final(self)@ == (CartV { rtc: Rtc { now, ..old(self)@.rtc }, ..old(self)@ }),
    {
        self.rtc.set_clock(now);
        proof {
            assert(self@ =~= (CartV { rtc: Rtc { now, ..old(self)@.rtc }, ..old(self)@ }));
        }
    }

    /// Borrow the external RAM for battery persistence.
    pub fn get_battery_data(&self) -> (r: &Vec<u8>)
        ensures
            r@ == self@.ram,
    {
        &self.ram
    }

    /// Restore the external RAM from a battery blob; the blob must have
    /// exactly the sized RAM's length, else it is rejected untouched.
    pub fn set_battery_data(&mut self, data: &[u8]) -> (r: Result<(), CartError>)
        ensures
            data@.len() == old(self)@.ram.len() ==> r is Ok && final(self)@ == (CartV {
                ram: data@,
                ..old(self)@
            }),
            data@.len() != old(self)@.ram.len() ==> r == Err::<(), CartError>(
                CartError::BatteryBlobSizeMismatch,
            ) && *final(self) == *old(self),
            old(self)@.wf() ==> final(self)@.wf(),
    {
        if data.len() != self.ram.len() {
            return Err(CartError::BatteryBlobSizeMismatch);
        }
        let mut ram: Vec<u8> = Vec::new();
        let mut i: usize = 0;
        let n = data.len();
        while i < n
            invariant
                i <= n,
                n == data@.len(),
                ram@ == data@.take(i as int),
            decreases n - i,
        {
            let b = data[i];
            ram.push(b);
            proof {
                assert(ram@ =~= data@.take(i + 1));
            }
            i += 1;
        }
        self.ram = ram;
        proof {
            assert(data@.take(n as int) =~= data@);
            assert(self@ =~= (CartV { ram: data@, ..old(self)@ }));
        }
        Ok(())
    }

    /// The game title from the header: its ASCII bytes up to the first NUL.
    pub fn get_title(&self) -> (r: String)
        requires
            self@.wf(),
        ensures
            self@.rom.len() >= HEADER_SIZE ==> r@ == spec_title(self@.rom),
            self@.rom.len() < HEADER_SIZE ==> r@ == Seq::<char>::empty(),
    {
        let mut title = String::new();
        if self.rom.len() < HEADER_SIZE {
            return title;
        }
        let mut i: usize = TITLE_START;
        while i < TITLE_STOP
            invariant
                TITLE_START <= i <= TITLE_STOP,
                self@.rom.len() >= HEADER_SIZE,
                title@.len() == i - TITLE_START,
                forall|j: int|
                    TITLE_START <= j < i ==> self@.rom[j] != 0 && self@.rom[j] < 0x80,
                forall|j: int|
                    TITLE_START <= j < i ==> title@[j - TITLE_START] == self@.rom[j] as char,
            decreases TITLE_STOP - i,
        {
            let b = self.rom[i];
            if b == 0 || b >= 0x80 {
                proof {
                    lemma_title_len_prefix(self@.rom, i as int);
                    assert(title@ =~= spec_title(self@.rom));
                }
                return title;
            }
            push_char(&mut title, b as char);
            i += 1;
        }
        proof {
            lemma_title_len_prefix(self@.rom, TITLE_STOP as int);
            assert(title@ =~= spec_title(self@.rom));
        }
        title
    }

    pub fn has_battery(&self) -> (r: bool)
        requires
            self@.rom.len() >= HEADER_SIZE,
        ensures
            r == spec_has_battery(self@.rom[CART_TYPE_ADDR as int]),
    {
        let cart_type = self.rom[CART_TYPE_ADDR];
        cart_type == 0x03 || cart_type == 0x06 || cart_type == 0x09 || cart_type == 0x0D
            || cart_type == 0x0F || cart_type == 0x10 || cart_type == 0x13 || cart_type == 0x1B
            || cart_type == 0x1E
    }

    fn has_external_ram(&self) -> (r: bool)
        requires
            self@.rom.len() >= HEADER_SIZE,
        ensures
            r == spec_has_ext_ram(self@.rom[CART_TYPE_ADDR as int]),
    {
        let cart_type = self.rom[CART_TYPE_ADDR];
        cart_type == 0x02 || cart_type == 0x03 || cart_type == 0x08 || cart_type == 0x09
            || cart_type == 0x0C || cart_type == 0x0D || cart_type == 0x10 || cart_type == 0x12
            || cart_type == 0x13 || cart_type == 0x16 || cart_type == 0x17 || cart_type == 0x1A
            || cart_type == 0x1B || cart_type == 0x1D || cart_type == 0x1E
    }

    fn get_mbc(&self) -> (r: MBC)
        requires
            self@.rom.len() >= HEADER_SIZE,
        ensures
            r == spec_mbc_of(self@.rom[CART_TYPE_ADDR as int]),
    {
        let cart_type = self.rom[CART_TYPE_ADDR];
        if cart_type == 0x00 {
            MBC::NONE
        } else if 0x01 <= cart_type && cart_type <= 0x03 {
            MBC::MBC1
        } else if 0x05 <= cart_type && cart_type <= 0x06 {
            MBC::MBC2
        } else if 0x0F <= cart_type && cart_type <= 0x13 {
            MBC::MBC3
        } else if 0x19 <= cart_type && cart_type <= 0x1E {
            MBC::MBC5
        } else {
            MBC::INV
        }
    }

    /// Parse the header and size the external RAM.  A header naming an
    /// unimplemented mapper is rejected and the cartridge is unchanged.
    pub fn load_cart(&mut self, rom: &[u8]) -> (r: Result<(), CartError>)
        requires
            rom@.len() >= HEADER_SIZE,
            old(self)@.wf(),
        ensures
            final(self)@.wf(),
            spec_mbc_of(rom@[CART_TYPE_ADDR as int]) == MBC::INV ==> r == Err::<(), CartError>(
                CartError::UnsupportedMapper,
            ) && *final(self) == *old(self),
            spec_mbc_of(rom@[CART_TYPE_ADDR as int]) != MBC::INV ==> r is Ok && final(self)@
                == (CartV {
                rom: rom@,
                mbc: spec_mbc_of(rom@[CART_TYPE_ADDR as int]),
                ram: Seq::new(spec_ram_len(rom@) as nat, |i: int| 0u8),
                ..old(self)@
            }),
    {
        let cart_type = rom[CART_TYPE_ADDR];
        if !(cart_type == 0x00 || (0x01 <= cart_type && cart_type <= 0x03) || (0x05 <= cart_type
            && cart_type <= 0x06) || (0x0F <= cart_type && cart_type <= 0x13) || (0x19 <= cart_type
            && cart_type <= 0x1E)) {
            return Err(CartError::UnsupportedMapper);
        }
        let mut new_rom: Vec<u8> = Vec::new();
        let mut i: usize = 0;
        let n = rom.len();
        while i < n
            invariant
                i <= n,
                n == rom@.len(),
                new_rom@ == rom@.take(i as int),
            decreases n - i,
        {
            let b = rom[i];
            new_rom.push(b);
            proof {
                assert(new_rom@ =~= rom@.take(i + 1));
            }
            i += 1;
        }
        proof {
            assert(rom@.take(n as int) =~= rom@);
        }
        self.rom = new_rom;
        self.mbc = self.get_mbc();
        self.init_ext_ram();
        proof {
            assert(self@ =~= (CartV {
                rom: rom@,
                mbc: spec_mbc_of(rom@[CART_TYPE_ADDR as int]),
                ram: Seq::new(spec_ram_len(rom@) as nat, |i: int| 0u8),
                ..old(self)@
            }));
        }
        Ok(())
    }

    /// Size the external RAM from the header.
    fn init_ext_ram(&mut self)
        requires
            old(self)@.rom.len() >= HEADER_SIZE,
            old(self)@.mbc == spec_mbc_of(old(self)@.rom[CART_TYPE_ADDR as int]),
        ensures
            final(self)@ == (CartV {
                ram: Seq::new(spec_ram_len(old(self)@.rom) as nat, |i: int| 0u8),
                ..old(self)@
            }),
    {
        let mut ram_size: usize = 0;
        if self.mbc == MBC::MBC2 {
            ram_size = 512;
        } else {
            let mut ram_size_idx = self.rom[RAM_SIZE_ADDR];
            if self.has_external_ram() && ram_size_idx == 0 {
                ram_size_idx = 1;
            }
            let kb: usize = if ram_size_idx == 1 {
                2
            } else if ram_size_idx == 2 {
                8
            } else if ram_size_idx == 3 {
                32
            } else if ram_size_idx == 4 {
                128
            } else if ram_size_idx == 5 {
                64
            } else {
                0
            };
            ram_size = kb * 1024;
        }
        let mut ram: Vec<u8> = Vec::new();
        let mut i: usize = 0;
        while i < ram_size
            invariant
                i <= ram_size,
                ram@.len() == i,
                forall|j: int| 0 <= j < i ==> ram@[j] == 0u8,
            decreases ram_size - i,
        {
            ram.push(0);
            i += 1;
        }
        self.ram = ram;
        proof {
            assert(self@.ram =~= Seq::new(spec_ram_len(old(self)@.rom) as nat, |i: int| 0u8));
            assert(self@ =~= (CartV {
                ram: Seq::new(spec_ram_len(old(self)@.rom) as nat, |i: int| 0u8),
                ..old(self)@
            }));
        }
    }

    /// Read the ROM address space through the current bank selection.
    pub fn read_cart(&self, addr: u16) -> (r: u8)
        requires
            addr <= ROM_STOP,
        ensures
            r == spec_read_cart(self@, addr),
    {
        if (addr as usize) < ROM_BANK_SIZE {
            if (addr as usize) < self.rom.len() {
                self.rom[addr as usize]
            } else {
                0
            }
        } else {
            let rel_addr = (addr as usize) - ROM_BANK_SIZE;
            let bank_addr = (self.rom_bank as usize) * ROM_BANK_SIZE + rel_addr;
            if bank_addr < self.rom.len() {
                self.rom[bank_addr]
            } else {
                0
            }
        }
    }

    /// Read the external-RAM window (or the RTC register selected on MBC3).
    pub fn read_ram(&self, addr: u16) -> (r: u8)
        requires
            EXT_RAM_START <= addr <= EXT_RAM_STOP,
        ensures
            r == spec_read_ram(self@, addr),
    {
        if self.mbc == MBC::MBC3 && self.rtc.is_enabled() && 0x08 <= self.ram_bank && self.ram_bank
            <= 0x0C {
            self.rtc.read_byte(self.ram_bank)
        } else {
            self.read_ram_helper(addr)
        }
    }

    fn read_ram_helper(&self, addr: u16) -> (r: u8)
        requires
            EXT_RAM_START <= addr <= EXT_RAM_STOP,
        ensures
            r == if spec_ram_index(self@, addr) < self@.ram.len() {
                self@.ram[spec_ram_index(self@, addr)]
            } else {
                0u8
            },
    {
        let rel_addr = (addr - EXT_RAM_START) as usize;
        let bank_addr = (self.ram_bank as usize) * RAM_BANK_SIZE + rel_addr;
        if bank_addr < self.ram.len() {
            self.ram[bank_addr]
        } else {
            0
        }
    }

    /// Decode a write into the ROM address space as a mapper register write.
    pub fn write_cart(&mut self, addr: u16, val: u8)
        requires
            addr <= ROM_STOP,
        ensures
            final(self)@ == spec_write_cart(old(self)@, addr, val),
    {
        match self.mbc {
            MBC::NONE => {},
            MBC::MBC1 => {
                self.mbc1_write_rom(addr, val);
            },
            MBC::MBC2 => {
                self.mbc2_write_rom(addr, val);
            },
            MBC::MBC3 => {
                self.mbc3_write_rom(addr, val);
            },
            MBC::MBC5 => {
                self.mbc5_write_rom(addr, val);
            },
            MBC::INV => {},
        }
        proof {
            assert(self@ =~= spec_write_cart(old(self)@, addr, val));
        }
    }

    /// Write the external-RAM window (or the RTC register selected on MBC3).
    pub fn write_ram(&mut self, addr: u16, val: u8)
        requires
            EXT_RAM_START <= addr <= EXT_RAM_STOP,
        ensures
            final(self)@ == spec_write_ram(old(self)@, addr, val),
    {
        match self.mbc {
            MBC::NONE => {
                let rel_addr = (addr - EXT_RAM_START) as usize;
                if rel_addr < self.ram.len() {
                    self.ram[rel_addr] = val;
                }
            },
            MBC::MBC1 | MBC::MBC5 => {
                self.write_ram_helper(addr, val);
            },
            MBC::MBC2 => {
                self.write_ram_helper(addr, val & 0x0F);
            },
            MBC::MBC3 => {
                self.mbc3_write_ram(addr, val);
            },
            MBC::INV => {},
        }
        proof {
            assert(self@ =~= spec_write_ram(old(self)@, addr, val));
        }
    }

    fn mbc1_write_rom(&mut self, addr: u16, val: u8)
        requires
            addr <= ROM_STOP,
        ensures
            final(self)@ == spec_mbc1_write(old(self)@, addr, val),
    {
        if addr <= RAM_ENABLE_STOP {
            self.ram_enabled = val == 0x0A;
        } else if addr <= ROM_BANK_NUM_STOP {
            let bank = val & 0x1F;
            if bank == 0 {
                // Bank numbers 0, $20, $40, $60 are not usable: the next
                // bank up loads instead.
                proof {
                    crate::utils::lemma_and8_le(val, 0x7F);
                }
                self.rom_bank = ((val & 0x7F) + 1) as u16;
            } else {
                self.rom_bank = bank as u16;
            }
        } else if addr <= RAM_BANK_NUM_STOP {
            let bits = val & 0b11;
            if self.rom_mode {
                self.rom_bank = self.rom_bank | ((bits as u16) << 5);
            } else {
                self.ram_bank = bits;
            }
        } else {
            self.rom_mode = val == 0;
        }
        proof {
            assert(self@ =~= spec_mbc1_write(old(self)@, addr, val));
        }
    }

    fn mbc2_write_rom(&mut self, addr: u16, val: u8)
        ensures
            final(self)@ == spec_mbc2_write(old(self)@, addr, val),
    {
        let bank_swap = get_bit16(addr, 8);
        if bank_swap {
            self.rom_bank = (val & 0x0F) as u16;
        } else {
            self.ram_enabled = val == 0x0A;
        }
        proof {
            assert((1u16 << 8) == 0x100) by (bit_vector);
            assert(self@ =~= spec_mbc2_write(old(self)@, addr, val));
        }
    }

    fn mbc3_write_rom(&mut self, addr: u16, val: u8)
        requires
            addr <= ROM_STOP,
        ensures
            final(self)@ == spec_mbc3_write(old(self)@, addr, val),
    {
        if addr <= RAM_ENABLE_STOP {
            self.ram_enabled = val == 0x0A;
        } else if addr <= ROM_BANK_NUM_STOP {
            let bank = val & 0x7F;
            if bank == 0 {
                self.rom_bank = 1;
            } else {
                self.rom_bank = bank as u16;
            }
        } else if addr <= RAM_BANK_NUM_STOP {
            self.ram_bank = val;
        } else {
            self.rtc.write_byte(self.ram_bank, val);
        }
        proof {
            assert(self@ =~= spec_mbc3_write(old(self)@, addr, val));
        }
    }

    fn mbc5_write_rom(&mut self, addr: u16, val: u8)
        requires
            addr <= ROM_STOP,
        ensures
            final(self)@ == spec_mbc5_write(old(self)@, addr, val),
    {
        if addr <= RAM_ENABLE_STOP {
            self.ram_enabled = val == 0x0A;
        } else if addr <= ROM_BANK_LOW_STOP {
            self.rom_bank = (self.rom_bank & 0xFF00) | (val as u16);
        } else if addr <= ROM_BANK_NUM_STOP {
            self.rom_bank = set_bit16(self.rom_bank, 9, val != 0);
        } else if addr <= RAM_BANK_NUM_STOP {
            self.ram_bank = val & 0x0F;
        }
        proof {
            assert(self@ =~= spec_mbc5_write(old(self)@, addr, val));
        }
    }

    fn mbc3_write_ram(&mut self, addr: u16, val: u8)
        requires
            EXT_RAM_START <= addr <= EXT_RAM_STOP,
            old(self)@.mbc == MBC::MBC3,
        ensures
            final(self)@ == spec_write_ram(old(self)@, addr, val),
    {
        if self.ram_bank <= 0x03 {
            self.write_ram_helper(addr, val);
        } else if 0x08 <= self.ram_bank && self.ram_bank <= 0x0C {
            if self.ram_enabled {
                self.rtc.write_byte(self.ram_bank, val);
            }
        }
        proof {
            assert(self@ =~= spec_write_ram(old(self)@, addr, val));
        }
    }

    fn write_ram_helper(&mut self, addr: u16, val: u8)
        requires
            EXT_RAM_START <= addr <= EXT_RAM_STOP,
        ensures
            final(self)@ == spec_write_ram_banked(old(self)@, addr, val),
    {
        if self.ram_enabled {
            let rel_addr = (addr - EXT_RAM_START) as usize;
            let ram_addr = (self.ram_bank as usize) * RAM_BANK_SIZE + rel_addr;
            if ram_addr < self.ram.len() {
                self.ram[ram_addr] = val;
            }
        }
        proof {
            assert(self@ =~= spec_write_ram_banked(old(self)@, addr, val));
        }
    }
}

/// The MBC1 ROM-bank register: the unusable bank numbers 0, $20, $40 and
/// $60 load the bank above, so writing 0, $20, $40, $60 selects banks 1,
/// $21, $41, $61; any other value keeps its low five bits.
pub proof fn lemma_mbc1_bank_remap(v: CartV, val: u8)
    ensures
        spec_mbc1_write(v, 0x2000, val).rom_bank == (if val & 0x1F == 0 {
            ((val & 0x7F) + 1) as u16
        } else {
            (val & 0x1F) as u16
        }),
        spec_mbc1_write(v, 0x2000, 0x00).rom_bank == 0x01,
        spec_mbc1_write(v, 0x2000, 0x20).rom_bank == 0x21,
        spec_mbc1_write(v, 0x2000, 0x40).rom_bank == 0x41,
        spec_mbc1_write(v, 0x2000, 0x60).rom_bank == 0x61,
{
    assert(0x00u8 & 0x1F == 0 && 0x00u8 & 0x7F == 0x00 && 0x20u8 & 0x1F == 0 && 0x20u8 & 0x7F
        == 0x20 && 0x40u8 & 0x1F == 0 && 0x40u8 & 0x7F == 0x40 && 0x60u8 & 0x1F == 0 && 0x60u8
        & 0x7F == 0x60) by (bit_vector);
}

/// The RAM-enable latch: after writing $0A to the enable range, a byte
/// written into the external-RAM window reads back (MBC2 keeps only its low
/// nibble); after writing anything else there, writes are discarded
/// entirely, so what a later read (after re-enabling) returns cannot be
/// affected.
pub proof fn lemma_ram_enable_roundtrip(v: CartV, addr: u16, x: u8)
    requires
        v.wf(),
        v.mbc == MBC::MBC1 || v.mbc == MBC::MBC2 || v.mbc == MBC::MBC3 || v.mbc == MBC::MBC5,
        v.mbc == MBC::MBC3 ==> v.ram_bank <= 0x03,
        EXT_RAM_START <= addr <= EXT_RAM_STOP,
        spec_ram_index(v, addr) < v.ram.len(),
    ensures
        ({
            let on = spec_write_ram(spec_write_cart(v, 0x0000, 0x0A), addr, x);
            spec_read_ram(on, addr) == (if v.mbc == MBC::MBC2 {
                x & 0x0F
            } else {
                x
            })
        }),
        spec_write_ram(spec_write_cart(v, 0x0000, 0x00), addr, x) == spec_write_cart(
            v,
            0x0000,
            0x00,
        ),
{
    assert(0x0000u16 & 0x100 == 0) by (bit_vector);
    let en = spec_write_cart(v, 0x0000, 0x0A);
    let on = spec_write_ram(en, addr, x);
    if v.mbc == MBC::MBC2 {
        crate::utils::lemma_and8_le(x, 0x0F);
    }
    assert(spec_read_ram(on, addr) == (if v.mbc == MBC::MBC2 {
        x & 0x0F
    } else {
        x
    }));
}

/// The used title prefix: if the bytes from the title region's start up to
/// `i` are printable ASCII and the byte at `i` (or the region's end) stops
/// the scan, the title length is `i - TITLE_START`.
proof fn lemma_title_len_prefix(rom: Seq<u8>, stop: int)
    requires
        rom.len() >= HEADER_SIZE,
        TITLE_START <= stop <= TITLE_STOP,
        forall|j: int| TITLE_START <= j < stop ==> rom[j] != 0 && rom[j] < 0x80,
        stop < TITLE_STOP ==> rom[stop] == 0 || rom[stop] >= 0x80,
    ensures
        spec_title_len(rom) == stop - TITLE_START,
{
    lemma_title_len_from(rom, TITLE_START as int, stop);
}

proof fn lemma_title_len_from(rom: Seq<u8>, i: int, stop: int)
    requires
        rom.len() >= HEADER_SIZE,
        TITLE_START <= i <= stop <= TITLE_STOP,
        forall|j: int| i <= j < stop ==> rom[j] != 0 && rom[j] < 0x80,
        stop < TITLE_STOP ==> rom[stop] == 0 || rom[stop] >= 0x80,
    ensures
        spec_title_len_from(rom, i) == stop - i,
    decreases stop - i,
{
    if i < stop {
        lemma_title_len_from(rom, i + 1, stop);
    }
}

} // verus!
