//! The CPU core: the eight 8-bit registers with their pairings, SP and PC,
//! the interrupt master enable, the HALT flag, and the bus it owns.  `tick`
//! executes one instruction (or one idle cycle while halted), advances the
//! pixel unit and the timer by the consumed machine cycles, and services one
//! pending interrupt.  All 16-bit arithmetic wraps modulo 65536; the low
//! nibble of the flags register is always zero.

use vstd::prelude::*;

use crate::bus::{spec_bus_boot, spec_bus_read, spec_bus_write, Bus, BusV};
use crate::cart::{CartError, CartV, HEADER_SIZE};
use crate::io::{Buttons, IoV};
use crate::modes::LcdResults;
use crate::ppu::{spec_ppu_update, spec_render_scanline};
use crate::rtc::Rtc;
use crate::utils::{
    check_c_carry_u16, check_h_borrow_u8, check_h_carry_u16, check_h_carry_u8, get_bit8,
    high_byte, low_byte, merge_bytes, set_bit8, spec_bit8, spec_c_carry_u16, spec_h_borrow_u8,
    spec_h_carry_u16, spec_h_carry_u8, spec_high_byte, spec_low_byte, spec_merge_bytes,
    spec_set_bit8, DISPLAY_BUFFER,
};

verus! {

pub const IF: u16 = 0xFF0F;

pub const IE: u16 = 0xFFFF;

/// Why a tick can fail.
#[derive(Clone, Copy, PartialEq, Eq, Structural, Debug)]
pub enum EmuError {
    /// The CPU fetched one of the unassigned primary opcodes; the payload is
    /// the address the opcode was fetched from.
    InvalidOpcode(u16),
}

pub enum Flags {
    Z,
    N,
    H,
    C,
}

#[derive(Copy, Clone)]
pub enum Regs {
    A,
    B,
    C,
    D,
    E,
    F,
    H,
    L,
    HL,
}

#[derive(Copy, Clone)]
pub enum Regs16 {
    AF,
    BC,
    DE,
    HL,
    SP,
}

#[derive(Copy, Clone)]
pub enum Interrupts {
    Vblank,
    Stat,
    Timer,
    Serial,
    Joypad,
}

/// Each interrupt's service vector.
pub open spec fn spec_vector(i: Interrupts) -> u16 {
    match i {
        Interrupts::Vblank => 0x0040,
        Interrupts::Stat => 0x0048,
        Interrupts::Timer => 0x0050,
        Interrupts::Serial => 0x0058,
        Interrupts::Joypad => 0x0060,
    }
}

/// Each interrupt's bit in the IF and IE registers, in priority order:
/// the lowest bit has the highest priority.
pub open spec fn spec_irq_bit(i: Interrupts) -> u8 {
    match i {
        Interrupts::Vblank => 0,
        Interrupts::Stat => 1,
        Interrupts::Timer => 2,
        Interrupts::Serial => 3,
        Interrupts::Joypad => 4,
    }
}

impl Interrupts {
    pub fn get_vector(&self) -> (r: u16)
        ensures
            r == spec_vector(*self),
    {
        match *self {
            Interrupts::Vblank => 0x0040,
            Interrupts::Stat => 0x0048,
            Interrupts::Timer => 0x0050,
            Interrupts::Serial => 0x0058,
            Interrupts::Joypad => 0x0060,
        }
    }
}

/// Addition wrapping at the byte.
pub open spec fn spec_wrap_add8(x: u8, y: u8) -> u8 {
    if x + y > 255 {
        (x + y - 256) as u8
    } else {
        (x + y) as u8
    }
}

/// Subtraction wrapping at the byte.
pub open spec fn spec_wrap_sub8(x: u8, y: u8) -> u8 {
    if x >= y {
        (x - y) as u8
    } else {
        (x - y + 256) as u8
    }
}

/// Addition modulo 65536.
pub open spec fn spec_wrap_add16(x: u16, y: u16) -> u16 {
    if x + y > 0xFFFF {
        (x + y - 0x10000) as u16
    } else {
        (x + y) as u16
    }
}

/// Subtraction modulo 65536.
pub open spec fn spec_wrap_sub16(x: u16, y: u16) -> u16 {
    if x >= y {
        (x - y) as u16
    } else {
        (x - y + 0x10000) as u16
    }
}

pub fn wrap_add16(x: u16, y: u16) -> (r: u16)
    ensures
        r == spec_wrap_add16(x, y),
{
    if x as u32 + y as u32 > 0xFFFF {
        ((x as u32 + y as u32 - 0x10000) as u16)
    } else {
        x + y
    }
}

pub fn wrap_sub16(x: u16, y: u16) -> (r: u16)
    ensures
        r == spec_wrap_sub16(x, y),
{
    if x >= y {
        x - y
    } else {
        ((x as u32 + 0x10000 - y as u32) as u16)
    }
}

/// The wrapping operations compute modulo 65536 and 256: PC, SP and all
/// 16-bit arithmetic wrap rather than trapping.
pub proof fn lemma_wrap_mod(x: u16, y: u16, a: u8, b: u8)
    ensures
        spec_wrap_add16(x, y) == (x + y) % 0x10000,
        spec_wrap_sub16(x, y) == (x - y + 0x10000) % 0x10000,
        spec_wrap_add8(a, b) == (a + b) % 0x100,
        spec_wrap_sub8(a, b) == (a - b + 0x100) % 0x100,
{
}

/// PC and SP arithmetic is modular: a fetch advances PC modulo 65536, a
/// push retreats SP by two and a pop advances it by two modulo 65536, and
/// none of them traps on wrap.
pub proof fn lemma_pc_sp_wrap(c: CpuV, val: u16)
    ensures
        spec_fetch(c).0.pc == (c.pc + 1) % 0x10000,
        spec_push(c, val).sp == (c.sp - 2 + 0x10000) % 0x10000,
        spec_pop(c).0.sp == (c.sp + 2) % 0x10000,
{
}

/// What a push leaves in memory: with the stack in plain RAM (work RAM, its
/// echo, or high RAM), the low byte of the pushed word sits at the new SP
/// and the high byte just above it.
pub proof fn lemma_push_layout(c: CpuV, val: u16)
    requires
        c.wf(),
        (crate::wram::WRAM_START <= c.sp - 2 && c.sp - 1 <= crate::wram::ECHO_STOP) || (
        crate::bus::HRAM_START <= c.sp - 2 && c.sp - 1 <= 0xFFFF),
    ensures
        spec_push(c, val).sp == c.sp - 2,
        spec_bus_read(spec_push(c, val).bus, (c.sp - 2) as u16) == spec_low_byte(val),
        spec_bus_read(spec_push(c, val).bus, (c.sp - 1) as u16) == spec_high_byte(val),
{
    reveal(crate::bus::spec_bus_read);
    reveal(crate::bus::spec_bus_write);
    let sp = spec_wrap_sub16(c.sp, 2);
    assert(sp == c.sp - 2);
    let hi_addr = spec_wrap_add16(sp, 1);
    assert(hi_addr == c.sp - 1);
    if crate::wram::WRAM_START <= c.sp - 2 && c.sp - 1 <= crate::wram::ECHO_STOP {
        assert(crate::wram::spec_wram_index(sp) != crate::wram::spec_wram_index(hi_addr));
    }
}

/// Writing any value through the AF pair reads back with the low nibble of
/// F cleared: the four flags are all the pair's low byte can hold.
pub proof fn lemma_af_roundtrip(c: CpuV, v: u16)
    ensures
        spec_get_r16(spec_set_r16(c, Regs16::AF, v), Regs16::AF) == v & 0xFFF0,
{
    assert(((((v >> 8) as u8) as u16) << 8) | ((((v & 0xFF) as u8) & 0xF0) as u16) == v & 0xFFF0)
        by (bit_vector);
}

/// The mask of one flag in the F register: Z, N, H, C sit in bits 7 to 4.
pub open spec fn spec_flag_mask(f: Flags) -> u8 {
    match f {
        Flags::Z => 0b1000_0000,
        Flags::N => 0b0100_0000,
        Flags::H => 0b0010_0000,
        Flags::C => 0b0001_0000,
    }
}

/// The F register after one flag is forced: setting ORs the flag's mask in,
/// clearing keeps only the other three flags (the low nibble stays zero
/// either way).
pub open spec fn spec_with_flag(f_reg: u8, f: Flags, val: bool) -> u8 {
    if val {
        f_reg | spec_flag_mask(f)
    } else {
        match f {
            Flags::Z => f_reg & 0b0111_0000,
            Flags::N => f_reg & 0b1011_0000,
            Flags::H => f_reg & 0b1101_0000,
            Flags::C => f_reg & 0b1110_0000,
        }
    }
}

/// Forcing flags never raises the low nibble of F.
pub proof fn lemma_flag_nibble(f_reg: u8)
    ensures
        f_reg & 0x0F == 0 ==> (f_reg | 0b1000_0000) & 0x0F == 0,
        f_reg & 0x0F == 0 ==> (f_reg | 0b0100_0000) & 0x0F == 0,
        f_reg & 0x0F == 0 ==> (f_reg | 0b0010_0000) & 0x0F == 0,
        f_reg & 0x0F == 0 ==> (f_reg | 0b0001_0000) & 0x0F == 0,
        (f_reg & 0b0111_0000) & 0x0F == 0,
        (f_reg & 0b1011_0000) & 0x0F == 0,
        (f_reg & 0b1101_0000) & 0x0F == 0,
        (f_reg & 0b1110_0000) & 0x0F == 0,
{
    assert((f_reg & 0x0F == 0 ==> (f_reg | 0b1000_0000) & 0x0F == 0) && (f_reg & 0x0F == 0 ==> (
    f_reg | 0b0100_0000) & 0x0F == 0) && (f_reg & 0x0F == 0 ==> (f_reg | 0b0010_0000) & 0x0F == 0)
        && (f_reg & 0x0F == 0 ==> (f_reg | 0b0001_0000) & 0x0F == 0) && ((f_reg & 0b0111_0000)
        & 0x0F == 0) && ((f_reg & 0b1011_0000) & 0x0F == 0) && ((f_reg & 0b1101_0000) & 0x0F == 0)
        && ((f_reg & 0b1110_0000) & 0x0F == 0)) by (bit_vector);
}

/// The CPU as contracts see it.
#[verifier::ext_equal]
pub ghost struct CpuV {
    pub pc: u16,
    pub sp: u16,
    pub a: u8,
    pub b: u8,
    pub c: u8,
    pub d: u8,
    pub e: u8,
    pub f: u8,
    pub h: u8,
    pub l: u8,
    pub irq_enabled: bool,
    pub halted: bool,
    pub bus: BusV,
    pub last_read: Option<u16>,
    pub last_write: Option<u16>,
    pub dirty_battery: bool,
}

pub struct Cpu {
    pub pc: u16,
    pub sp: u16,
    pub a: u8,
    pub b: u8,
    pub c: u8,
    pub d: u8,
    pub e: u8,
    pub f: u8,
    pub h: u8,
    pub l: u8,
    pub irq_enabled: bool,
    pub halted: bool,
    pub bus: Bus,
    pub last_read: Option<u16>,
    pub last_write: Option<u16>,
    pub dirty_battery: bool,
}

impl View for Cpu {
    type V = CpuV;

    open spec fn view(&self) -> CpuV {
        CpuV {
            pc: self.pc,
            sp: self.sp,
            a: self.a,
            b: self.b,
            c: self.c,
            d: self.d,
            e: self.e,
            f: self.f,
            h: self.h,
            l: self.l,
            irq_enabled: self.irq_enabled,
            halted: self.halted,
            bus: self.bus@,
            last_read: self.last_read,
            last_write: self.last_write,
            dirty_battery: self.dirty_battery,
        }
    }
}

impl CpuV {
    /// The machine invariant: the bus components have their fixed sizes and
    /// the low nibble of the flags register is zero.
    pub open spec fn wf(self) -> bool {
        &&& self.bus.wf()
        &&& self.f & 0x0F == 0
    }

    pub open spec fn flag(self, f: Flags) -> bool {
        self.f & spec_flag_mask(f) != 0
    }
}

/// A read through the CPU: the byte the bus yields, with the address traced
/// for breakpoint inspection.
pub open spec fn spec_cpu_read(c: CpuV, addr: u16) -> (CpuV, u8) {
    (CpuV { last_read: Some(addr), ..c }, spec_bus_read(c.bus, addr))
}

/// A write through the CPU: the address is traced, and a write that hit the
/// battery-backed external-RAM window latches the dirty-battery flag.
pub open spec fn spec_cpu_write(c: CpuV, addr: u16, val: u8) -> CpuV {
    let wr = spec_bus_write(c.bus, addr, val);
    CpuV {
        bus: wr.0,
        last_write: Some(addr),
        dirty_battery: c.dirty_battery || wr.1,
        ..c
    }
}

/// One opcode byte fetched at PC, which then advances (wrapping).
pub open spec fn spec_fetch(c: CpuV) -> (CpuV, u8) {
    let rd = spec_cpu_read(c, c.pc);
    (CpuV { pc: spec_wrap_add16(c.pc, 1), ..rd.0 }, rd.1)
}

/// A 16-bit immediate fetched little-endian at PC.
pub open spec fn spec_fetch_u16(c: CpuV) -> (CpuV, u16) {
    let lo = spec_fetch(c);
    let hi = spec_fetch(lo.0);
    (hi.0, spec_merge_bytes(hi.1, lo.1))
}

/// What reading a register name yields; reading the pseudo-register (HL)
/// reads memory at the HL pair and traces the read.
pub open spec fn spec_get_r8(c: CpuV, r: Regs) -> (CpuV, u8) {
    match r {
        Regs::A => (c, c.a),
        Regs::B => (c, c.b),
        Regs::C => (c, c.c),
        Regs::D => (c, c.d),
        Regs::E => (c, c.e),
        Regs::F => (c, c.f),
        Regs::H => (c, c.h),
        Regs::L => (c, c.l),
        Regs::HL => spec_cpu_read(c, spec_merge_bytes(c.h, c.l)),
    }
}

/// Writing a register name; the F register keeps only its high nibble, and
/// the pseudo-register (HL) writes memory at the HL pair.
pub open spec fn spec_set_r8(c: CpuV, r: Regs, val: u8) -> CpuV {
    match r {
        Regs::A => CpuV { a: val, ..c },
        Regs::B => CpuV { b: val, ..c },
        Regs::C => CpuV { c: val, ..c },
        Regs::D => CpuV { d: val, ..c },
        Regs::E => CpuV { e: val, ..c },
        Regs::F => CpuV { f: val & 0xF0, ..c },
        Regs::H => CpuV { h: val, ..c },
        Regs::L => CpuV { l: val, ..c },
        Regs::HL => spec_cpu_write(c, spec_merge_bytes(c.h, c.l), val),
    }
}

/// What a register pair reads as.
pub open spec fn spec_get_r16(c: CpuV, r: Regs16) -> u16 {
    match r {
        Regs16::AF => spec_merge_bytes(c.a, c.f),
        Regs16::BC => spec_merge_bytes(c.b, c.c),
        Regs16::DE => spec_merge_bytes(c.d, c.e),
        Regs16::HL => spec_merge_bytes(c.h, c.l),
        Regs16::SP => c.sp,
    }
}

/// Writing a register pair; through AF the low nibble of F stays zero.
pub open spec fn spec_set_r16(c: CpuV, r: Regs16, val: u16) -> CpuV {
    let high = spec_high_byte(val);
    let low = spec_low_byte(val);
    match r {
        Regs16::AF => CpuV { a: high, f: low & 0xF0, ..c },
        Regs16::BC => CpuV { b: high, c: low, ..c },
        Regs16::DE => CpuV { d: high, e: low, ..c },
        Regs16::HL => CpuV { h: high, l: low, ..c },
        Regs16::SP => CpuV { sp: val, ..c },
    }
}

/// A word pushed: SP retreats by two, then the high byte is written first,
/// at the higher address, and the low byte below it at the new SP.
pub open spec fn spec_push(c: CpuV, val: u16) -> CpuV {
    let sp = spec_wrap_sub16(c.sp, 2);
    let c1 = CpuV { sp, ..c };
    let c2 = spec_cpu_write(c1, spec_wrap_add16(sp, 1), spec_high_byte(val));
    spec_cpu_write(c2, sp, spec_low_byte(val))
}

/// A word popped: low byte from SP, high from above it, SP advances by two.
pub open spec fn spec_pop(c: CpuV) -> (CpuV, u16) {
    let lo = spec_cpu_read(c, c.sp);
    let hi = spec_cpu_read(lo.0, spec_wrap_add16(c.sp, 1));
    (CpuV { sp: spec_wrap_add16(c.sp, 2), ..hi.0 }, spec_merge_bytes(hi.1, lo.1))
}

/// ADD/ADC in two stages: first A plus the operand, then plus the carry-in;
/// H and C are the disjunctions of the two stages' half and full carries,
/// Z reflects the final byte, N clears.
pub open spec fn spec_add_a(c: CpuV, val: u8, adc: bool) -> CpuV {
    let carry: u8 = if adc && c.flag(Flags::C) {
        1u8
    } else {
        0u8
    };
    let r1 = spec_wrap_add8(c.a, val);
    let c1 = c.a + val > 255;
    let h1 = spec_h_carry_u8(c.a, val);
    let r2 = spec_wrap_add8(r1, carry);
    let c2 = r1 + carry > 255;
    let h2 = spec_h_carry_u8(r1, carry);
    let f1 = spec_with_flag(c.f, Flags::N, false);
    let f2 = spec_with_flag(f1, Flags::C, c1 || c2);
    let f3 = spec_with_flag(f2, Flags::H, h1 || h2);
    let f4 = spec_with_flag(f3, Flags::Z, r2 == 0);
    CpuV { a: r2, f: f4, ..c }
}

/// SUB/SBC in two stages, symmetric with the addition; N sets.
pub open spec fn spec_sub_a(c: CpuV, val: u8, sbc: bool) -> CpuV {
    let carry: u8 = if sbc && c.flag(Flags::C) {
        1u8
    } else {
        0u8
    };
    let r1 = spec_wrap_sub8(c.a, val);
    let c1 = c.a < val;
    let h1 = spec_h_borrow_u8(c.a, val);
    let r2 = spec_wrap_sub8(r1, carry);
    let c2 = r1 < carry;
    let h2 = spec_h_borrow_u8(r1, carry);
    let f1 = spec_with_flag(c.f, Flags::N, true);
    let f2 = spec_with_flag(f1, Flags::Z, r2 == 0);
    let f3 = spec_with_flag(f2, Flags::H, h1 || h2);
    let f4 = spec_with_flag(f3, Flags::C, c1 || c2);
    CpuV { a: r2, f: f4, ..c }
}

/// 16-bit addition into a pair: N clears, H carries out of bit 11, C out of
/// bit 15, Z is untouched.
pub open spec fn spec_add_r16(c: CpuV, dst: Regs16, src: Regs16) -> CpuV {
    let d = spec_get_r16(c, dst);
    let s = spec_get_r16(c, src);
    let res = spec_wrap_add16(d, s);
    let c1 = spec_set_r16(c, dst, res);
    let f1 = spec_with_flag(c1.f, Flags::N, false);
    let f2 = spec_with_flag(f1, Flags::H, spec_h_carry_u16(d, s));
    let f3 = spec_with_flag(f2, Flags::C, spec_c_carry_u16(d, s));
    CpuV { f: f3, ..c1 }
}

/// AND into A: Z from the result, N=0, H=1, C=0.
pub open spec fn spec_and_a(c: CpuV, val: u8) -> CpuV {
    let a = c.a & val;
    let f1 = spec_with_flag(c.f, Flags::Z, a == 0);
    let f2 = spec_with_flag(f1, Flags::N, false);
    let f3 = spec_with_flag(f2, Flags::H, true);
    let f4 = spec_with_flag(f3, Flags::C, false);
    CpuV { a, f: f4, ..c }
}

/// OR into A: Z from the result, N=H=C=0.
pub open spec fn spec_or_a(c: CpuV, val: u8) -> CpuV {
    let a = c.a | val;
    let f1 = spec_with_flag(c.f, Flags::Z, a == 0);
    let f2 = spec_with_flag(f1, Flags::N, false);
    let f3 = spec_with_flag(f2, Flags::H, false);
    let f4 = spec_with_flag(f3, Flags::C, false);
    CpuV { a, f: f4, ..c }
}

/// XOR into A: Z from the result, N=H=C=0.
pub open spec fn spec_xor_a(c: CpuV, val: u8) -> CpuV {
    let a = c.a ^ val;
    let f1 = spec_with_flag(c.f, Flags::Z, a == 0);
    let f2 = spec_with_flag(f1, Flags::N, false);
    let f3 = spec_with_flag(f2, Flags::H, false);
    let f4 = spec_with_flag(f3, Flags::C, false);
    CpuV { a, f: f4, ..c }
}

/// CP: the flags of a subtraction, with the result discarded.
pub open spec fn spec_cp_a(c: CpuV, val: u8) -> CpuV {
    let f1 = spec_with_flag(c.f, Flags::Z, c.a == val);
    let f2 = spec_with_flag(f1, Flags::N, true);
    let f3 = spec_with_flag(f2, Flags::H, spec_h_borrow_u8(c.a, val));
    let f4 = spec_with_flag(f3, Flags::C, c.a < val);
    CpuV { f: f4, ..c }
}

/// INC of a register name: Z from the result, N=0, H when the low nibble
/// was $F, C untouched.
pub open spec fn spec_inc_r8(c: CpuV, r: Regs) -> CpuV {
    let rd = spec_get_r8(c, r);
    let val = rd.1;
    let inc = spec_wrap_add8(val, 1);
    let c1 = spec_set_r8(rd.0, r, inc);
    let f1 = spec_with_flag(c1.f, Flags::Z, inc == 0);
    let f2 = spec_with_flag(f1, Flags::N, false);
    let f3 = spec_with_flag(f2, Flags::H, spec_h_carry_u8(val, 1));
    CpuV { f: f3, ..c1 }
}

/// DEC of a register name: Z from the result, N=1, H when the low nibble
/// was 0, C untouched.
pub open spec fn spec_dec_r8(c: CpuV, r: Regs) -> CpuV {
    let rd = spec_get_r8(c, r);
    let val = rd.1;
    let dec = spec_wrap_sub8(val, 1);
    let c1 = spec_set_r8(rd.0, r, dec);
    let f1 = spec_with_flag(c1.f, Flags::Z, dec == 0);
    let f2 = spec_with_flag(f1, Flags::N, true);
    let f3 = spec_with_flag(f2, Flags::H, spec_h_borrow_u8(val, 1));
    CpuV { f: f3, ..c1 }
}

pub open spec fn spec_inc_r16(c: CpuV, r: Regs16) -> CpuV {
    spec_set_r16(c, r, spec_wrap_add16(spec_get_r16(c, r), 1))
}

pub open spec fn spec_dec_r16(c: CpuV, r: Regs16) -> CpuV {
    spec_set_r16(c, r, spec_wrap_sub16(spec_get_r16(c, r), 1))
}

/// A left rotate of one register name: through the carry flag when `carry`
/// is set, else a plain rotation; C takes the bit rotated out, Z follows the
/// result, N and H clear.
pub open spec fn spec_rotate_left(c: CpuV, r: Regs, carry: bool) -> CpuV {
    let rd = spec_get_r8(c, r);
    let val = rd.1;
    let msb = spec_bit8(val, 7);
    let rotated = (val << 1) | (val >> 7);
    let new = if carry {
        spec_set_bit8(rotated, 0, rd.0.flag(Flags::C))
    } else {
        rotated
    };
    let c1 = spec_set_r8(rd.0, r, new);
    let f1 = spec_with_flag(c1.f, Flags::Z, new == 0);
    let f2 = spec_with_flag(f1, Flags::N, false);
    let f3 = spec_with_flag(f2, Flags::H, false);
    let f4 = spec_with_flag(f3, Flags::C, msb);
    CpuV { f: f4, ..c1 }
}

/// A right rotate of one register name, symmetric with the left rotate.
pub open spec fn spec_rotate_right(c: CpuV, r: Regs, carry: bool) -> CpuV {
    let rd = spec_get_r8(c, r);
    let val = rd.1;
    let lsb = spec_bit8(val, 0);
    let rotated = (val >> 1) | (val << 7);
    let new = if carry {
        spec_set_bit8(rotated, 7, rd.0.flag(Flags::C))
    } else {
        rotated
    };
    let c1 = spec_set_r8(rd.0, r, new);
    let f1 = spec_with_flag(c1.f, Flags::Z, new == 0);
    let f2 = spec_with_flag(f1, Flags::N, false);
    let f3 = spec_with_flag(f2, Flags::H, false);
    let f4 = spec_with_flag(f3, Flags::C, lsb);
    CpuV { f: f4, ..c1 }
}

/// An arithmetic left shift: C takes the top bit, Z follows the result.
pub open spec fn spec_shift_left(c: CpuV, r: Regs) -> CpuV {
    let rd = spec_get_r8(c, r);
    let val = rd.1;
    let msb = spec_bit8(val, 7);
    let res = val << 1;
    let c1 = spec_set_r8(rd.0, r, res);
    let f1 = spec_with_flag(c1.f, Flags::Z, res == 0);
    let f2 = spec_with_flag(f1, Flags::N, false);
    let f3 = spec_with_flag(f2, Flags::H, false);
    let f4 = spec_with_flag(f3, Flags::C, msb);
    CpuV { f: f4, ..c1 }
}

/// A right shift, arithmetic (top bit kept) or logical: C takes the low bit.
pub open spec fn spec_shift_right(c: CpuV, r: Regs, arith: bool) -> CpuV {
    let rd = spec_get_r8(c, r);
    let val = rd.1;
    let lsb = spec_bit8(val, 0);
    let msb = spec_bit8(val, 7);
    let shifted = val >> 1;
    let res = if arith {
        spec_set_bit8(shifted, 7, msb)
    } else {
        shifted
    };
    let c1 = spec_set_r8(rd.0, r, res);
    let f1 = spec_with_flag(c1.f, Flags::Z, res == 0);
    let f2 = spec_with_flag(f1, Flags::N, false);
    let f3 = spec_with_flag(f2, Flags::H, false);
    let f4 = spec_with_flag(f3, Flags::C, lsb);
    CpuV { f: f4, ..c1 }
}

/// SWAP of the two nibbles: Z follows the result, N=H=C=0.
pub open spec fn spec_swap_bits(c: CpuV, r: Regs) -> CpuV {
    let rd = spec_get_r8(c, r);
    let val = rd.1;
    let res = ((val & 0xF) << 4) | ((val & 0xF0) >> 4);
    let c1 = spec_set_r8(rd.0, r, res);
    let f1 = spec_with_flag(c1.f, Flags::Z, res == 0);
    let f2 = spec_with_flag(f1, Flags::N, false);
    let f3 = spec_with_flag(f2, Flags::H, false);
    let f4 = spec_with_flag(f3, Flags::C, false);
    CpuV { f: f4, ..c1 }
}

/// BIT: Z is the complement of the tested bit, N=0, H=1, C untouched.
pub open spec fn spec_test_bit(c: CpuV, r: Regs, bit: u8) -> CpuV {
    let rd = spec_get_r8(c, r);
    let val = spec_bit8(rd.1, bit);
    let f1 = spec_with_flag(rd.0.f, Flags::Z, !val);
    let f2 = spec_with_flag(f1, Flags::N, false);
    let f3 = spec_with_flag(f2, Flags::H, true);
    CpuV { f: f3, ..rd.0 }
}

/// RES/SET: one bit of the register name forced, flags untouched.
pub open spec fn spec_write_bit(c: CpuV, r: Regs, bit: u8, set: bool) -> CpuV {
    let rd = spec_get_r8(c, r);
    spec_set_r8(rd.0, r, spec_set_bit8(rd.1, bit, set))
}

/// One interrupt source raised or cleared in the IF register.
pub open spec fn spec_enable_irq_type(c: CpuV, irq: Interrupts, enabled: bool) -> CpuV {
    let rd = spec_cpu_read(c, IF);
    spec_cpu_write(rd.0, IF, spec_set_bit8(rd.1, spec_irq_bit(irq), enabled))
}

/// The highest-priority pending interrupt, if the CPU would notice one: a
/// bit set in both IF and IE, considered only when the master enable is on
/// or the CPU is halted.
pub open spec fn spec_check_irq(c: CpuV) -> Option<Interrupts> {
    if !c.irq_enabled && !c.halted {
        None
    } else {
        let if_reg = spec_bus_read(c.bus, IF);
        let ie_reg = spec_bus_read(c.bus, IE);
        let flags = if_reg & ie_reg;
        if spec_bit8(flags, 0) {
            Some(Interrupts::Vblank)
        } else if spec_bit8(flags, 1) {
            Some(Interrupts::Stat)
        } else if spec_bit8(flags, 2) {
            Some(Interrupts::Timer)
        } else if spec_bit8(flags, 3) {
            Some(Interrupts::Serial)
        } else if spec_bit8(flags, 4) {
            Some(Interrupts::Joypad)
        } else {
            None
        }
    }
}

/// Servicing an interrupt: a pending interrupt always wakes the CPU from
/// HALT; it is taken only when the master enable is on, in which case the
/// enable clears, PC is pushed and loaded with the vector, and the source's
/// IF bit clears.  The check-marks of `spec_check_irq` apply to the state
/// this receives.
pub open spec fn spec_trigger_irq(c: CpuV, irq: Interrupts) -> CpuV {
    let c1 = CpuV { halted: false, ..c };
    if c.irq_enabled {
        let c2 = CpuV { irq_enabled: false, ..c1 };
        let c3 = spec_push(c2, c2.pc);
        let c4 = CpuV { pc: spec_vector(irq), ..c3 };
        spec_enable_irq_type(c4, irq, false)
    } else {
        c1
    }
}

impl Cpu {
    /// Read one byte through the bus, tracing the address.
    pub fn read_ram(&mut self, addr: u16) -> (r: u8)
        requires
            old(self)@.wf(),
        ensures
            final(self)@.wf(),
            (final(self)@, r) == spec_cpu_read(old(self)@, addr),
    {
        self.last_read = Some(addr);
        let r = self.bus.read_ram(addr);
        proof {
            assert(self@ =~= spec_cpu_read(old(self)@, addr).0);
        }
        r
    }

    /// Write one byte through the bus, tracing the address and latching the
    /// dirty-battery flag on a write into the external-RAM window.
    pub fn write_ram(&mut self, addr: u16, val: u8)
        requires
            old(self)@.wf(),
        ensures
            final(self)@.wf(),
            final(self)@ == spec_cpu_write(old(self)@, addr, val),
    {
        self.last_write = Some(addr);
        let battery_write = self.bus.write_ram(addr, val);
        self.dirty_battery = self.dirty_battery || battery_write;
        proof {
            assert(self@ =~= spec_cpu_write(old(self)@, addr, val));
        }
    }

    /// Fetch the byte at PC and advance PC.
    pub fn fetch(&mut self) -> (r: u8)
        requires
            old(self)@.wf(),
        ensures
            final(self)@.wf(),
            (final(self)@, r) == spec_fetch(old(self)@),
    {
        let val = self.read_ram(self.pc);
        self.pc = wrap_add16(self.pc, 1);
        proof {
            assert(self@ =~= spec_fetch(old(self)@).0);
        }
        val
    }

    /// Fetch a little-endian 16-bit immediate at PC.
    pub fn fetch_u16(&mut self) -> (r: u16)
        requires
            old(self)@.wf(),
        ensures
            final(self)@.wf(),
            (final(self)@, r) == spec_fetch_u16(old(self)@),
    {
        let low = self.fetch();
        let high = self.fetch();
        merge_bytes(high, low)
    }

    pub fn get_flag(&self, f: Flags) -> (r: bool)
        ensures
            r == self@.flag(f),
    {
        match f {
            Flags::Z => (self.f & 0b1000_0000) != 0,
            Flags::N => (self.f & 0b0100_0000) != 0,
            Flags::H => (self.f & 0b0010_0000) != 0,
            Flags::C => (self.f & 0b0001_0000) != 0,
        }
    }

    pub fn set_flag(&mut self, f: Flags, val: bool)
        ensures
            *final(self) == (Cpu { f: spec_with_flag(old(self).f, f, val), ..*old(self) }),
            final(self)@ == (CpuV { f: spec_with_flag(old(self)@.f, f, val), ..old(self)@ }),
            old(self)@.wf() ==> final(self)@.wf(),
    {
        proof {
            lemma_flag_nibble(self.f);
        }
        if val {
            match f {
                Flags::Z => self.f = self.f | 0b1000_0000,
                Flags::N => self.f = self.f | 0b0100_0000,
                Flags::H => self.f = self.f | 0b0010_0000,
                Flags::C => self.f = self.f | 0b0001_0000,
            }
        } else {
            match f {
                Flags::Z => self.f = self.f & 0b0111_0000,
                Flags::N => self.f = self.f & 0b1011_0000,
                Flags::H => self.f = self.f & 0b1101_0000,
                Flags::C => self.f = self.f & 0b1110_0000,
            }
        }
        proof {
            assert(self@ =~= (CpuV { f: spec_with_flag(old(self)@.f, f, val), ..old(self)@ }));
        }
    }

    pub fn get_pc(&self) -> (r: u16)
        ensures
            r == self@.pc,
    {
        self.pc
    }

    pub fn set_pc(&mut self, val: u16)
        ensures
            final(self)@ == (CpuV { pc: val, ..old(self)@ }),
            old(self)@.wf() ==> final(self)@.wf(),
    {
        self.pc = val;
        proof {
            assert(self@ =~= (CpuV { pc: val, ..old(self)@ }));
        }
    }

    /// Read a register name; `(HL)` reads memory.
    pub fn get_r8(&mut self, r: Regs) -> (v: u8)
        requires
            old(self)@.wf(),
        ensures
            final(self)@.wf(),
            (final(self)@, v) == spec_get_r8(old(self)@, r),
    {
        let v = match r {
            Regs::A => self.a,
            Regs::B => self.b,
            Regs::C => self.c,
            Regs::D => self.d,
            Regs::E => self.e,
            Regs::F => self.f,
            Regs::H => self.h,
            Regs::L => self.l,
            Regs::HL => {
                let addr = self.get_r16(Regs16::HL);
                self.read_ram(addr)
            },
        };
        proof {
            assert(self@ =~= spec_get_r8(old(self)@, r).0);
        }
        v
    }

    /// Write a register name; F keeps only its high nibble, `(HL)` writes
    /// memory.
    pub fn set_r8(&mut self, r: Regs, val: u8)
        requires
            old(self)@.wf(),
        ensures
            final(self)@.wf(),
            final(self)@ == spec_set_r8(old(self)@, r, val),
    {
        match r {
            Regs::A => self.a = val,
            Regs::B => self.b = val,
            Regs::C => self.c = val,
            Regs::D => self.d = val,
            Regs::E => self.e = val,
            Regs::F => {
                proof {
                    assert((val & 0xF0) & 0x0F == 0) by (bit_vector);
                }
                self.f = val & 0xF0;
            },
            Regs::H => self.h = val,
            Regs::L => self.l = val,
            Regs::HL => {
                let addr = self.get_r16(Regs16::HL);
                self.write_ram(addr, val);
            },
        }
        proof {
            assert(self@ =~= spec_set_r8(old(self)@, r, val));
        }
    }

    /// Read a register pair.
    pub fn get_r16(&self, r: Regs16) -> (v: u16)
        ensures
            v == spec_get_r16(self@, r),
    {
        match r {
            Regs16::AF => merge_bytes(self.a, self.f),
            Regs16::BC => merge_bytes(self.b, self.c),
            Regs16::DE => merge_bytes(self.d, self.e),
            Regs16::HL => merge_bytes(self.h, self.l),
            Regs16::SP => self.sp,
        }
    }

    /// Write a register pair; through AF the low nibble of F stays zero.
    pub fn set_r16(&mut self, r: Regs16, val: u16)
        requires
            old(self)@.wf(),
        ensures
            final(self)@.wf(),
            final(self)@ == spec_set_r16(old(self)@, r, val),
    {
        let high = high_byte(val);
        let low = low_byte(val);
        match r {
            Regs16::AF => {
                self.set_r8(Regs::A, high);
                self.set_r8(Regs::F, low);
            },
            Regs16::BC => {
                self.set_r8(Regs::B, high);
                self.set_r8(Regs::C, low);
            },
            Regs16::DE => {
                self.set_r8(Regs::D, high);
                self.set_r8(Regs::E, low);
            },
            Regs16::HL => {
                self.set_r8(Regs::H, high);
                self.set_r8(Regs::L, low);
            },
            Regs16::SP => {
                self.sp = val;
            },
        }
        proof {
            assert(self@ =~= spec_set_r16(old(self)@, r, val));
        }
    }

    /// Push a word: SP retreats by two, then the high byte is written first,
    /// above the low byte.
    pub fn push(&mut self, val: u16)
        requires
            old(self)@.wf(),
        ensures
            final(self)@.wf(),
            final(self)@ == spec_push(old(self)@, val),
    {
        self.sp = wrap_sub16(self.sp, 2);
        let sp = self.sp;
        self.write_ram(wrap_add16(sp, 1), high_byte(val));
        self.write_ram(sp, low_byte(val));
        proof {
            assert(self@ =~= spec_push(old(self)@, val));
        }
    }

    /// Pop a word: low byte from SP, high from above it, SP advances by two.
    /// SP wraps rather than trapping when the stack region is exhausted.
    pub fn pop(&mut self) -> (r: u16)
        requires
            old(self)@.wf(),
        ensures
            final(self)@.wf(),
            (final(self)@, r) == spec_pop(old(self)@),
    {
        let low = self.read_ram(self.sp);
        let high = self.read_ram(wrap_add16(self.sp, 1));
        self.sp = wrap_add16(self.sp, 2);
        let r = merge_bytes(high, low);
        proof {
            assert(self@ =~= spec_pop(old(self)@).0);
        }
        r
    }

    /// ADD or (with `adc`) ADC into A, with the two-stage carry rule.
    pub fn add_a_u8(&mut self, val: u8, adc: bool)
        requires
            old(self)@.wf(),
        ensures
            final(self)@.wf(),
            final(self)@ == spec_add_a(old(self)@, val, adc),
    {
        let mut carry: u8 = 0;
        if adc && self.get_flag(Flags::C) {
            carry = 1;
        }
        let a = self.a;
        let sum1: u16 = a as u16 + val as u16;
        let result1: u8 = if sum1 > 255 {
            (sum1 - 256) as u8
        } else {
            sum1 as u8
        };
        let carry1 = sum1 > 255;
        let h_check1 = check_h_carry_u8(a, val);
        let sum2: u16 = result1 as u16 + carry as u16;
        let result2: u8 = if sum2 > 255 {
            (sum2 - 256) as u8
        } else {
            sum2 as u8
        };
        let carry2 = sum2 > 255;
        let h_check2 = check_h_carry_u8(result1, carry);
        let set_h = h_check1 || h_check2;
        let set_c = carry1 || carry2;

        self.set_flag(Flags::N, false);
        self.set_flag(Flags::C, set_c);
        self.set_flag(Flags::H, set_h);
        self.set_flag(Flags::Z, result2 == 0);
        self.set_r8(Regs::A, result2);
        proof {
            assert(self@ =~= spec_add_a(old(self)@, val, adc));
        }
    }

    /// SUB or (with `sbc`) SBC into A, with the two-stage borrow rule.
    pub fn sub_a_u8(&mut self, val: u8, sbc: bool)
        requires
            old(self)@.wf(),
        ensures
            final(self)@.wf(),
            final(self)@ == spec_sub_a(old(self)@, val, sbc),
    {
        let mut carry: u8 = 0;
        if sbc && self.get_flag(Flags::C) {
            carry = 1;
        }
        let a = self.a;
        let result1: u8 = if a >= val {
            a - val
        } else {
            ((a as u16 + 256 - val as u16) as u8)
        };
        let carry1 = a < val;
        let check_h1 = check_h_borrow_u8(a, val);
        let result2: u8 = if result1 >= carry {
            result1 - carry
        } else {
            ((result1 as u16 + 256 - carry as u16) as u8)
        };
        let carry2 = result1 < carry;
        let check_h2 = check_h_borrow_u8(result1, carry);
        let set_h = check_h1 || check_h2;

        self.set_flag(Flags::N, true);
        self.set_flag(Flags::Z, result2 == 0);
        self.set_flag(Flags::H, set_h);
        self.set_flag(Flags::C, carry1 || carry2);
        self.set_r8(Regs::A, result2);
        proof {
            assert(self@ =~= spec_sub_a(old(self)@, val, sbc));
        }
    }

    /// 16-bit ADD into a pair.
    pub fn add_r16(&mut self, dst_r: Regs16, src_r: Regs16)
        requires
            old(self)@.wf(),
        ensures
            final(self)@.wf(),
            final(self)@ == spec_add_r16(old(self)@, dst_r, src_r),
    {
        let dst = self.get_r16(dst_r);
        let src = self.get_r16(src_r);
        let res = wrap_add16(dst, src);
        let set_h = check_h_carry_u16(dst, src);
        let set_c = check_c_carry_u16(dst, src);

        self.set_r16(dst_r, res);
        self.set_flag(Flags::N, false);
        self.set_flag(Flags::H, set_h);
        self.set_flag(Flags::C, set_c);
        proof {
            assert(self@ =~= spec_add_r16(old(self)@, dst_r, src_r));
        }
    }

    pub fn and_a_u8(&mut self, val: u8)
        requires
            old(self)@.wf(),
        ensures
            final(self)@.wf(),
            final(self)@ == spec_and_a(old(self)@, val),
    {
        let a = self.a & val;
        self.set_flag(Flags::Z, a == 0);
        self.set_flag(Flags::N, false);
        self.set_flag(Flags::H, true);
        self.set_flag(Flags::C, false);
        self.set_r8(Regs::A, a);
        proof {
            assert(self@ =~= spec_and_a(old(self)@, val));
        }
    }

    pub fn or_a_u8(&mut self, val: u8)
        requires
            old(self)@.wf(),
        ensures
            final(self)@.wf(),
            final(self)@ == spec_or_a(old(self)@, val),
    {
        let a = self.a | val;
        self.set_flag(Flags::Z, a == 0);
        self.set_flag(Flags::N, false);
        self.set_flag(Flags::H, false);
        self.set_flag(Flags::C, false);
        self.set_r8(Regs::A, a);
        proof {
            assert(self@ =~= spec_or_a(old(self)@, val));
        }
    }

    pub fn xor_a_u8(&mut self, val: u8)
        requires
            old(self)@.wf(),
        ensures
            final(self)@.wf(),
            final(self)@ == spec_xor_a(old(self)@, val),
    {
        let a = self.a ^ val;
        self.set_flag(Flags::Z, a == 0);
        self.set_flag(Flags::N, false);
        self.set_flag(Flags::H, false);
        self.set_flag(Flags::C, false);
        self.set_r8(Regs::A, a);
        proof {
            assert(self@ =~= spec_xor_a(old(self)@, val));
        }
    }

    pub fn cp_a_u8(&mut self, val: u8)
        requires
            old(self)@.wf(),
        ensures
            final(self)@.wf(),
            final(self)@ == spec_cp_a(old(self)@, val),
    {
        let a = self.a;
        let set_h = check_h_borrow_u8(a, val);
        self.set_flag(Flags::Z, a == val);
        self.set_flag(Flags::N, true);
        self.set_flag(Flags::H, set_h);
        self.set_flag(Flags::C, a < val);
        proof {
            assert(self@ =~= spec_cp_a(old(self)@, val));
        }
    }

    pub fn inc_r8(&mut self, r: Regs)
        requires
            old(self)@.wf(),
        ensures
            final(self)@.wf(),
            final(self)@ == spec_inc_r8(old(self)@, r),
    {
        let val = self.get_r8(r);
        let inc: u8 = if val == 255 {
            0
        } else {
            val + 1
        };
        let set_h = check_h_carry_u8(val, 1);
        self.set_r8(r, inc);
        self.set_flag(Flags::Z, inc == 0);
        self.set_flag(Flags::N, false);
        self.set_flag(Flags::H, set_h);
        proof {
            assert(self@ =~= spec_inc_r8(old(self)@, r));
        }
    }

    pub fn dec_r8(&mut self, r: Regs)
        requires
            old(self)@.wf(),
        ensures
            final(self)@.wf(),
            final(self)@ == spec_dec_r8(old(self)@, r),
    {
        let val = self.get_r8(r);
        let dec: u8 = if val == 0 {
            255
        } else {
            val - 1
        };
        let set_h = check_h_borrow_u8(val, 1);
        self.set_r8(r, dec);
        self.set_flag(Flags::Z, dec == 0);
        self.set_flag(Flags::N, true);
        self.set_flag(Flags::H, set_h);
        proof {
            assert(self@ =~= spec_dec_r8(old(self)@, r));
        }
    }

    pub fn inc_r16(&mut self, r: Regs16)
        requires
            old(self)@.wf(),
        ensures
            final(self)@.wf(),
            final(self)@ == spec_inc_r16(old(self)@, r),
    {
        let val = self.get_r16(r);
        self.set_r16(r, wrap_add16(val, 1));
    }

    pub fn dec_r16(&mut self, r: Regs16)
        requires
            old(self)@.wf(),
        ensures
            final(self)@.wf(),
            final(self)@ == spec_dec_r16(old(self)@, r),
    {
        let val = self.get_r16(r);
        self.set_r16(r, wrap_sub16(val, 1));
    }

    pub fn rotate_left(&mut self, reg: Regs, carry: bool)
        requires
            old(self)@.wf(),
        ensures
            final(self)@.wf(),
            final(self)@ == spec_rotate_left(old(self)@, reg, carry),
    {
        let val = self.get_r8(reg);
        let msb = get_bit8(val, 7);
        let mut new = (val << 1) | (val >> 7);
        if carry {
            new = set_bit8(new, 0, self.get_flag(Flags::C));
        }
        self.set_r8(reg, new);
        self.set_flag(Flags::Z, new == 0);
        self.set_flag(Flags::N, false);
        self.set_flag(Flags::H, false);
        self.set_flag(Flags::C, msb);
        proof {
            assert(self@ =~= spec_rotate_left(old(self)@, reg, carry));
        }
    }

    pub fn rotate_right(&mut self, reg: Regs, carry: bool)
        requires
            old(self)@.wf(),
        ensures
            final(self)@.wf(),
            final(self)@ == spec_rotate_right(old(self)@, reg, carry),
    {
        let val = self.get_r8(reg);
        let lsb = get_bit8(val, 0);
        let mut new = (val >> 1) | (val << 7);
        if carry {
            new = set_bit8(new, 7, self.get_flag(Flags::C));
        }
        self.set_r8(reg, new);
        self.set_flag(Flags::Z, new == 0);
        self.set_flag(Flags::N, false);
        self.set_flag(Flags::H, false);
        self.set_flag(Flags::C, lsb);
        proof {
            assert(self@ =~= spec_rotate_right(old(self)@, reg, carry));
        }
    }

    pub fn shift_left(&mut self, reg: Regs)
        requires
            old(self)@.wf(),
        ensures
            final(self)@.wf(),
            final(self)@ == spec_shift_left(old(self)@, reg),
    {
        let val = self.get_r8(reg);
        let msb = get_bit8(val, 7);
        let res = val << 1;
        self.set_r8(reg, res);
        self.set_flag(Flags::Z, res == 0);
        self.set_flag(Flags::N, false);
        self.set_flag(Flags::H, false);
        self.set_flag(Flags::C, msb);
        proof {
            assert(self@ =~= spec_shift_left(old(self)@, reg));
        }
    }

    pub fn shift_right(&mut self, reg: Regs, arith: bool)
        requires
            old(self)@.wf(),
        ensures
            final(self)@.wf(),
            final(self)@ == spec_shift_right(old(self)@, reg, arith),
    {
        let val = self.get_r8(reg);
        let lsb = get_bit8(val, 0);
        let msb = get_bit8(val, 7);
        let mut res = val >> 1;
        if arith {
            res = set_bit8(res, 7, msb);
        }
        self.set_r8(reg, res);
        self.set_flag(Flags::Z, res == 0);
        self.set_flag(Flags::N, false);
        self.set_flag(Flags::H, false);
        self.set_flag(Flags::C, lsb);
        proof {
            assert(self@ =~= spec_shift_right(old(self)@, reg, arith));
        }
    }

    pub fn swap_bits(&mut self, reg: Regs)
        requires
            old(self)@.wf(),
        ensures
            final(self)@.wf(),
            final(self)@ == spec_swap_bits(old(self)@, reg),
    {
        let val = self.get_r8(reg);
        let res = ((val & 0xF) << 4) | ((val & 0xF0) >> 4);
        self.set_r8(reg, res);
        self.set_flag(Flags::Z, res == 0);
        self.set_flag(Flags::N, false);
        self.set_flag(Flags::H, false);
        self.set_flag(Flags::C, false);
        proof {
            assert(self@ =~= spec_swap_bits(old(self)@, reg));
        }
    }

    pub fn test_bit(&mut self, reg: Regs, bit: u8)
        requires
            old(self)@.wf(),
            bit < 8,
        ensures
            final(self)@.wf(),
            final(self)@ == spec_test_bit(old(self)@, reg, bit),
    {
        let byte = self.get_r8(reg);
        let val = get_bit8(byte, bit);
        self.set_flag(Flags::Z, !val);
        self.set_flag(Flags::N, false);
        self.set_flag(Flags::H, true);
        proof {
            assert(self@ =~= spec_test_bit(old(self)@, reg, bit));
        }
    }

    pub fn write_bit(&mut self, reg: Regs, bit: u8, set: bool)
        requires
            old(self)@.wf(),
            bit < 8,
        ensures
            final(self)@.wf(),
            final(self)@ == spec_write_bit(old(self)@, reg, bit, set),
    {
        let byte = self.get_r8(reg);
        let new = set_bit8(byte, bit, set);
        self.set_r8(reg, new);
        proof {
            assert(self@ =~= spec_write_bit(old(self)@, reg, bit, set));
        }
    }

    pub fn set_halted(&mut self, halted: bool)
        ensures
            final(self)@ == (CpuV { halted, ..old(self)@ }),
            old(self)@.wf() ==> final(self)@.wf(),
    {
        self.halted = halted;
        proof {
            assert(self@ =~= (CpuV { halted, ..old(self)@ }));
        }
    }

    pub fn set_irq(&mut self, enabled: bool)
        ensures
            final(self)@ == (CpuV { irq_enabled: enabled, ..old(self)@ }),
            old(self)@.wf() ==> final(self)@.wf(),
    {
        self.irq_enabled = enabled;
        proof {
            assert(self@ =~= (CpuV { irq_enabled: enabled, ..old(self)@ }));
        }
    }

    /// Raise or clear one interrupt source in the IF register.
    pub fn enable_irq_type(&mut self, irq: Interrupts, enabled: bool)
        requires
            old(self)@.wf(),
        ensures
            final(self)@.wf(),
            final(self)@ == spec_enable_irq_type(old(self)@, irq, enabled),
    {
        let mut if_reg = self.read_ram(IF);
        let bit: u8 = match irq {
            Interrupts::Vblank => 0,
            Interrupts::Stat => 1,
            Interrupts::Timer => 2,
            Interrupts::Serial => 3,
            Interrupts::Joypad => 4,
        };
        if_reg = set_bit8(if_reg, bit, enabled);
        self.write_ram(IF, if_reg);
        proof {
            assert(self@ =~= spec_enable_irq_type(old(self)@, irq, enabled));
        }
    }

    /// The highest-priority pending interrupt the CPU would notice.
    fn check_irq(&mut self) -> (r: Option<Interrupts>)
        requires
            old(self)@.wf(),
        ensures
            final(self)@ == old(self)@,
            r == spec_check_irq(old(self)@),
    {
        if !self.irq_enabled && !self.halted {
            return None;
        }
        let if_reg = self.bus.read_ram(IF);
        let ie_reg = self.bus.read_ram(IE);
        let irq_flags = if_reg & ie_reg;
        if get_bit8(irq_flags, 0) {
            Some(Interrupts::Vblank)
        } else if get_bit8(irq_flags, 1) {
            Some(Interrupts::Stat)
        } else if get_bit8(irq_flags, 2) {
            Some(Interrupts::Timer)
        } else if get_bit8(irq_flags, 3) {
            Some(Interrupts::Serial)
        } else if get_bit8(irq_flags, 4) {
            Some(Interrupts::Joypad)
        } else {
            None
        }
    }

    /// Service a pending interrupt (see `spec_trigger_irq`).
    fn trigger_irq(&mut self, irq: Interrupts)
        requires
            old(self)@.wf(),
        ensures
            final(self)@.wf(),
            final(self)@ == spec_trigger_irq(old(self)@, irq),
    {
        // A pending interrupt always wakes the CPU from HALT, even with the
        // master enable off.
        self.halted = false;
        if self.irq_enabled {
            self.irq_enabled = false;
            let vector = irq.get_vector();
            let pc = self.pc;
            self.push(pc);
            self.set_pc(vector);
            self.enable_irq_type(irq, false);
        }
        proof {
            assert(self@ =~= spec_trigger_irq(old(self)@, irq));
        }
    }
}

} // verus!

verus! {

/// The machine at power-on: the fixed post-boot register values over a fresh
/// bus, followed by the fixed post-boot I/O and LCD register writes the boot
/// code leaves behind.
pub open spec fn spec_cpu_boot() -> CpuV {
    let c0 = CpuV {
        pc: 0x0100,
        sp: 0xFFFE,
        a: 0x01,
        b: 0x00,
        c: 0x13,
        d: 0x00,
        e: 0xD8,
        f: 0xB0,
        h: 0x01,
        l: 0x4D,
        irq_enabled: false,
        halted: false,
        bus: spec_bus_boot(),
        last_read: None,
        last_write: None,
        dirty_battery: false,
    };
    let c1 = spec_cpu_write(c0, 0xFF10, 0x80);
    let c2 = spec_cpu_write(c1, 0xFF11, 0xBF);
    let c3 = spec_cpu_write(c2, 0xFF12, 0xF3);
    let c4 = spec_cpu_write(c3, 0xFF14, 0xBF);
    let c5 = spec_cpu_write(c4, 0xFF16, 0x3F);
    let c6 = spec_cpu_write(c5, 0xFF19, 0xBF);
    let c7 = spec_cpu_write(c6, 0xFF1A, 0x7F);
    let c8 = spec_cpu_write(c7, 0xFF1B, 0xFF);
    let c9 = spec_cpu_write(c8, 0xFF1C, 0x9F);
    let c10 = spec_cpu_write(c9, 0xFF1E, 0xBF);
    let c11 = spec_cpu_write(c10, 0xFF20, 0xFF);
    let c12 = spec_cpu_write(c11, 0xFF23, 0xBF);
    let c13 = spec_cpu_write(c12, 0xFF24, 0x77);
    let c14 = spec_cpu_write(c13, 0xFF25, 0xF3);
    let c15 = spec_cpu_write(c14, 0xFF26, 0xF1);
    let c16 = spec_cpu_write(c15, 0xFF40, 0x91);
    let c17 = spec_cpu_write(c16, 0xFF47, 0xFC);
    let c18 = spec_cpu_write(c17, 0xFF48, 0xFF);
    spec_cpu_write(c18, 0xFF49, 0xFF)
}

/// One tick of the whole machine: clear the read/write traces, execute one
/// instruction (one idle cycle while halted), drive the pixel unit by the
/// consumed cycles (rendering a scanline on its verdict and raising the
/// STAT/VBLANK interrupts it reports), drive the timer likewise, then
/// service one pending interrupt.  The flag is true when a frame finished;
/// the result is nothing when the CPU fetched an unassigned opcode.
pub open spec fn spec_tick(c: CpuV) -> Option<(CpuV, bool)> {
    let c0 = CpuV { last_read: None, last_write: None, ..c };
    let step = if c.halted {
        Some((c0, 1u8))
    } else {
        crate::opcodes::spec_execute(c0)
    };
    match step {
        None => None,
        Some(p) => Some(spec_tick_peripherals(p.0, p.1)),
    }
}

/// The peripheral phase of a tick: the pixel unit consumes the cycles (its
/// verdict renders a scanline and raises the STAT/VBLANK interrupts), the
/// timer consumes them too, and one pending interrupt is serviced.  The
/// flag is true when the frame just finished.
#[verifier::opaque]
pub open spec fn spec_tick_peripherals(c1: CpuV, cycles: u8) -> (CpuV, bool) {
    let pu = spec_ppu_update(c1.bus.ppu, cycles);
    let c2 = CpuV { bus: BusV { ppu: pu.0, ..c1.bus }, ..c1 };
    let c3 = if pu.1.irq {
        spec_enable_irq_type(c2, Interrupts::Stat, true)
    } else {
        c2
    };
    let c4 = if pu.1.lcd_result == LcdResults::RenderFrame {
        let cr = CpuV { bus: BusV { ppu: spec_render_scanline(c3.bus.ppu), ..c3.bus }, ..c3 };
        spec_enable_irq_type(cr, Interrupts::Vblank, true)
    } else if pu.1.lcd_result == LcdResults::RenderLine {
        CpuV { bus: BusV { ppu: spec_render_scanline(c3.bus.ppu), ..c3.bus }, ..c3 }
    } else {
        c3
    };
    let draw = pu.1.lcd_result == LcdResults::RenderFrame;
    let ts = crate::timer::spec_timer_steps(c4.bus.io.timer, 4 * cycles as int);
    let c5 = CpuV { bus: BusV { io: IoV { timer: ts.0, ..c4.bus.io }, ..c4.bus }, ..c4 };
    let c6 = if ts.1 {
        spec_enable_irq_type(c5, Interrupts::Timer, true)
    } else {
        c5
    };
    let c7 = match spec_check_irq(c6) {
        Some(irq) => spec_trigger_irq(c6, irq),
        None => c6,
    };
    (c7, draw)
}

impl Cpu {
    /// A machine with the fixed post-boot register and I/O state.
    pub fn new() -> (cpu: Cpu)
        ensures
            cpu@ == spec_cpu_boot(),
            cpu@.wf(),
    {
        let mut cpu = Cpu {
            pc: 0x0100,
            sp: 0xFFFE,
            a: 0x01,
            b: 0x00,
            c: 0x13,
            d: 0x00,
            e: 0xD8,
            f: 0xB0,
            h: 0x01,
            l: 0x4D,
            irq_enabled: false,
            halted: false,
            bus: Bus::new(),
            last_read: None,
            last_write: None,
            dirty_battery: false,
        };
        proof {
            assert(0xB0u8 & 0x0F == 0) by (bit_vector);
            assert(cpu@ =~= (CpuV {
                pc: 0x0100,
                sp: 0xFFFE,
                a: 0x01,
                b: 0x00,
                c: 0x13,
                d: 0x00,
                e: 0xD8,
                f: 0xB0,
                h: 0x01,
                l: 0x4D,
                irq_enabled: false,
                halted: false,
                bus: spec_bus_boot(),
                last_read: None,
                last_write: None,
                dirty_battery: false,
            }));
        }
        cpu.write_ram(0xFF10, 0x80);
        cpu.write_ram(0xFF11, 0xBF);
        cpu.write_ram(0xFF12, 0xF3);
        cpu.write_ram(0xFF14, 0xBF);
        cpu.write_ram(0xFF16, 0x3F);
        cpu.write_ram(0xFF19, 0xBF);
        cpu.write_ram(0xFF1A, 0x7F);
        cpu.write_ram(0xFF1B, 0xFF);
        cpu.write_ram(0xFF1C, 0x9F);
        cpu.write_ram(0xFF1E, 0xBF);
        cpu.write_ram(0xFF20, 0xFF);
        cpu.write_ram(0xFF23, 0xBF);
        cpu.write_ram(0xFF24, 0x77);
        cpu.write_ram(0xFF25, 0xF3);
        cpu.write_ram(0xFF26, 0xF1);
        cpu.write_ram(0xFF40, 0x91);
        cpu.write_ram(0xFF47, 0xFC);
        cpu.write_ram(0xFF48, 0xFF);
        cpu.write_ram(0xFF49, 0xFF);
        cpu
    }

    /// Run the machine for one instruction (see `spec_tick`); true when a
    /// frame just finished, or the fatal invalid-opcode error with the
    /// address the opcode was fetched from.  After a successful tick the
    /// machine invariant holds again: in particular the low nibble of F is
    /// still zero.
    pub fn tick(&mut self) -> (r: Result<bool, EmuError>)
        requires
            old(self)@.wf(),
        ensures
            final(self)@.wf(),
            final(self)@.f & 0x0F == 0,
            spec_tick(old(self)@) matches Some(p) ==> r == Ok::<bool, EmuError>(p.1)
                && final(self)@ == p.0,
            spec_tick(old(self)@) is None ==> r == Err::<bool, EmuError>(
                EmuError::InvalidOpcode(old(self)@.pc),
            ) && final(self)@ == spec_fetch(
                CpuV { last_read: None, last_write: None, ..old(self)@ },
            ).0,
    {
        self.last_read = None;
        self.last_write = None;
        proof {
            assert(self@ =~= (CpuV { last_read: None, last_write: None, ..old(self)@ }));
        }
        let cycles: u8 = if self.halted {
            1
        } else {
            match crate::opcodes::execute(self) {
                Ok(cycles) => cycles,
                Err(e) => {
                    return Err(e);
                },
            }
        };
        let draw_time = self.tick_peripherals(cycles);
        Ok(draw_time)
    }

    /// Drive the pixel unit and timer by the consumed cycles and service one
    /// pending interrupt (see `spec_tick_peripherals`).
    #[verifier::rlimit(100)]
    #[verifier::spinoff_prover]
    fn tick_peripherals(&mut self, cycles: u8) -> (draw: bool)
        requires
            old(self)@.wf(),
        ensures
            final(self)@.wf(),
            (final(self)@, draw) == spec_tick_peripherals(old(self)@, cycles),
    {
        proof {
            reveal(spec_tick_peripherals);
        }
        let mut draw_time = false;
        let ghost c1 = self@;
        let ppu_result = self.bus.update_ppu(cycles);
        proof {
            assert(self@ =~= (CpuV {
                bus: BusV { ppu: spec_ppu_update(c1.bus.ppu, cycles).0, ..c1.bus },
                ..c1
            }));
        }
        if ppu_result.irq {
            self.enable_irq_type(Interrupts::Stat, true);
        }
        let ghost c3 = self@;
        match ppu_result.lcd_result {
            LcdResults::RenderFrame => {
                // The final visible scanline is rendered as the vertical
                // blank begins.
                self.bus.render_scanline();
                proof {
                    assert(self@ =~= (CpuV {
                        bus: BusV { ppu: spec_render_scanline(c3.bus.ppu), ..c3.bus },
                        ..c3
                    }));
                }
                self.enable_irq_type(Interrupts::Vblank, true);
                draw_time = true;
            },
            LcdResults::RenderLine => {
                self.bus.render_scanline();
                proof {
                    assert(self@ =~= (CpuV {
                        bus: BusV { ppu: spec_render_scanline(c3.bus.ppu), ..c3.bus },
                        ..c3
                    }));
                }
            },
            LcdResults::NoAction => {},
        }
        let ghost c4 = self@;
        let timer_irq = self.bus.update_timer(cycles);
        proof {
            assert(self@ =~= (CpuV {
                bus: BusV {
                    io: IoV {
                        timer: crate::timer::spec_timer_steps(c4.bus.io.timer, 4 * cycles as int).0,
                        ..c4.bus.io
                    },
                    ..c4.bus
                },
                ..c4
            }));
        }
        if timer_irq {
            self.enable_irq_type(Interrupts::Timer, true);
        }
        if let Some(irq) = self.check_irq() {
            self.trigger_irq(irq);
        }
        draw_time
    }

    /// The address of the previous tick's last memory read, if any.
    pub fn get_read(&self) -> (r: Option<u16>)
        ensures
            r == self@.last_read,
    {
        self.last_read
    }

    /// The address of the previous tick's last memory write, if any.
    pub fn get_write(&self) -> (r: Option<u16>)
        ensures
            r == self@.last_write,
    {
        self.last_write
    }

    /// Load a cartridge image; a header naming an unimplemented mapper is
    /// rejected and the machine is unchanged.
    pub fn load_rom(&mut self, rom: &[u8]) -> (r: Result<(), CartError>)
        requires
            rom@.len() >= HEADER_SIZE,
            old(self)@.wf(),
        ensures
            final(self)@.wf(),
            crate::cart::spec_mbc_of(rom@[crate::cart::CART_TYPE_ADDR as int])
                == crate::cart::MBC::INV ==> r == Err::<(), CartError>(
                CartError::UnsupportedMapper,
            ) && final(self)@ == old(self)@,
            crate::cart::spec_mbc_of(rom@[crate::cart::CART_TYPE_ADDR as int])
                != crate::cart::MBC::INV ==> r is Ok && final(self)@ == (CpuV {
                bus: BusV {
                    cart: (CartV {
                        rom: rom@,
                        mbc: crate::cart::spec_mbc_of(rom@[crate::cart::CART_TYPE_ADDR as int]),
                        ram: Seq::new(crate::cart::spec_ram_len(rom@) as nat, |i: int| 0u8),
                        ..old(self)@.bus.cart
                    }),
                    ..old(self)@.bus
                },
                ..old(self)@
            }),
    {
        let r = self.bus.load_rom(rom);
        proof {
            if crate::cart::spec_mbc_of(rom@[crate::cart::CART_TYPE_ADDR as int])
                == crate::cart::MBC::INV {
                assert(self@ =~= old(self)@);
            } else {
                assert(self@ =~= (CpuV {
                    bus: BusV {
                        cart: (CartV {
                            rom: rom@,
                            mbc: crate::cart::spec_mbc_of(
                                rom@[crate::cart::CART_TYPE_ADDR as int],
                            ),
                            ram: Seq::new(crate::cart::spec_ram_len(rom@) as nat, |i: int| 0u8),
                            ..old(self)@.bus.cart
                        }),
                        ..old(self)@.bus
                    },
                    ..old(self)@
                }));
            }
        }
        r
    }

    /// Record a button going down or up; any press also raises the joypad
    /// interrupt.
    pub fn press_button(&mut self, button: Buttons, pressed: bool)
        requires
            old(self)@.wf(),
        ensures
            final(self)@.wf(),
            final(self)@ == spec_enable_irq_type(
                CpuV {
                    bus: BusV {
                        io: (IoV {
                            buttons: old(self)@.bus.io.buttons.update(
                                crate::io::spec_button_idx(button),
                                pressed,
                            ),
                            ..old(self)@.bus.io
                        }),
                        ..old(self)@.bus
                    },
                    ..old(self)@
                },
                Interrupts::Joypad,
                true,
            ),
    {
        self.bus.press_button(button, pressed);
        proof {
            assert(self@ =~= (CpuV {
                bus: BusV {
                    io: (IoV {
                        buttons: old(self)@.bus.io.buttons.update(
                            crate::io::spec_button_idx(button),
                            pressed,
                        ),
                        ..old(self)@.bus.io
                    }),
                    ..old(self)@.bus
                },
                ..old(self)@
            }));
        }
        self.enable_irq_type(Interrupts::Joypad, true);
    }

    /// The frame as RGBA bytes (160 x 144 pixels, 4 bytes each, row-major),
    /// or an all-zero buffer while the LCD is off.
    pub fn render(&self) -> (r: Vec<u8>)
        requires
            self@.wf(),
        ensures
            r@.len() == DISPLAY_BUFFER,
            crate::utils::spec_bit8(
                self@.bus.ppu.reg(crate::ppu::LCDC),
                crate::ppu::LCDC_LCD_ENABLED_BIT,
            ) ==> r@ == self@.bus.ppu.screen_buffer,
            !crate::utils::spec_bit8(
                self@.bus.ppu.reg(crate::ppu::LCDC),
                crate::ppu::LCDC_LCD_ENABLED_BIT,
            ) ==> r@ == Seq::new(DISPLAY_BUFFER as nat, |i: int| 0u8),
    {
        self.bus.render()
    }

    /// The game title from the loaded header.
    pub fn get_title(&self) -> (r: String)
        requires
            self@.bus.cart.wf(),
        ensures
            self@.bus.cart.rom.len() >= HEADER_SIZE ==> r@ == crate::cart::spec_title(
                self@.bus.cart.rom,
            ),
            self@.bus.cart.rom.len() < HEADER_SIZE ==> r@ == Seq::<char>::empty(),
    {
        self.bus.get_title()
    }

    pub fn has_battery(&self) -> (r: bool)
        requires
            self@.bus.cart.rom.len() >= HEADER_SIZE,
        ensures
            r == crate::cart::spec_has_battery(
                self@.bus.cart.rom[crate::cart::CART_TYPE_ADDR as int],
            ),
    {
        self.bus.has_battery()
    }

    /// Whether a write has hit the battery-backed external RAM since the
    /// last `clean_battery`.
    pub fn is_battery_dirty(&self) -> (r: bool)
        ensures
            r == self@.dirty_battery,
    {
        self.dirty_battery
    }

    pub fn clean_battery(&mut self)
        ensures
            final(self)@ == (CpuV { dirty_battery: false, ..old(self)@ }),
            old(self)@.wf() ==> final(self)@.wf(),
    {
        self.dirty_battery = false;
        proof {
            assert(self@ =~= (CpuV { dirty_battery: false, ..old(self)@ }));
        }
    }

    /// Borrow the external RAM for battery persistence.
    pub fn get_battery_data(&self) -> (r: &Vec<u8>)
        ensures
            r@ == self@.bus.cart.ram,
    {
        self.bus.get_battery_data()
    }

    /// Restore the external RAM from a battery blob; a blob of the wrong
    /// length is rejected and the machine is unchanged.
    pub fn set_battery_data(&mut self, data: &[u8]) -> (r: Result<(), CartError>)
        requires
            old(self)@.wf(),
        ensures
            final(self)@.wf(),
            data@.len() == old(self)@.bus.cart.ram.len() ==> r is Ok && final(self)@ == (CpuV {
                bus: BusV {
                    cart: (CartV { ram: data@, ..old(self)@.bus.cart }),
                    ..old(self)@.bus
                },
                ..old(self)@
            }),
            data@.len() != old(self)@.bus.cart.ram.len() ==> r == Err::<(), CartError>(
                CartError::BatteryBlobSizeMismatch,
            ) && final(self)@ == old(self)@,
    {
        let r = self.bus.set_battery_data(data);
        proof {
            if data@.len() == old(self)@.bus.cart.ram.len() {
                assert(self@ =~= (CpuV {
                    bus: BusV {
                        cart: (CartV { ram: data@, ..old(self)@.bus.cart }),
                        ..old(self)@.bus
                    },
                    ..old(self)@
                }));
            } else {
                assert(self@ =~= old(self)@);
            }
        }
        r
    }

    /// Inject the host's wall clock for the cartridge RTC, in seconds from
    /// any fixed epoch; the core never reads the system time itself.
    pub fn set_clock(&mut self, now: u64)
        ensures
            final(self)@ == (CpuV {
                bus: BusV {
                    cart: (CartV {
                        rtc: Rtc { now, ..old(self)@.bus.cart.rtc },
                        ..old(self)@.bus.cart
                    }),
                    ..old(self)@.bus
                },
                ..old(self)@
            }),
            old(self)@.wf() ==> final(self)@.wf(),
    {
        self.bus.set_clock(now);
        proof {
            assert(self@ =~= (CpuV {
                bus: BusV {
                    cart: (CartV {
                        rtc: Rtc { now, ..old(self)@.bus.cart.rtc },
                        ..old(self)@.bus.cart
                    }),
                    ..old(self)@.bus
                },
                ..old(self)@
            }));
        }
    }
}

} // verus!
