//! Opcode fetch, decode and execute.  The 256 primary opcodes fall into the
//! register-to-register load quarter (`$40-$7F`), the accumulator arithmetic
//! quarter (`$80-$BF`), and the two mixed quarters handled case by case; the
//! `$CB` prefix selects a second table of rotates, shifts and bit operations
//! whose encoding is algorithmic (operation from bits 3-5, operand register
//! from bits 0-2).  Every handler returns its cost in machine cycles.

use vstd::prelude::*;

use crate::cpu::{
    spec_add_a, spec_add_r16, spec_and_a, spec_cp_a, spec_cpu_read, spec_cpu_write, spec_dec_r16,
    spec_dec_r8, spec_fetch, spec_fetch_u16, spec_get_r16, spec_get_r8, spec_inc_r16, spec_inc_r8,
    spec_or_a, spec_pop, spec_push, spec_rotate_left, spec_rotate_right, spec_set_r16,
    spec_set_r8, spec_shift_left, spec_shift_right, spec_sub_a, spec_swap_bits, spec_test_bit,
    spec_with_flag, spec_wrap_add16, spec_write_bit, spec_xor_a, Cpu, CpuV, EmuError, Flags, Regs,
    Regs16,
};
use crate::utils::{
    check_c_carry_u8, check_h_carry_u8, low_byte, spec_c_carry_u8, spec_h_carry_u8, spec_low_byte,
    spec_merge_bytes,
};

verus! {

/// The operand register a table opcode's low three bits select, in the fixed
/// order B, C, D, E, H, L, (HL), A.
pub open spec fn spec_cb_reg(op: u8) -> Regs {
    let sel = op & 0b111;
    if sel == 0 {
        Regs::B
    } else if sel == 1 {
        Regs::C
    } else if sel == 2 {
        Regs::D
    } else if sel == 3 {
        Regs::E
    } else if sel == 4 {
        Regs::H
    } else if sel == 5 {
        Regs::L
    } else if sel == 6 {
        Regs::HL
    } else {
        Regs::A
    }
}

pub fn get_cb_reg(op: u8) -> (r: Regs)
    ensures
        r == spec_cb_reg(op),
{
    let sel = op & 0b111;
    if sel == 0 {
        Regs::B
    } else if sel == 1 {
        Regs::C
    } else if sel == 2 {
        Regs::D
    } else if sel == 3 {
        Regs::E
    } else if sel == 4 {
        Regs::H
    } else if sel == 5 {
        Regs::L
    } else if sel == 6 {
        Regs::HL
    } else {
        Regs::A
    }
}

/// One load of the `$40-$7F` quarter (HALT at `$76` excepted): the register
/// named by bits 3-5 takes the register named by bits 0-2; going through
/// (HL) costs an extra cycle.
pub open spec fn spec_exec_ld(c: CpuV, op: u8) -> (CpuV, u8) {
    let src = spec_cb_reg(op);
    let dst = spec_cb_reg(op >> 3);
    let rd = spec_get_r8(c, src);
    let cycles: u8 = if op & 0b111 == 6 || (op >> 3) & 0b111 == 6 {
        2u8
    } else {
        1u8
    };
    (spec_set_r8(rd.0, dst, rd.1), cycles)
}

/// One accumulator operation of the `$80-$BF` quarter: bits 3-5 select ADD,
/// ADC, SUB, SBC, AND, XOR, OR or CP, bits 0-2 the operand register.
pub open spec fn spec_exec_alu(c: CpuV, op: u8) -> (CpuV, u8) {
    let r = spec_cb_reg(op);
    let rd = spec_get_r8(c, r);
    let fam = (op >> 3) & 0b111;
    let cycles: u8 = if op & 0b111 == 6 {
        2u8
    } else {
        1u8
    };
    let c1 = if fam == 0 {
        spec_add_a(rd.0, rd.1, false)
    } else if fam == 1 {
        spec_add_a(rd.0, rd.1, true)
    } else if fam == 2 {
        spec_sub_a(rd.0, rd.1, false)
    } else if fam == 3 {
        spec_sub_a(rd.0, rd.1, true)
    } else if fam == 4 {
        spec_and_a(rd.0, rd.1)
    } else if fam == 5 {
        spec_xor_a(rd.0, rd.1)
    } else if fam == 6 {
        spec_or_a(rd.0, rd.1)
    } else {
        spec_cp_a(rd.0, rd.1)
    };
    (c1, cycles)
}

/// One opcode of the `$CB` table: rows 0-7 are RLC, RRC, RL, RR, SLA, SRA,
/// SWAP, SRL on the register bits 0-2 select; the top three quadrants are
/// BIT, RES and SET with the bit index in bits 3-5.
pub open spec fn spec_execute_cb(c: CpuV, op: u8) -> (CpuV, u8) {
    let r = spec_cb_reg(op);
    let bit = (op & 0b111000) >> 3;
    let c1 = if op < 0x08 {
        spec_rotate_left(c, r, false)
    } else if op < 0x10 {
        spec_rotate_right(c, r, false)
    } else if op < 0x18 {
        spec_rotate_left(c, r, true)
    } else if op < 0x20 {
        spec_rotate_right(c, r, true)
    } else if op < 0x28 {
        spec_shift_left(c, r)
    } else if op < 0x30 {
        spec_shift_right(c, r, true)
    } else if op < 0x38 {
        spec_swap_bits(c, r)
    } else if op < 0x40 {
        spec_shift_right(c, r, false)
    } else if op < 0x80 {
        spec_test_bit(c, r, bit)
    } else if op < 0xC0 {
        spec_write_bit(c, r, bit, false)
    } else {
        spec_write_bit(c, r, bit, true)
    };
    (c1, 2)
}

/// Execute one load of the `$40-$7F` quarter.
fn exec_ld(cpu: &mut Cpu, op: u8) -> (cycles: u8)
    requires
        old(cpu)@.wf(),
    ensures
        final(cpu)@.wf(),
        (final(cpu)@, cycles) == spec_exec_ld(old(cpu)@, op),
{
    let src = get_cb_reg(op);
    let dst = get_cb_reg(op >> 3);
    let val = cpu.get_r8(src);
    cpu.set_r8(dst, val);
    if op & 0b111 == 6 || (op >> 3) & 0b111 == 6 {
        2
    } else {
        1
    }
}

/// Execute one accumulator operation of the `$80-$BF` quarter.
fn exec_alu(cpu: &mut Cpu, op: u8) -> (cycles: u8)
    requires
        old(cpu)@.wf(),
    ensures
        final(cpu)@.wf(),
        (final(cpu)@, cycles) == spec_exec_alu(old(cpu)@, op),
{
    let r = get_cb_reg(op);
    let val = cpu.get_r8(r);
    let fam = (op >> 3) & 0b111;
    if fam == 0 {
        cpu.add_a_u8(val, false);
    } else if fam == 1 {
        cpu.add_a_u8(val, true);
    } else if fam == 2 {
        cpu.sub_a_u8(val, false);
    } else if fam == 3 {
        cpu.sub_a_u8(val, true);
    } else if fam == 4 {
        cpu.and_a_u8(val);
    } else if fam == 5 {
        cpu.xor_a_u8(val);
    } else if fam == 6 {
        cpu.or_a_u8(val);
    } else {
        cpu.cp_a_u8(val);
    }
    if op & 0b111 == 6 {
        2
    } else {
        1
    }
}

/// Execute one opcode of the `$CB` table.
pub fn execute_cb(cpu: &mut Cpu, op: u8) -> (cycles: u8)
    requires
        old(cpu)@.wf(),
    ensures
        final(cpu)@.wf(),
        (final(cpu)@, cycles) == spec_execute_cb(old(cpu)@, op),
{
    let cb_reg = get_cb_reg(op);
    let bit = (op & 0b111000) >> 3;
    proof {
        assert((op & 0b111000) >> 3 < 8) by (bit_vector);
    }
    if op < 0x08 {
        cpu.rotate_left(cb_reg, false);
    } else if op < 0x10 {
        cpu.rotate_right(cb_reg, false);
    } else if op < 0x18 {
        cpu.rotate_left(cb_reg, true);
    } else if op < 0x20 {
        cpu.rotate_right(cb_reg, true);
    } else if op < 0x28 {
        cpu.shift_left(cb_reg);
    } else if op < 0x30 {
        cpu.shift_right(cb_reg, true);
    } else if op < 0x38 {
        cpu.swap_bits(cb_reg);
    } else if op < 0x40 {
        cpu.shift_right(cb_reg, false);
    } else if op < 0x80 {
        cpu.test_bit(cb_reg, bit);
    } else if op < 0xC0 {
        cpu.write_bit(cb_reg, bit, false);
    } else {
        cpu.write_bit(cb_reg, bit, true);
    }
    2
}

} // verus!

verus! {

/// An 8-bit relative-jump offset, sign-extended to 16 bits.
pub open spec fn spec_sign_ext(b: u8) -> u16 {
    if b < 128 {
        b as u16
    } else {
        (b + 0xFF00) as u16
    }
}

pub fn sign_ext(b: u8) -> (r: u16)
    ensures
        r == spec_sign_ext(b),
{
    if b < 128 {
        b as u16
    } else {
        b as u16 + 0xFF00
    }
}

/// The decimal-adjust of A after a BCD addition or subtraction.  The value
/// is biased by `$200` so the subtractive corrections cannot underflow; the
/// bias sits above bit 8, so the low byte and the bit-8 carry test are those
/// of the unbiased value.  C is set (never cleared) when the adjust carried
/// out of bit 7, Z follows the adjusted byte, H clears.
pub open spec fn spec_daa(c: CpuV) -> CpuV {
    let a0: u16 = (0x200 + c.a) as u16;
    let a1: u16 = if c.flag(Flags::N) {
        let ah = if c.flag(Flags::H) {
            ((((a0 - 6) as u16) & 0xFF) + 0x200) as u16
        } else {
            a0
        };
        if c.flag(Flags::C) {
            (ah - 0x60) as u16
        } else {
            ah
        }
    } else {
        let ah = if c.flag(Flags::H) || a0 & 0x0F > 0x09 {
            (a0 + 6) as u16
        } else {
            a0
        };
        if c.flag(Flags::C) || ah & 0x3FF > 0x29F {
            (ah + 0x60) as u16
        } else {
            ah
        }
    };
    let f1 = if a1 & 0x100 == 0x100 {
        spec_with_flag(c.f, Flags::C, true)
    } else {
        c.f
    };
    let fin = (a1 & 0xFF) as u8;
    let f2 = spec_with_flag(f1, Flags::Z, fin == 0);
    let f3 = spec_with_flag(f2, Flags::H, false);
    CpuV { a: fin, f: f3, ..c }
}

/// One opcode of the `$00-$3F` quarter.
pub open spec fn spec_exec_low(c: CpuV, op: u8) -> (CpuV, u8) {
    if op == 0x00 || op == 0x10 {
        // NOP; STOP is left as a no-op.
        (c, 1)
    } else if op == 0x01 || op == 0x11 || op == 0x21 || op == 0x31 {
        // LD rr, u16
        let r = if op == 0x01 {
            Regs16::BC
        } else if op == 0x11 {
            Regs16::DE
        } else if op == 0x21 {
            Regs16::HL
        } else {
            Regs16::SP
        };
        let fe = spec_fetch_u16(c);
        (spec_set_r16(fe.0, r, fe.1), 3)
    } else if op == 0x02 || op == 0x12 {
        // LD (rr), A
        let addr = spec_get_r16(c, if op == 0x02 {
            Regs16::BC
        } else {
            Regs16::DE
        });
        (spec_cpu_write(c, addr, c.a), 2)
    } else if op == 0x22 || op == 0x32 {
        // LD (HL+), A and LD (HL-), A
        let addr = spec_get_r16(c, Regs16::HL);
        let c1 = spec_cpu_write(c, addr, c.a);
        let next = if op == 0x22 {
            spec_wrap_add16(addr, 1)
        } else {
            crate::cpu::spec_wrap_sub16(addr, 1)
        };
        (spec_set_r16(c1, Regs16::HL, next), 2)
    } else if op == 0x03 || op == 0x13 || op == 0x23 || op == 0x33 {
        // INC rr
        let r = if op == 0x03 {
            Regs16::BC
        } else if op == 0x13 {
            Regs16::DE
        } else if op == 0x23 {
            Regs16::HL
        } else {
            Regs16::SP
        };
        (spec_inc_r16(c, r), 2)
    } else if op == 0x0B || op == 0x1B || op == 0x2B || op == 0x3B {
        // DEC rr
        let r = if op == 0x0B {
            Regs16::BC
        } else if op == 0x1B {
            Regs16::DE
        } else if op == 0x2B {
            Regs16::HL
        } else {
            Regs16::SP
        };
        (spec_dec_r16(c, r), 2)
    } else if op == 0x04 || op == 0x0C || op == 0x14 || op == 0x1C || op == 0x24 || op == 0x2C || op == 0x34 || op == 0x3C {
        // INC r
        let r = spec_cb_reg(op >> 3);
        (spec_inc_r8(c, r), if op == 0x34 {
            3u8
        } else {
            1u8
        })
    } else if op == 0x05 || op == 0x0D || op == 0x15 || op == 0x1D || op == 0x25 || op == 0x2D || op == 0x35 || op == 0x3D {
        // DEC r
        let r = spec_cb_reg(op >> 3);
        (spec_dec_r8(c, r), if op == 0x35 {
            3u8
        } else {
            1u8
        })
    } else if op == 0x06 || op == 0x0E || op == 0x16 || op == 0x1E || op == 0x26 || op == 0x2E || op == 0x36 || op == 0x3E {
        // LD r, u8
        let r = spec_cb_reg(op >> 3);
        let fe = spec_fetch(c);
        (spec_set_r8(fe.0, r, fe.1), if op == 0x36 {
            3u8
        } else {
            2u8
        })
    } else if op == 0x07 {
        // RLCA: like RLC A but Z always clears.
        let c1 = spec_rotate_left(c, Regs::A, false);
        (CpuV { f: spec_with_flag(c1.f, Flags::Z, false), ..c1 }, 1)
    } else if op == 0x17 {
        // RLA
        let c1 = spec_rotate_left(c, Regs::A, true);
        (CpuV { f: spec_with_flag(c1.f, Flags::Z, false), ..c1 }, 1)
    } else if op == 0x0F {
        // RRCA
        let c1 = spec_rotate_right(c, Regs::A, false);
        (CpuV { f: spec_with_flag(c1.f, Flags::Z, false), ..c1 }, 1)
    } else if op == 0x1F {
        // RRA
        let c1 = spec_rotate_right(c, Regs::A, true);
        (CpuV { f: spec_with_flag(c1.f, Flags::Z, false), ..c1 }, 1)
    } else if op == 0x08 {
        // LD (u16), SP
        let fe = spec_fetch_u16(c);
        let c1 = spec_cpu_write(fe.0, fe.1, spec_low_byte(fe.0.sp));
        (spec_cpu_write(c1, spec_wrap_add16(fe.1, 1), crate::utils::spec_high_byte(c1.sp)), 5)
    } else if op == 0x09 || op == 0x19 || op == 0x29 || op == 0x39 {
        // ADD HL, rr
        let r = if op == 0x09 {
            Regs16::BC
        } else if op == 0x19 {
            Regs16::DE
        } else if op == 0x29 {
            Regs16::HL
        } else {
            Regs16::SP
        };
        (spec_add_r16(c, Regs16::HL, r), 2)
    } else if op == 0x0A || op == 0x1A {
        // LD A, (rr)
        let addr = spec_get_r16(c, if op == 0x0A {
            Regs16::BC
        } else {
            Regs16::DE
        });
        let rd = spec_cpu_read(c, addr);
        (spec_set_r8(rd.0, Regs::A, rd.1), 2)
    } else if op == 0x2A || op == 0x3A {
        // LD A, (HL+) and LD A, (HL-)
        let addr = spec_get_r16(c, Regs16::HL);
        let rd = spec_cpu_read(c, addr);
        let c1 = spec_set_r8(rd.0, Regs::A, rd.1);
        let next = if op == 0x2A {
            spec_wrap_add16(addr, 1)
        } else {
            crate::cpu::spec_wrap_sub16(addr, 1)
        };
        (spec_set_r16(c1, Regs16::HL, next), 2)
    } else if op == 0x18 {
        // JR i8
        let fe = spec_fetch(c);
        (CpuV { pc: spec_wrap_add16(fe.0.pc, spec_sign_ext(fe.1)), ..fe.0 }, 3)
    } else if op == 0x20 || op == 0x28 || op == 0x30 || op == 0x38 {
        // JR cond, i8
        let fe = spec_fetch(c);
        let cond = if op == 0x20 {
            !fe.0.flag(Flags::Z)
        } else if op == 0x28 {
            fe.0.flag(Flags::Z)
        } else if op == 0x30 {
            !fe.0.flag(Flags::C)
        } else {
            fe.0.flag(Flags::C)
        };
        if cond {
            (CpuV { pc: spec_wrap_add16(fe.0.pc, spec_sign_ext(fe.1)), ..fe.0 }, 3)
        } else {
            (fe.0, 2)
        }
    } else if op == 0x27 {
        // DAA
        (spec_daa(c), 1)
    } else if op == 0x2F {
        // CPL
        let c1 = CpuV { a: !c.a, ..c };
        let f1 = spec_with_flag(c1.f, Flags::N, true);
        (CpuV { f: spec_with_flag(f1, Flags::H, true), ..c1 }, 1)
    } else if op == 0x37 {
        // SCF
        let f1 = spec_with_flag(c.f, Flags::N, false);
        let f2 = spec_with_flag(f1, Flags::H, false);
        (CpuV { f: spec_with_flag(f2, Flags::C, true), ..c }, 1)
    } else if op == 0x3F {
        // CCF
        let cf = c.flag(Flags::C);
        let f1 = spec_with_flag(c.f, Flags::N, false);
        let f2 = spec_with_flag(f1, Flags::H, false);
        (CpuV { f: spec_with_flag(f2, Flags::C, !cf), ..c }, 1)
    } else {
        (c, 1)
    }
}

/// Execute one opcode of the `$00-$3F` quarter.
fn exec_low(cpu: &mut Cpu, op: u8) -> (cycles: u8)
    requires
        old(cpu)@.wf(),
        op < 0x40,
    ensures
        final(cpu)@.wf(),
        (final(cpu)@, cycles) == spec_exec_low(old(cpu)@, op),
{
    if op == 0x00 || op == 0x10 {
        proof {
            assert((cpu@, 1u8) == spec_exec_low(old(cpu)@, op));
        }
        1
    } else if op == 0x01 || op == 0x11 || op == 0x21 || op == 0x31 {
        low_ld16_imm(cpu, op)
    } else if op == 0x02 || op == 0x12 || op == 0x22 || op == 0x32 {
        low_st_a(cpu, op)
    } else if op == 0x03 || op == 0x13 || op == 0x23 || op == 0x33 || op == 0x0B || op == 0x1B
        || op == 0x2B || op == 0x3B {
        low_step16(cpu, op)
    } else if op == 0x04 || op == 0x0C || op == 0x14 || op == 0x1C || op == 0x24 || op == 0x2C || op == 0x34 || op == 0x3C || op == 0x05 || op == 0x0D || op == 0x15 || op == 0x1D || op == 0x25 || op == 0x2D || op == 0x35 || op == 0x3D {
        low_step8(cpu, op)
    } else if op == 0x06 || op == 0x0E || op == 0x16 || op == 0x1E || op == 0x26 || op == 0x2E || op == 0x36 || op == 0x3E {
        low_ld8_imm(cpu, op)
    } else if op == 0x07 || op == 0x17 || op == 0x0F || op == 0x1F {
        low_rot_a(cpu, op)
    } else if op == 0x08 {
        low_st_sp(cpu, op)
    } else if op == 0x09 || op == 0x19 || op == 0x29 || op == 0x39 {
        low_add_hl(cpu, op)
    } else if op == 0x0A || op == 0x1A || op == 0x2A || op == 0x3A {
        low_ld_a_mem(cpu, op)
    } else if op == 0x18 || op == 0x20 || op == 0x28 || op == 0x30 || op == 0x38 {
        low_jr(cpu, op)
    } else if op == 0x27 {
        exec_daa(cpu);
        proof {
            assert((cpu@, 1u8) == spec_exec_low(old(cpu)@, op));
        }
        1
    } else {
        low_flags(cpu, op)
    }
}

/// LD rr, u16
fn low_ld16_imm(cpu: &mut Cpu, op: u8) -> (cycles: u8)
    requires
        old(cpu)@.wf(),
        op == 0x01 || op == 0x11 || op == 0x21 || op == 0x31,
    ensures
        final(cpu)@.wf(),
        (final(cpu)@, cycles) == spec_exec_low(old(cpu)@, op),
{
    let r = if op == 0x01 {
        Regs16::BC
    } else if op == 0x11 {
        Regs16::DE
    } else if op == 0x21 {
        Regs16::HL
    } else {
        Regs16::SP
    };
    let val = cpu.fetch_u16();
    cpu.set_r16(r, val);
    3
}

/// LD (BC), A; LD (DE), A; LD (HL+), A; LD (HL-), A
fn low_st_a(cpu: &mut Cpu, op: u8) -> (cycles: u8)
    requires
        old(cpu)@.wf(),
        op == 0x02 || op == 0x12 || op == 0x22 || op == 0x32,
    ensures
        final(cpu)@.wf(),
        (final(cpu)@, cycles) == spec_exec_low(old(cpu)@, op),
{
    if op == 0x02 || op == 0x12 {
        let addr = cpu.get_r16(
            if op == 0x02 {
                Regs16::BC
            } else {
                Regs16::DE
            },
        );
        let val = cpu.a;
        cpu.write_ram(addr, val);
    } else {
        let addr = cpu.get_r16(Regs16::HL);
        let val = cpu.a;
        cpu.write_ram(addr, val);
        let next = if op == 0x22 {
            crate::cpu::wrap_add16(addr, 1)
        } else {
            crate::cpu::wrap_sub16(addr, 1)
        };
        cpu.set_r16(Regs16::HL, next);
    }
    2
}

/// INC rr and DEC rr
fn low_step16(cpu: &mut Cpu, op: u8) -> (cycles: u8)
    requires
        old(cpu)@.wf(),
        op == 0x03 || op == 0x13 || op == 0x23 || op == 0x33 || op == 0x0B || op == 0x1B || op
            == 0x2B || op == 0x3B,
    ensures
        final(cpu)@.wf(),
        (final(cpu)@, cycles) == spec_exec_low(old(cpu)@, op),
{
    let r = if op == 0x03 || op == 0x0B {
        Regs16::BC
    } else if op == 0x13 || op == 0x1B {
        Regs16::DE
    } else if op == 0x23 || op == 0x2B {
        Regs16::HL
    } else {
        Regs16::SP
    };
    if op == 0x03 || op == 0x13 || op == 0x23 || op == 0x33 {
        cpu.inc_r16(r);
    } else {
        cpu.dec_r16(r);
    }
    2
}

/// INC r and DEC r
fn low_step8(cpu: &mut Cpu, op: u8) -> (cycles: u8)
    requires
        old(cpu)@.wf(),
        op == 0x04 || op == 0x0C || op == 0x14 || op == 0x1C || op == 0x24 || op == 0x2C || op == 0x34 || op == 0x3C || op == 0x05 || op == 0x0D || op == 0x15 || op == 0x1D || op == 0x25 || op == 0x2D || op == 0x35 || op == 0x3D,
    ensures
        final(cpu)@.wf(),
        (final(cpu)@, cycles) == spec_exec_low(old(cpu)@, op),
{
    let r = get_cb_reg(op >> 3);
    if op == 0x04 || op == 0x0C || op == 0x14 || op == 0x1C || op == 0x24 || op == 0x2C || op == 0x34 || op == 0x3C {
        cpu.inc_r8(r);
        if op == 0x34 {
            3
        } else {
            1
        }
    } else {
        cpu.dec_r8(r);
        if op == 0x35 {
            3
        } else {
            1
        }
    }
}

/// LD r, u8
fn low_ld8_imm(cpu: &mut Cpu, op: u8) -> (cycles: u8)
    requires
        old(cpu)@.wf(),
        op == 0x06 || op == 0x0E || op == 0x16 || op == 0x1E || op == 0x26 || op == 0x2E || op == 0x36 || op == 0x3E,
    ensures
        final(cpu)@.wf(),
        (final(cpu)@, cycles) == spec_exec_low(old(cpu)@, op),
{
    let r = get_cb_reg(op >> 3);
    let val = cpu.fetch();
    cpu.set_r8(r, val);
    if op == 0x36 {
        3
    } else {
        2
    }
}

/// RLCA, RLA, RRCA, RRA: the accumulator rotates, with Z forced clear.
fn low_rot_a(cpu: &mut Cpu, op: u8) -> (cycles: u8)
    requires
        old(cpu)@.wf(),
        op == 0x07 || op == 0x17 || op == 0x0F || op == 0x1F,
    ensures
        final(cpu)@.wf(),
        (final(cpu)@, cycles) == spec_exec_low(old(cpu)@, op),
{
    if op == 0x07 {
        cpu.rotate_left(Regs::A, false);
    } else if op == 0x17 {
        cpu.rotate_left(Regs::A, true);
    } else if op == 0x0F {
        cpu.rotate_right(Regs::A, false);
    } else {
        cpu.rotate_right(Regs::A, true);
    }
    cpu.set_flag(Flags::Z, false);
    1
}

/// LD (u16), SP
fn low_st_sp(cpu: &mut Cpu, op: u8) -> (cycles: u8)
    requires
        old(cpu)@.wf(),
        op == 0x08,
    ensures
        final(cpu)@.wf(),
        (final(cpu)@, cycles) == spec_exec_low(old(cpu)@, op),
{
    let addr = cpu.fetch_u16();
    let sp = cpu.sp;
    cpu.write_ram(addr, low_byte(sp));
    cpu.write_ram(crate::cpu::wrap_add16(addr, 1), crate::utils::high_byte(sp));
    5
}

/// ADD HL, rr
fn low_add_hl(cpu: &mut Cpu, op: u8) -> (cycles: u8)
    requires
        old(cpu)@.wf(),
        op == 0x09 || op == 0x19 || op == 0x29 || op == 0x39,
    ensures
        final(cpu)@.wf(),
        (final(cpu)@, cycles) == spec_exec_low(old(cpu)@, op),
{
    let r = if op == 0x09 {
        Regs16::BC
    } else if op == 0x19 {
        Regs16::DE
    } else if op == 0x29 {
        Regs16::HL
    } else {
        Regs16::SP
    };
    cpu.add_r16(Regs16::HL, r);
    2
}

/// LD A, (BC); LD A, (DE); LD A, (HL+); LD A, (HL-)
fn low_ld_a_mem(cpu: &mut Cpu, op: u8) -> (cycles: u8)
    requires
        old(cpu)@.wf(),
        op == 0x0A || op == 0x1A || op == 0x2A || op == 0x3A,
    ensures
        final(cpu)@.wf(),
        (final(cpu)@, cycles) == spec_exec_low(old(cpu)@, op),
{
    if op == 0x0A || op == 0x1A {
        let addr = cpu.get_r16(
            if op == 0x0A {
                Regs16::BC
            } else {
                Regs16::DE
            },
        );
        let val = cpu.read_ram(addr);
        cpu.set_r8(Regs::A, val);
    } else {
        let addr = cpu.get_r16(Regs16::HL);
        let val = cpu.read_ram(addr);
        cpu.set_r8(Regs::A, val);
        let next = if op == 0x2A {
            crate::cpu::wrap_add16(addr, 1)
        } else {
            crate::cpu::wrap_sub16(addr, 1)
        };
        cpu.set_r16(Regs16::HL, next);
    }
    2
}

/// JR i8 and JR cond, i8
fn low_jr(cpu: &mut Cpu, op: u8) -> (cycles: u8)
    requires
        old(cpu)@.wf(),
        op == 0x18 || op == 0x20 || op == 0x28 || op == 0x30 || op == 0x38,
    ensures
        final(cpu)@.wf(),
        (final(cpu)@, cycles) == spec_exec_low(old(cpu)@, op),
{
    let offset = sign_ext(cpu.fetch());
    let cond = if op == 0x18 {
        true
    } else if op == 0x20 {
        !cpu.get_flag(Flags::Z)
    } else if op == 0x28 {
        cpu.get_flag(Flags::Z)
    } else if op == 0x30 {
        !cpu.get_flag(Flags::C)
    } else {
        cpu.get_flag(Flags::C)
    };
    if cond {
        let pc = crate::cpu::wrap_add16(cpu.get_pc(), offset);
        cpu.set_pc(pc);
        3
    } else {
        2
    }
}

/// CPL, SCF, CCF
fn low_flags(cpu: &mut Cpu, op: u8) -> (cycles: u8)
    requires
        old(cpu)@.wf(),
        op == 0x2F || op == 0x37 || op == 0x3F,
    ensures
        final(cpu)@.wf(),
        (final(cpu)@, cycles) == spec_exec_low(old(cpu)@, op),
{
    if op == 0x2F {
        let a = cpu.a;
        cpu.set_r8(Regs::A, !a);
        cpu.set_flag(Flags::N, true);
        cpu.set_flag(Flags::H, true);
    } else if op == 0x37 {
        cpu.set_flag(Flags::N, false);
        cpu.set_flag(Flags::H, false);
        cpu.set_flag(Flags::C, true);
    } else {
        let c = cpu.get_flag(Flags::C);
        cpu.set_flag(Flags::N, false);
        cpu.set_flag(Flags::H, false);
        cpu.set_flag(Flags::C, !c);
    }
    1
}

/// Execute DAA (see `spec_daa`).
fn exec_daa(cpu: &mut Cpu)
    requires
        old(cpu)@.wf(),
    ensures
        final(cpu)@.wf(),
        final(cpu)@ == spec_daa(old(cpu)@),
{
    let mut a: u16 = 0x200 + cpu.a as u16;
    if cpu.get_flag(Flags::N) {
        if cpu.get_flag(Flags::H) {
            proof {
                crate::utils::lemma_and16_le((a - 6) as u16, 0xFF);
            }
            a = ((a - 6) & 0xFF) + 0x200;
        }
        if cpu.get_flag(Flags::C) {
            a = a - 0x60;
        }
    } else {
        if cpu.get_flag(Flags::H) || a & 0x0F > 0x09 {
            a = a + 6;
        }
        if cpu.get_flag(Flags::C) || a & 0x3FF > 0x29F {
            a = a + 0x60;
        }
    }
    if a & 0x100 == 0x100 {
        cpu.set_flag(Flags::C, true);
    }
    proof {
        crate::utils::lemma_and16_le(a, 0xFF);
    }
    let fin = (a & 0xFF) as u8;
    cpu.set_r8(Regs::A, fin);
    cpu.set_flag(Flags::Z, fin == 0);
    cpu.set_flag(Flags::H, false);
    proof {
        assert(cpu@ =~= spec_daa(old(cpu)@));
    }
}

} // verus!

verus! {

/// The unassigned primary opcodes; fetching one is a fatal error.
pub open spec fn spec_invalid_op(op: u8) -> bool {
    ||| op == 0xD3
    ||| op == 0xDB
    ||| op == 0xDD
    ||| op == 0xE3
    ||| op == 0xE4
    ||| op == 0xEB
    ||| op == 0xEC
    ||| op == 0xED
    ||| op == 0xF4
    ||| op == 0xFC
    ||| op == 0xFD
}

/// One opcode of the `$C0-$FF` quarter (the `$CB` prefix and the unassigned
/// opcodes excepted).
pub open spec fn spec_exec_high(c: CpuV, op: u8) -> (CpuV, u8) {
    if op == 0xC0 || op == 0xC8 || op == 0xD0 || op == 0xD8 {
        // RET cond
        let cond = if op == 0xC0 {
            !c.flag(Flags::Z)
        } else if op == 0xC8 {
            c.flag(Flags::Z)
        } else if op == 0xD0 {
            !c.flag(Flags::C)
        } else {
            c.flag(Flags::C)
        };
        if cond {
            let po = spec_pop(c);
            (CpuV { pc: po.1, ..po.0 }, 5)
        } else {
            (c, 2)
        }
    } else if op == 0xC9 || op == 0xD9 {
        // RET and RETI; RETI re-enables the interrupt master.
        let po = spec_pop(c);
        let c1 = CpuV { pc: po.1, ..po.0 };
        if op == 0xD9 {
            (CpuV { irq_enabled: true, ..c1 }, 4)
        } else {
            (c1, 4)
        }
    } else if op == 0xC1 || op == 0xD1 || op == 0xE1 || op == 0xF1 {
        // POP rr
        let r = if op == 0xC1 {
            Regs16::BC
        } else if op == 0xD1 {
            Regs16::DE
        } else if op == 0xE1 {
            Regs16::HL
        } else {
            Regs16::AF
        };
        let po = spec_pop(c);
        (spec_set_r16(po.0, r, po.1), 3)
    } else if op == 0xC2 || op == 0xCA || op == 0xD2 || op == 0xDA {
        // JP cond, u16
        let fe = spec_fetch_u16(c);
        let cond = if op == 0xC2 {
            !fe.0.flag(Flags::Z)
        } else if op == 0xCA {
            fe.0.flag(Flags::Z)
        } else if op == 0xD2 {
            !fe.0.flag(Flags::C)
        } else {
            fe.0.flag(Flags::C)
        };
        if cond {
            (CpuV { pc: fe.1, ..fe.0 }, 4)
        } else {
            (fe.0, 3)
        }
    } else if op == 0xC3 {
        // JP u16
        let fe = spec_fetch_u16(c);
        (CpuV { pc: fe.1, ..fe.0 }, 4)
    } else if op == 0xE9 {
        // JP HL
        (CpuV { pc: spec_merge_bytes(c.h, c.l), ..c }, 1)
    } else if op == 0xC4 || op == 0xCC || op == 0xD4 || op == 0xDC || op == 0xCD {
        // CALL u16 and CALL cond, u16
        let fe = spec_fetch_u16(c);
        let cond = if op == 0xCD {
            true
        } else if op == 0xC4 {
            !fe.0.flag(Flags::Z)
        } else if op == 0xCC {
            fe.0.flag(Flags::Z)
        } else if op == 0xD4 {
            !fe.0.flag(Flags::C)
        } else {
            fe.0.flag(Flags::C)
        };
        if cond {
            let c1 = spec_push(fe.0, fe.0.pc);
            (CpuV { pc: fe.1, ..c1 }, 6)
        } else {
            (fe.0, 3)
        }
    } else if op == 0xC5 || op == 0xD5 || op == 0xE5 || op == 0xF5 {
        // PUSH rr
        let r = if op == 0xC5 {
            Regs16::BC
        } else if op == 0xD5 {
            Regs16::DE
        } else if op == 0xE5 {
            Regs16::HL
        } else {
            Regs16::AF
        };
        (spec_push(c, spec_get_r16(c, r)), 4)
    } else if op == 0xC6 || op == 0xCE || op == 0xD6 || op == 0xDE || op == 0xE6 || op == 0xEE
        || op == 0xF6 || op == 0xFE {
        // ALU A, u8
        let fe = spec_fetch(c);
        let c1 = if op == 0xC6 {
            spec_add_a(fe.0, fe.1, false)
        } else if op == 0xCE {
            spec_add_a(fe.0, fe.1, true)
        } else if op == 0xD6 {
            spec_sub_a(fe.0, fe.1, false)
        } else if op == 0xDE {
            spec_sub_a(fe.0, fe.1, true)
        } else if op == 0xE6 {
            spec_and_a(fe.0, fe.1)
        } else if op == 0xEE {
            spec_xor_a(fe.0, fe.1)
        } else if op == 0xF6 {
            spec_or_a(fe.0, fe.1)
        } else {
            spec_cp_a(fe.0, fe.1)
        };
        (c1, 2)
    } else if op == 0xC7 || op == 0xCF || op == 0xD7 || op == 0xDF || op == 0xE7 || op == 0xEF
        || op == 0xF7 || op == 0xFF {
        // RST: call the fixed vector the opcode encodes.
        let vector: u16 = if op == 0xC7 {
            0x00u16
        } else if op == 0xCF {
            0x08u16
        } else if op == 0xD7 {
            0x10u16
        } else if op == 0xDF {
            0x18u16
        } else if op == 0xE7 {
            0x20u16
        } else if op == 0xEF {
            0x28u16
        } else if op == 0xF7 {
            0x30u16
        } else {
            0x38u16
        };
        let c1 = spec_push(c, c.pc);
        (CpuV { pc: vector, ..c1 }, 4)
    } else if op == 0xE0 || op == 0xF0 {
        // LD (FF00+u8), A and LD A, (FF00+u8)
        let fe = spec_fetch(c);
        let addr = (0xFF00 + fe.1) as u16;
        if op == 0xE0 {
            (spec_cpu_write(fe.0, addr, fe.0.a), 3)
        } else {
            let rd = spec_cpu_read(fe.0, addr);
            (spec_set_r8(rd.0, Regs::A, rd.1), 3)
        }
    } else if op == 0xE2 || op == 0xF2 {
        // LD (FF00+C), A and LD A, (FF00+C)
        let addr = (0xFF00 + c.c) as u16;
        if op == 0xE2 {
            (spec_cpu_write(c, addr, c.a), 2)
        } else {
            let rd = spec_cpu_read(c, addr);
            (spec_set_r8(rd.0, Regs::A, rd.1), 2)
        }
    } else if op == 0xEA || op == 0xFA {
        // LD (u16), A and LD A, (u16)
        let fe = spec_fetch_u16(c);
        if op == 0xEA {
            (spec_cpu_write(fe.0, fe.1, fe.0.a), 4)
        } else {
            let rd = spec_cpu_read(fe.0, fe.1);
            (spec_set_r8(rd.0, Regs::A, rd.1), 4)
        }
    } else if op == 0xF3 || op == 0xFB {
        // DI and EI
        (CpuV { irq_enabled: op == 0xFB, ..c }, 1)
    } else if op == 0xE8 || op == 0xF8 {
        // ADD SP, i8 and LD HL, SP+i8: H and C come from the low byte of SP
        // as if adding an unsigned byte; the sign only affects the sum.
        let fe = spec_fetch(c);
        let off = spec_sign_ext(fe.1);
        let sum = spec_wrap_add16(fe.0.sp, off);
        let set_c = spec_c_carry_u8(spec_low_byte(fe.0.sp), fe.1);
        let set_h = spec_h_carry_u8(spec_low_byte(fe.0.sp), fe.1);
        let c1 = if op == 0xE8 {
            spec_set_r16(fe.0, Regs16::SP, sum)
        } else {
            spec_set_r16(fe.0, Regs16::HL, sum)
        };
        let f1 = spec_with_flag(c1.f, Flags::Z, false);
        let f2 = spec_with_flag(f1, Flags::N, false);
        let f3 = spec_with_flag(f2, Flags::C, set_c);
        let f4 = spec_with_flag(f3, Flags::H, set_h);
        (CpuV { f: f4, ..c1 }, if op == 0xE8 {
            4u8
        } else {
            3u8
        })
    } else {
        // LD SP, HL
        (spec_set_r16(c, Regs16::SP, spec_merge_bytes(c.h, c.l)), 2)
    }
}

/// Execute one opcode of the `$C0-$FF` quarter.
fn exec_high(cpu: &mut Cpu, op: u8) -> (cycles: u8)
    requires
        old(cpu)@.wf(),
        op >= 0xC0,
        op != 0xCB,
        !spec_invalid_op(op),
    ensures
        final(cpu)@.wf(),
        (final(cpu)@, cycles) == spec_exec_high(old(cpu)@, op),
{
    if op == 0xC0 || op == 0xC8 || op == 0xD0 || op == 0xD8 || op == 0xC9 || op == 0xD9 {
        high_ret(cpu, op)
    } else if op == 0xC1 || op == 0xD1 || op == 0xE1 || op == 0xF1 {
        high_pop(cpu, op)
    } else if op == 0xC2 || op == 0xCA || op == 0xD2 || op == 0xDA || op == 0xC3 || op == 0xE9 {
        high_jp(cpu, op)
    } else if op == 0xC4 || op == 0xCC || op == 0xD4 || op == 0xDC || op == 0xCD {
        high_call(cpu, op)
    } else if op == 0xC5 || op == 0xD5 || op == 0xE5 || op == 0xF5 {
        high_push(cpu, op)
    } else if op == 0xC6 || op == 0xCE || op == 0xD6 || op == 0xDE || op == 0xE6 || op == 0xEE
        || op == 0xF6 || op == 0xFE {
        high_alu_imm(cpu, op)
    } else if op == 0xC7 || op == 0xCF || op == 0xD7 || op == 0xDF || op == 0xE7 || op == 0xEF
        || op == 0xF7 || op == 0xFF {
        high_rst(cpu, op)
    } else if op == 0xE0 || op == 0xF0 || op == 0xE2 || op == 0xF2 || op == 0xEA || op == 0xFA {
        high_ld_a(cpu, op)
    } else if op == 0xF3 || op == 0xFB {
        cpu.set_irq(op == 0xFB);
        proof {
            assert((cpu@, 1u8) == spec_exec_high(old(cpu)@, op));
        }
        1
    } else {
        high_sp(cpu, op)
    }
}

/// RET, RETI and RET cond
fn high_ret(cpu: &mut Cpu, op: u8) -> (cycles: u8)
    requires
        old(cpu)@.wf(),
        op == 0xC0 || op == 0xC8 || op == 0xD0 || op == 0xD8 || op == 0xC9 || op == 0xD9,
    ensures
        final(cpu)@.wf(),
        (final(cpu)@, cycles) == spec_exec_high(old(cpu)@, op),
{
    if op == 0xC9 || op == 0xD9 {
        let addr = cpu.pop();
        cpu.set_pc(addr);
        if op == 0xD9 {
            cpu.set_irq(true);
        }
        4
    } else {
        let cond = if op == 0xC0 {
            !cpu.get_flag(Flags::Z)
        } else if op == 0xC8 {
            cpu.get_flag(Flags::Z)
        } else if op == 0xD0 {
            !cpu.get_flag(Flags::C)
        } else {
            cpu.get_flag(Flags::C)
        };
        if cond {
            let addr = cpu.pop();
            cpu.set_pc(addr);
            5
        } else {
            2
        }
    }
}

/// POP rr
fn high_pop(cpu: &mut Cpu, op: u8) -> (cycles: u8)
    requires
        old(cpu)@.wf(),
        op == 0xC1 || op == 0xD1 || op == 0xE1 || op == 0xF1,
    ensures
        final(cpu)@.wf(),
        (final(cpu)@, cycles) == spec_exec_high(old(cpu)@, op),
{
    let r = if op == 0xC1 {
        Regs16::BC
    } else if op == 0xD1 {
        Regs16::DE
    } else if op == 0xE1 {
        Regs16::HL
    } else {
        Regs16::AF
    };
    let val = cpu.pop();
    cpu.set_r16(r, val);
    3
}

/// JP u16, JP cond, u16 and JP HL
fn high_jp(cpu: &mut Cpu, op: u8) -> (cycles: u8)
    requires
        old(cpu)@.wf(),
        op == 0xC2 || op == 0xCA || op == 0xD2 || op == 0xDA || op == 0xC3 || op == 0xE9,
    ensures
        final(cpu)@.wf(),
        (final(cpu)@, cycles) == spec_exec_high(old(cpu)@, op),
{
    if op == 0xE9 {
        let addr = cpu.get_r16(Regs16::HL);
        cpu.set_pc(addr);
        1
    } else {
        let addr = cpu.fetch_u16();
        let cond = if op == 0xC3 {
            true
        } else if op == 0xC2 {
            !cpu.get_flag(Flags::Z)
        } else if op == 0xCA {
            cpu.get_flag(Flags::Z)
        } else if op == 0xD2 {
            !cpu.get_flag(Flags::C)
        } else {
            cpu.get_flag(Flags::C)
        };
        if cond {
            cpu.set_pc(addr);
            4
        } else {
            3
        }
    }
}

/// CALL u16 and CALL cond, u16
fn high_call(cpu: &mut Cpu, op: u8) -> (cycles: u8)
    requires
        old(cpu)@.wf(),
        op == 0xC4 || op == 0xCC || op == 0xD4 || op == 0xDC || op == 0xCD,
    ensures
        final(cpu)@.wf(),
        (final(cpu)@, cycles) == spec_exec_high(old(cpu)@, op),
{
    let addr = cpu.fetch_u16();
    let cond = if op == 0xCD {
        true
    } else if op == 0xC4 {
        !cpu.get_flag(Flags::Z)
    } else if op == 0xCC {
        cpu.get_flag(Flags::Z)
    } else if op == 0xD4 {
        !cpu.get_flag(Flags::C)
    } else {
        cpu.get_flag(Flags::C)
    };
    if cond {
        let pc = cpu.get_pc();
        cpu.push(pc);
        cpu.set_pc(addr);
        6
    } else {
        3
    }
}

/// PUSH rr
fn high_push(cpu: &mut Cpu, op: u8) -> (cycles: u8)
    requires
        old(cpu)@.wf(),
        op == 0xC5 || op == 0xD5 || op == 0xE5 || op == 0xF5,
    ensures
        final(cpu)@.wf(),
        (final(cpu)@, cycles) == spec_exec_high(old(cpu)@, op),
{
    let r = if op == 0xC5 {
        Regs16::BC
    } else if op == 0xD5 {
        Regs16::DE
    } else if op == 0xE5 {
        Regs16::HL
    } else {
        Regs16::AF
    };
    let val = cpu.get_r16(r);
    cpu.push(val);
    4
}

/// ALU A, u8
fn high_alu_imm(cpu: &mut Cpu, op: u8) -> (cycles: u8)
    requires
        old(cpu)@.wf(),
        op == 0xC6 || op == 0xCE || op == 0xD6 || op == 0xDE || op == 0xE6 || op == 0xEE || op
            == 0xF6 || op == 0xFE,
    ensures
        final(cpu)@.wf(),
        (final(cpu)@, cycles) == spec_exec_high(old(cpu)@, op),
{
    let val = cpu.fetch();
    if op == 0xC6 {
        cpu.add_a_u8(val, false);
    } else if op == 0xCE {
        cpu.add_a_u8(val, true);
    } else if op == 0xD6 {
        cpu.sub_a_u8(val, false);
    } else if op == 0xDE {
        cpu.sub_a_u8(val, true);
    } else if op == 0xE6 {
        cpu.and_a_u8(val);
    } else if op == 0xEE {
        cpu.xor_a_u8(val);
    } else if op == 0xF6 {
        cpu.or_a_u8(val);
    } else {
        cpu.cp_a_u8(val);
    }
    2
}

/// RST
fn high_rst(cpu: &mut Cpu, op: u8) -> (cycles: u8)
    requires
        old(cpu)@.wf(),
        op == 0xC7 || op == 0xCF || op == 0xD7 || op == 0xDF || op == 0xE7 || op == 0xEF || op
            == 0xF7 || op == 0xFF,
    ensures
        final(cpu)@.wf(),
        (final(cpu)@, cycles) == spec_exec_high(old(cpu)@, op),
{
    let vector: u16 = if op == 0xC7 {
        0x00
    } else if op == 0xCF {
        0x08
    } else if op == 0xD7 {
        0x10
    } else if op == 0xDF {
        0x18
    } else if op == 0xE7 {
        0x20
    } else if op == 0xEF {
        0x28
    } else if op == 0xF7 {
        0x30
    } else {
        0x38
    };
    let pc = cpu.get_pc();
    cpu.push(pc);
    cpu.set_pc(vector);
    4
}

/// The A loads and stores of the high quarter: through `$FF00` plus an
/// immediate or C, and through an absolute address.
fn high_ld_a(cpu: &mut Cpu, op: u8) -> (cycles: u8)
    requires
        old(cpu)@.wf(),
        op == 0xE0 || op == 0xF0 || op == 0xE2 || op == 0xF2 || op == 0xEA || op == 0xFA,
    ensures
        final(cpu)@.wf(),
        (final(cpu)@, cycles) == spec_exec_high(old(cpu)@, op),
{
    if op == 0xE0 || op == 0xF0 {
        let offset = cpu.fetch();
        let addr = 0xFF00 + offset as u16;
        if op == 0xE0 {
            let val = cpu.a;
            cpu.write_ram(addr, val);
        } else {
            let val = cpu.read_ram(addr);
            cpu.set_r8(Regs::A, val);
        }
        3
    } else if op == 0xE2 || op == 0xF2 {
        let addr = 0xFF00 + cpu.c as u16;
        if op == 0xE2 {
            let val = cpu.a;
            cpu.write_ram(addr, val);
        } else {
            let val = cpu.read_ram(addr);
            cpu.set_r8(Regs::A, val);
        }
        2
    } else {
        let addr = cpu.fetch_u16();
        if op == 0xEA {
            let val = cpu.a;
            cpu.write_ram(addr, val);
        } else {
            let val = cpu.read_ram(addr);
            cpu.set_r8(Regs::A, val);
        }
        4
    }
}

/// ADD SP, i8; LD HL, SP+i8; LD SP, HL
fn high_sp(cpu: &mut Cpu, op: u8) -> (cycles: u8)
    requires
        old(cpu)@.wf(),
        op == 0xE8 || op == 0xF8 || op == 0xF9,
    ensures
        final(cpu)@.wf(),
        (final(cpu)@, cycles) == spec_exec_high(old(cpu)@, op),
{
    if op == 0xF9 {
        let val = cpu.get_r16(Regs16::HL);
        cpu.set_r16(Regs16::SP, val);
        2
    } else {
        let b = cpu.fetch();
        let off = sign_ext(b);
        let sp = cpu.sp;
        let sum = crate::cpu::wrap_add16(sp, off);
        let set_c = check_c_carry_u8(low_byte(sp), b);
        let set_h = check_h_carry_u8(low_byte(sp), b);
        if op == 0xE8 {
            cpu.set_r16(Regs16::SP, sum);
        } else {
            cpu.set_r16(Regs16::HL, sum);
        }
        cpu.set_flag(Flags::Z, false);
        cpu.set_flag(Flags::N, false);
        cpu.set_flag(Flags::C, set_c);
        cpu.set_flag(Flags::H, set_h);
        if op == 0xE8 {
            4
        } else {
            3
        }
    }
}

/// One whole instruction: the opcode fetched at PC, decoded and executed.
/// The unassigned opcodes are a fatal error; `$CB` fetches and runs one
/// opcode of the second table; `$76` halts.
#[verifier::opaque]
pub open spec fn spec_execute(c: CpuV) -> Option<(CpuV, u8)> {
    let fe = spec_fetch(c);
    let c1 = fe.0;
    let op = fe.1;
    if spec_invalid_op(op) {
        None
    } else if op == 0xCB {
        let fe2 = spec_fetch(c1);
        Some(spec_execute_cb(fe2.0, fe2.1))
    } else if op == 0x76 {
        Some((CpuV { halted: true, ..c1 }, 1))
    } else if op < 0x40 {
        Some(spec_exec_low(c1, op))
    } else if op < 0x80 {
        Some(spec_exec_ld(c1, op))
    } else if op < 0xC0 {
        Some(spec_exec_alu(c1, op))
    } else {
        Some(spec_exec_high(c1, op))
    }
}

/// Fetch, decode and execute one instruction; the cost in machine cycles,
/// or the fatal invalid-opcode error with the address it was fetched from.
pub fn execute(cpu: &mut Cpu) -> (r: Result<u8, EmuError>)
    requires
        old(cpu)@.wf(),
    ensures
        final(cpu)@.wf(),
        spec_execute(old(cpu)@) matches Some(p) ==> r == Ok::<u8, EmuError>(p.1) && final(cpu)@
            == p.0,
        spec_execute(old(cpu)@) is None ==> r == Err::<u8, EmuError>(
            EmuError::InvalidOpcode(old(cpu)@.pc),
        ) && final(cpu)@ == spec_fetch(old(cpu)@).0,
{
    proof {
        reveal(spec_execute);
    }
    let op = cpu.fetch();
    if op == 0xD3 || op == 0xDB || op == 0xDD || op == 0xE3 || op == 0xE4 || op == 0xEB || op
        == 0xEC || op == 0xED || op == 0xF4 || op == 0xFC || op == 0xFD {
        return Err(EmuError::InvalidOpcode(crate::cpu::wrap_sub16(cpu.get_pc(), 1)));
    }
    let cycles = if op == 0xCB {
        let cb_index = cpu.fetch();
        execute_cb(cpu, cb_index)
    } else if op == 0x76 {
        cpu.set_halted(true);
        1
    } else if op < 0x40 {
        exec_low(cpu, op)
    } else if op < 0x80 {
        exec_ld(cpu, op)
    } else if op < 0xC0 {
        exec_alu(cpu, op)
    } else {
        exec_high(cpu, op)
    };
    Ok(cycles)
}

} // verus!
