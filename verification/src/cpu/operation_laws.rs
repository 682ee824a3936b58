//! What the one-cycle register operations compute, stated with the machine
//! operators on their operands: the 8-bit arithmetic and logic group, the
//! CB-prefixed shifts and rotates, the bit instructions, and DAA.
use vstd::prelude::*;

use crate::context::Memory;
use crate::cpu::laws::lemma_operation_cycle;
use crate::cpu::registers::{
    carry_mask, half_carry_mask, has_bit, lemma_flag_write_read, lemma_flags_byte,
    lemma_flags_byte_reads, subtract_mask, with_bit, zero_mask, Registers,
};
use crate::cpu::semantics::shift_result;
use crate::cpu::{Direction, Operation, Registers8, RotationType, State, Target, CPU};

verus! {

/// Run for one machine cycle, the operation in progress is done: memory is
/// unchanged, register `r` holds `x`, the flags read `z n h c`, and no other
/// register changed.
pub open spec fn ends_with<T: Memory>(
    cpu: CPU<T>,
    m: T::V,
    r: Registers8,
    x: u8,
    z: bool,
    n: bool,
    h: bool,
    c: bool,
) -> bool {
    match cpu.run_operation(m, 1) {
        Some((d, mem)) => {
            &&& mem == m
            &&& d.state == State::ExecutionDone
            &&& d.reg8(r) == x
            &&& d.zero_flag() == z
            &&& d.subtract_flag() == n
            &&& d.half_carry_flag() == h
            &&& d.carry_flag() == c
            &&& d.registers == (Registers { f: d.registers.f, ..cpu.with_reg8(r, x).registers })
        },
        None => false,
    }
}

/// An operation whose first cycle ends it, run for one cycle.
proof fn lemma_one_cycle<T: Memory>(cpu: CPU<T>, m: T::V, op: Operation, done: CPU<T>, m2: T::V)
    requires
        cpu.state == State::Execute(op, 0),
        cpu.exec_body(m, op) == Some((done, m2)),
        done.state == State::ExecutionDone,
    ensures
        cpu.run_operation(m, 1) == Some((done, m2)),
{
    lemma_operation_cycle(cpu, m, op, 0);
    reveal_with_fuel(CPU::run_operation, 2);
}

/// The four flags written at once, and a register written after them.
proof fn lemma_znhc_then_register<T: Memory>(
    cpu: CPU<T>,
    r: Registers8,
    x: u8,
    z: bool,
    n: bool,
    h: bool,
    c: bool,
)
    ensures
        ({
            let d = cpu.with_znhc(z, n, h, c).with_reg8(r, x).done();
            &&& d.reg8(r) == x
            &&& d.zero_flag() == z
            &&& d.subtract_flag() == n
            &&& d.half_carry_flag() == h
            &&& d.carry_flag() == c
            &&& d.registers == (Registers { f: d.registers.f, ..cpu.with_reg8(r, x).registers })
            &&& d.state == State::ExecutionDone
        }),
{
    lemma_flags_byte(cpu.registers.f.0, z, n, h, c);
    lemma_flags_byte_reads(cpu.registers.f.0, z, n, h, c);
    let d = cpu.with_znhc(z, n, h, c).with_reg8(r, x).done();
    assert(d.registers =~= (Registers { f: d.registers.f, ..cpu.with_reg8(r, x).registers }));
}

/// The arithmetic and logic operations on a register operand end in one
/// cycle with what `alu_apply` computes.
proof fn lemma_alu_register<T: Memory>(cpu: CPU<T>, m: T::V, op: Operation, r: Registers8)
    requires
        cpu.state == State::Execute(op, 0),
        op == Operation::Add(Target::R8(Registers8::A), Target::R8(r)) || op == Operation::Adc(
            Target::R8(r),
        ) || op == Operation::Sub(Target::R8(r)) || op == Operation::Sbc(Target::R8(r)) || op
            == Operation::And(Target::R8(r)) || op == Operation::Xor(Target::R8(r)) || op
            == Operation::Or(Target::R8(r)) || op == Operation::Compare(Target::R8(r)),
    ensures
        cpu.run_operation(m, 1) == Some((cpu.alu_apply(op, cpu.reg8(r)), m)),
{
    assert(cpu.exec_body(m, op) == Some((cpu.alu_apply(op, cpu.reg8(r)), m))) by {
        reveal(CPU::exec_body);
        reveal(CPU::spec_alu);
    }
    lemma_one_cycle(cpu, m, op, cpu.alu_apply(op, cpu.reg8(r)), m);
}

proof fn lemma_difference_mod(a: u8, v: u8)
    ensures
        ((a - v + 512) % 256) as u8 == ((a - v + 256) % 256) as u8,
{
    assert((a - v + 512) % 256 == (a - v + 256) % 256);
}

/// The carry flag as the number 0 or 1.
pub open spec fn carry_in<T: Memory>(cpu: CPU<T>) -> int {
    if cpu.carry_flag() {
        1
    } else {
        0
    }
}

/// ADD A, r: A becomes A + r modulo 256; Z when that is 0, N clear, H the
/// carry out of bit 3, C the carry out of bit 7.
pub proof fn law_add_operation<T: Memory>(cpu: CPU<T>, m: T::V, r: Registers8)
    requires
        cpu.state == State::Execute(Operation::Add(Target::R8(Registers8::A), Target::R8(r)), 0),
    ensures
        ({
            let a = cpu.registers.a;
            let v = cpu.reg8(r);
            let x = ((a + v) % 256) as u8;
            ends_with(
                cpu,
                m,
                Registers8::A,
                x,
                x == 0,
                false,
                a % 16 + v % 16 > 15,
                a + v > 255,
            )
        }),
{
    let op = Operation::Add(Target::R8(Registers8::A), Target::R8(r));
    let a = cpu.registers.a;
    let v = cpu.reg8(r);
    lemma_alu_register(cpu, m, op, r);
    lemma_znhc_then_register(
        cpu,
        Registers8::A,
        ((a + v) % 256) as u8,
        (a + v) % 256 == 0,
        false,
        a % 16 + v % 16 >= 16,
        a + v >= 256,
    );
}

/// ADC A, r: A becomes A + r + carry modulo 256; Z when that is 0, N clear,
/// H and C the carries out of bits 3 and 7.
pub proof fn law_adc_operation<T: Memory>(cpu: CPU<T>, m: T::V, r: Registers8)
    requires
        cpu.state == State::Execute(Operation::Adc(Target::R8(r)), 0),
    ensures
        ({
            let a = cpu.registers.a;
            let v = cpu.reg8(r);
            let k = carry_in(cpu);
            let x = ((a + v + k) % 256) as u8;
            ends_with(
                cpu,
                m,
                Registers8::A,
                x,
                x == 0,
                false,
                a % 16 + v % 16 + k > 15,
                a + v + k > 255,
            )
        }),
{
    let op = Operation::Adc(Target::R8(r));
    let a = cpu.registers.a;
    let v = cpu.reg8(r);
    let k = carry_in(cpu);
    lemma_alu_register(cpu, m, op, r);
    lemma_znhc_then_register(
        cpu,
        Registers8::A,
        ((a + v + k) % 256) as u8,
        (a + v + k) % 256 == 0,
        false,
        a % 16 + v % 16 + k >= 16,
        a + v + k >= 256,
    );
}

/// SUB r: A becomes A - r modulo 256; Z when that is 0, N set, H the borrow
/// into bit 4, C the borrow (r greater than A).
pub proof fn law_sub_operation<T: Memory>(cpu: CPU<T>, m: T::V, r: Registers8)
    requires
        cpu.state == State::Execute(Operation::Sub(Target::R8(r)), 0),
    ensures
        ({
            let a = cpu.registers.a;
            let v = cpu.reg8(r);
            let x = ((a - v + 256) % 256) as u8;
            ends_with(cpu, m, Registers8::A, x, x == 0, true, a % 16 < v % 16, a < v)
        }),
{
    let op = Operation::Sub(Target::R8(r));
    let a = cpu.registers.a;
    let v = cpu.reg8(r);
    lemma_alu_register(cpu, m, op, r);
    let x = ((a - v + 512) % 256) as u8;
    lemma_difference_mod(a, v);
    lemma_znhc_then_register(cpu, Registers8::A, x, x == 0, true, a % 16 < v % 16, a < v);
}

/// SBC A, r: A becomes A - r - carry modulo 256; Z when that is 0, N set, H
/// and C the borrows into bits 4 and 8.
pub proof fn law_sbc_operation<T: Memory>(cpu: CPU<T>, m: T::V, r: Registers8)
    requires
        cpu.state == State::Execute(Operation::Sbc(Target::R8(r)), 0),
    ensures
        ({
            let a = cpu.registers.a;
            let v = cpu.reg8(r);
            let k = carry_in(cpu);
            let x = ((a - v - k + 512) % 256) as u8;
            ends_with(cpu, m, Registers8::A, x, x == 0, true, a % 16 < v % 16 + k, a < v + k)
        }),
{
    let op = Operation::Sbc(Target::R8(r));
    let a = cpu.registers.a;
    let v = cpu.reg8(r);
    let k = carry_in(cpu);
    lemma_alu_register(cpu, m, op, r);
    let x = ((a - v - k + 512) % 256) as u8;
    lemma_znhc_then_register(cpu, Registers8::A, x, x == 0, true, a % 16 < v % 16 + k, a < v + k);
}

/// AND r: A becomes A & r; Z when that is 0, N clear, H set, C clear.
pub proof fn law_and_operation<T: Memory>(cpu: CPU<T>, m: T::V, r: Registers8)
    requires
        cpu.state == State::Execute(Operation::And(Target::R8(r)), 0),
    ensures
        ends_with(
            cpu,
            m,
            Registers8::A,
            cpu.registers.a & cpu.reg8(r),
            cpu.registers.a & cpu.reg8(r) == 0,
            false,
            true,
            false,
        ),
{
    let x = cpu.registers.a & cpu.reg8(r);
    lemma_alu_register(cpu, m, Operation::And(Target::R8(r)), r);
    lemma_znhc_then_register(cpu, Registers8::A, x, x == 0, false, true, false);
}

/// XOR r: A becomes A ^ r; Z when that is 0, N H C clear.
pub proof fn law_xor_operation<T: Memory>(cpu: CPU<T>, m: T::V, r: Registers8)
    requires
        cpu.state == State::Execute(Operation::Xor(Target::R8(r)), 0),
    ensures
        ends_with(
            cpu,
            m,
            Registers8::A,
            cpu.registers.a ^ cpu.reg8(r),
            cpu.registers.a ^ cpu.reg8(r) == 0,
            false,
            false,
            false,
        ),
{
    let x = cpu.registers.a ^ cpu.reg8(r);
    lemma_alu_register(cpu, m, Operation::Xor(Target::R8(r)), r);
    lemma_znhc_then_register(cpu, Registers8::A, x, x == 0, false, false, false);
}

/// OR r: A becomes A | r; Z when that is 0, N H C clear.
pub proof fn law_or_operation<T: Memory>(cpu: CPU<T>, m: T::V, r: Registers8)
    requires
        cpu.state == State::Execute(Operation::Or(Target::R8(r)), 0),
    ensures
        ends_with(
            cpu,
            m,
            Registers8::A,
            cpu.registers.a | cpu.reg8(r),
            cpu.registers.a | cpu.reg8(r) == 0,
            false,
            false,
            false,
        ),
{
    let x = cpu.registers.a | cpu.reg8(r);
    lemma_alu_register(cpu, m, Operation::Or(Target::R8(r)), r);
    lemma_znhc_then_register(cpu, Registers8::A, x, x == 0, false, false, false);
}

/// CP r: A is unchanged; the flags are those of A - r: Z when A equals r, N
/// set, H the borrow into bit 4, C when r is greater than A.
pub proof fn law_compare_operation<T: Memory>(cpu: CPU<T>, m: T::V, r: Registers8)
    requires
        cpu.state == State::Execute(Operation::Compare(Target::R8(r)), 0),
    ensures
        ({
            let a = cpu.registers.a;
            let v = cpu.reg8(r);
            ends_with(cpu, m, Registers8::A, a, a == v, true, a % 16 < v % 16, a < v)
        }),
{
    let a = cpu.registers.a;
    let v = cpu.reg8(r);
    lemma_alu_register(cpu, m, Operation::Compare(Target::R8(r)), r);
    let x = ((a - v + 512) % 256) as u8;
    assert((x == 0) == (a == v));
    lemma_flags_byte(cpu.registers.f.0, x == 0, true, a % 16 < v % 16, a < v);
    lemma_flags_byte_reads(cpu.registers.f.0, x == 0, true, a % 16 < v % 16, a < v);
    let d = cpu.alu_apply(Operation::Compare(Target::R8(r)), v);
    assert(d.registers =~= (Registers { f: d.registers.f, ..cpu.with_reg8(Registers8::A, a).registers }));
}

/// The shifts and rotates on a register operand end in one cycle with what
/// `shift_result` computes.
proof fn lemma_shift_register<T: Memory>(cpu: CPU<T>, m: T::V, op: Operation, r: Registers8)
    requires
        cpu.state == State::Execute(op, 0),
        op == Operation::Rotate(RotationType::Circular, Direction::Left, Target::R8(r)) || op
            == Operation::Rotate(RotationType::Circular, Direction::Right, Target::R8(r)) || op
            == Operation::Rotate(RotationType::NonCircular, Direction::Left, Target::R8(r)) || op
            == Operation::Rotate(RotationType::NonCircular, Direction::Right, Target::R8(r)) || op
            == Operation::ShiftArithmetic(Direction::Left, Target::R8(r)) || op
            == Operation::ShiftArithmetic(Direction::Right, Target::R8(r)) || op == Operation::Swap(
            Target::R8(r),
        ) || op == Operation::ShiftRightLogical(Target::R8(r)),
    ensures
        ({
            let (res, c) = shift_result(op, cpu.reg8(r), cpu.carry_flag());
            cpu.run_operation(m, 1) == Some(
                (cpu.with_znhc(res == 0, false, false, c).with_reg8(r, res).done(), m),
            )
        }),
{
    let (res, c) = shift_result(op, cpu.reg8(r), cpu.carry_flag());
    let d = cpu.with_znhc(res == 0, false, false, c).with_reg8(r, res).done();
    assert(cpu.exec_body(m, op) == Some((d, m))) by {
        reveal(CPU::exec_body);
        reveal(CPU::spec_shift);
    }
    lemma_one_cycle(cpu, m, op, d, m);
}

/// The byte arithmetic of the shifts and rotates, in machine operators.
proof fn lemma_shift_bits(v: u8)
    ensures
        ((v * 2) % 256 + v / 128) as u8 == (v << 1u8) | (v >> 7u8),
        (v / 2 + (v % 2) * 128) as u8 == (v >> 1u8) | (v << 7u8),
        ((v * 2) % 256 + 1) as u8 == (v << 1u8) | 1u8,
        ((v * 2) % 256) as u8 == v << 1u8,
        (v / 2 + 128) as u8 == (v >> 1u8) | 0x80u8,
        (v / 2 + (v / 128) * 128) as u8 == (v >> 1u8) | (v & 0x80u8),
        ((v % 16) * 16 + v / 16) as u8 == (v << 4u8) | (v >> 4u8),
        (v / 2) as u8 == v >> 1u8,
        (v >= 128) == (v & 0x80u8 != 0u8),
        (v % 2 == 1) == (v & 1u8 != 0u8),
        (v << 1u8) | 0u8 == v << 1u8,
        (v >> 1u8) | 0u8 == v >> 1u8,
{
    lemma_shift_bits_0(v);
    lemma_shift_bits_1(v);
    lemma_shift_bits_2(v);
    lemma_shift_bits_3(v);
    lemma_shift_bits_4(v);
    lemma_shift_bits_5(v);
    lemma_shift_flag_bits(v);
}

proof fn lemma_shift_bits_0(v: u8)
    by (bit_vector)
    ensures
        ((v * 2) % 256 + v / 128) as u8 == (v << 1u8) | (v >> 7u8),
{
}

proof fn lemma_shift_bits_1(v: u8)
    by (bit_vector)
    ensures
        (v / 2 + (v % 2) * 128) as u8 == (v >> 1u8) | (v << 7u8),
{
}

proof fn lemma_shift_bits_2(v: u8)
    by (bit_vector)
    ensures
        ((v * 2) % 256 + 1) as u8 == (v << 1u8) | 1u8,
{
}

proof fn lemma_shift_bits_3(v: u8)
    by (bit_vector)
    ensures
        ((v * 2) % 256) as u8 == v << 1u8,
{
}

proof fn lemma_shift_bits_4(v: u8)
    by (bit_vector)
    ensures
        (v / 2 + 128) as u8 == (v >> 1u8) | 0x80u8,
{
}

proof fn lemma_shift_bits_5(v: u8)
    by (bit_vector)
    ensures
        (v / 2 + (v / 128) * 128) as u8 == (v >> 1u8) | (v & 0x80u8),
{
}

proof fn lemma_shift_flag_bits(v: u8)
    by (bit_vector)
    ensures
        ((v % 16) * 16 + v / 16) as u8 == (v << 4u8) | (v >> 4u8),
        (v / 2) as u8 == v >> 1u8,
        (v >= 128) == (v & 0x80u8 != 0u8),
        (v % 2 == 1) == (v & 1u8 != 0u8),
        (v << 1u8) | 0u8 == v << 1u8,
        (v >> 1u8) | 0u8 == v >> 1u8,
{
}

/// RLC r: r rotates left, bit 7 going to bit 0 and to C; Z when the result
/// is 0, N and H clear.
pub proof fn law_rotate_left_circular<T: Memory>(cpu: CPU<T>, m: T::V, r: Registers8)
    requires
        cpu.state == State::Execute(
            Operation::Rotate(RotationType::Circular, Direction::Left, Target::R8(r)),
            0,
        ),
    ensures
        ({
            let v = cpu.reg8(r);
            let x = (v << 1u8) | (v >> 7u8);
            ends_with(cpu, m, r, x, x == 0, false, false, v & 0x80u8 != 0)
        }),
{
    let op = Operation::Rotate(RotationType::Circular, Direction::Left, Target::R8(r));
    let v = cpu.reg8(r);
    lemma_shift_register(cpu, m, op, r);
    lemma_shift_bits(v);
    let x = (v << 1u8) | (v >> 7u8);
    lemma_znhc_then_register(cpu, r, x, x == 0, false, false, v & 0x80u8 != 0);
}

/// RRC r: r rotates right, bit 0 going to bit 7 and to C; Z when the result
/// is 0, N and H clear.
pub proof fn law_rotate_right_circular<T: Memory>(cpu: CPU<T>, m: T::V, r: Registers8)
    requires
        cpu.state == State::Execute(
            Operation::Rotate(RotationType::Circular, Direction::Right, Target::R8(r)),
            0,
        ),
    ensures
        ({
            let v = cpu.reg8(r);
            let x = (v >> 1u8) | (v << 7u8);
            ends_with(cpu, m, r, x, x == 0, false, false, v & 1u8 != 0)
        }),
{
    let op = Operation::Rotate(RotationType::Circular, Direction::Right, Target::R8(r));
    let v = cpu.reg8(r);
    lemma_shift_register(cpu, m, op, r);
    lemma_shift_bits(v);
    let x = (v >> 1u8) | (v << 7u8);
    lemma_znhc_then_register(cpu, r, x, x == 0, false, false, v & 1u8 != 0);
}

/// RL r: r rotates left through the carry: the old C enters bit 0 and bit 7
/// goes to C; Z when the result is 0, N and H clear.
pub proof fn law_rotate_left<T: Memory>(cpu: CPU<T>, m: T::V, r: Registers8)
    requires
        cpu.state == State::Execute(
            Operation::Rotate(RotationType::NonCircular, Direction::Left, Target::R8(r)),
            0,
        ),
    ensures
        ({
            let v = cpu.reg8(r);
            let x = (v << 1u8) | (if cpu.carry_flag() {
                1u8
            } else {
                0u8
            });
            ends_with(cpu, m, r, x, x == 0, false, false, v & 0x80u8 != 0)
        }),
{
    let op = Operation::Rotate(RotationType::NonCircular, Direction::Left, Target::R8(r));
    let v = cpu.reg8(r);
    lemma_shift_register(cpu, m, op, r);
    lemma_shift_bits(v);
    let x = (v << 1u8) | (if cpu.carry_flag() {
        1u8
    } else {
        0u8
    });
    lemma_znhc_then_register(cpu, r, x, x == 0, false, false, v & 0x80u8 != 0);
}

/// RR r: r rotates right through the carry: the old C enters bit 7 and bit 0
/// goes to C; Z when the result is 0, N and H clear.
pub proof fn law_rotate_right<T: Memory>(cpu: CPU<T>, m: T::V, r: Registers8)
    requires
        cpu.state == State::Execute(
            Operation::Rotate(RotationType::NonCircular, Direction::Right, Target::R8(r)),
            0,
        ),
    ensures
        ({
            let v = cpu.reg8(r);
            let x = (v >> 1u8) | (if cpu.carry_flag() {
                0x80u8
            } else {
                0u8
            });
            ends_with(cpu, m, r, x, x == 0, false, false, v & 1u8 != 0)
        }),
{
    let op = Operation::Rotate(RotationType::NonCircular, Direction::Right, Target::R8(r));
    let v = cpu.reg8(r);
    lemma_shift_register(cpu, m, op, r);
    lemma_shift_bits(v);
    let x = (v >> 1u8) | (if cpu.carry_flag() {
        0x80u8
    } else {
        0u8
    });
    lemma_znhc_then_register(cpu, r, x, x == 0, false, false, v & 1u8 != 0);
}

/// SLA r: r shifts left, 0 entering bit 0 and bit 7 going to C; Z when the
/// result is 0, N and H clear.
pub proof fn law_shift_left_arithmetic<T: Memory>(cpu: CPU<T>, m: T::V, r: Registers8)
    requires
        cpu.state == State::Execute(Operation::ShiftArithmetic(Direction::Left, Target::R8(r)), 0),
    ensures
        ({
            let v = cpu.reg8(r);
            let x = v << 1u8;
            ends_with(cpu, m, r, x, x == 0, false, false, v & 0x80u8 != 0)
        }),
{
    let op = Operation::ShiftArithmetic(Direction::Left, Target::R8(r));
    let v = cpu.reg8(r);
    lemma_shift_register(cpu, m, op, r);
    lemma_shift_bits(v);
    let x = v << 1u8;
    lemma_znhc_then_register(cpu, r, x, x == 0, false, false, v & 0x80u8 != 0);
}

/// SRA r: r shifts right keeping its sign: bit 7 stays, bit 0 goes to C; Z
/// when the result is 0, N and H clear.
pub proof fn law_shift_right_arithmetic<T: Memory>(cpu: CPU<T>, m: T::V, r: Registers8)
    requires
        cpu.state == State::Execute(Operation::ShiftArithmetic(Direction::Right, Target::R8(r)), 0),
    ensures
        ({
            let v = cpu.reg8(r);
            let x = (v >> 1u8) | (v & 0x80u8);
            ends_with(cpu, m, r, x, x == 0, false, false, v & 1u8 != 0)
        }),
{
    let op = Operation::ShiftArithmetic(Direction::Right, Target::R8(r));
    let v = cpu.reg8(r);
    lemma_shift_register(cpu, m, op, r);
    lemma_shift_bits(v);
    let x = (v >> 1u8) | (v & 0x80u8);
    lemma_znhc_then_register(cpu, r, x, x == 0, false, false, v & 1u8 != 0);
}

/// SWAP r: the two nibbles of r change places; Z when the result is 0, N H C
/// clear.
pub proof fn law_swap<T: Memory>(cpu: CPU<T>, m: T::V, r: Registers8)
    requires
        cpu.state == State::Execute(Operation::Swap(Target::R8(r)), 0),
    ensures
        ({
            let v = cpu.reg8(r);
            let x = (v << 4u8) | (v >> 4u8);
            ends_with(cpu, m, r, x, x == 0, false, false, false)
        }),
{
    let op = Operation::Swap(Target::R8(r));
    let v = cpu.reg8(r);
    lemma_shift_register(cpu, m, op, r);
    lemma_shift_bits(v);
    let x = (v << 4u8) | (v >> 4u8);
    lemma_znhc_then_register(cpu, r, x, x == 0, false, false, false);
}

/// SRL r: r shifts right, 0 entering bit 7 and bit 0 going to C; Z when the
/// result is 0, N and H clear.
pub proof fn law_shift_right_logical<T: Memory>(cpu: CPU<T>, m: T::V, r: Registers8)
    requires
        cpu.state == State::Execute(Operation::ShiftRightLogical(Target::R8(r)), 0),
    ensures
        ({
            let v = cpu.reg8(r);
            let x = v >> 1u8;
            ends_with(cpu, m, r, x, x == 0, false, false, v & 1u8 != 0)
        }),
{
    let op = Operation::ShiftRightLogical(Target::R8(r));
    let v = cpu.reg8(r);
    lemma_shift_register(cpu, m, op, r);
    lemma_shift_bits(v);
    let x = v >> 1u8;
    lemma_znhc_then_register(cpu, r, x, x == 0, false, false, v & 1u8 != 0);
}

/// DAA corrects A to packed BCD. After a subtraction (N set) it subtracts 6
/// when H is set and 0x60 when C is set, modulo 256, and keeps C. After an
/// addition it adds 6 when H is set or the low digit is above 9, and 0x60
/// (setting C) when C is set or A is above 0x99. Z tells whether A is then 0,
/// H is cleared and N kept.
pub proof fn law_decimal_adjust<T: Memory>(cpu: CPU<T>, m: T::V)
    requires
        cpu.state == State::Execute(Operation::DecimalAdjustAccumulator, 0),
    ensures
        ({
            let a = cpu.registers.a;
            let n = cpu.subtract_flag();
            let h = cpu.half_carry_flag();
            let c = cpu.carry_flag();
            let low = if n {
                h
            } else {
                h || a % 16 > 9
            };
            let high = if n {
                c
            } else {
                c || a > 0x99
            };
            let adjustment = (if low {
                0x06int
            } else {
                0int
            }) + (if high {
                0x60int
            } else {
                0int
            });
            let x = if n {
                ((a + 256 - adjustment) % 256) as u8
            } else {
                ((a + adjustment) % 256) as u8
            };
            ends_with(cpu, m, Registers8::A, x, x == 0, n, false, high)
        }),
{
    let op = Operation::DecimalAdjustAccumulator;
    let d = cpu.spec_daa();
    assert(cpu.exec_body(m, op) == Some((d, m))) by {
        reveal(CPU::exec_body);
    }
    reveal(CPU::spec_daa);
    lemma_one_cycle(cpu, m, op, d, m);
    let a = cpu.registers.a;
    let f0 = cpu.registers.f.0;
    let high = if cpu.subtract_flag() {
        cpu.carry_flag()
    } else {
        cpu.carry_flag() || a > 0x99
    };
    let f1 = if !cpu.subtract_flag() && high {
        with_bit(f0, carry_mask(), true)
    } else {
        f0
    };
    lemma_flag_write_read(f0, carry_mask(), subtract_mask(), true);
    lemma_flag_write_read(f0, carry_mask(), zero_mask(), true);
    let x = d.registers.a;
    lemma_flag_write_read(f1, zero_mask(), subtract_mask(), x == 0);
    lemma_flag_write_read(f1, zero_mask(), carry_mask(), x == 0);
    let f2 = with_bit(f1, zero_mask(), x == 0);
    lemma_flag_write_read(f2, half_carry_mask(), subtract_mask(), false);
    lemma_flag_write_read(f2, half_carry_mask(), carry_mask(), false);
    lemma_flag_write_read(f2, half_carry_mask(), zero_mask(), false);
    lemma_flag_write_read(f1, zero_mask(), half_carry_mask(), x == 0);
    assert(d.registers =~= (Registers { f: d.registers.f, ..cpu.with_reg8(Registers8::A, x).registers }));
}

/// Whether both nibbles of `x` are decimal digits.
pub open spec fn is_bcd(x: u8) -> bool {
    x / 16 <= 9 && x % 16 <= 9
}

/// The number 0 to 99 that the packed BCD byte `x` writes.
pub open spec fn bcd_value(x: u8) -> int {
    (x / 16) * 10 + x % 16
}

/// The packed BCD byte of `n` (0 to 99).
pub open spec fn to_bcd(n: int) -> u8 {
    ((n / 10) * 16 + n % 10) as u8
}

proof fn lemma_bcd_add_bits(a: u8, v: u8)
    by (bit_vector)
    requires
        a / 16 <= 9,
        a % 16 <= 9,
        v / 16 <= 9,
        v % 16 <= 9,
    ensures
        ({
            let x = ((a + v) % 256) as u8;
            let low = a % 16 + v % 16 > 15 || x % 16 > 9;
            let high = a + v > 255 || x > 0x99;
            let sum = (a / 16) * 10 + a % 16 + (v / 16) * 10 + v % 16;
            &&& ((x + (if low {
                6int
            } else {
                0int
            }) + (if high {
                0x60int
            } else {
                0int
            })) % 256) as u8 == (((sum % 100) / 10) * 16 + (sum % 100) % 10) as u8
            &&& high == (sum >= 100)
        }),
{
}

proof fn lemma_bcd_sub_bits(a: u8, v: u8)
    by (bit_vector)
    requires
        a / 16 <= 9,
        a % 16 <= 9,
        v / 16 <= 9,
        v % 16 <= 9,
    ensures
        ({
            let x = ((a - v + 256) % 256) as u8;
            let adjustment = (if a % 16 < v % 16 {
                6int
            } else {
                0int
            }) + (if a < v {
                0x60int
            } else {
                0int
            });
            let diff = ((a / 16) * 10 + a % 16) - ((v / 16) * 10 + v % 16) + 100;
            &&& ((x + 256 - adjustment) % 256) as u8 == (((diff % 100) / 10) * 16 + (diff % 100)
                % 10) as u8
            &&& (a < v) == (diff < 100)
        }),
{
}

/// ADD then DAA adds packed BCD: from two BCD bytes, A holds the BCD of
/// their sum modulo 100, and C tells whether the sum reached 100.
pub proof fn law_bcd_addition<T: Memory>(cpu: CPU<T>, m: T::V, r: Registers8)
    requires
        cpu.state == State::Execute(Operation::Add(Target::R8(Registers8::A), Target::R8(r)), 0),
        is_bcd(cpu.registers.a),
        is_bcd(cpu.reg8(r)),
    ensures
        ({
            let sum = bcd_value(cpu.registers.a) + bcd_value(cpu.reg8(r));
            match cpu.run_operation(m, 1) {
                Some((c1, m1)) => match (CPU {
                    state: State::Execute(Operation::DecimalAdjustAccumulator, 0),
                    ..c1
                }).run_operation(m1, 1) {
                    Some((c2, m2)) => {
                        &&& m2 == m
                        &&& c2.registers.a == to_bcd(sum % 100)
                        &&& c2.carry_flag() == (sum >= 100)
                    },
                    None => false,
                },
                None => false,
            }
        }),
{
    law_add_operation(cpu, m, r);
    let (c1, m1) = cpu.run_operation(m, 1)->0;
    let e1 = CPU { state: State::Execute(Operation::DecimalAdjustAccumulator, 0), ..c1 };
    law_decimal_adjust(e1, m1);
    lemma_bcd_add_bits(cpu.registers.a, cpu.reg8(r));
}

/// SUB then DAA subtracts packed BCD: from two BCD bytes, A holds the BCD
/// of their difference modulo 100, and C tells whether it borrowed.
pub proof fn law_bcd_subtraction<T: Memory>(cpu: CPU<T>, m: T::V, r: Registers8)
    requires
        cpu.state == State::Execute(Operation::Sub(Target::R8(r)), 0),
        is_bcd(cpu.registers.a),
        is_bcd(cpu.reg8(r)),
    ensures
        ({
            let diff = bcd_value(cpu.registers.a) - bcd_value(cpu.reg8(r));
            match cpu.run_operation(m, 1) {
                Some((c1, m1)) => match (CPU {
                    state: State::Execute(Operation::DecimalAdjustAccumulator, 0),
                    ..c1
                }).run_operation(m1, 1) {
                    Some((c2, m2)) => {
                        &&& m2 == m
                        &&& c2.registers.a == to_bcd((diff + 100) % 100)
                        &&& c2.carry_flag() == (diff < 0)
                    },
                    None => false,
                },
                None => false,
            }
        }),
{
    law_sub_operation(cpu, m, r);
    let (c1, m1) = cpu.run_operation(m, 1)->0;
    let e1 = CPU { state: State::Execute(Operation::DecimalAdjustAccumulator, 0), ..c1 };
    law_decimal_adjust(e1, m1);
    lemma_bcd_sub_bits(cpu.registers.a, cpu.reg8(r));
}

proof fn lemma_bit_ops(v: u8, b: u8, i: u8)
    by (bit_vector)
    requires
        b < 8,
        i < 8,
    ensures
        ((v & !(1u8 << b)) >> i) & 1u8 == (if i == b {
            0u8
        } else {
            (v >> i) & 1u8
        }),
        ((v | (1u8 << b)) >> i) & 1u8 == (if i == b {
            1u8
        } else {
            (v >> i) & 1u8
        }),
        (v & (1u8 << b) == 0u8) == ((v >> b) & 1u8 == 0u8),
{
}

/// BIT b, r: Z is set exactly when bit b of r is 0; N clear, H set, C kept;
/// r and the other registers are unchanged.
pub proof fn law_test_bit<T: Memory>(cpu: CPU<T>, m: T::V, b: u8, r: Registers8)
    requires
        b < 8,
        cpu.state == State::Execute(Operation::TestBit(b, Target::R8(r)), 0),
    ensures
        ends_with(
            cpu,
            m,
            r,
            cpu.reg8(r),
            (cpu.reg8(r) >> b) & 1u8 == 0,
            false,
            true,
            cpu.carry_flag(),
        ),
{
    let op = Operation::TestBit(b, Target::R8(r));
    let v = cpu.reg8(r);
    let z = v & (1u8 << b) == 0;
    let d = cpu.with_flag(zero_mask(), z).with_flag(subtract_mask(), false).with_flag(
        half_carry_mask(),
        true,
    ).done();
    assert(cpu.exec_body(m, op) == Some((d, m))) by {
        reveal(CPU::exec_body);
        reveal(CPU::spec_test_bit);
    }
    lemma_one_cycle(cpu, m, op, d, m);
    lemma_bit_ops(v, b, 0);
    let f0 = cpu.registers.f.0;
    lemma_flag_write_read(f0, zero_mask(), carry_mask(), z);
    let f1 = with_bit(f0, zero_mask(), z);
    lemma_flag_write_read(f1, subtract_mask(), carry_mask(), false);
    lemma_flag_write_read(f1, subtract_mask(), zero_mask(), false);
    let f2 = with_bit(f1, subtract_mask(), false);
    lemma_flag_write_read(f2, half_carry_mask(), carry_mask(), true);
    lemma_flag_write_read(f2, half_carry_mask(), zero_mask(), true);
    lemma_flag_write_read(f2, half_carry_mask(), subtract_mask(), true);
    assert(d.registers =~= (Registers { f: d.registers.f, ..cpu.with_reg8(r, v).registers }));
}

/// RES b, r: bit b of r becomes 0, whatever it was, and every other bit of
/// r is kept; the flags and the other registers are unchanged.
pub proof fn law_reset_bit<T: Memory>(cpu: CPU<T>, m: T::V, b: u8, r: Registers8)
    requires
        b < 8,
        cpu.state == State::Execute(Operation::ResetBit(b, Target::R8(r)), 0),
    ensures
        match cpu.run_operation(m, 1) {
            Some((d, mem)) => {
                &&& mem == m
                &&& d.state == State::ExecutionDone
                &&& d.registers.f == cpu.registers.f
                &&& d.registers == cpu.with_reg8(r, d.reg8(r)).registers
                &&& (d.reg8(r) >> b) & 1u8 == 0
                &&& forall|i: u8|
                    i < 8 && i != b ==> (#[trigger] (d.reg8(r) >> i)) & 1u8 == (cpu.reg8(r) >> i)
                        & 1u8
            },
            None => false,
        },
{
    let op = Operation::ResetBit(b, Target::R8(r));
    let v = cpu.reg8(r);
    let x = v & !(1u8 << b);
    let d = cpu.with_reg8(r, x).done();
    assert(cpu.exec_body(m, op) == Some((d, m))) by {
        reveal(CPU::exec_body);
        reveal(CPU::spec_write_bit);
    }
    lemma_one_cycle(cpu, m, op, d, m);
    assert(d.reg8(r) == x);
    lemma_bit_ops(v, b, b);
    assert forall|i: u8| i < 8 && i != b implies (#[trigger] (x >> i)) & 1u8 == (v >> i) & 1u8 by {
        lemma_bit_ops(v, b, i);
    }
    assert(d.registers =~= cpu.with_reg8(r, d.reg8(r)).registers);
}

/// SET b, r: bit b of r becomes 1, whatever it was, and every other bit of
/// r is kept; the flags and the other registers are unchanged.
pub proof fn law_set_bit<T: Memory>(cpu: CPU<T>, m: T::V, b: u8, r: Registers8)
    requires
        b < 8,
        cpu.state == State::Execute(Operation::SetBit(b, Target::R8(r)), 0),
    ensures
        match cpu.run_operation(m, 1) {
            Some((d, mem)) => {
                &&& mem == m
                &&& d.state == State::ExecutionDone
                &&& d.registers.f == cpu.registers.f
                &&& d.registers == cpu.with_reg8(r, d.reg8(r)).registers
                &&& (d.reg8(r) >> b) & 1u8 == 1
                &&& forall|i: u8|
                    i < 8 && i != b ==> (#[trigger] (d.reg8(r) >> i)) & 1u8 == (cpu.reg8(r) >> i)
                        & 1u8
            },
            None => false,
        },
{
    let op = Operation::SetBit(b, Target::R8(r));
    let v = cpu.reg8(r);
    let x = v | (1u8 << b);
    let d = cpu.with_reg8(r, x).done();
    assert(cpu.exec_body(m, op) == Some((d, m))) by {
        reveal(CPU::exec_body);
        reveal(CPU::spec_write_bit);
    }
    lemma_one_cycle(cpu, m, op, d, m);
    assert(d.reg8(r) == x);
    lemma_bit_ops(v, b, b);
    assert forall|i: u8| i < 8 && i != b implies (#[trigger] (x >> i)) & 1u8 == (v >> i) & 1u8 by {
        lemma_bit_ops(v, b, i);
    }
    assert(d.registers =~= cpu.with_reg8(r, d.reg8(r)).registers);
}

/// The accumulator rotates end in one cycle with what `shift_result`
/// computes for A, and Z, N and H clear.
proof fn lemma_rotate_accumulator<T: Memory>(cpu: CPU<T>, m: T::V, rt: RotationType, dir: Direction)
    requires
        cpu.state == State::Execute(Operation::RotateAccumulator(rt, dir), 0),
    ensures
        ({
            let (res, c) = shift_result(
                Operation::Rotate(rt, dir, Target::R8(Registers8::A)),
                cpu.registers.a,
                cpu.carry_flag(),
            );
            ends_with(cpu, m, Registers8::A, res, false, false, false, c)
        }),
{
    let op = Operation::RotateAccumulator(rt, dir);
    let (res, c) = shift_result(
        Operation::Rotate(rt, dir, Target::R8(Registers8::A)),
        cpu.registers.a,
        cpu.carry_flag(),
    );
    let d = cpu.with_reg8(Registers8::A, res).with_znhc(false, false, false, c).done();
    assert(cpu.exec_body(m, op) == Some((d, m))) by {
        reveal(CPU::exec_body);
        reveal(CPU::spec_rotate_accumulator);
    }
    lemma_one_cycle(cpu, m, op, d, m);
    lemma_flags_byte(cpu.registers.f.0, false, false, false, c);
    lemma_flags_byte_reads(cpu.registers.f.0, false, false, false, c);
    assert(d.registers =~= (Registers { f: d.registers.f, ..cpu.with_reg8(Registers8::A, res).registers }));
}

/// RLCA, RRCA, RLA, RRA rotate A as RLC, RRC, RL and RR do, but leave Z,
/// N and H clear: RLCA gives (A << 1) | (A >> 7), RRCA (A >> 1) | (A << 7), RLA
/// (A << 1) | C, RRA (A >> 1) | (C << 7); C takes the bit shifted out.
pub proof fn law_rotate_accumulator<T: Memory>(cpu: CPU<T>, m: T::V, rt: RotationType, dir: Direction)
    requires
        cpu.state == State::Execute(Operation::RotateAccumulator(rt, dir), 0),
    ensures
        ({
            let a = cpu.registers.a;
            let k = cpu.carry_flag();
            let x = match (rt, dir) {
                (RotationType::Circular, Direction::Left) => (a << 1u8) | (a >> 7u8),
                (RotationType::Circular, Direction::Right) => (a >> 1u8) | (a << 7u8),
                (RotationType::NonCircular, Direction::Left) => (a << 1u8) | (if k {
                    1u8
                } else {
                    0u8
                }),
                (RotationType::NonCircular, Direction::Right) => (a >> 1u8) | (if k {
                    0x80u8
                } else {
                    0u8
                }),
            };
            let out = match dir {
                Direction::Left => a & 0x80u8 != 0,
                Direction::Right => a & 1u8 != 0,
            };
            ends_with(cpu, m, Registers8::A, x, false, false, false, out)
        }),
{
    lemma_rotate_accumulator(cpu, m, rt, dir);
    lemma_shift_bits(cpu.registers.a);
}

/// CPL: A becomes its complement !A; N and H are set, Z and C kept.
pub proof fn law_complement_accumulator<T: Memory>(cpu: CPU<T>, m: T::V)
    requires
        cpu.state == State::Execute(Operation::ComplementAccumulator, 0),
    ensures
        ends_with(
            cpu,
            m,
            Registers8::A,
            !cpu.registers.a,
            cpu.zero_flag(),
            true,
            true,
            cpu.carry_flag(),
        ),
{
    let op = Operation::ComplementAccumulator;
    let d = cpu.with_reg8(Registers8::A, !cpu.registers.a).with_flag(subtract_mask(), true).with_flag(
        half_carry_mask(),
        true,
    ).done();
    assert(cpu.exec_body(m, op) == Some((d, m))) by {
        reveal(CPU::exec_body);
    }
    lemma_one_cycle(cpu, m, op, d, m);
    let f0 = cpu.registers.f.0;
    let f1 = with_bit(f0, subtract_mask(), true);
    lemma_flag_write_read(f0, subtract_mask(), zero_mask(), true);
    lemma_flag_write_read(f0, subtract_mask(), carry_mask(), true);
    lemma_flag_write_read(f1, half_carry_mask(), zero_mask(), true);
    lemma_flag_write_read(f1, half_carry_mask(), carry_mask(), true);
    lemma_flag_write_read(f1, half_carry_mask(), subtract_mask(), true);
    assert(d.registers =~= (Registers {
        f: d.registers.f,
        ..cpu.with_reg8(Registers8::A, !cpu.registers.a).registers
    }));
}

/// SCF sets C and CCF complements it; both clear N and H and keep Z and A.
pub proof fn law_carry_flag_operations<T: Memory>(cpu: CPU<T>, m: T::V, complement: bool)
    requires
        cpu.state == State::Execute(
            if complement {
                Operation::ComplementCarry
            } else {
                Operation::SetCarry
            },
            0,
        ),
    ensures
        ends_with(
            cpu,
            m,
            Registers8::A,
            cpu.registers.a,
            cpu.zero_flag(),
            false,
            false,
            if complement {
                !cpu.carry_flag()
            } else {
                true
            },
        ),
{
    let op = if complement {
        Operation::ComplementCarry
    } else {
        Operation::SetCarry
    };
    let c = if complement {
        !cpu.carry_flag()
    } else {
        true
    };
    let d = cpu.with_flag(subtract_mask(), false).with_flag(half_carry_mask(), false).with_flag(
        carry_mask(),
        c,
    ).done();
    assert(cpu.exec_body(m, op) == Some((d, m))) by {
        reveal(CPU::exec_body);
    }
    lemma_one_cycle(cpu, m, op, d, m);
    let f0 = cpu.registers.f.0;
    let f1 = with_bit(f0, subtract_mask(), false);
    let f2 = with_bit(f1, half_carry_mask(), false);
    lemma_flag_write_read(f0, subtract_mask(), zero_mask(), false);
    lemma_flag_write_read(f1, half_carry_mask(), zero_mask(), false);
    lemma_flag_write_read(f2, carry_mask(), zero_mask(), c);
    lemma_flag_write_read(f1, half_carry_mask(), subtract_mask(), false);
    lemma_flag_write_read(f2, carry_mask(), subtract_mask(), c);
    lemma_flag_write_read(f2, carry_mask(), half_carry_mask(), c);
    assert(d.registers =~= (Registers {
        f: d.registers.f,
        ..cpu.with_reg8(Registers8::A, cpu.registers.a).registers
    }));
}

/// The three flags written after a register, as INC and DEC write them.
proof fn lemma_register_then_znh<T: Memory>(cpu: CPU<T>, r: Registers8, x: u8, z: bool, n: bool, h: bool)
    ensures
        ({
            let d = cpu.with_reg8(r, x).with_flag(zero_mask(), z).with_flag(subtract_mask(), n).with_flag(
                half_carry_mask(),
                h,
            ).done();
            &&& d.reg8(r) == x
            &&& d.zero_flag() == z
            &&& d.subtract_flag() == n
            &&& d.half_carry_flag() == h
            &&& d.carry_flag() == cpu.carry_flag()
            &&& d.registers == (Registers { f: d.registers.f, ..cpu.with_reg8(r, x).registers })
        }),
{
    let f0 = cpu.registers.f.0;
    let f1 = with_bit(f0, zero_mask(), z);
    let f2 = with_bit(f1, subtract_mask(), n);
    lemma_flag_write_read(f0, zero_mask(), carry_mask(), z);
    lemma_flag_write_read(f1, subtract_mask(), carry_mask(), n);
    lemma_flag_write_read(f2, half_carry_mask(), carry_mask(), h);
    lemma_flag_write_read(f1, subtract_mask(), zero_mask(), n);
    lemma_flag_write_read(f2, half_carry_mask(), zero_mask(), h);
    lemma_flag_write_read(f2, half_carry_mask(), subtract_mask(), h);
    let d = cpu.with_reg8(r, x).with_flag(zero_mask(), z).with_flag(subtract_mask(), n).with_flag(
        half_carry_mask(),
        h,
    ).done();
    assert(d.registers =~= (Registers { f: d.registers.f, ..cpu.with_reg8(r, x).registers }));
}

/// INC r: r becomes r + 1 modulo 256; Z when that is 0, N clear, H the carry
/// out of bit 3 (the low nibble was 0xF), C kept.
pub proof fn law_increment_register<T: Memory>(cpu: CPU<T>, m: T::V, r: Registers8)
    requires
        cpu.state == State::Execute(Operation::Inc(Target::R8(r)), 0),
    ensures
        ({
            let v = cpu.reg8(r);
            let x = ((v + 1) % 256) as u8;
            ends_with(cpu, m, r, x, x == 0, false, v & 0x0Fu8 == 0x0Fu8, cpu.carry_flag())
        }),
{
    let op = Operation::Inc(Target::R8(r));
    let v = cpu.reg8(r);
    let x = ((v + 1) % 256) as u8;
    let d = cpu.with_reg8(r, x).with_flag(zero_mask(), x == 0).with_flag(subtract_mask(), false).with_flag(
        half_carry_mask(),
        v % 16 == 15,
    ).done();
    assert(cpu.exec_body(m, op) == Some((d, m))) by {
        reveal(CPU::exec_body);
        reveal(CPU::spec_increment);
    }
    lemma_one_cycle(cpu, m, op, d, m);
    lemma_register_then_znh(cpu, r, x, x == 0, false, v % 16 == 15);
    assert((v & 0x0Fu8 == 0x0Fu8) == (v % 16 == 15)) by (bit_vector);
}

/// DEC r: r becomes r - 1 modulo 256; Z when that is 0, N set, H the borrow
/// into bit 4 (the low nibble was 0), C kept.
pub proof fn law_decrement_register<T: Memory>(cpu: CPU<T>, m: T::V, r: Registers8)
    requires
        cpu.state == State::Execute(Operation::Dec(Target::R8(r)), 0),
    ensures
        ({
            let v = cpu.reg8(r);
            let x = ((v + 255) % 256) as u8;
            ends_with(cpu, m, r, x, x == 0, true, v & 0x0Fu8 == 0, cpu.carry_flag())
        }),
{
    let op = Operation::Dec(Target::R8(r));
    let v = cpu.reg8(r);
    let x = ((v + 255) % 256) as u8;
    let d = cpu.with_reg8(r, x).with_flag(zero_mask(), x == 0).with_flag(subtract_mask(), true).with_flag(
        half_carry_mask(),
        v % 16 == 0,
    ).done();
    assert(cpu.exec_body(m, op) == Some((d, m))) by {
        reveal(CPU::exec_body);
        reveal(CPU::spec_decrement);
    }
    lemma_one_cycle(cpu, m, op, d, m);
    lemma_register_then_znh(cpu, r, x, x == 0, true, v % 16 == 0);
    assert((v & 0x0Fu8 == 0u8) == (v % 16 == 0)) by (bit_vector);
}

} // verus!
