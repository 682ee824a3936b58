//! The execute phase: one machine cycle of an operation per call.
use vstd::prelude::*;

use crate::context::{Context, InterruptType, Memory};
use crate::cpu::registers::{
    carry_mask, half_carry_mask, pair, subtract_mask, with_bit, zero_mask, FlagsRegister, Registers,
};
use crate::cpu::semantics::{
    add_offset, bit_value, dec16, hi, high_page, inc16, lo, mem_read, mem_write, offset_byte,
    outcome, shift_result,
};
use crate::cpu::{
    Condition, Direction, ExecuteState, Fault, Indirect, Operation, Registers16, Registers8,
    RotationType, State, Target, CPU,
};

verus! {

/// The half-carry and borrow tests of the 8-bit arithmetic, on the low nibbles.
proof fn lemma_nibble_carries(a: u8, v: u8, cin: u8)
    by (bit_vector)
    requires
        cin <= 1,
    ensures
        ((a & 0xFu8).wrapping_add(v & 0xFu8).wrapping_add(cin & 0xFu8) & 0x10u8 == 0x10u8) == (a
            % 16 + v % 16 + cin >= 16),
        ((a & 0xFu8).wrapping_sub(v & 0xFu8).wrapping_sub(cin & 0xFu8) & 0x10u8 == 0x10u8) == (a
            % 16 < v % 16 + cin),
        ((a & 0xFu8).wrapping_add(v & 0xFu8) & 0x10u8 == 0x10u8) == (a % 16 + v % 16 >= 16),
        ((a & 0xFu8).wrapping_sub(v & 0xFu8) & 0x10u8 == 0x10u8) == (a % 16 < v % 16),
        ((a & 0x0Fu8) == 0x0Fu8) == (a % 16 == 15),
        ((a & 0x0Fu8) == 0u8) == (a % 16 == 0),
{
}

/// Testing bit `bit` by shifting it down is testing it with its mask.
proof fn lemma_test_bit(v: u8, bit: u8)
    by (bit_vector)
    requires
        bit < 8,
    ensures
        ((v >> bit) & 1u8 == 0u8) == (v & (1u8 << bit) == 0u8),
{
}

impl<T: Memory> CPU<T> {
    /// Reads `address`, or faults where the memory does not serve it.
    pub fn read_memory(ctx: &Context<T>, address: u16) -> (r: Result<u8, Fault>)
        requires
            T::inv(ctx.memory@),
        ensures
            match r {
                Ok(v) => mem_read::<T>(ctx.memory@, address) == Some(v),
                Err(_) => mem_read::<T>(ctx.memory@, address) is None,
            },
    {
        if ctx.memory.is_readable(address) {
            Ok(ctx.memory.read_u8(address))
        } else {
            Err(Fault)
        }
    }

    /// Writes `value` to `address`, or faults where the memory does not serve it.
    pub fn write_memory(ctx: &mut Context<T>, address: u16, value: u8) -> (r: Result<(), Fault>)
        requires
            T::inv(old(ctx).memory@),
        ensures
            T::inv(final(ctx).memory@),
            match mem_write::<T>(old(ctx).memory@, address, value) {
                Some(m) => r is Ok && final(ctx).memory@ == m,
                None => r is Err && final(ctx).memory@ == old(ctx).memory@,
            },
    {
        if ctx.memory.is_writable(address) {
            proof {
                T::lemma_inv_kept(ctx.memory@, address, value, InterruptType::VBlank, Seq::empty());
            }
            ctx.memory.write_u8(address, value);
            Ok(())
        } else {
            Err(Fault)
        }
    }

    pub fn read_register8(&self, register: Registers8) -> (r: u8)
        ensures
            r == self.reg8(register),
    {
        match register {
            Registers8::A => self.registers.a,
            Registers8::B => self.registers.b,
            Registers8::C => self.registers.c,
            Registers8::D => self.registers.d,
            Registers8::E => self.registers.e,
            Registers8::H => self.registers.h,
            Registers8::L => self.registers.l,
        }
    }

    pub fn read_register16(&self, register: Registers16) -> (r: u16)
        ensures
            r == self.reg16(register),
    {
        match register {
            Registers16::BC => self.registers.bc(),
            Registers16::DE => self.registers.de(),
            Registers16::HL => self.registers.hl(),
            Registers16::SP => self.registers.sp,
            Registers16::AF => self.registers.af(),
        }
    }

    pub fn set_register16(&mut self, register: Registers16, value: u16)
        ensures
            *final(self) == old(self).with_reg16(register, value),
    {
        match register {
            Registers16::BC => self.registers.set_bc(value),
            Registers16::DE => self.registers.set_de(value),
            Registers16::HL => self.registers.set_hl(value),
            Registers16::SP => self.registers.sp = value,
            Registers16::AF => self.registers.set_af(value),
        }
    }

    pub fn set_register8(&mut self, register: Registers8, value: u8)
        ensures
            *final(self) == old(self).with_reg8(register, value),
    {
        match register {
            Registers8::A => self.registers.a = value,
            Registers8::B => self.registers.b = value,
            Registers8::C => self.registers.c = value,
            Registers8::D => self.registers.d = value,
            Registers8::E => self.registers.e = value,
            Registers8::H => self.registers.h = value,
            Registers8::L => self.registers.l = value,
        };
    }

    fn set_flag_z(&mut self, value: bool)
        ensures
            *final(self) == old(self).with_flag(zero_mask(), value),
    {
        self.registers.f.set_zero(value);
    }

    fn set_flag_n(&mut self, value: bool)
        ensures
            *final(self) == old(self).with_flag(subtract_mask(), value),
    {
        self.registers.f.set_subtract(value);
    }

    fn set_flag_h(&mut self, value: bool)
        ensures
            *final(self) == old(self).with_flag(half_carry_mask(), value),
    {
        self.registers.f.set_half_carry(value);
    }

    fn set_flag_c(&mut self, value: bool)
        ensures
            *final(self) == old(self).with_flag(carry_mask(), value),
    {
        self.registers.f.set_carry(value);
    }

    fn set_znhc(&mut self, z: bool, n: bool, h: bool, c: bool)
        ensures
            *final(self) == old(self).with_znhc(z, n, h, c),
    {
        self.set_flag_z(z);
        self.set_flag_n(n);
        self.set_flag_h(h);
        self.set_flag_c(c);
    }

    fn finish(&mut self)
        ensures
            *final(self) == old(self).done(),
    {
        self.state = State::ExecutionDone;
    }

    fn condition_holds(&self, condition: Condition) -> (r: bool)
        ensures
            r == self.condition_met(condition),
    {
        match condition {
            Condition::Always => true,
            Condition::NZ => !self.registers.f.zero(),
            Condition::Z => self.registers.f.zero(),
            Condition::NC => !self.registers.f.carry(),
            Condition::C => self.registers.f.carry(),
        }
    }

    fn step(&self) -> (r: usize)
        ensures
            r == self.exec_step(),
    {
        match self.state {
            State::Execute(_, step) => step,
            _ => 0,
        }
    }

    /// The result and carry out of a shift or rotate of `value`.
    fn shift_value(op: Operation, value: u8, carry_in: bool) -> (r: (u8, bool))
        ensures
            r == shift_result(op, value, carry_in),
    {
        let cin: u16 = if carry_in {
            1
        } else {
            0
        };
        let v = value as u16;
        let bit7 = v >= 128;
        let bit0 = v % 2 == 1;
        match op {
            Operation::Rotate(RotationType::Circular, Direction::Left, _) => (
                ((v * 2) % 256 + v / 128) as u8,
                bit7,
            ),
            Operation::Rotate(RotationType::Circular, Direction::Right, _) => (
                (v / 2 + (v % 2) * 128) as u8,
                bit0,
            ),
            Operation::Rotate(RotationType::NonCircular, Direction::Left, _) => (
                ((v * 2) % 256 + cin) as u8,
                bit7,
            ),
            Operation::Rotate(RotationType::NonCircular, Direction::Right, _) => (
                (v / 2 + cin * 128) as u8,
                bit0,
            ),
            Operation::ShiftArithmetic(Direction::Left, _) => (((v * 2) % 256) as u8, bit7),
            Operation::ShiftArithmetic(Direction::Right, _) => (
                (v / 2 + (v / 128) * 128) as u8,
                bit0,
            ),
            Operation::Swap(_) => (((v % 16) * 16 + v / 16) as u8, false),
            _ => ((v / 2) as u8, bit0),
        }
    }

    /// A + `value` + `incoming_carry`, with its flags Z 0 H C.
    fn add_to_a(&mut self, value: u8, incoming_carry: u8)
        requires
            incoming_carry <= 1,
        ensures
            *final(self) == old(self).spec_add_to_a(value, incoming_carry as int),
    {
        let a = self.registers.a;
        proof {
            lemma_nibble_carries(a, value, incoming_carry);
        }
        let result1 = a.wrapping_add(value);
        let carry1 = a as u16 + value as u16 > 255;
        let result = result1.wrapping_add(incoming_carry);
        let carry2 = result1 as u16 + incoming_carry as u16 > 255;
        let half = (a & 0xFu8).wrapping_add(value & 0xFu8).wrapping_add(incoming_carry & 0xFu8)
            & 0x10u8 == 0x10u8;
        self.set_znhc(result == 0, false, half, carry1 || carry2);
        self.registers.a = result;
    }

    /// The flags of A - `value` - `incoming_carry` (N H C set, Z when the
    /// result is zero), and the result stored in A when `store` holds.
    fn subtract_from_a(&mut self, value: u8, incoming_carry: u8, store: bool)
        requires
            incoming_carry <= 1,
        ensures
            *final(self) == old(self).spec_subtract_from_a(value, incoming_carry as int, store),
    {
        let a = self.registers.a;
        proof {
            lemma_nibble_carries(a, value, incoming_carry);
        }
        let result1 = a.wrapping_sub(value);
        let carry1 = a < value;
        let result = result1.wrapping_sub(incoming_carry);
        let carry2 = result1 < incoming_carry;
        let half = (a & 0xFu8).wrapping_sub(value & 0xFu8).wrapping_sub(incoming_carry & 0xFu8)
            & 0x10u8 == 0x10u8;
        self.set_znhc(result == 0, true, half, carry1 || carry2);
        if store {
            self.registers.a = result;
        }
    }

    /// Applies the 8-bit arithmetic or logic operation `op` to A and `value`.
    fn alu_apply_value(&mut self, op: Operation, value: u8)
        ensures
            *final(self) == old(self).alu_apply(op, value),
    {
        let a = self.registers.a;
        let incoming_carry: u8 = if self.registers.f.carry() {
            1
        } else {
            0
        };
        match op {
            Operation::Add(_, _) => self.add_to_a(value, 0),
            Operation::Adc(_) => self.add_to_a(value, incoming_carry),
            Operation::Sub(_) => self.subtract_from_a(value, 0, true),
            Operation::Sbc(_) => self.subtract_from_a(value, incoming_carry, true),
            Operation::And(_) => {
                let result = a & value;
                self.set_znhc(result == 0, false, true, false);
                self.registers.a = result;
            },
            Operation::Xor(_) => {
                let result = a ^ value;
                self.set_znhc(result == 0, false, false, false);
                self.registers.a = result;
            },
            Operation::Or(_) => {
                let result = a | value;
                self.set_znhc(result == 0, false, false, false);
                self.registers.a = result;
            },
            _ => self.subtract_from_a(value, 0, false),
        }
        self.finish();
    }

    /// One cycle of an 8-bit arithmetic or logic operation on `target`.
    fn alu(&mut self, op: Operation, target: Target, ctx: &mut Context<T>) -> (r: Result<(), Fault>)
        requires
            T::inv(old(ctx).memory@),
        ensures
            T::inv(final(ctx).memory@),
            outcome::<T>(
                r,
                old(self).spec_alu(old(ctx).memory@, op, target),
                *final(self),
                final(ctx).memory@,
            ),
    {
        proof {
            reveal(CPU::spec_alu);
        }
        let step = self.step();
        match target {
            Target::R8(register) => {
                let value = self.read_register8(register);
                self.alu_apply_value(op, value);
                Ok(())
            },
            Target::Imm8(value) => {
                self.alu_apply_value(op, value);
                Ok(())
            },
            Target::Ind(Indirect::R16(register)) => {
                if step == 0 {
                    let address = self.read_register16(register);
                    self.execute_state.value = Self::read_memory(ctx, address)?;
                    Ok(())
                } else if step == 1 {
                    let value = self.execute_state.value;
                    self.alu_apply_value(op, value);
                    Ok(())
                } else {
                    Err(Fault)
                }
            },
            _ => Err(Fault),
        }
    }

    pub fn halt(&mut self, _ctx: &mut Context<T>)
        ensures
            *final(_ctx) == *old(_ctx),
            *final(self) == (CPU { halted: false, ..*old(self) }).done(),
    {
        self.halted = false;
        self.state = State::ExecutionDone;
    }

    pub fn stop(&self, _ctx: &mut Context<T>) -> (r: Result<(), Fault>)
        ensures
            *final(_ctx) == *old(_ctx),
            r is Err,
    {
        Err(Fault)
    }

    /// One cycle of ADD HL, rr.
    #[verifier::spinoff_prover]
    fn add_hl(&mut self, source: Target) -> (r: Result<(), Fault>)
        ensures
            match old(self).spec_add16(source) {
                Some(next) => r is Ok && *final(self) == next,
                None => r is Err,
            },
    {
        proof {
            reveal(CPU::spec_add16);
        }
        let step = self.step();
        match source {
            Target::R16(register) => {
                if step == 0 {
                    let l = self.registers.hl();
                    let r = self.read_register16(register);
                    let result = l.wrapping_add(r);
                    assert(result as int == (l + r) % 0x10000);
                    let carry = l as u32 + r as u32 > 0xFFFF;
                    let quarter_carry = (l % 16) + (r % 16) >= 16;
                    let half_carry = (l % 256) + (r % 256) >= 256;
                    self.execute_state.three_quarter_carry = (l % 4096) + (r % 4096) >= 4096;
                    self.execute_state.msb = (result / 256) as u8;
                    self.execute_state.carry = carry;
                    self.registers.l = (result % 256) as u8;
                    self.set_flag_n(false);
                    self.set_flag_h(quarter_carry);
                    self.set_flag_c(half_carry);
                    assert(self.execute_state.msb == hi(((l + r) % 0x10000) as u16));
                    assert(self.registers.l == lo(((l + r) % 0x10000) as u16));
                    Ok(())
                } else if step == 1 {
                    self.registers.h = self.execute_state.msb;
                    let tq = self.execute_state.three_quarter_carry;
                    let c = self.execute_state.carry;
                    self.set_flag_n(false);
                    self.set_flag_h(tq);
                    self.set_flag_c(c);
                    self.finish();
                    Ok(())
                } else {
                    Err(Fault)
                }
            },
            _ => Err(Fault),
        }
    }

    /// One cycle of RET cc / RET.
    fn return_from(&mut self, condition: Condition, ctx: &mut Context<T>) -> (r: Result<(), Fault>)
        requires
            T::inv(old(ctx).memory@),
        ensures
            T::inv(final(ctx).memory@),
            outcome::<T>(
                r,
                old(self).spec_return(old(ctx).memory@, condition),
                *final(self),
                final(ctx).memory@,
            ),
    {
        proof {
            reveal(CPU::spec_return);
        }
        let condition_met = self.condition_holds(condition);
        let step = self.step();
        let step = match condition {
            Condition::Always => {
                if step >= 4 {
                    return Err(Fault);
                }
                step + 1
            },
            _ => step,
        };
        if step == 0 {
            // A conditional return stalls one cycle on the check.
            Ok(())
        } else if step == 1 {
            if !condition_met {
                self.finish();
            } else {
                self.execute_state.lsb = Self::read_memory(ctx, self.registers.sp)?;
                self.registers.sp = self.registers.sp.wrapping_add(1);
            }
            Ok(())
        } else if step == 2 {
            self.execute_state.msb = Self::read_memory(ctx, self.registers.sp)?;
            self.registers.sp = self.registers.sp.wrapping_add(1);
            Ok(())
        } else if step == 3 {
            self.pc = self.execute_state.msb as u16 * 256 + self.execute_state.lsb as u16;
            Ok(())
        } else if step == 4 {
            self.finish();
            Ok(())
        } else {
            Err(Fault)
        }
    }

    /// One cycle of PUSH rr.
    fn push(&mut self, register: Registers16, ctx: &mut Context<T>) -> (r: Result<(), Fault>)
        requires
            T::inv(old(ctx).memory@),
        ensures
            T::inv(final(ctx).memory@),
            outcome::<T>(
                r,
                old(self).spec_push(old(ctx).memory@, register),
                *final(self),
                final(ctx).memory@,
            ),
    {
        proof {
            reveal(CPU::spec_push);
        }
        let step = self.step();
        if step == 0 {
            let value = self.read_register16(register);
            self.execute_state.lsb = (value % 256) as u8;
            self.execute_state.msb = (value / 256) as u8;
            self.registers.sp = self.registers.sp.wrapping_sub(1);
            Ok(())
        } else if step == 1 {
            Self::write_memory(ctx, self.registers.sp, self.execute_state.msb)?;
            self.registers.sp = self.registers.sp.wrapping_sub(1);
            Ok(())
        } else if step == 2 {
            Self::write_memory(ctx, self.registers.sp, self.execute_state.lsb)?;
            Ok(())
        } else if step == 3 {
            self.finish();
            Ok(())
        } else {
            Err(Fault)
        }
    }

    /// The first two cycles of POP and RETI.
    fn pop_bytes(&mut self, ctx: &mut Context<T>) -> (r: Result<(), Fault>)
        requires
            T::inv(old(ctx).memory@),
        ensures
            T::inv(final(ctx).memory@),
            outcome::<T>(
                r,
                old(self).spec_pop_bytes(old(ctx).memory@),
                *final(self),
                final(ctx).memory@,
            ),
    {
        let value = Self::read_memory(ctx, self.registers.sp)?;
        if self.step() == 0 {
            self.execute_state.lsb = value;
        } else {
            self.execute_state.msb = value;
        }
        self.registers.sp = self.registers.sp.wrapping_add(1);
        Ok(())
    }

    /// One cycle of POP rr.
    fn pop(&mut self, register: Registers16, ctx: &mut Context<T>) -> (r: Result<(), Fault>)
        requires
            T::inv(old(ctx).memory@),
        ensures
            T::inv(final(ctx).memory@),
            outcome::<T>(
                r,
                old(self).spec_pop(old(ctx).memory@, register),
                *final(self),
                final(ctx).memory@,
            ),
    {
        proof {
            reveal(CPU::spec_pop);
        }
        let step = self.step();
        if step <= 1 {
            self.pop_bytes(ctx)
        } else if step == 2 {
            let value = self.execute_state.msb as u16 * 256 + self.execute_state.lsb as u16;
            self.set_register16(register, value);
            self.finish();
            Ok(())
        } else {
            Err(Fault)
        }
    }

    /// One cycle of RETI.
    fn return_interrupt(&mut self, ctx: &mut Context<T>) -> (r: Result<(), Fault>)
        requires
            T::inv(old(ctx).memory@),
        ensures
            T::inv(final(ctx).memory@),
            outcome::<T>(
                r,
                old(self).spec_return_interrupt(old(ctx).memory@),
                *final(self),
                final(ctx).memory@,
            ),
    {
        proof {
            reveal(CPU::spec_return_interrupt);
        }
        let step = self.step();
        if step <= 1 {
            self.pop_bytes(ctx)
        } else if step == 2 {
            self.pc = self.execute_state.msb as u16 * 256 + self.execute_state.lsb as u16;
            self.ime = true;
            Ok(())
        } else if step == 3 {
            self.finish();
            Ok(())
        } else {
            Err(Fault)
        }
    }

    /// The two's-complement byte of `offset`.
    fn offset_as_byte(offset: i8) -> (r: u8)
        ensures
            r == offset_byte(offset),
    {
        if offset < 0 {
            (offset as i16 + 256) as u8
        } else {
            offset as u8
        }
    }

    /// The first cycle of ADD SP, e8 and LD HL, SP + e8: the low byte of SP plus
    /// the offset, with its half carry and carry.
    fn stack_offset_low(&self, offset: i8) -> (r: (u8, bool, bool))
        ensures
            r == self.sp_offset_low(offset),
    {
        let lsb = (self.registers.sp % 256) as u8;
        let ob = Self::offset_as_byte(offset);
        let sum = lsb as u16 + ob as u16;
        ((sum % 256) as u8, (lsb % 16) + (ob % 16) >= 16, sum >= 256)
    }

    /// One cycle of ADD SP, e8.
    fn add_stack(&mut self, offset: i8) -> (r: Result<(), Fault>)
        ensures
            match old(self).spec_add_stack(offset) {
                Some(next) => r is Ok && *final(self) == next,
                None => r is Err,
            },
    {
        proof {
            reveal(CPU::spec_add_stack);
        }
        let step = self.step();
        if step == 0 {
            let (result_lsb, half, carry) = self.stack_offset_low(offset);
            let msb = (self.registers.sp / 256) as u8;
            self.set_znhc(false, false, half, carry);
            self.execute_state.carry = carry;
            self.execute_state.lsb = result_lsb;
            self.execute_state.msb = msb;
            self.execute_state.z_sign = offset < 0;
            Ok(())
        } else if step == 1 {
            let adjustment: u16 = if self.execute_state.z_sign {
                0xFF
            } else {
                0x00
            };
            let carry: u16 = if self.execute_state.carry {
                1
            } else {
                0
            };
            self.execute_state.msb = ((self.execute_state.msb as u16 + adjustment + carry) % 256) as u8;
            Ok(())
        } else if step == 2 {
            self.registers.sp = self.execute_state.msb as u16 * 256 + self.execute_state.lsb as u16;
            self.finish();
            Ok(())
        } else {
            Err(Fault)
        }
    }

    /// One cycle of LD HL, SP + e8.
    fn load_stack_offset(&mut self, offset: i8) -> (r: Result<(), Fault>)
        ensures
            match old(self).spec_load_stack_offset(offset) {
                Some(next) => r is Ok && *final(self) == next,
                None => r is Err,
            },
    {
        proof {
            reveal(CPU::spec_load_stack_offset);
        }
        let step = self.step();
        if step == 0 {
            let (result_lsb, half, carry) = self.stack_offset_low(offset);
            let msb = (self.registers.sp / 256) as u8;
            self.registers.l = result_lsb;
            self.set_znhc(false, false, half, carry);
            self.execute_state.z_sign = offset < 0;
            self.execute_state.msb = msb;
            Ok(())
        } else if step == 1 {
            let adjustment: u16 = if self.execute_state.z_sign {
                0xFF
            } else {
                0x00
            };
            let carry: u16 = if self.registers.f.carry() {
                1
            } else {
                0
            };
            self.registers.h = ((self.execute_state.msb as u16 + adjustment + carry) % 256) as u8;
            self.finish();
            Ok(())
        } else {
            Err(Fault)
        }
    }

    /// One cycle of CALL cc, nn / CALL nn.
    fn call(&mut self, condition: Condition, target: Target, ctx: &mut Context<T>) -> (r: Result<
        (),
        Fault,
    >)
        requires
            T::inv(old(ctx).memory@),
        ensures
            T::inv(final(ctx).memory@),
            outcome::<T>(
                r,
                old(self).spec_call(old(ctx).memory@, condition, target),
                *final(self),
                final(ctx).memory@,
            ),
    {
        proof {
            reveal(CPU::spec_call);
        }
        let condition_met = self.condition_holds(condition);
        let step = self.step();
        if step == 0 {
            Ok(())
        } else if step == 1 {
            if !condition_met {
                self.finish();
            } else {
                self.execute_state.lsb = (self.pc % 256) as u8;
                self.execute_state.msb = (self.pc / 256) as u8;
                self.registers.sp = self.registers.sp.wrapping_sub(1);
            }
            Ok(())
        } else if step == 2 {
            Self::write_memory(ctx, self.registers.sp, self.execute_state.msb)?;
            self.registers.sp = self.registers.sp.wrapping_sub(1);
            Ok(())
        } else if step == 3 {
            Self::write_memory(ctx, self.registers.sp, self.execute_state.lsb)?;
            match target {
                Target::Imm16(address) => {
                    self.pc = address;
                    Ok(())
                },
                _ => Err(Fault),
            }
        } else if step == 4 {
            self.finish();
            Ok(())
        } else {
            Err(Fault)
        }
    }

    /// One cycle of RST n.
    fn restart(&mut self, address: u16, ctx: &mut Context<T>) -> (r: Result<(), Fault>)
        requires
            T::inv(old(ctx).memory@),
        ensures
            T::inv(final(ctx).memory@),
            outcome::<T>(
                r,
                old(self).spec_restart(old(ctx).memory@, address),
                *final(self),
                final(ctx).memory@,
            ),
    {
        proof {
            reveal(CPU::spec_restart);
        }
        let step = self.step();
        if step == 0 {
            self.registers.sp = self.registers.sp.wrapping_sub(1);
            self.execute_state.lsb = (self.pc % 256) as u8;
            self.execute_state.msb = (self.pc / 256) as u8;
            Ok(())
        } else if step == 1 {
            Self::write_memory(ctx, self.registers.sp, self.execute_state.msb)?;
            self.registers.sp = self.registers.sp.wrapping_sub(1);
            Ok(())
        } else if step == 2 {
            Self::write_memory(ctx, self.registers.sp, self.execute_state.lsb)?;
            self.pc = address;
            Ok(())
        } else if step == 3 {
            self.finish();
            Ok(())
        } else {
            Err(Fault)
        }
    }

    /// One cycle of a CB-table shift, swap or rotate on a register or (HL).
    fn shift(&mut self, op: Operation, target: Target, ctx: &mut Context<T>) -> (r: Result<(), Fault>)
        requires
            T::inv(old(ctx).memory@),
        ensures
            T::inv(final(ctx).memory@),
            outcome::<T>(
                r,
                old(self).spec_shift(old(ctx).memory@, op, target),
                *final(self),
                final(ctx).memory@,
            ),
    {
        proof {
            reveal(CPU::spec_shift);
        }
        let step = self.step();
        let carry_in = self.registers.f.carry();
        match target {
            Target::R8(register) => {
                let prev_value = self.read_register8(register);
                let (result, carry) = Self::shift_value(op, prev_value, carry_in);
                self.set_znhc(result == 0, false, false, carry);
                self.set_register8(register, result);
                self.finish();
                Ok(())
            },
            Target::Ind(Indirect::R16(Registers16::HL)) => {
                if step == 0 {
                    self.execute_state.value = Self::read_memory(ctx, self.registers.hl())?;
                    Ok(())
                } else if step == 1 {
                    let (result, carry) = Self::shift_value(op, self.execute_state.value, carry_in);
                    self.set_znhc(result == 0, false, false, carry);
                    Self::write_memory(ctx, self.registers.hl(), result)
                } else if step == 2 {
                    self.finish();
                    Ok(())
                } else {
                    Err(Fault)
                }
            },
            _ => Err(Fault),
        }
    }

    /// One cycle of RLC, RRC, RL or RR on a register or (HL).
    pub fn rotate(
        &mut self,
        rotation_type: RotationType,
        direction: Direction,
        target: Target,
        ctx: &mut Context<T>,
    ) -> (r: Result<(), Fault>)
        requires
            T::inv(old(ctx).memory@),
        ensures
            T::inv(final(ctx).memory@),
            outcome::<T>(
                r,
                old(self).spec_shift(
                    old(ctx).memory@,
                    Operation::Rotate(rotation_type, direction, target),
                    target,
                ),
                *final(self),
                final(ctx).memory@,
            ),
    {
        self.shift(Operation::Rotate(rotation_type, direction, target), target, ctx)
    }

    /// RLCA, RRCA, RLA or RRA.
    pub fn rotate_accumulator(
        &mut self,
        rotation_type: RotationType,
        direction: Direction,
        _ctx: &mut Context<T>,
    )
        ensures
            *final(_ctx) == *old(_ctx),
            *final(self) == old(self).spec_rotate_accumulator(rotation_type, direction),
    {
        proof {
            reveal(CPU::spec_rotate_accumulator);
        }
        let (result, carry) = Self::shift_value(
            Operation::Rotate(rotation_type, direction, Target::R8(Registers8::A)),
            self.registers.a,
            self.registers.f.carry(),
        );
        self.registers.a = result;
        self.set_znhc(false, false, false, carry);
        self.finish();
    }

    /// One cycle of BIT b on a register or (HL).
    fn test_bit(&mut self, bit: u8, target: Target, ctx: &mut Context<T>) -> (r: Result<(), Fault>)
        requires
            T::inv(old(ctx).memory@),
        ensures
            T::inv(final(ctx).memory@),
            outcome::<T>(
                r,
                old(self).spec_test_bit(old(ctx).memory@, bit, target),
                *final(self),
                final(ctx).memory@,
            ),
    {
        proof {
            reveal(CPU::spec_test_bit);
        }
        if bit >= 8 {
            return Err(Fault);
        }
        let step = self.step();
        match target {
            Target::R8(register) => {
                let prev_value = self.read_register8(register);
                proof {
                    lemma_test_bit(prev_value, bit);
                }
                self.set_flag_z((prev_value >> bit) & 0b1u8 == 0);
                self.set_flag_n(false);
                self.set_flag_h(true);
                self.finish();
                Ok(())
            },
            Target::Ind(Indirect::R16(Registers16::HL)) => {
                if step == 0 {
                    self.execute_state.value = Self::read_memory(ctx, self.registers.hl())?;
                    Ok(())
                } else if step == 1 {
                    let value = self.execute_state.value;
                    proof {
                        lemma_test_bit(value, bit);
                    }
                    self.set_flag_z((value >> bit) & 0b1u8 == 0);
                    self.set_flag_n(false);
                    self.set_flag_h(true);
                    self.finish();
                    Ok(())
                } else {
                    Err(Fault)
                }
            },
            _ => Err(Fault),
        }
    }

    /// One cycle of RES b (`set` false) or SET b (`set` true) on a register or (HL).
    fn write_bit(&mut self, set: bool, bit: u8, target: Target, ctx: &mut Context<T>) -> (r: Result<
        (),
        Fault,
    >)
        requires
            T::inv(old(ctx).memory@),
        ensures
            T::inv(final(ctx).memory@),
            outcome::<T>(
                r,
                old(self).spec_write_bit(old(ctx).memory@, set, bit, target),
                *final(self),
                final(ctx).memory@,
            ),
    {
        proof {
            reveal(CPU::spec_write_bit);
        }
        if bit >= 8 {
            return Err(Fault);
        }
        let step = self.step();
        match target {
            Target::R8(register) => {
                let prev_value = self.read_register8(register);
                let result = if set {
                    prev_value | (0b1u8 << bit)
                } else {
                    prev_value & !(0b1u8 << bit)
                };
                self.set_register8(register, result);
                self.finish();
                Ok(())
            },
            Target::Ind(Indirect::R16(Registers16::HL)) => {
                if step == 0 {
                    self.execute_state.value = Self::read_memory(ctx, self.registers.hl())?;
                    Ok(())
                } else if step == 1 {
                    let value = self.execute_state.value;
                    let result = if set {
                        value | (0b1u8 << bit)
                    } else {
                        value & !(0b1u8 << bit)
                    };
                    Self::write_memory(ctx, self.registers.hl(), result)
                } else if step == 2 {
                    self.finish();
                    Ok(())
                } else {
                    Err(Fault)
                }
            },
            _ => Err(Fault),
        }
    }

    /// The address that `indirect` names; HL is advanced for (HL+) and (HL-).
    fn indirect_address(&mut self, indirect: Indirect) -> (r: u16)
        ensures
            (r, *final(self)) == old(self).spec_indirect_address(indirect),
    {
        match indirect {
            Indirect::R16(register) => self.read_register16(register),
            Indirect::Imm16(address) => address,
            Indirect::HLI => {
                let hl = self.registers.hl();
                self.registers.set_hl(hl.wrapping_add(1));
                hl
            },
            Indirect::HLD => {
                let hl = self.registers.hl();
                self.registers.set_hl(hl.wrapping_sub(1));
                hl
            },
            Indirect::C => 0xFF00u16 + self.registers.c as u16,
        }
    }

    /// One cycle of LD: reads the source and hands the value to `load8` or `load16`.
    pub fn load(&mut self, destination: Target, source: Target, ctx: &mut Context<T>) -> (r: Result<
        (),
        Fault,
    >)
        requires
            T::inv(old(ctx).memory@),
        ensures
            T::inv(final(ctx).memory@),
            outcome::<T>(
                r,
                old(self).spec_load(old(ctx).memory@, destination, source),
                *final(self),
                final(ctx).memory@,
            ),
    {
        proof {
            reveal(CPU::spec_load);
        }
        let step = self.step();
        match source {
            Target::R8(register) => {
                let value = self.read_register8(register);
                self.load8(destination, value, ctx, 0)
            },
            Target::Imm8(value) => self.load8(destination, value, ctx, 0),
            Target::R16(register) => {
                let value = self.read_register16(register);
                self.load16(destination, value, ctx, 0)
            },
            Target::Imm16(value) => self.load16(destination, value, ctx, 0),
            Target::Ind(indirect) => {
                if step == 0 {
                    let address = self.indirect_address(indirect);
                    self.execute_state.value = Self::read_memory(ctx, address)?;
                    Ok(())
                } else {
                    let value = self.execute_state.value;
                    self.load8(destination, value, ctx, 1)
                }
            },
        }
    }

    /// One cycle of storing the byte `value` to `destination`.
    pub fn load8(
        &mut self,
        destination: Target,
        value: u8,
        ctx: &mut Context<T>,
        starting_step: usize,
    ) -> (r: Result<(), Fault>)
        requires
            T::inv(old(ctx).memory@),
            starting_step < usize::MAX,
        ensures
            T::inv(final(ctx).memory@),
            outcome::<T>(
                r,
                old(self).spec_load8(old(ctx).memory@, destination, value, starting_step),
                *final(self),
                final(ctx).memory@,
            ),
    {
        let step = self.step();
        match destination {
            Target::R8(register) => {
                self.set_register8(register, value);
                self.finish();
                Ok(())
            },
            Target::Ind(indirect) => {
                if step == starting_step {
                    let address = self.indirect_address(indirect);
                    Self::write_memory(ctx, address, value)
                } else if step == starting_step + 1 {
                    self.finish();
                    Ok(())
                } else {
                    Err(Fault)
                }
            },
            _ => Err(Fault),
        }
    }

    /// One cycle of storing the word `value` to `destination`.
    pub fn load16(
        &mut self,
        destination: Target,
        value: u16,
        ctx: &mut Context<T>,
        starting_step: usize,
    ) -> (r: Result<(), Fault>)
        requires
            T::inv(old(ctx).memory@),
            starting_step < usize::MAX,
        ensures
            T::inv(final(ctx).memory@),
            outcome::<T>(
                r,
                old(self).spec_load16(old(ctx).memory@, destination, value, starting_step),
                *final(self),
                final(ctx).memory@,
            ),
    {
        let step = self.step();
        match destination {
            Target::R16(register) => {
                self.set_register16(register, value);
                self.finish();
                Ok(())
            },
            Target::Ind(Indirect::Imm16(address)) => {
                if step == starting_step {
                    self.execute_state.msb = (value / 256) as u8;
                    Self::write_memory(ctx, address, (value % 256) as u8)
                } else if step == starting_step + 1 {
                    Self::write_memory(ctx, address.wrapping_add(1), self.execute_state.msb)?;
                    self.finish();
                    Ok(())
                } else {
                    Err(Fault)
                }
            },
            _ => Err(Fault),
        }
    }

    /// One cycle of INC.
    #[verifier::spinoff_prover]
    #[verifier::rlimit(40)]
    pub fn increment(&mut self, target: Target, ctx: &mut Context<T>) -> (r: Result<(), Fault>)
        requires
            T::inv(old(ctx).memory@),
        ensures
            T::inv(final(ctx).memory@),
            outcome::<T>(
                r,
                old(self).spec_increment(old(ctx).memory@, target),
                *final(self),
                final(ctx).memory@,
            ),
    {
        proof {
            reveal(CPU::spec_increment);
        }
        let step = self.step();
        match target {
            Target::R8(register) => {
                let current = self.read_register8(register);
                proof {
                    lemma_nibble_carries(current, 0, 0);
                }
                let result = current.wrapping_add(1);
                let half_carry = current & 0x0Fu8 == 0x0Fu8;
                self.set_register8(register, result);
                self.set_flag_z(result == 0);
                self.set_flag_n(false);
                self.set_flag_h(half_carry);
                self.finish();
                Ok(())
            },
            Target::R16(register) => {
                if step == 0 {
                    let value = self.read_register16(register);
                    self.set_register16(register, value.wrapping_add(1));
                    Ok(())
                } else if step == 1 {
                    self.finish();
                    Ok(())
                } else {
                    Err(Fault)
                }
            },
            Target::Ind(Indirect::R16(register)) => {
                if step == 0 {
                    self.execute_state.address = self.read_register16(register);
                    self.execute_state.value = Self::read_memory(ctx, self.execute_state.address)?;
                    Ok(())
                } else if step == 1 {
                    let value = self.execute_state.value;
                    proof {
                        lemma_nibble_carries(value, 0, 0);
                    }
                    let result = value.wrapping_add(1);
                    let half_carry = value & 0x0Fu8 == 0x0Fu8;
                    Self::write_memory(ctx, self.execute_state.address, result)?;
                    self.set_flag_z(result == 0);
                    self.set_flag_n(false);
                    self.set_flag_h(half_carry);
                    Ok(())
                } else if step == 2 {
                    self.finish();
                    Ok(())
                } else {
                    Err(Fault)
                }
            },
            _ => Err(Fault),
        }
    }

    /// One cycle of DEC.
    #[verifier::spinoff_prover]
    #[verifier::rlimit(40)]
    pub fn decrement(&mut self, target: Target, ctx: &mut Context<T>) -> (r: Result<(), Fault>)
        requires
            T::inv(old(ctx).memory@),
        ensures
            T::inv(final(ctx).memory@),
            outcome::<T>(
                r,
                old(self).spec_decrement(old(ctx).memory@, target),
                *final(self),
                final(ctx).memory@,
            ),
    {
        proof {
            reveal(CPU::spec_decrement);
        }
        let step = self.step();
        match target {
            Target::R8(register) => {
                let current = self.read_register8(register);
                proof {
                    lemma_nibble_carries(current, 0, 0);
                }
                let result = current.wrapping_sub(1);
                let half_carry = current & 0x0Fu8 == 0;
                self.set_register8(register, result);
                self.set_flag_z(result == 0);
                self.set_flag_n(true);
                self.set_flag_h(half_carry);
                self.finish();
                Ok(())
            },
            Target::R16(register) => {
                if step == 0 {
                    let value = self.read_register16(register);
                    self.set_register16(register, value.wrapping_sub(1));
                    Ok(())
                } else if step == 1 {
                    self.finish();
                    Ok(())
                } else {
                    Err(Fault)
                }
            },
            Target::Ind(Indirect::R16(register)) => {
                if step == 0 {
                    self.execute_state.address = self.read_register16(register);
                    self.execute_state.value = Self::read_memory(ctx, self.execute_state.address)?;
                    Ok(())
                } else if step == 1 {
                    let value = self.execute_state.value;
                    proof {
                        lemma_nibble_carries(value, 0, 0);
                    }
                    let result = value.wrapping_sub(1);
                    let half_carry = value & 0x0Fu8 == 0;
                    Self::write_memory(ctx, self.execute_state.address, result)?;
                    self.set_flag_z(result == 0);
                    self.set_flag_n(true);
                    self.set_flag_h(half_carry);
                    Ok(())
                } else if step == 2 {
                    self.finish();
                    Ok(())
                } else {
                    Err(Fault)
                }
            },
            _ => Err(Fault),
        }
    }

    /// One cycle of JP.
    pub fn jump(&mut self, condition: Condition, target: Target, _ctx: &mut Context<T>) -> (r: Result<
        (),
        Fault,
    >)
        ensures
            *final(_ctx) == *old(_ctx),
            match old(self).spec_jump(condition, target) {
                Some(next) => r is Ok && *final(self) == next,
                None => r is Err,
            },
    {
        proof {
            reveal(CPU::spec_jump);
        }
        let step = self.step();
        match target {
            Target::R16(register) => {
                self.pc = self.read_register16(register);
                self.finish();
                Ok(())
            },
            Target::Imm16(address) => {
                if step == 0 {
                    if self.condition_holds(condition) {
                        self.pc = address;
                    }
                    Ok(())
                } else if step == 1 {
                    self.finish();
                    Ok(())
                } else {
                    Err(Fault)
                }
            },
            _ => Err(Fault),
        }
    }

    /// One cycle of JR.
    pub fn jump_relative(&mut self, condition: Condition, offset: i8, _ctx: &mut Context<T>) -> (r:
        Result<(), Fault>)
        ensures
            *final(_ctx) == *old(_ctx),
            match old(self).spec_jump_relative(condition, offset) {
                Some(next) => r is Ok && *final(self) == next,
                None => r is Err,
            },
    {
        proof {
            reveal(CPU::spec_jump_relative);
        }
        let step = self.step();
        if step == 0 {
            self.execute_state.condition_met = self.condition_holds(condition);
            Ok(())
        } else if step == 1 {
            if self.execute_state.condition_met {
                self.execute_state.result = self.pc.wrapping_add_signed(offset as i16);
            } else {
                self.finish();
            }
            Ok(())
        } else if step == 2 {
            self.pc = self.execute_state.result;
            Ok(())
        } else if step == 3 {
            self.finish();
            Ok(())
        } else {
            Err(Fault)
        }
    }

    /// DAA.
    fn decimal_adjust(&mut self)
        ensures
            *final(self) == old(self).spec_daa(),
    {
        proof {
            reveal(CPU::spec_daa);
        }
        let mut adjustment: u8 = 0;
        if self.registers.f.subtract() {
            if self.registers.f.half_carry() {
                adjustment = adjustment + 0x6;
            }
            if self.registers.f.carry() {
                adjustment = adjustment + 0x60;
            }
            self.registers.a = self.registers.a.wrapping_sub(adjustment);
        } else {
            if self.registers.f.half_carry() || self.registers.a % 16 > 0x9 {
                adjustment = adjustment + 0x6;
            }
            if self.registers.f.carry() || self.registers.a > 0x99 {
                adjustment = adjustment + 0x60;
                self.set_flag_c(true);
            }
            self.registers.a = self.registers.a.wrapping_add(adjustment);
        }
        let zero = self.registers.a == 0;
        self.set_flag_z(zero);
        self.set_flag_h(false);
        self.finish();
    }

    /// The work of one machine cycle of `operation`.
    #[verifier::spinoff_prover]
    #[verifier::rlimit(100)]
    fn execute_body(&mut self, operation: Operation, ctx: &mut Context<T>) -> (r: Result<(), Fault>)
        requires
            T::inv(old(ctx).memory@),
        ensures
            T::inv(final(ctx).memory@),
            outcome::<T>(
                r,
                old(self).exec_body(old(ctx).memory@, operation),
                *final(self),
                final(ctx).memory@,
            ),
    {
        proof {
            reveal(CPU::exec_body);
        }
        match operation {
            Operation::Nop => {
                self.finish();
                Ok(())
            },
            Operation::Halt => {
                self.halt(ctx);
                Ok(())
            },
            Operation::Load(destination, source) => self.load(destination, source, ctx),
            Operation::Inc(target) => self.increment(target, ctx),
            Operation::Dec(target) => self.decrement(target, ctx),
            Operation::Stop => self.stop(ctx),
            Operation::Jump(condition, target) => self.jump(condition, target, ctx),
            Operation::JumpRelative(condition, offset) => self.jump_relative(condition, offset, ctx),
            Operation::RotateAccumulator(rotation_type, direction) => {
                self.rotate_accumulator(rotation_type, direction, ctx);
                Ok(())
            },
            Operation::ComplementCarry => {
                let new_carry = !self.registers.f.carry();
                self.set_flag_n(false);
                self.set_flag_h(false);
                self.set_flag_c(new_carry);
                self.finish();
                Ok(())
            },
            Operation::SetCarry => {
                self.set_flag_n(false);
                self.set_flag_h(false);
                self.set_flag_c(true);
                self.finish();
                Ok(())
            },
            Operation::ComplementAccumulator => {
                self.registers.a = !self.registers.a;
                self.set_flag_n(true);
                self.set_flag_h(true);
                self.finish();
                Ok(())
            },
            Operation::DecimalAdjustAccumulator => {
                self.decimal_adjust();
                Ok(())
            },
            Operation::Compare(target) => self.alu(operation, target, ctx),
            Operation::Or(target) => self.alu(operation, target, ctx),
            Operation::Xor(target) => self.alu(operation, target, ctx),
            Operation::And(target) => self.alu(operation, target, ctx),
            Operation::Sbc(target) => self.alu(operation, target, ctx),
            Operation::Sub(target) => self.alu(operation, target, ctx),
            Operation::Adc(target) => self.alu(operation, target, ctx),
            Operation::Add(destination, source) => match destination {
                Target::R8(Registers8::A) => self.alu(operation, source, ctx),
                Target::R16(Registers16::HL) => self.add_hl(source),
                _ => Err(Fault),
            },
            Operation::Return(condition) => self.return_from(condition, ctx),
            Operation::Push(register) => self.push(register, ctx),
            Operation::Pop(register) => self.pop(register, ctx),
            Operation::ReturnInterrupt => self.return_interrupt(ctx),
            Operation::AddStack(offset) => self.add_stack(offset),
            Operation::LoadStackOffset(offset) => self.load_stack_offset(offset),
            Operation::DisableInterrupt => {
                self.ime = false;
                self.finish();
                Ok(())
            },
            Operation::EnableInterrupt => {
                self.ime = true;
                self.finish();
                Ok(())
            },
            Operation::Call(condition, target) => self.call(condition, target, ctx),
            Operation::Restart(address) => self.restart(address, ctx),
            Operation::Rotate(rotation_type, direction, target) => self.rotate(
                rotation_type,
                direction,
                target,
                ctx,
            ),
            Operation::ShiftArithmetic(_, target) => self.shift(operation, target, ctx),
            Operation::Swap(target) => self.shift(operation, target, ctx),
            Operation::ShiftRightLogical(target) => self.shift(operation, target, ctx),
            Operation::TestBit(bit, target) => self.test_bit(bit, target, ctx),
            Operation::ResetBit(bit, target) => self.write_bit(false, bit, target, ctx),
            Operation::SetBit(bit, target) => self.write_bit(true, bit, target, ctx),
        }
    }

    /// One machine cycle of the operation being executed; while the operation
    /// is not done, the cycle count advances.
    pub fn execute_operation(&mut self, operation: Operation, ctx: &mut Context<T>) -> (r: Result<
        (),
        Fault,
    >)
        requires
            T::inv(old(ctx).memory@),
        ensures
            T::inv(final(ctx).memory@),
            outcome::<T>(
                r,
                old(self).spec_execute_operation(old(ctx).memory@, operation),
                *final(self),
                final(ctx).memory@,
            ),
    {
        proof {
            reveal(CPU::spec_execute_operation);
        }
        match self.state {
            State::Execute(_, _) => {},
            _ => return Err(Fault),
        }
        self.execute_body(operation, ctx)?;
        match self.state {
            State::Execute(op, step) => {
                if step < usize::MAX {
                    self.state = State::Execute(op, step + 1);
                    Ok(())
                } else {
                    Err(Fault)
                }
            },
            _ => Ok(()),
        }
    }
}
} // verus!
