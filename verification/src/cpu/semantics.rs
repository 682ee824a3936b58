//! What one machine cycle of the CPU does, stated over the CPU's fields and
//! the view of its memory. `None` stands for a step that the emulator does not
//! implement (see `Fault`).
use vstd::prelude::*;

use crate::context::{InterruptType, Memory};
use crate::cpu::registers::{
    carry_mask, half_carry_mask, pair, subtract_mask, with_bit, zero_mask, FlagsRegister, Registers,
};
use crate::cpu::{
    Condition, DecodeKind, DecodeState, Direction, ExecuteState, Fault, Indirect, Operation, Registers16,
    Registers8, RotationType, State, Target, CPU,
};

verus! {

// ---------------------------------------------------------------------------
// Arithmetic on bytes and words
// ---------------------------------------------------------------------------

/// `x + 1` modulo 2^16.
pub open spec fn inc16(x: u16) -> u16 {
    if x == 0xFFFF {
        0
    } else {
        (x + 1) as u16
    }
}

/// `x - 1` modulo 2^16.
pub open spec fn dec16(x: u16) -> u16 {
    if x == 0 {
        0xFFFF
    } else {
        (x - 1) as u16
    }
}

/// The low byte of `x`.
pub open spec fn lo(x: u16) -> u8 {
    (x % 256) as u8
}

/// The high byte of `x`.
pub open spec fn hi(x: u16) -> u8 {
    (x / 256) as u8
}

/// The two's-complement byte of `o`.
pub open spec fn offset_byte(o: i8) -> u8 {
    if o < 0 {
        (o + 256) as u8
    } else {
        o as u8
    }
}

/// The signed value of the byte `v`.
pub open spec fn signed_byte(v: u8) -> i8 {
    if v < 128 {
        v as i8
    } else {
        (v - 256) as i8
    }
}

/// `pc + o` modulo 2^16.
pub open spec fn add_offset(pc: u16, o: i8) -> u16 {
    ((pc + o + 0x10000) % 0x10000) as u16
}

/// The address 0xFF00 + `low` of the high page.
pub open spec fn high_page(low: u8) -> u16 {
    (0xFF00 + low) as u16
}

pub open spec fn bit_value(b: bool) -> u8 {
    if b {
        1
    } else {
        0
    }
}

/// The result and carry out of the shift and rotate operations on `v`, with
/// `carry_in` the carry flag before the operation.
pub open spec fn shift_result(op: Operation, v: u8, carry_in: bool) -> (u8, bool) {
    let cin = bit_value(carry_in) as int;
    match op {
        Operation::Rotate(RotationType::Circular, Direction::Left, _) => (
            ((v * 2) % 256 + v / 128) as u8,
            v >= 128,
        ),
        Operation::Rotate(RotationType::Circular, Direction::Right, _) => (
            (v / 2 + (v % 2) * 128) as u8,
            v % 2 == 1,
        ),
        Operation::Rotate(RotationType::NonCircular, Direction::Left, _) => (
            ((v * 2) % 256 + cin) as u8,
            v >= 128,
        ),
        Operation::Rotate(RotationType::NonCircular, Direction::Right, _) => (
            (v / 2 + cin * 128) as u8,
            v % 2 == 1,
        ),
        Operation::ShiftArithmetic(Direction::Left, _) => (((v * 2) % 256) as u8, v >= 128),
        Operation::ShiftArithmetic(Direction::Right, _) => (
            (v / 2 + (v / 128) * 128) as u8,
            v % 2 == 1,
        ),
        Operation::Swap(_) => (((v % 16) * 16 + v / 16) as u8, false),
        _ => ((v / 2) as u8, v % 2 == 1),
    }
}

/// The operation that an interrupt source asks for, by priority: the lowest
/// set bit of `pending` among the five interrupt bits.
pub open spec fn first_interrupt(pending: u8) -> Option<InterruptType> {
    if pending & 0x01 != 0 {
        Some(InterruptType::VBlank)
    } else if pending & 0x02 != 0 {
        Some(InterruptType::LCD)
    } else if pending & 0x04 != 0 {
        Some(InterruptType::Timer)
    } else if pending & 0x08 != 0 {
        Some(InterruptType::Serial)
    } else if pending & 0x10 != 0 {
        Some(InterruptType::Joypad)
    } else {
        None
    }
}

/// The address of the handler of `interrupt`.
pub open spec fn interrupt_vector(interrupt: InterruptType) -> u16 {
    (0x40 + 8 * interrupt.spec_bit()) as u16
}

/// A read of `address`, if the memory serves it.
pub open spec fn mem_read<T: Memory>(m: T::V, address: u16) -> Option<u8> {
    if T::readable(address) {
        Some(T::read(m, address))
    } else {
        None
    }
}

/// A write of `value` to `address`, if the memory serves it.
pub open spec fn mem_write<T: Memory>(m: T::V, address: u16, value: u8) -> Option<T::V> {
    if T::writable(address) {
        Some(T::write(m, address, value))
    } else {
        None
    }
}

/// Whether an enabled interrupt is requested.
pub open spec fn interrupt_pending<T: Memory>(m: T::V) -> bool {
    T::interrupt_flag_of(m) & T::ie_of(m) != 0
}

/// An exec step ended with `r`, leaving the CPU `c` and memory `m`, as the
/// step's semantics `o` says.
pub open spec fn outcome<T: Memory>(
    r: Result<(), Fault>,
    o: Option<(CPU<T>, T::V)>,
    c: CPU<T>,
    m: T::V,
) -> bool {
    match o {
        Some((c2, m2)) => r is Ok && c == c2 && m == m2,
        None => r is Err,
    }
}

// ---------------------------------------------------------------------------
// The state of the CPU
// ---------------------------------------------------------------------------

impl<T: Memory> CPU<T> {
    pub open spec fn reg8(self, r: Registers8) -> u8 {
        match r {
            Registers8::A => self.registers.a,
            Registers8::B => self.registers.b,
            Registers8::C => self.registers.c,
            Registers8::D => self.registers.d,
            Registers8::E => self.registers.e,
            Registers8::H => self.registers.h,
            Registers8::L => self.registers.l,
        }
    }

    pub open spec fn reg16(self, r: Registers16) -> u16 {
        match r {
            Registers16::BC => self.registers.spec_bc(),
            Registers16::DE => self.registers.spec_de(),
            Registers16::HL => self.registers.spec_hl(),
            Registers16::SP => self.registers.sp,
            Registers16::AF => self.registers.spec_af(),
        }
    }

    pub open spec fn with_registers(self, registers: Registers) -> Self {
        CPU { registers, ..self }
    }

    pub open spec fn with_reg8(self, r: Registers8, v: u8) -> Self {
        let regs = self.registers;
        self.with_registers(
            match r {
                Registers8::A => Registers { a: v, ..regs },
                Registers8::B => Registers { b: v, ..regs },
                Registers8::C => Registers { c: v, ..regs },
                Registers8::D => Registers { d: v, ..regs },
                Registers8::E => Registers { e: v, ..regs },
                Registers8::H => Registers { h: v, ..regs },
                Registers8::L => Registers { l: v, ..regs },
            },
        )
    }

    pub open spec fn with_reg16(self, r: Registers16, v: u16) -> Self {
        let regs = self.registers;
        self.with_registers(
            match r {
                Registers16::BC => regs.with_bc(v),
                Registers16::DE => regs.with_de(v),
                Registers16::HL => regs.with_hl(v),
                Registers16::SP => Registers { sp: v, ..regs },
                Registers16::AF => regs.with_af(v),
            },
        )
    }

    pub open spec fn with_sp(self, v: u16) -> Self {
        self.with_reg16(Registers16::SP, v)
    }

    pub open spec fn with_pc(self, v: u16) -> Self {
        CPU { pc: v, ..self }
    }

    /// The CPU with the flag selected by `mask` set to `v`.
    pub open spec fn with_flag(self, mask: u8, v: bool) -> Self {
        self.with_registers(
            Registers { f: FlagsRegister(with_bit(self.registers.f.0, mask, v)), ..self.registers },
        )
    }

    /// The CPU with zero, subtract, half carry and carry written in this order.
    pub open spec fn with_znhc(self, z: bool, n: bool, h: bool, c: bool) -> Self {
        self.with_flag(zero_mask(), z).with_flag(subtract_mask(), n).with_flag(
            half_carry_mask(),
            h,
        ).with_flag(carry_mask(), c)
    }

    pub open spec fn zero_flag(self) -> bool {
        self.registers.f.spec_zero()
    }

    pub open spec fn subtract_flag(self) -> bool {
        self.registers.f.spec_subtract()
    }

    pub open spec fn half_carry_flag(self) -> bool {
        self.registers.f.spec_half_carry()
    }

    pub open spec fn carry_flag(self) -> bool {
        self.registers.f.spec_carry()
    }

    pub open spec fn condition_met(self, c: Condition) -> bool {
        match c {
            Condition::Always => true,
            Condition::NZ => !self.zero_flag(),
            Condition::Z => self.zero_flag(),
            Condition::NC => !self.carry_flag(),
            Condition::C => self.carry_flag(),
        }
    }

    pub open spec fn done(self) -> Self {
        CPU { state: State::ExecutionDone, ..self }
    }

    pub open spec fn with_es(self, es: ExecuteState) -> Self {
        CPU { execute_state: es, ..self }
    }

    /// The machine cycle within the current operation.
    pub open spec fn exec_step(self) -> usize {
        match self.state {
            State::Execute(_, s) => s,
            _ => 0,
        }
    }

    /// The machine cycle within decoding.
    pub open spec fn decode_step(self) -> usize {
        match self.state {
            State::Decode(s) => s,
            _ => 0,
        }
    }

    /// The CPU state after `load_debug_initial_state`: the register values
    /// that the boot ROM leaves on a DMG, with execution starting at 0x0100.
    pub open spec fn debug_initial_state(self) -> Self {
        CPU {
            registers: Registers {
                a: 0x01,
                f: FlagsRegister(0xB0),
                b: 0x00,
                c: 0x13,
                d: 0x00,
                e: 0xD8,
                h: 0x01,
                l: 0x4D,
                sp: 0xFFFE,
            },
            pc: 0x0100,
            ..self
        }
    }
}

// ---------------------------------------------------------------------------
// Executing an operation, one machine cycle at a time
// ---------------------------------------------------------------------------

impl<T: Memory> CPU<T> {
    /// A + `v` + `cin` with the flags Z 0 H C.
    pub open spec fn spec_add_to_a(self, v: u8, cin: int) -> Self {
        let a = self.registers.a;
        let r = a + v + cin;
        self.with_znhc((r % 256) == 0, false, a % 16 + v % 16 + cin >= 16, r >= 256).with_reg8(
            Registers8::A,
            (r % 256) as u8,
        )
    }

    /// The flags of A - `v` - `cin` (Z 1 H C), and the difference stored in A
    /// when `store` holds.
    pub open spec fn spec_subtract_from_a(self, v: u8, cin: int, store: bool) -> Self {
        let a = self.registers.a;
        let r = ((a - v - cin + 512) % 256) as u8;
        let flagged = self.with_znhc(r == 0, true, a % 16 < v % 16 + cin, a < v + cin);
        if store {
            flagged.with_reg8(Registers8::A, r)
        } else {
            flagged
        }
    }

    /// The accumulator and flags after the 8-bit arithmetic or logic
    /// operation `op` with operand `v`; the operation is then done.
    pub open spec fn alu_apply(self, op: Operation, v: u8) -> Self {
        let a = self.registers.a;
        let cin = bit_value(self.carry_flag()) as int;
        let next = match op {
            Operation::Add(_, _) => self.spec_add_to_a(v, 0),
            Operation::Adc(_) => self.spec_add_to_a(v, cin),
            Operation::Sub(_) => self.spec_subtract_from_a(v, 0, true),
            Operation::Sbc(_) => self.spec_subtract_from_a(v, cin, true),
            Operation::And(_) => self.with_znhc(a & v == 0, false, true, false).with_reg8(
                Registers8::A,
                a & v,
            ),
            Operation::Xor(_) => self.with_znhc(a ^ v == 0, false, false, false).with_reg8(
                Registers8::A,
                a ^ v,
            ),
            Operation::Or(_) => self.with_znhc(a | v == 0, false, false, false).with_reg8(
                Registers8::A,
                a | v,
            ),
            _ => self.spec_subtract_from_a(v, 0, false),
        };
        next.done()
    }

    /// An 8-bit arithmetic or logic operation on `target`; `(HL)` takes one
    /// more cycle for the read.
    #[verifier::opaque]
    pub open spec fn spec_alu(self, m: T::V, op: Operation, target: Target) -> Option<(Self, T::V)> {
        let s = self.exec_step();
        match target {
            Target::R8(r) => Some((self.alu_apply(op, self.reg8(r)), m)),
            Target::Imm8(v) => Some((self.alu_apply(op, v), m)),
            Target::Ind(Indirect::R16(rr)) => if s == 0 {
                match mem_read::<T>(m, self.reg16(rr)) {
                    Some(v) => Some((self.with_es(ExecuteState { value: v, ..self.execute_state }), m)),
                    None => None,
                }
            } else if s == 1 {
                Some((self.alu_apply(op, self.execute_state.value), m))
            } else {
                None
            },
            _ => None,
        }
    }

    /// ADD HL, rr: the low byte is added in the first cycle, the high byte is
    /// stored in the second.
    #[verifier::opaque]
    pub open spec fn spec_add16(self, source: Target) -> Option<Self> {
        let s = self.exec_step();
        match source {
            Target::R16(rr) => if s == 0 {
                let l = self.registers.spec_hl();
                let r = self.reg16(rr);
                let sum = (l + r) % 0x10000;
                let es = ExecuteState {
                    three_quarter_carry: l % 4096 + r % 4096 >= 4096,
                    msb: hi(sum as u16),
                    carry: l + r >= 0x10000,
                    ..self.execute_state
                };
                Some(
                    self.with_es(es).with_reg8(Registers8::L, lo(sum as u16)).with_flag(
                        subtract_mask(),
                        false,
                    ).with_flag(half_carry_mask(), l % 16 + r % 16 >= 16).with_flag(
                        carry_mask(),
                        l % 256 + r % 256 >= 256,
                    ),
                )
            } else if s == 1 {
                let es = self.execute_state;
                Some(
                    self.with_reg8(Registers8::H, es.msb).with_flag(subtract_mask(), false).with_flag(
                        half_carry_mask(),
                        es.three_quarter_carry,
                    ).with_flag(carry_mask(), es.carry).done(),
                )
            } else {
                None
            },
            _ => None,
        }
    }

    /// RET cc / RET: a conditional return spends a cycle on the check.
    #[verifier::opaque]
    pub open spec fn spec_return(self, m: T::V, c: Condition) -> Option<(Self, T::V)> {
        let met = self.condition_met(c);
        let s: int = if c == Condition::Always {
            self.exec_step() + 1
        } else {
            self.exec_step() as int
        };
        let sp = self.registers.sp;
        let es = self.execute_state;
        if s == 0 {
            Some((self, m))
        } else if s == 1 {
            if !met {
                Some((self.done(), m))
            } else {
                match mem_read::<T>(m, sp) {
                    Some(v) => Some((self.with_es(ExecuteState { lsb: v, ..es }).with_sp(inc16(sp)), m)),
                    None => None,
                }
            }
        } else if s == 2 {
            match mem_read::<T>(m, sp) {
                Some(v) => Some((self.with_es(ExecuteState { msb: v, ..es }).with_sp(inc16(sp)), m)),
                None => None,
            }
        } else if s == 3 {
            Some((self.with_pc(pair(es.msb, es.lsb)), m))
        } else if s == 4 {
            Some((self.done(), m))
        } else {
            None
        }
    }

    /// PUSH rr: the high byte goes to SP - 1, the low byte to SP - 2.
    #[verifier::opaque]
    pub open spec fn spec_push(self, m: T::V, r: Registers16) -> Option<(Self, T::V)> {
        let s = self.exec_step();
        let sp = self.registers.sp;
        let es = self.execute_state;
        if s == 0 {
            let v = self.reg16(r);
            Some((self.with_es(ExecuteState { lsb: lo(v), msb: hi(v), ..es }).with_sp(dec16(sp)), m))
        } else if s == 1 {
            match mem_write::<T>(m, sp, es.msb) {
                Some(m2) => Some((self.with_sp(dec16(sp)), m2)),
                None => None,
            }
        } else if s == 2 {
            match mem_write::<T>(m, sp, es.lsb) {
                Some(m2) => Some((self, m2)),
                None => None,
            }
        } else if s == 3 {
            Some((self.done(), m))
        } else {
            None
        }
    }

    /// The first two cycles of POP and RETI: the low byte is read from SP, the
    /// high byte from SP + 1.
    pub open spec fn spec_pop_bytes(self, m: T::V) -> Option<(Self, T::V)> {
        let s = self.exec_step();
        let sp = self.registers.sp;
        let es = self.execute_state;
        if s == 0 {
            match mem_read::<T>(m, sp) {
                Some(v) => Some((self.with_es(ExecuteState { lsb: v, ..es }).with_sp(inc16(sp)), m)),
                None => None,
            }
        } else {
            match mem_read::<T>(m, sp) {
                Some(v) => Some((self.with_es(ExecuteState { msb: v, ..es }).with_sp(inc16(sp)), m)),
                None => None,
            }
        }
    }

    /// POP rr.
    #[verifier::opaque]
    pub open spec fn spec_pop(self, m: T::V, r: Registers16) -> Option<(Self, T::V)> {
        let s = self.exec_step();
        let es = self.execute_state;
        if s <= 1 {
            self.spec_pop_bytes(m)
        } else if s == 2 {
            Some((self.with_reg16(r, pair(es.msb, es.lsb)).done(), m))
        } else {
            None
        }
    }

    /// RETI.
    #[verifier::opaque]
    pub open spec fn spec_return_interrupt(self, m: T::V) -> Option<(Self, T::V)> {
        let s = self.exec_step();
        let es = self.execute_state;
        if s <= 1 {
            self.spec_pop_bytes(m)
        } else if s == 2 {
            Some((CPU { ime: true, ..self.with_pc(pair(es.msb, es.lsb)) }, m))
        } else if s == 3 {
            Some((self.done(), m))
        } else {
            None
        }
    }

    /// The first cycle of ADD SP, e8 and LD HL, SP + e8: the offset is added to
    /// the low byte of SP; the flags come from that byte addition.
    pub open spec fn sp_offset_low(self, o: i8) -> (u8, bool, bool) {
        let lsb = lo(self.registers.sp);
        let ob = offset_byte(o);
        ((((lsb + ob) % 256) as u8), lsb % 16 + ob % 16 >= 16, lsb + ob >= 256)
    }

    /// ADD SP, e8.
    #[verifier::opaque]
    pub open spec fn spec_add_stack(self, o: i8) -> Option<Self> {
        let s = self.exec_step();
        let es = self.execute_state;
        if s == 0 {
            let (low, h, c) = self.sp_offset_low(o);
            Some(
                self.with_znhc(false, false, h, c).with_es(
                    ExecuteState {
                        carry: c,
                        lsb: low,
                        msb: hi(self.registers.sp),
                        z_sign: o < 0,
                        ..es
                    },
                ),
            )
        } else if s == 1 {
            let adjustment: int = if es.z_sign {
                0xFF
            } else {
                0
            };
            Some(
                self.with_es(
                    ExecuteState {
                        msb: ((es.msb + adjustment + bit_value(es.carry)) % 256) as u8,
                        ..es
                    },
                ),
            )
        } else if s == 2 {
            Some(self.with_sp(pair(es.msb, es.lsb)).done())
        } else {
            None
        }
    }

    /// LD HL, SP + e8.
    #[verifier::opaque]
    pub open spec fn spec_load_stack_offset(self, o: i8) -> Option<Self> {
        let s = self.exec_step();
        let es = self.execute_state;
        if s == 0 {
            let (low, h, c) = self.sp_offset_low(o);
            Some(
                self.with_reg8(Registers8::L, low).with_znhc(false, false, h, c).with_es(
                    ExecuteState { z_sign: o < 0, msb: hi(self.registers.sp), ..es },
                ),
            )
        } else if s == 1 {
            let adjustment: int = if es.z_sign {
                0xFF
            } else {
                0
            };
            Some(
                self.with_reg8(
                    Registers8::H,
                    ((es.msb + adjustment + bit_value(self.carry_flag())) % 256) as u8,
                ).done(),
            )
        } else {
            None
        }
    }

    /// CALL cc, nn / CALL nn: the return address is pushed, high byte first.
    #[verifier::opaque]
    pub open spec fn spec_call(self, m: T::V, c: Condition, target: Target) -> Option<(Self, T::V)> {
        let s = self.exec_step();
        let sp = self.registers.sp;
        let es = self.execute_state;
        if s == 0 {
            Some((self, m))
        } else if s == 1 {
            if !self.condition_met(c) {
                Some((self.done(), m))
            } else {
                Some(
                    (
                        self.with_es(ExecuteState { lsb: lo(self.pc), msb: hi(self.pc), ..es }).with_sp(
                            dec16(sp),
                        ),
                        m,
                    ),
                )
            }
        } else if s == 2 {
            match mem_write::<T>(m, sp, es.msb) {
                Some(m2) => Some((self.with_sp(dec16(sp)), m2)),
                None => None,
            }
        } else if s == 3 {
            match (mem_write::<T>(m, sp, es.lsb), target) {
                (Some(m2), Target::Imm16(address)) => Some((self.with_pc(address), m2)),
                _ => None,
            }
        } else if s == 4 {
            Some((self.done(), m))
        } else {
            None
        }
    }

    /// RST n.
    #[verifier::opaque]
    pub open spec fn spec_restart(self, m: T::V, address: u16) -> Option<(Self, T::V)> {
        let s = self.exec_step();
        let sp = self.registers.sp;
        let es = self.execute_state;
        if s == 0 {
            Some(
                (
                    self.with_sp(dec16(sp)).with_es(
                        ExecuteState { lsb: lo(self.pc), msb: hi(self.pc), ..es },
                    ),
                    m,
                ),
            )
        } else if s == 1 {
            match mem_write::<T>(m, sp, es.msb) {
                Some(m2) => Some((self.with_sp(dec16(sp)), m2)),
                None => None,
            }
        } else if s == 2 {
            match mem_write::<T>(m, sp, es.lsb) {
                Some(m2) => Some((self.with_pc(address), m2)),
                None => None,
            }
        } else if s == 3 {
            Some((self.done(), m))
        } else {
            None
        }
    }

    /// The rotate and shift operations of the CB table on a register or on
    /// (HL); the flags are Z 0 0 C.
    #[verifier::opaque]
    pub open spec fn spec_shift(self, m: T::V, op: Operation, target: Target) -> Option<(Self, T::V)> {
        let s = self.exec_step();
        match target {
            Target::R8(r) => {
                let (res, c) = shift_result(op, self.reg8(r), self.carry_flag());
                Some((self.with_znhc(res == 0, false, false, c).with_reg8(r, res).done(), m))
            },
            Target::Ind(Indirect::R16(Registers16::HL)) => {
                let hl = self.registers.spec_hl();
                if s == 0 {
                    match mem_read::<T>(m, hl) {
                        Some(v) => Some(
                            (self.with_es(ExecuteState { value: v, ..self.execute_state }), m),
                        ),
                        None => None,
                    }
                } else if s == 1 {
                    let (res, c) = shift_result(op, self.execute_state.value, self.carry_flag());
                    match mem_write::<T>(m, hl, res) {
                        Some(m2) => Some((self.with_znhc(res == 0, false, false, c), m2)),
                        None => None,
                    }
                } else if s == 2 {
                    Some((self.done(), m))
                } else {
                    None
                }
            },
            _ => None,
        }
    }

    /// BIT b: Z is set when bit `b` of the operand is clear; N 0, H 1.
    #[verifier::opaque]
    pub open spec fn spec_test_bit(self, m: T::V, bit: u8, target: Target) -> Option<(Self, T::V)> {
        let s = self.exec_step();
        let test = |v: u8|
            self.with_flag(zero_mask(), v & (1u8 << bit) == 0).with_flag(subtract_mask(), false).with_flag(
                half_carry_mask(),
                true,
            ).done();
        if bit >= 8 {
            None
        } else {
            match target {
                Target::R8(r) => Some((test(self.reg8(r)), m)),
                Target::Ind(Indirect::R16(Registers16::HL)) => if s == 0 {
                    match mem_read::<T>(m, self.registers.spec_hl()) {
                        Some(v) => Some(
                            (self.with_es(ExecuteState { value: v, ..self.execute_state }), m),
                        ),
                        None => None,
                    }
                } else if s == 1 {
                    Some((test(self.execute_state.value), m))
                } else {
                    None
                },
                _ => None,
            }
        }
    }

    /// RES b / SET b: the bit is cleared or set; no flag changes.
    #[verifier::opaque]
    pub open spec fn spec_write_bit(self, m: T::V, set: bool, bit: u8, target: Target) -> Option<
        (Self, T::V),
    > {
        let s = self.exec_step();
        let apply = |v: u8|
            if set {
                v | (1u8 << bit)
            } else {
                v & !(1u8 << bit)
            };
        if bit >= 8 {
            None
        } else {
            match target {
                Target::R8(r) => Some((self.with_reg8(r, apply(self.reg8(r))).done(), m)),
                Target::Ind(Indirect::R16(Registers16::HL)) => {
                    let hl = self.registers.spec_hl();
                    if s == 0 {
                        match mem_read::<T>(m, hl) {
                            Some(v) => Some(
                                (self.with_es(ExecuteState { value: v, ..self.execute_state }), m),
                            ),
                            None => None,
                        }
                    } else if s == 1 {
                        match mem_write::<T>(m, hl, apply(self.execute_state.value)) {
                            Some(m2) => Some((self, m2)),
                            None => None,
                        }
                    } else if s == 2 {
                        Some((self.done(), m))
                    } else {
                        None
                    }
                },
                _ => None,
            }
        }
    }

    /// The address that an indirect operand names, and HL after the access.
    pub open spec fn spec_indirect_address(self, ind: Indirect) -> (u16, Self) {
        let hl = self.registers.spec_hl();
        match ind {
            Indirect::R16(rr) => (self.reg16(rr), self),
            Indirect::Imm16(a) => (a, self),
            Indirect::HLI => (hl, self.with_reg16(Registers16::HL, inc16(hl))),
            Indirect::HLD => (hl, self.with_reg16(Registers16::HL, dec16(hl))),
            Indirect::C => (high_page(self.registers.c), self),
        }
    }

    /// Stores the byte `value` to `destination`; a store to memory takes the
    /// cycle `start` for the write and the next one to finish.
    pub open spec fn spec_load8(self, m: T::V, destination: Target, value: u8, start: usize) -> Option<
        (Self, T::V),
    > {
        let s = self.exec_step();
        match destination {
            Target::R8(r) => Some((self.with_reg8(r, value).done(), m)),
            Target::Ind(ind) => if s == start {
                let (address, next) = self.spec_indirect_address(ind);
                match mem_write::<T>(m, address, value) {
                    Some(m2) => Some((next, m2)),
                    None => None,
                }
            } else if s == start + 1 {
                Some((self.done(), m))
            } else {
                None
            },
            _ => None,
        }
    }

    /// Stores the word `value` to `destination`: a register pair, or two bytes
    /// at an immediate address, low byte first.
    pub open spec fn spec_load16(self, m: T::V, destination: Target, value: u16, start: usize) -> Option<
        (Self, T::V),
    > {
        let s = self.exec_step();
        match destination {
            Target::R16(r) => Some((self.with_reg16(r, value).done(), m)),
            Target::Ind(Indirect::Imm16(address)) => if s == start {
                match mem_write::<T>(m, address, lo(value)) {
                    Some(m2) => Some(
                        (self.with_es(ExecuteState { msb: hi(value), ..self.execute_state }), m2),
                    ),
                    None => None,
                }
            } else if s == start + 1 {
                match mem_write::<T>(m, inc16(address), self.execute_state.msb) {
                    Some(m2) => Some((self.done(), m2)),
                    None => None,
                }
            } else {
                None
            },
            _ => None,
        }
    }

    /// LD destination, source.
    #[verifier::opaque]
    pub open spec fn spec_load(self, m: T::V, destination: Target, source: Target) -> Option<
        (Self, T::V),
    > {
        let s = self.exec_step();
        match source {
            Target::R8(r) => self.spec_load8(m, destination, self.reg8(r), 0),
            Target::Imm8(v) => self.spec_load8(m, destination, v, 0),
            Target::R16(r) => self.spec_load16(m, destination, self.reg16(r), 0),
            Target::Imm16(v) => self.spec_load16(m, destination, v, 0),
            Target::Ind(ind) => if s == 0 {
                let (address, next) = self.spec_indirect_address(ind);
                match mem_read::<T>(m, address) {
                    Some(v) => Some((next.with_es(ExecuteState { value: v, ..next.execute_state }), m)),
                    None => None,
                }
            } else {
                self.spec_load8(m, destination, self.execute_state.value, 1)
            },
        }
    }

    /// INC: 8-bit targets set Z 0 H and keep C; 16-bit registers take a
    /// second cycle and keep the flags.
    #[verifier::opaque]
    pub open spec fn spec_increment(self, m: T::V, target: Target) -> Option<(Self, T::V)> {
        let s = self.exec_step();
        match target {
            Target::R8(r) => {
                let cur = self.reg8(r);
                let res = ((cur + 1) % 256) as u8;
                Some(
                    (
                        self.with_reg8(r, res).with_flag(zero_mask(), res == 0).with_flag(
                            subtract_mask(),
                            false,
                        ).with_flag(half_carry_mask(), cur % 16 == 15).done(),
                        m,
                    ),
                )
            },
            Target::R16(r) => if s == 0 {
                Some((self.with_reg16(r, inc16(self.reg16(r))), m))
            } else if s == 1 {
                Some((self.done(), m))
            } else {
                None
            },
            Target::Ind(Indirect::R16(rr)) => {
                let es = self.execute_state;
                if s == 0 {
                    let address = self.reg16(rr);
                    match mem_read::<T>(m, address) {
                        Some(v) => Some(
                            (self.with_es(ExecuteState { address, value: v, ..es }), m),
                        ),
                        None => None,
                    }
                } else if s == 1 {
                    let res = ((es.value + 1) % 256) as u8;
                    match mem_write::<T>(m, es.address, res) {
                        Some(m2) => Some(
                            (
                                self.with_flag(zero_mask(), res == 0).with_flag(
                                    subtract_mask(),
                                    false,
                                ).with_flag(half_carry_mask(), es.value % 16 == 15),
                                m2,
                            ),
                        ),
                        None => None,
                    }
                } else if s == 2 {
                    Some((self.done(), m))
                } else {
                    None
                }
            },
            _ => None,
        }
    }

    /// DEC: 8-bit targets set Z 1 H and keep C; 16-bit registers take a
    /// second cycle and keep the flags.
    #[verifier::opaque]
    pub open spec fn spec_decrement(self, m: T::V, target: Target) -> Option<(Self, T::V)> {
        let s = self.exec_step();
        match target {
            Target::R8(r) => {
                let cur = self.reg8(r);
                let res = ((cur + 255) % 256) as u8;
                Some(
                    (
                        self.with_reg8(r, res).with_flag(zero_mask(), res == 0).with_flag(
                            subtract_mask(),
                            true,
                        ).with_flag(half_carry_mask(), cur % 16 == 0).done(),
                        m,
                    ),
                )
            },
            Target::R16(r) => if s == 0 {
                Some((self.with_reg16(r, dec16(self.reg16(r))), m))
            } else if s == 1 {
                Some((self.done(), m))
            } else {
                None
            },
            Target::Ind(Indirect::R16(rr)) => {
                let es = self.execute_state;
                if s == 0 {
                    let address = self.reg16(rr);
                    match mem_read::<T>(m, address) {
                        Some(v) => Some(
                            (self.with_es(ExecuteState { address, value: v, ..es }), m),
                        ),
                        None => None,
                    }
                } else if s == 1 {
                    let res = ((es.value + 255) % 256) as u8;
                    match mem_write::<T>(m, es.address, res) {
                        Some(m2) => Some(
                            (
                                self.with_flag(zero_mask(), res == 0).with_flag(
                                    subtract_mask(),
                                    true,
                                ).with_flag(half_carry_mask(), es.value % 16 == 0),
                                m2,
                            ),
                        ),
                        None => None,
                    }
                } else if s == 2 {
                    Some((self.done(), m))
                } else {
                    None
                }
            },
            _ => None,
        }
    }

    /// JP: to a register pair at once, to an immediate address when the
    /// condition holds, in two cycles.
    #[verifier::opaque]
    pub open spec fn spec_jump(self, c: Condition, target: Target) -> Option<Self> {
        let s = self.exec_step();
        match target {
            Target::R16(r) => Some(self.with_pc(self.reg16(r)).done()),
            Target::Imm16(address) => if s == 0 {
                Some(
                    if self.condition_met(c) {
                        self.with_pc(address)
                    } else {
                        self
                    },
                )
            } else if s == 1 {
                Some(self.done())
            } else {
                None
            },
            _ => None,
        }
    }

    /// JR: the condition is checked in the first cycle; a taken jump adds
    /// the offset to PC.
    #[verifier::opaque]
    pub open spec fn spec_jump_relative(self, c: Condition, o: i8) -> Option<Self> {
        let s = self.exec_step();
        let es = self.execute_state;
        if s == 0 {
            Some(self.with_es(ExecuteState { condition_met: self.condition_met(c), ..es }))
        } else if s == 1 {
            if es.condition_met {
                Some(self.with_es(ExecuteState { result: add_offset(self.pc, o), ..es }))
            } else {
                Some(self.done())
            }
        } else if s == 2 {
            Some(self.with_pc(es.result))
        } else if s == 3 {
            Some(self.done())
        } else {
            None
        }
    }

    /// RLCA, RRCA, RLA, RRA: the flags are 0 0 0 C.
    #[verifier::opaque]
    pub open spec fn spec_rotate_accumulator(self, rt: RotationType, d: Direction) -> Self {
        let (res, c) = shift_result(
            Operation::Rotate(rt, d, Target::R8(Registers8::A)),
            self.registers.a,
            self.carry_flag(),
        );
        self.with_reg8(Registers8::A, res).with_znhc(false, false, false, c).done()
    }

    /// DAA: corrects A to packed BCD after an addition or subtraction.
    #[verifier::opaque]
    pub open spec fn spec_daa(self) -> Self {
        let a = self.registers.a;
        let h = self.half_carry_flag();
        let c = self.carry_flag();
        let next = if self.subtract_flag() {
            let adjustment = (if h {
                6int
            } else {
                0int
            }) + (if c {
                0x60int
            } else {
                0int
            });
            self.with_reg8(Registers8::A, ((a - adjustment + 256) % 256) as u8)
        } else {
            let low = h || a % 16 > 9;
            let high = c || a > 0x99;
            let adjustment = (if low {
                6int
            } else {
                0int
            }) + (if high {
                0x60int
            } else {
                0int
            });
            let flagged = if high {
                self.with_flag(carry_mask(), true)
            } else {
                self
            };
            flagged.with_reg8(Registers8::A, ((a + adjustment) % 256) as u8)
        };
        let r = next.registers.a;
        next.with_flag(zero_mask(), r == 0).with_flag(half_carry_mask(), false).done()
    }

    /// One machine cycle of `op`, before the cycle count is advanced.
    #[verifier::opaque]
    pub open spec fn exec_body(self, m: T::V, op: Operation) -> Option<(Self, T::V)> {
        match op {
            Operation::Nop => Some((self.done(), m)),
            Operation::Halt => Some((CPU { halted: false, ..self }.done(), m)),
            Operation::Load(d, s) => self.spec_load(m, d, s),
            Operation::Inc(t) => self.spec_increment(m, t),
            Operation::Dec(t) => self.spec_decrement(m, t),
            Operation::Stop => None,
            Operation::Jump(c, t) => match self.spec_jump(c, t) {
                Some(next) => Some((next, m)),
                None => None,
            },
            Operation::JumpRelative(c, o) => match self.spec_jump_relative(c, o) {
                Some(next) => Some((next, m)),
                None => None,
            },
            Operation::RotateAccumulator(rt, d) => Some((self.spec_rotate_accumulator(rt, d), m)),
            Operation::ComplementCarry => Some(
                (self.with_flag(subtract_mask(), false).with_flag(half_carry_mask(), false).with_flag(
                    carry_mask(),
                    !self.carry_flag(),
                ).done(), m),
            ),
            Operation::SetCarry => Some(
                (self.with_flag(subtract_mask(), false).with_flag(half_carry_mask(), false).with_flag(
                    carry_mask(),
                    true,
                ).done(), m),
            ),
            Operation::ComplementAccumulator => Some(
                (self.with_reg8(Registers8::A, !self.registers.a).with_flag(subtract_mask(), true).with_flag(
                    half_carry_mask(),
                    true,
                ).done(), m),
            ),
            Operation::DecimalAdjustAccumulator => Some((self.spec_daa(), m)),
            Operation::Compare(t) => self.spec_alu(m, op, t),
            Operation::Or(t) => self.spec_alu(m, op, t),
            Operation::Xor(t) => self.spec_alu(m, op, t),
            Operation::And(t) => self.spec_alu(m, op, t),
            Operation::Sbc(t) => self.spec_alu(m, op, t),
            Operation::Sub(t) => self.spec_alu(m, op, t),
            Operation::Adc(t) => self.spec_alu(m, op, t),
            Operation::Add(d, s) => match d {
                Target::R8(Registers8::A) => self.spec_alu(m, op, s),
                Target::R16(Registers16::HL) => match self.spec_add16(s) {
                    Some(next) => Some((next, m)),
                    None => None,
                },
                _ => None,
            },
            Operation::Return(c) => self.spec_return(m, c),
            Operation::Push(r) => self.spec_push(m, r),
            Operation::Pop(r) => self.spec_pop(m, r),
            Operation::ReturnInterrupt => self.spec_return_interrupt(m),
            Operation::AddStack(o) => match self.spec_add_stack(o) {
                Some(next) => Some((next, m)),
                None => None,
            },
            Operation::LoadStackOffset(o) => match self.spec_load_stack_offset(o) {
                Some(next) => Some((next, m)),
                None => None,
            },
            Operation::DisableInterrupt => Some((CPU { ime: false, ..self }.done(), m)),
            Operation::EnableInterrupt => Some((CPU { ime: true, ..self }.done(), m)),
            Operation::Call(c, t) => self.spec_call(m, c, t),
            Operation::Restart(address) => self.spec_restart(m, address),
            Operation::Rotate(_, _, t) => self.spec_shift(m, op, t),
            Operation::ShiftArithmetic(_, t) => self.spec_shift(m, op, t),
            Operation::Swap(t) => self.spec_shift(m, op, t),
            Operation::ShiftRightLogical(t) => self.spec_shift(m, op, t),
            Operation::TestBit(b, t) => self.spec_test_bit(m, b, t),
            Operation::ResetBit(b, t) => self.spec_write_bit(m, false, b, t),
            Operation::SetBit(b, t) => self.spec_write_bit(m, true, b, t),
        }
    }

    /// One machine cycle of `op` in the execute phase: the cycle's work, then
    /// the cycle count advances while the operation is not done.
    #[verifier::opaque]
    pub open spec fn spec_execute_operation(self, m: T::V, op: Operation) -> Option<(Self, T::V)> {
        match self.state {
            State::Execute(_, _) => match self.exec_body(m, op) {
                Some((c, m2)) => match c.state {
                    State::Execute(o, k) => if k < usize::MAX {
                        Some((CPU { state: State::Execute(o, (k + 1) as usize), ..c }, m2))
                    } else {
                        None
                    },
                    _ => Some((c, m2)),
                },
                None => None,
            },
            _ => None,
        }
    }
}

// ---------------------------------------------------------------------------
// Decoding
// ---------------------------------------------------------------------------

/// The three octal digits of an opcode: `x` (bits 7-6), `y` (bits 5-3) and
/// `z` (bits 2-0).
pub open spec fn op_x(ir: u8) -> u8 {
    ir / 64
}

pub open spec fn op_y(ir: u8) -> u8 {
    (ir / 8) % 8
}

pub open spec fn op_z(ir: u8) -> u8 {
    ir % 8
}

/// The 8-bit operand that a 3-bit field selects: B C D E H L (HL) A.
pub open spec fn r8_operand(i: u8) -> Target {
    if i == 0 {
        Target::R8(Registers8::B)
    } else if i == 1 {
        Target::R8(Registers8::C)
    } else if i == 2 {
        Target::R8(Registers8::D)
    } else if i == 3 {
        Target::R8(Registers8::E)
    } else if i == 4 {
        Target::R8(Registers8::H)
    } else if i == 5 {
        Target::R8(Registers8::L)
    } else if i == 6 {
        Target::Ind(Indirect::R16(Registers16::HL))
    } else {
        Target::R8(Registers8::A)
    }
}

/// The register pair that a 2-bit field selects: BC DE HL SP.
pub open spec fn rp_operand(i: u8) -> Registers16 {
    if i == 0 {
        Registers16::BC
    } else if i == 1 {
        Registers16::DE
    } else if i == 2 {
        Registers16::HL
    } else {
        Registers16::SP
    }
}

/// The register pair that PUSH and POP select: BC DE HL AF.
pub open spec fn rp2_operand(i: u8) -> Registers16 {
    if i == 0 {
        Registers16::BC
    } else if i == 1 {
        Registers16::DE
    } else if i == 2 {
        Registers16::HL
    } else {
        Registers16::AF
    }
}

/// The condition that a 2-bit field selects: NZ Z NC C.
pub open spec fn cc_operand(i: u8) -> Condition {
    if i == 0 {
        Condition::NZ
    } else if i == 1 {
        Condition::Z
    } else if i == 2 {
        Condition::NC
    } else {
        Condition::C
    }
}

/// The arithmetic or logic operation that a 3-bit field selects:
/// ADD ADC SUB SBC AND XOR OR CP.
pub open spec fn alu_operation(i: u8, t: Target) -> Operation {
    if i == 0 {
        Operation::Add(Target::R8(Registers8::A), t)
    } else if i == 1 {
        Operation::Adc(t)
    } else if i == 2 {
        Operation::Sub(t)
    } else if i == 3 {
        Operation::Sbc(t)
    } else if i == 4 {
        Operation::And(t)
    } else if i == 5 {
        Operation::Xor(t)
    } else if i == 6 {
        Operation::Or(t)
    } else {
        Operation::Compare(t)
    }
}

/// The SM83 opcode table: what the opcode `ir` decodes to.
pub open spec fn decode_kind(ir: u8) -> DecodeKind {
    let x = op_x(ir);
    let y = op_y(ir);
    let z = op_z(ir);
    if x == 0 {
        if z == 0 {
            if y == 0 {
                DecodeKind::Single(Operation::Nop)
            } else if y == 1 {
                DecodeKind::WordEarly
            } else if y == 2 {
                DecodeKind::Single(Operation::Stop)
            } else {
                DecodeKind::Offset
            }
        } else if z == 1 {
            if y % 2 == 0 {
                DecodeKind::Word
            } else {
                DecodeKind::Single(
                    Operation::Add(Target::R16(Registers16::HL), Target::R16(rp_operand(y / 2))),
                )
            }
        } else if z == 2 {
            let other = if y / 2 == 0 {
                Indirect::R16(Registers16::BC)
            } else if y / 2 == 1 {
                Indirect::R16(Registers16::DE)
            } else if y / 2 == 2 {
                Indirect::HLI
            } else {
                Indirect::HLD
            };
            DecodeKind::Single(
                if y % 2 == 0 {
                    Operation::Load(Target::Ind(other), Target::R8(Registers8::A))
                } else {
                    Operation::Load(Target::R8(Registers8::A), Target::Ind(other))
                },
            )
        } else if z == 3 {
            DecodeKind::Single(
                if y % 2 == 0 {
                    Operation::Inc(Target::R16(rp_operand(y / 2)))
                } else {
                    Operation::Dec(Target::R16(rp_operand(y / 2)))
                },
            )
        } else if z == 4 {
            DecodeKind::Single(Operation::Inc(r8_operand(y)))
        } else if z == 5 {
            DecodeKind::Single(Operation::Dec(r8_operand(y)))
        } else if z == 6 {
            DecodeKind::Byte
        } else if y < 4 {
            DecodeKind::Single(
                Operation::RotateAccumulator(
                    if y / 2 == 0 {
                        RotationType::Circular
                    } else {
                        RotationType::NonCircular
                    },
                    if y % 2 == 0 {
                        Direction::Left
                    } else {
                        Direction::Right
                    },
                ),
            )
        } else if y == 4 {
            DecodeKind::Single(Operation::DecimalAdjustAccumulator)
        } else if y == 5 {
            DecodeKind::Single(Operation::ComplementAccumulator)
        } else if y == 6 {
            DecodeKind::Single(Operation::SetCarry)
        } else {
            DecodeKind::Single(Operation::ComplementCarry)
        }
    } else if x == 1 {
        if y == 6 && z == 6 {
            DecodeKind::Single(Operation::Halt)
        } else {
            DecodeKind::Single(Operation::Load(r8_operand(y), r8_operand(z)))
        }
    } else if x == 2 {
        DecodeKind::Single(alu_operation(y, r8_operand(z)))
    } else if z == 0 {
        if y < 4 {
            DecodeKind::Single(Operation::Return(cc_operand(y)))
        } else if y == 4 || y == 6 {
            DecodeKind::Byte
        } else {
            DecodeKind::Offset
        }
    } else if z == 1 {
        if y == 7 {
            DecodeKind::Single(
                Operation::Load(Target::R16(Registers16::SP), Target::R16(Registers16::HL)),
            )
        } else if y % 2 == 0 {
            DecodeKind::Single(Operation::Pop(rp2_operand(y / 2)))
        } else if y == 1 {
            DecodeKind::Single(Operation::Return(Condition::Always))
        } else if y == 3 {
            DecodeKind::Single(Operation::ReturnInterrupt)
        } else {
            DecodeKind::Single(Operation::Jump(Condition::Always, Target::R16(Registers16::HL)))
        }
    } else if z == 2 {
        if y == 4 {
            DecodeKind::Single(
                Operation::Load(Target::Ind(Indirect::C), Target::R8(Registers8::A)),
            )
        } else if y == 6 {
            DecodeKind::Single(
                Operation::Load(Target::R8(Registers8::A), Target::Ind(Indirect::C)),
            )
        } else {
            DecodeKind::Word
        }
    } else if z == 3 {
        if y == 0 {
            DecodeKind::Word
        } else if y == 1 {
            DecodeKind::Prefix
        } else if y == 6 {
            DecodeKind::Single(Operation::DisableInterrupt)
        } else if y == 7 {
            DecodeKind::Single(Operation::EnableInterrupt)
        } else {
            DecodeKind::Invalid
        }
    } else if z == 4 {
        if y < 4 {
            DecodeKind::Word
        } else {
            DecodeKind::Invalid
        }
    } else if z == 5 {
        if y % 2 == 0 {
            DecodeKind::Single(Operation::Push(rp2_operand(y / 2)))
        } else if y == 1 {
            DecodeKind::Word
        } else {
            DecodeKind::Invalid
        }
    } else if z == 6 {
        DecodeKind::Byte
    } else {
        DecodeKind::Single(Operation::Restart((y * 8) as u16))
    }
}

/// The operation of an opcode that takes the immediate word `address`.
pub open spec fn word_operation(ir: u8, address: u16) -> Operation {
    let x = op_x(ir);
    let y = op_y(ir);
    let z = op_z(ir);
    if x == 0 {
        if z == 0 {
            Operation::Load(Target::Ind(Indirect::Imm16(address)), Target::R16(Registers16::SP))
        } else {
            Operation::Load(Target::R16(rp_operand(y / 2)), Target::Imm16(address))
        }
    } else if z == 2 {
        if y < 4 {
            Operation::Jump(cc_operand(y), Target::Imm16(address))
        } else if y == 5 {
            Operation::Load(Target::Ind(Indirect::Imm16(address)), Target::R8(Registers8::A))
        } else {
            Operation::Load(Target::R8(Registers8::A), Target::Ind(Indirect::Imm16(address)))
        }
    } else if z == 3 {
        Operation::Jump(Condition::Always, Target::Imm16(address))
    } else if z == 4 {
        Operation::Call(cc_operand(y), Target::Imm16(address))
    } else {
        Operation::Call(Condition::Always, Target::Imm16(address))
    }
}

/// The operation of an opcode that takes the immediate byte `v`.
pub open spec fn byte_operation(ir: u8, v: u8) -> Operation {
    let x = op_x(ir);
    let y = op_y(ir);
    let z = op_z(ir);
    if x == 0 {
        Operation::Load(r8_operand(y), Target::Imm8(v))
    } else if z == 0 {
        if y == 4 {
            Operation::Load(Target::Ind(Indirect::Imm16(high_page(v))), Target::R8(Registers8::A))
        } else {
            Operation::Load(Target::R8(Registers8::A), Target::Ind(Indirect::Imm16(high_page(v))))
        }
    } else {
        alu_operation(y, Target::Imm8(v))
    }
}

/// The operation of an opcode that takes the signed offset `o`.
pub open spec fn offset_operation(ir: u8, o: i8) -> Operation {
    let y = op_y(ir);
    if op_x(ir) == 0 {
        Operation::JumpRelative(
            if y == 3 {
                Condition::Always
            } else {
                cc_operand((y - 4) as u8)
            },
            o,
        )
    } else if y == 5 {
        Operation::AddStack(o)
    } else {
        Operation::LoadStackOffset(o)
    }
}

/// The CB-prefixed opcode `v`: a rotate, shift or swap for `v` < 0x40, then
/// BIT, RES and SET of bit `(v / 8) % 8`, on the operand `v % 8`.
pub open spec fn cb_operation(v: u8) -> Operation {
    let op = v / 8;
    let t = r8_operand(v % 8);
    if op == 0 {
        Operation::Rotate(RotationType::Circular, Direction::Left, t)
    } else if op == 1 {
        Operation::Rotate(RotationType::Circular, Direction::Right, t)
    } else if op == 2 {
        Operation::Rotate(RotationType::NonCircular, Direction::Left, t)
    } else if op == 3 {
        Operation::Rotate(RotationType::NonCircular, Direction::Right, t)
    } else if op == 4 {
        Operation::ShiftArithmetic(Direction::Left, t)
    } else if op == 5 {
        Operation::ShiftArithmetic(Direction::Right, t)
    } else if op == 6 {
        Operation::Swap(t)
    } else if op == 7 {
        Operation::ShiftRightLogical(t)
    } else if op < 16 {
        Operation::TestBit((op - 8) as u8, t)
    } else if op < 24 {
        Operation::ResetBit((op - 16) as u8, t)
    } else {
        Operation::SetBit((op - 24) as u8, t)
    }
}

impl<T: Memory> CPU<T> {
    /// Reads the byte at PC into the decode state (through `keep`) and
    /// advances PC and the decode cycle.
    pub open spec fn decode_read(
        self,
        m: T::V,
        keep: spec_fn(DecodeState, u8) -> DecodeState,
    ) -> Option<(Self, T::V)> {
        match mem_read::<T>(m, self.pc) {
            Some(v) => Some(
                (
                    CPU {
                        decode_state: keep(self.decode_state, v),
                        pc: inc16(self.pc),
                        state: State::Decode((self.decode_step() + 1) as usize),
                        ..self
                    },
                    m,
                ),
            ),
            None => None,
        }
    }

    /// The start of executing `op`.
    pub open spec fn start(self, op: Operation) -> Self {
        CPU { state: State::Execute(op, 0), ..self }
    }

    /// The second and third decode cycles of a CB-prefixed opcode.
    #[verifier::opaque]
    pub open spec fn spec_fetch_cb(self, m: T::V) -> Option<(Self, T::V)> {
        let s = self.decode_step();
        if s == 0 {
            self.decode_read(m, |ds: DecodeState, v: u8| DecodeState { value: v, ..ds })
        } else if s == 1 {
            Some((self.start(cb_operation(self.decode_state.value)), m))
        } else {
            None
        }
    }

    /// One machine cycle of decoding the opcode in IR.
    #[verifier::opaque]
    pub open spec fn spec_decode(self, m: T::V) -> Option<(Self, T::V)> {
        let s = self.decode_step();
        let ds = self.decode_state;
        match self.state {
            State::Decode(_) => match decode_kind(self.ir) {
                DecodeKind::Single(op) => Some((self.start(op), m)),
                DecodeKind::Invalid => None,
                DecodeKind::Word => if s == 0 {
                    self.decode_read(m, |d: DecodeState, v: u8| DecodeState { lsb: v, ..d })
                } else if s == 1 {
                    self.decode_read(m, |d: DecodeState, v: u8| DecodeState { msb: v, ..d })
                } else if s == 2 {
                    Some((self.start(word_operation(self.ir, pair(ds.msb, ds.lsb))), m))
                } else {
                    None
                },
                DecodeKind::WordEarly => if s == 0 {
                    self.decode_read(m, |d: DecodeState, v: u8| DecodeState { lsb: v, ..d })
                } else if s == 1 {
                    match mem_read::<T>(m, self.pc) {
                        Some(v) => Some(
                            (
                                CPU {
                                    decode_state: DecodeState { msb: v, ..ds },
                                    pc: inc16(self.pc),
                                    ..self
                                }.start(word_operation(self.ir, pair(v, ds.lsb))),
                                m,
                            ),
                        ),
                        None => None,
                    }
                } else {
                    None
                },
                DecodeKind::Byte => if s == 0 {
                    self.decode_read(m, |d: DecodeState, v: u8| DecodeState { value: v, ..d })
                } else if s == 1 {
                    Some((self.start(byte_operation(self.ir, ds.value)), m))
                } else {
                    None
                },
                DecodeKind::Offset => if s == 0 {
                    self.decode_read(
                        m,
                        |d: DecodeState, v: u8| DecodeState { offset: signed_byte(v), ..d },
                    )
                } else if s == 1 {
                    Some((self.start(offset_operation(self.ir, ds.offset)), m))
                } else {
                    None
                },
                DecodeKind::Prefix => self.spec_fetch_cb(m),
            },
            _ => None,
        }
    }
}

// ---------------------------------------------------------------------------
// Interrupts and the machine cycle
// ---------------------------------------------------------------------------

impl<T: Memory> CPU<T> {
    /// One machine cycle of dispatching an interrupt: the first cycle picks
    /// the pending interrupt of highest priority, acknowledges it in IF,
    /// disables interrupts and steps PC back onto the instruction that was
    /// fetched; the third starts a call to the interrupt's handler.
    #[verifier::opaque]
    pub open spec fn spec_handle_interrupts(self, m: T::V) -> Option<(Self, T::V)> {
        match self.state {
            State::HandlingInterrupts(s) => if s == 0 {
                match first_interrupt(T::interrupt_flag_of(m) & T::ie_of(m)) {
                    Some(t) => Some(
                        (
                            CPU {
                                interrupt_address: interrupt_vector(t),
                                ime: false,
                                pc: dec16(self.pc),
                                state: State::HandlingInterrupts(1),
                                ..self
                            },
                            T::cleared(m, t),
                        ),
                    ),
                    None => None,
                }
            } else if s == 1 {
                Some((CPU { state: State::HandlingInterrupts(2), ..self }, m))
            } else if s == 2 {
                Some(
                    (
                        self.start(
                            Operation::Call(Condition::Always, Target::Imm16(self.interrupt_address)),
                        ),
                        m,
                    ),
                )
            } else {
                None
            },
            _ => None,
        }
    }

    /// The end of a machine cycle: when the operation is done, the next
    /// opcode is fetched into IR and decoding starts.
    #[verifier::opaque]
    pub open spec fn spec_fetch(self, m: T::V) -> Option<(Self, T::V)> {
        match self.state {
            State::ExecutionDone => match mem_read::<T>(m, self.pc) {
                Some(v) => Some(
                    (
                        CPU {
                            ir: v,
                            pc: if !self.halted {
                                inc16(self.pc)
                            } else {
                                self.pc
                            },
                            state: State::Decode(0),
                            ..self
                        },
                        m,
                    ),
                ),
                None => None,
            },
            _ => Some((self, m)),
        }
    }

    /// The phases of one machine cycle while the CPU runs: interrupt
    /// dispatch, then decode, then execute, then fetch, each when the state
    /// left by the one before asks for it.
    #[verifier::opaque]
    pub open spec fn spec_phases(self, m: T::V) -> Option<(Self, T::V)> {
        let r1 = match self.state {
            State::HandlingInterrupts(_) => self.spec_handle_interrupts(m),
            _ => Some((self, m)),
        };
        match r1 {
            None => None,
            Some((c1, m1)) => {
                let r2 = match c1.state {
                    State::Decode(_) => c1.spec_decode(m1),
                    _ => Some((c1, m1)),
                };
                match r2 {
                    None => None,
                    Some((c2, m2)) => {
                        let r3 = match c2.state {
                            State::Execute(op, _) => c2.spec_execute_operation(m2, op),
                            _ => Some((c2, m2)),
                        };
                        match r3 {
                            None => None,
                            Some((c3, m3)) => c3.spec_fetch(m3),
                        }
                    },
                }
            },
        }
    }

    /// One machine cycle. A pending enabled interrupt wakes a halted CPU
    /// (PC steps past the HALT) and, with IME set, is dispatched when the
    /// CPU is about to decode a new opcode.
    #[verifier::opaque]
    pub open spec fn spec_tick(self, m: T::V) -> Option<(Self, T::V)> {
        let pending = interrupt_pending::<T>(m);
        let c1 = if self.halted && pending {
            CPU { halted: false, pc: inc16(self.pc), ..self }
        } else {
            self
        };
        let c2 = if c1.state == State::Decode(0) && pending && c1.ime {
            CPU { state: State::HandlingInterrupts(0), ..c1 }
        } else {
            c1
        };
        if c2.halted {
            Some((c2, m))
        } else {
            c2.spec_phases(m)
        }
    }
}

} // verus!
