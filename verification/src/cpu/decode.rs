//! The decode phase: the opcode table and the cycles that read immediates.
use vstd::prelude::*;

use crate::context::{Context, Memory};
use crate::cpu::semantics::{
    alu_operation, byte_operation, cb_operation, cc_operand, decode_kind, high_page, inc16,
    mem_read, offset_operation, op_x, op_y, op_z, outcome, r8_operand, rp2_operand, rp_operand,
    signed_byte, word_operation,
};
use crate::cpu::{
    Condition, DecodeKind, Direction, Fault, Indirect, Operation, Registers16, Registers8,
    RotationType, State, Target, CPU,
};

verus! {

/// The three octal digits of `value`, most significant first.
pub fn decompose_octal_triplet(value: u8) -> (r: (u8, u8, u8))
    ensures
        r == (op_x(value), op_y(value), op_z(value)),
{
    assert(((value >> 6u8) & 7u8) as int == value / 64 && ((value >> 3u8) & 7u8) as int == (value
        / 8) % 8 && (value & 7u8) as int == value % 8) by (bit_vector);
    ((value >> 6u8) & 0o7u8, (value >> 3u8) & 0o7u8, value & 0o7u8)
}

/// A CB-prefixed opcode split into its operation (the top five bits) and
/// its operand (the low three bits).
pub fn decompose_octal_cb(value: u8) -> (r: (u8, u8))
    ensures
        r == (value / 8, value % 8),
{
    assert(((value >> 3u8) & 0o77u8) as int == value / 8 && (value & 7u8) as int == value % 8)
        by (bit_vector);
    ((value >> 3u8) & 0o77u8, value & 0o7u8)
}

/// The 8-bit operand that a 3-bit field selects: B C D E H L (HL) A.
fn r8_target(i: u8) -> (r: Target)
    ensures
        r == r8_operand(i),
{
    match i {
        0 => Target::R8(Registers8::B),
        1 => Target::R8(Registers8::C),
        2 => Target::R8(Registers8::D),
        3 => Target::R8(Registers8::E),
        4 => Target::R8(Registers8::H),
        5 => Target::R8(Registers8::L),
        6 => Target::Ind(Indirect::R16(Registers16::HL)),
        _ => Target::R8(Registers8::A),
    }
}

/// The register pair that a 2-bit field selects: BC DE HL SP.
fn register_pair(i: u8) -> (r: Registers16)
    ensures
        r == rp_operand(i),
{
    match i {
        0 => Registers16::BC,
        1 => Registers16::DE,
        2 => Registers16::HL,
        _ => Registers16::SP,
    }
}

/// The register pair that PUSH and POP select: BC DE HL AF.
fn stack_pair(i: u8) -> (r: Registers16)
    ensures
        r == rp2_operand(i),
{
    match i {
        0 => Registers16::BC,
        1 => Registers16::DE,
        2 => Registers16::HL,
        _ => Registers16::AF,
    }
}

/// The condition that a 2-bit field selects: NZ Z NC C.
fn condition(i: u8) -> (r: Condition)
    ensures
        r == cc_operand(i),
{
    match i {
        0 => Condition::NZ,
        1 => Condition::Z,
        2 => Condition::NC,
        _ => Condition::C,
    }
}

/// ADD ADC SUB SBC AND XOR OR CP, selected by a 3-bit field.
fn alu_op(i: u8, t: Target) -> (r: Operation)
    ensures
        r == alu_operation(i, t),
{
    match i {
        0 => Operation::Add(Target::R8(Registers8::A), t),
        1 => Operation::Adc(t),
        2 => Operation::Sub(t),
        3 => Operation::Sbc(t),
        4 => Operation::And(t),
        5 => Operation::Xor(t),
        6 => Operation::Or(t),
        _ => Operation::Compare(t),
    }
}

/// The opcode table, by octal digits (https://gbdev.io/gb-opcodes/optables/octal).
pub fn decode_table(ir: u8) -> (r: DecodeKind)
    ensures
        r == decode_kind(ir),
{
    let (x, y, z) = decompose_octal_triplet(ir);
    match (x, y, z) {
        (0, 0, 0) => DecodeKind::Single(Operation::Nop),
        (0, 1, 0) => DecodeKind::WordEarly,
        (0, 2, 0) => DecodeKind::Single(Operation::Stop),
        (0, _, 0) => DecodeKind::Offset,
        (0, op, 1) => {
            if op % 2 == 0 {
                DecodeKind::Word
            } else {
                DecodeKind::Single(
                    Operation::Add(Target::R16(Registers16::HL), Target::R16(register_pair(op / 2))),
                )
            }
        },
        (0, op, 2) => {
            let other = match op / 2 {
                0 => Indirect::R16(Registers16::BC),
                1 => Indirect::R16(Registers16::DE),
                2 => Indirect::HLI,
                _ => Indirect::HLD,
            };
            DecodeKind::Single(
                if op % 2 == 0 {
                    Operation::Load(Target::Ind(other), Target::R8(Registers8::A))
                } else {
                    Operation::Load(Target::R8(Registers8::A), Target::Ind(other))
                },
            )
        },
        (0, op, 3) => {
            let target = register_pair(op / 2);
            DecodeKind::Single(
                if op % 2 == 0 {
                    Operation::Inc(Target::R16(target))
                } else {
                    Operation::Dec(Target::R16(target))
                },
            )
        },
        (0, target, 4) => DecodeKind::Single(Operation::Inc(r8_target(target))),
        (0, target, 5) => DecodeKind::Single(Operation::Dec(r8_target(target))),
        (0, _, 6) => DecodeKind::Byte,
        (0, op, 7) => {
            if op <= 3 {
                let kind = if op / 2 == 0 {
                    RotationType::Circular
                } else {
                    RotationType::NonCircular
                };
                let direction = if op % 2 == 0 {
                    Direction::Left
                } else {
                    Direction::Right
                };
                DecodeKind::Single(Operation::RotateAccumulator(kind, direction))
            } else if op == 4 {
                DecodeKind::Single(Operation::DecimalAdjustAccumulator)
            } else if op == 5 {
                DecodeKind::Single(Operation::ComplementAccumulator)
            } else if op == 6 {
                DecodeKind::Single(Operation::SetCarry)
            } else {
                DecodeKind::Single(Operation::ComplementCarry)
            }
        },
        (1, 6, 6) => DecodeKind::Single(Operation::Halt),
        (1, destination, source) => DecodeKind::Single(
            Operation::Load(r8_target(destination), r8_target(source)),
        ),
        (2, op, target) => DecodeKind::Single(alu_op(op, r8_target(target))),
        (3, cc @ 0..=3, 0) => DecodeKind::Single(Operation::Return(condition(cc))),
        (3, 4, 0) | (3, 6, 0) => DecodeKind::Byte,
        (3, 5, 0) | (3, 7, 0) => DecodeKind::Offset,
        (3, 7, 1) => DecodeKind::Single(Operation::Load(Target::R16(Registers16::SP), Target::R16(Registers16::HL))),
        (3, target @ (0 | 2 | 4 | 6), 1) => DecodeKind::Single(
            Operation::Pop(stack_pair(target / 2)),
        ),
        (3, 1, 1) => DecodeKind::Single(Operation::Return(Condition::Always)),
        (3, 3, 1) => DecodeKind::Single(Operation::ReturnInterrupt),
        (3, _, 1) => DecodeKind::Single(Operation::Jump(Condition::Always, Target::R16(Registers16::HL))),
        (3, 4, 2) => DecodeKind::Single(
            Operation::Load(Target::Ind(Indirect::C), Target::R8(Registers8::A)),
        ),
        (3, 6, 2) => DecodeKind::Single(
            Operation::Load(Target::R8(Registers8::A), Target::Ind(Indirect::C)),
        ),
        (3, _, 2) => DecodeKind::Word,
        (3, 0, 3) => DecodeKind::Word,
        (3, 1, 3) => DecodeKind::Prefix,
        (3, 6, 3) => DecodeKind::Single(Operation::DisableInterrupt),
        (3, 7, 3) => DecodeKind::Single(Operation::EnableInterrupt),
        (3, _, 3) => DecodeKind::Invalid,
        (3, 0..=3, 4) => DecodeKind::Word,
        (3, _, 4) => DecodeKind::Invalid,
        (3, target @ (0 | 2 | 4 | 6), 5) => DecodeKind::Single(
            Operation::Push(stack_pair(target / 2)),
        ),
        (3, 1, 5) => DecodeKind::Word,
        (3, _, 5) => DecodeKind::Invalid,
        (3, _, 6) => DecodeKind::Byte,
        (_, variant, _) => DecodeKind::Single(Operation::Restart(variant as u16 * 8)),
    }
}

/// The operation of an opcode that takes the immediate word `address`.
fn word_op(ir: u8, address: u16) -> (r: Operation)
    requires
        decode_kind(ir) is Word || decode_kind(ir) is WordEarly,
    ensures
        r == word_operation(ir, address),
{
    let (x, y, z) = decompose_octal_triplet(ir);
    if x == 0 {
        if z == 0 {
            Operation::Load(Target::Ind(Indirect::Imm16(address)), Target::R16(Registers16::SP))
        } else {
            Operation::Load(Target::R16(register_pair(y / 2)), Target::Imm16(address))
        }
    } else if z == 2 {
        if y <= 3 {
            Operation::Jump(condition(y), Target::Imm16(address))
        } else if y == 5 {
            Operation::Load(Target::Ind(Indirect::Imm16(address)), Target::R8(Registers8::A))
        } else {
            Operation::Load(Target::R8(Registers8::A), Target::Ind(Indirect::Imm16(address)))
        }
    } else if z == 3 {
        Operation::Jump(Condition::Always, Target::Imm16(address))
    } else if z == 4 {
        Operation::Call(condition(y), Target::Imm16(address))
    } else {
        Operation::Call(Condition::Always, Target::Imm16(address))
    }
}

/// The operation of an opcode that takes the immediate byte `value`.
fn byte_op(ir: u8, value: u8) -> (r: Operation)
    ensures
        r == byte_operation(ir, value),
{
    let (x, y, z) = decompose_octal_triplet(ir);
    if x == 0 {
        Operation::Load(r8_target(y), Target::Imm8(value))
    } else if z == 0 {
        let address = 0xFF00u16 + value as u16;
        if y == 4 {
            Operation::Load(Target::Ind(Indirect::Imm16(address)), Target::R8(Registers8::A))
        } else {
            Operation::Load(Target::R8(Registers8::A), Target::Ind(Indirect::Imm16(address)))
        }
    } else {
        alu_op(y, Target::Imm8(value))
    }
}

/// The operation of an opcode that takes the signed offset `offset`.
fn offset_op(ir: u8, offset: i8) -> (r: Operation)
    requires
        decode_kind(ir) is Offset,
    ensures
        r == offset_operation(ir, offset),
{
    let (x, y, _) = decompose_octal_triplet(ir);
    if x == 0 {
        let cc = if y == 3 {
            Condition::Always
        } else {
            condition(y - 4)
        };
        Operation::JumpRelative(cc, offset)
    } else if y == 5 {
        Operation::AddStack(offset)
    } else {
        Operation::LoadStackOffset(offset)
    }
}

/// The operation of the CB-prefixed opcode `value`.
fn cb_op(value: u8) -> (r: Operation)
    ensures
        r == cb_operation(value),
{
    let (operation, target) = decompose_octal_cb(value);
    let target = r8_target(target);
    match operation {
        0 => Operation::Rotate(RotationType::Circular, Direction::Left, target),
        1 => Operation::Rotate(RotationType::Circular, Direction::Right, target),
        2 => Operation::Rotate(RotationType::NonCircular, Direction::Left, target),
        3 => Operation::Rotate(RotationType::NonCircular, Direction::Right, target),
        4 => Operation::ShiftArithmetic(Direction::Left, target),
        5 => Operation::ShiftArithmetic(Direction::Right, target),
        6 => Operation::Swap(target),
        7 => Operation::ShiftRightLogical(target),
        8..=15 => Operation::TestBit(operation - 8, target),
        16..=23 => Operation::ResetBit(operation - 16, target),
        _ => Operation::SetBit(operation - 24, target),
    }
}

/// The signed value of the byte `value`.
fn as_signed(value: u8) -> (r: i8)
    ensures
        r == signed_byte(value),
{
    if value < 128 {
        value as i8
    } else {
        (value as i16 - 256) as i8
    }
}

impl<T: Memory> CPU<T> {
    /// Advances PC by one, modulo 2^16.
    pub fn increment_pc(&mut self, _ctx: &mut Context<T>)
        ensures
            *final(self) == old(self).with_pc(inc16(old(self).pc)),
            *final(_ctx) == *old(_ctx),
    {
        self.pc = self.pc.wrapping_add(1);
    }

    /// Reads the byte at PC and advances PC and the decode cycle.
    fn read_immediate(&mut self, ctx: &mut Context<T>) -> (r: Result<u8, Fault>)
        requires
            T::inv(old(ctx).memory@),
            old(self).decode_step() <= 1,
            old(self).state is Decode,
        ensures
            *final(ctx) == *old(ctx),
            match mem_read::<T>(old(ctx).memory@, old(self).pc) {
                Some(v) => r == Ok::<u8, Fault>(v) && *final(self) == (CPU {
                    pc: inc16(old(self).pc),
                    state: State::Decode((old(self).decode_step() + 1) as usize),
                    ..*old(self)
                }),
                None => r is Err,
            },
    {
        let value = Self::read_memory(ctx, self.pc)?;
        self.increment_pc(ctx);
        if let State::Decode(step) = self.state {
            self.state = State::Decode(step + 1);
        }
        Ok(value)
    }

    /// The second and third decode cycles of a CB-prefixed opcode: the
    /// second opcode byte is read, then its operation starts.
    pub fn fetch_cb_operation(&mut self, ctx: &mut Context<T>) -> (r: Result<(), Fault>)
        requires
            T::inv(old(ctx).memory@),
            old(self).state is Decode,
        ensures
            *final(ctx) == *old(ctx),
            outcome::<T>(r, old(self).spec_fetch_cb(old(ctx).memory@), *final(self), final(ctx).memory@),
    {
        proof {
            reveal(CPU::spec_fetch_cb);
        }
        let step = match self.state {
            State::Decode(step) => step,
            _ => 0,
        };
        if step == 0 {
            self.decode_state.value = self.read_immediate(ctx)?;
            Ok(())
        } else if step == 1 {
            self.state = State::Execute(cb_op(self.decode_state.value), 0);
            Ok(())
        } else {
            Err(Fault)
        }
    }

    /// One machine cycle of decoding the opcode in IR.
    pub fn decode(&mut self, ctx: &mut Context<T>) -> (r: Result<(), Fault>)
        requires
            T::inv(old(ctx).memory@),
            !(decode_kind(old(self).ir) is Invalid),
        ensures
            *final(ctx) == *old(ctx),
            outcome::<T>(r, old(self).spec_decode(old(ctx).memory@), *final(self), final(ctx).memory@),
    {
        proof {
            reveal(CPU::spec_decode);
        }
        let step = match self.state {
            State::Decode(step) => step,
            _ => return Err(Fault),
        };
        match decode_table(self.ir) {
            DecodeKind::Single(operation) => {
                self.state = State::Execute(operation, 0);
                Ok(())
            },
            DecodeKind::Invalid => Err(Fault),
            DecodeKind::Word => {
                if step == 0 {
                    self.decode_state.lsb = self.read_immediate(ctx)?;
                    Ok(())
                } else if step == 1 {
                    self.decode_state.msb = self.read_immediate(ctx)?;
                    Ok(())
                } else if step == 2 {
                    let address = self.decode_state.msb as u16 * 256 + self.decode_state.lsb as u16;
                    self.state = State::Execute(word_op(self.ir, address), 0);
                    Ok(())
                } else {
                    Err(Fault)
                }
            },
            DecodeKind::WordEarly => {
                if step == 0 {
                    self.decode_state.lsb = self.read_immediate(ctx)?;
                    Ok(())
                } else if step == 1 {
                    self.decode_state.msb = Self::read_memory(ctx, self.pc)?;
                    self.increment_pc(ctx);
                    let address = self.decode_state.msb as u16 * 256 + self.decode_state.lsb as u16;
                    self.state = State::Execute(word_op(self.ir, address), 0);
                    Ok(())
                } else {
                    Err(Fault)
                }
            },
            DecodeKind::Byte => {
                if step == 0 {
                    self.decode_state.value = self.read_immediate(ctx)?;
                    Ok(())
                } else if step == 1 {
                    self.state = State::Execute(byte_op(self.ir, self.decode_state.value), 0);
                    Ok(())
                } else {
                    Err(Fault)
                }
            },
            DecodeKind::Offset => {
                if step == 0 {
                    let value = self.read_immediate(ctx)?;
                    self.decode_state.offset = as_signed(value);
                    Ok(())
                } else if step == 1 {
                    self.state = State::Execute(offset_op(self.ir, self.decode_state.offset), 0);
                    Ok(())
                } else {
                    Err(Fault)
                }
            },
            DecodeKind::Prefix => self.fetch_cb_operation(ctx),
        }
    }
}

} // verus!
