use core::marker::PhantomData;

use vstd::prelude::*;

use crate::context::{Context, Memory};

pub mod registers;
pub mod semantics;
pub mod execute;
pub mod decode;
pub mod machine;
pub mod laws;
pub mod operation_laws;

verus! {

#[derive(Debug, Copy, Clone)]
pub enum Operation {
    Nop,
    Halt,
    Load(Target, Target),
    Inc(Target),
    Dec(Target),
    Stop,
    JumpRelative(Condition, i8),
    RotateAccumulator(RotationType, Direction),
    ComplementCarry,
    SetCarry,
    ComplementAccumulator,
    DecimalAdjustAccumulator,
    Compare(Target),
    Or(Target),
    Xor(Target),
    And(Target),
    Sbc(Target),
    Sub(Target),
    Adc(Target),
    Add(Target, Target),
    Return(Condition),
    Push(Registers16),
    Pop(Registers16),
    ReturnInterrupt,
    Jump(Condition, Target),
    AddStack(i8),
    LoadStackOffset(i8),
    DisableInterrupt,
    EnableInterrupt,
    Call(Condition, Target),
    Restart(u16),
    Rotate(RotationType, Direction, Target),
    ShiftArithmetic(Direction, Target),
    Swap(Target),
    ShiftRightLogical(Target),
    TestBit(u8, Target),
    ResetBit(u8, Target),
    SetBit(u8, Target),
}

#[derive(Debug, Clone, Copy)]
pub enum Registers8 {
    A,
    B,
    C,
    D,
    E,
    H,
    L,
}

#[derive(Debug, Clone, Copy)]
pub enum Registers16 {
    BC,
    DE,
    HL,
    SP,
    AF,
}

#[derive(Debug, Clone, Copy)]
pub enum Indirect {
    R16(Registers16),
    Imm16(u16),
    HLI,
    HLD,
    C,
}

#[derive(Debug, Clone, Copy)]
pub enum Target {
    R8(Registers8),
    R16(Registers16),
    Imm8(u8),
    Imm16(u16),
    Ind(Indirect),
}

#[derive(Debug, Clone, Copy)]
pub enum Condition {
    Always,
    NZ,
    Z,
    NC,
    C,
}

#[derive(Debug, Clone, Copy)]
pub enum RotationType {
    Circular,
    NonCircular,
}

#[derive(Debug, Clone, Copy)]
pub enum Direction {
    Left,
    Right,
}

/// Where the CPU is in its fetch / decode / execute cycle; the numbers count
/// the machine cycles already spent in the phase.
#[derive(Debug, Clone, Copy)]
pub enum State {
    Decode(usize),
    Execute(Operation, usize),
    ExecutionDone,
    HandlingInterrupts(usize),
}

/// How the decoder treats an opcode: complete at once, or after reading an
/// immediate word (low byte first), a byte, or a signed offset, or as the CB
/// prefix of a second opcode byte.
#[derive(Debug, Clone, Copy)]
pub enum DecodeKind {
    Single(Operation),
    Word,
    WordEarly,
    Byte,
    Offset,
    Prefix,
    Invalid,
}

/// A step that the emulator does not implement, or that no valid state can
/// reach: an invalid or unimplemented opcode, an access to memory that the
/// bus cannot serve, or an operation with operands that no opcode decodes to.
#[derive(Debug, Clone, Copy)]
pub struct Fault;

/// The bytes that decoding has read so far.
#[derive(Debug, Clone, Copy)]
pub struct DecodeState {
    pub lsb: u8,
    pub msb: u8,
    pub value: u8,
    pub offset: i8,
}

/// What an operation keeps from one machine cycle to the next.
#[derive(Debug, Clone, Copy)]
pub struct ExecuteState {
    pub value: u8,
    pub msb: u8,
    pub address: u16,
    pub result: u16,
    pub condition_met: bool,
    pub carry: bool,
    pub three_quarter_carry: bool,
    pub lsb: u8,
    pub z_sign: bool,
}

/// The SM83 CPU, stepped one machine cycle at a time against the memory `T`.
pub struct CPU<T> {
    pub registers: registers::Registers,
    pub pc: u16,
    pub ir: u8,
    pub ime: bool,
    pub halted: bool,
    pub state: State,
    pub decode_state: DecodeState,
    pub execute_state: ExecuteState,
    pub interrupt_address: u16,
    pub _phantom: PhantomData<T>,
}

} // verus!
