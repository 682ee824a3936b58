//! What the machine cycles add up to: whole instructions, interrupts, and the
//! opcode table.
use vstd::prelude::*;

use crate::context::{InterruptType, Memory};
use crate::cpu::registers::{
    carry_mask, half_carry_mask, has_bit, lemma_flag_write_read, lemma_flags_byte,
    lemma_flags_byte_reads, lemma_pair_write_read, pair,
    subtract_mask, with_bit, zero_mask, Registers,
};
use crate::cpu::semantics::{
    add_offset, bit_value, offset_byte,
    alu_operation, dec16, decode_kind, first_interrupt, hi, inc16, interrupt_pending,
    interrupt_vector, lo, op_x, op_y, op_z, r8_operand, rp2_operand, rp_operand, word_operation,
};
use crate::cpu::{
    Condition, DecodeKind, DecodeState, ExecuteState, Indirect, Operation, Registers16, Registers8,
    State, Target, CPU,
};

verus! {

impl<T: Memory> CPU<T> {
    /// `n` machine cycles in a row, if each of them is implemented.
    pub open spec fn run(self, m: T::V, n: nat) -> Option<(Self, T::V)>
        decreases n,
    {
        if n == 0 {
            Some((self, m))
        } else {
            match self.spec_tick(m) {
                Some((c, m2)) => c.run(m2, (n - 1) as nat),
                None => None,
            }
        }
    }

    /// One machine cycle of the operation in progress, if one is.
    pub open spec fn step_operation(self, m: T::V) -> Option<(Self, T::V)> {
        match self.state {
            State::Execute(op, _) => self.spec_execute_operation(m, op),
            _ => None,
        }
    }

    /// `n` machine cycles of the operation in progress, without decode or
    /// fetch.
    pub open spec fn run_operation(self, m: T::V, n: nat) -> Option<(Self, T::V)>
        decreases n,
    {
        if n == 0 {
            Some((self, m))
        } else {
            match self.step_operation(m) {
                Some((c, m2)) => c.run_operation(m2, (n - 1) as nat),
                None => None,
            }
        }
    }

    /// The CPU after the next opcode was fetched at the end of an instruction.
    pub open spec fn fetched(self, m: T::V) -> Self {
        CPU { ir: T::read(m, self.pc), pc: inc16(self.pc), state: State::Decode(0), ..self }
    }

    /// The CPU is ready to decode the opcode in IR, is not halted, and no
    /// interrupt will be dispatched first.
    pub open spec fn ready(self, m: T::V) -> bool {
        &&& self.state == State::Decode(0)
        &&& !self.halted
        &&& !(self.ime && interrupt_pending::<T>(m))
    }
}

/// Decoding an opcode that needs no immediate starts its operation at once.
proof fn lemma_decode_single<T: Memory>(cpu: CPU<T>, m: T::V, op: Operation)
    requires
        cpu.state is Decode,
        decode_kind(cpu.ir) == DecodeKind::Single(op),
    ensures
        cpu.spec_decode(m) == Some((cpu.start(op), m)),
{
    reveal(CPU::spec_decode);
}

/// A machine cycle that starts in `Decode(0)` on an opcode that needs no
/// immediate, and whose first execute cycle finishes the operation, ends with
/// the next opcode fetched.
proof fn lemma_tick_single<T: Memory>(cpu: CPU<T>, m: T::V, op: Operation, done: CPU<T>, m2: T::V)
    requires
        cpu.ready(m),
        decode_kind(cpu.ir) == DecodeKind::Single(op),
        cpu.start(op).spec_execute_operation(m, op) == Some((done, m2)),
        done.state == State::ExecutionDone,
        !done.halted,
        T::readable(done.pc),
    ensures
        cpu.spec_tick(m) == Some((done.fetched(m2), m2)),
{
    lemma_decode_single(cpu, m, op);
    reveal(CPU::spec_tick);
    reveal(CPU::spec_phases);
    reveal(CPU::spec_fetch);
}

/// An operation that is done in its first cycle leaves the cycle count alone.
proof fn lemma_execute_done<T: Memory>(cpu: CPU<T>, m: T::V, op: Operation, done: CPU<T>, m2: T::V)
    requires
        cpu.state is Execute,
        cpu.exec_body(m, op) == Some((done, m2)),
        done.state == State::ExecutionDone,
    ensures
        cpu.spec_execute_operation(m, op) == Some((done, m2)),
{
    reveal(CPU::spec_execute_operation);
}

/// An 8-bit arithmetic or logic instruction on a register (opcodes
/// 0x80..=0xBF except the (HL) forms) takes one machine cycle: A and the flags
/// become what the operation computes, and the next opcode is fetched.
pub proof fn law_alu_register<T: Memory>(cpu: CPU<T>, m: T::V)
    requires
        cpu.ready(m),
        op_x(cpu.ir) == 2,
        op_z(cpu.ir) != 6,
        T::readable(cpu.pc),
    ensures
        match r8_operand(op_z(cpu.ir)) {
            Target::R8(r) => cpu.spec_tick(m) == Some(
                (
                    cpu.alu_apply(alu_operation(op_y(cpu.ir), Target::R8(r)), cpu.reg8(r)).fetched(m),
                    m,
                ),
            ),
            _ => false,
        },
{
    let y = op_y(cpu.ir);
    let z = op_z(cpu.ir);
    let t = r8_operand(z);
    let op = alu_operation(y, t);
    assert(decode_kind(cpu.ir) == DecodeKind::Single(op));
    if let Target::R8(r) = t {
        let c = cpu.start(op);
        let done = c.alu_apply(op, c.reg8(r));
        assert(c.exec_body(m, op) == Some((done, m))) by {
            reveal(CPU::exec_body);
            reveal(CPU::spec_alu);
        }
        lemma_execute_done(c, m, op, done, m);
        assert(done == cpu.alu_apply(op, cpu.reg8(r)).start(op).done());
        lemma_tick_single(cpu, m, op, done, m);
    }
}

/// A machine cycle of an operation past its first cycle: the operation's
/// cycle, then the fetch when it is done.
proof fn lemma_tick_executing<T: Memory>(cpu: CPU<T>, m: T::V, op: Operation, k: usize)
    requires
        cpu.state == State::Execute(op, k),
        !cpu.halted,
    ensures
        cpu.spec_tick(m) == match cpu.spec_execute_operation(m, op) {
            Some((c, m2)) => c.spec_fetch(m2),
            None => None,
        },
{
    reveal(CPU::spec_tick);
    reveal(CPU::spec_phases);
}

/// A machine cycle that starts decoding an opcode that needs no immediate:
/// the operation starts and runs its first cycle, then the fetch when it is
/// done.
proof fn lemma_tick_ready<T: Memory>(cpu: CPU<T>, m: T::V, op: Operation)
    requires
        cpu.ready(m),
        decode_kind(cpu.ir) == DecodeKind::Single(op),
    ensures
        cpu.spec_tick(m) == match cpu.start(op).spec_execute_operation(m, op) {
            Some((c, m2)) => c.spec_fetch(m2),
            None => None,
        },
{
    lemma_decode_single(cpu, m, op);
    reveal(CPU::spec_tick);
    reveal(CPU::spec_phases);
}

/// The fetch does nothing until the operation is done.
proof fn lemma_fetch_busy<T: Memory>(cpu: CPU<T>, m: T::V)
    requires
        !(cpu.state is ExecutionDone),
    ensures
        cpu.spec_fetch(m) == Some((cpu, m)),
{
    reveal(CPU::spec_fetch);
}

/// The fetch after an operation that is done.
proof fn lemma_fetch_done<T: Memory>(cpu: CPU<T>, m: T::V)
    requires
        cpu.state is ExecutionDone,
        !cpu.halted,
        T::readable(cpu.pc),
    ensures
        cpu.spec_fetch(m) == Some((cpu.fetched(m), m)),
{
    reveal(CPU::spec_fetch);
}

/// One execute cycle of PUSH.
proof fn lemma_push_cycle<T: Memory>(cpu: CPU<T>, m: T::V, r: Registers16, k: usize)
    requires
        cpu.state == State::Execute(Operation::Push(r), k),
    ensures
        cpu.spec_execute_operation(m, Operation::Push(r)) == match cpu.spec_push(m, r) {
            Some((c, m2)) => match c.state {
                State::Execute(o, n) => if n < usize::MAX {
                    Some((CPU { state: State::Execute(o, (n + 1) as usize), ..c }, m2))
                } else {
                    None
                },
                _ => Some((c, m2)),
            },
            None => None,
        },
{
    reveal(CPU::spec_execute_operation);
    reveal(CPU::exec_body);
}

/// One execute cycle of POP.
proof fn lemma_pop_cycle<T: Memory>(cpu: CPU<T>, m: T::V, r: Registers16, k: usize)
    requires
        cpu.state == State::Execute(Operation::Pop(r), k),
    ensures
        cpu.spec_execute_operation(m, Operation::Pop(r)) == match cpu.spec_pop(m, r) {
            Some((c, m2)) => match c.state {
                State::Execute(o, n) => if n < usize::MAX {
                    Some((CPU { state: State::Execute(o, (n + 1) as usize), ..c }, m2))
                } else {
                    None
                },
                _ => Some((c, m2)),
            },
            None => None,
        },
{
    reveal(CPU::spec_execute_operation);
    reveal(CPU::exec_body);
}

/// PUSH rr followed by POP rr' copies rr into rr' through the stack in
/// seven machine cycles (four for PUSH, three for POP) and leaves SP where it
/// was; popping into AF clears the low nibble of F. The stack cells must be
/// ordinary memory that the program bytes do not share.
pub proof fn law_push_pop<T: Memory>(cpu: CPU<T>, m: T::V, i: u8, j: u8)
    requires
        T::inv(m),
        cpu.ready(m),
        !cpu.ime,
        i < 4,
        j < 4,
        cpu.ir == 0xC5 + 16 * i,
        T::read(m, cpu.pc) == 0xC1 + 16 * j,
        T::plain(cpu.pc),
        T::plain(inc16(cpu.pc)),
        T::plain(dec16(cpu.registers.sp)),
        T::plain(dec16(dec16(cpu.registers.sp))),
        !T::aliases(dec16(cpu.registers.sp), dec16(dec16(cpu.registers.sp))),
        !T::aliases(dec16(dec16(cpu.registers.sp)), dec16(cpu.registers.sp)),
        !T::aliases(dec16(cpu.registers.sp), cpu.pc),
        !T::aliases(dec16(dec16(cpu.registers.sp)), cpu.pc),
        !T::aliases(dec16(cpu.registers.sp), inc16(cpu.pc)),
        !T::aliases(dec16(dec16(cpu.registers.sp)), inc16(cpu.pc)),
    ensures
        ({
            let v = cpu.reg16(rp2_operand(i));
            let r = rp2_operand(j);
            match cpu.run(m, 7) {
                Some((c, _)) => {
                    &&& c.reg16(r) == (if r == Registers16::AF {
                        (v - v % 16) as u16
                    } else {
                        v
                    })
                    &&& c.registers.sp == cpu.registers.sp
                    &&& c.pc == inc16(inc16(cpu.pc))
                    &&& c.state == State::Decode(0)
                },
                None => false,
            }
        }),
{
    let sp = cpu.registers.sp;
    let pc = cpu.pc;
    let rs = rp2_operand(i);
    let rd = rp2_operand(j);
    let v = cpu.reg16(rs);
    let push = Operation::Push(rs);
    let pop = Operation::Pop(rd);
    assert(decode_kind(cpu.ir) == DecodeKind::Single(push));
    T::lemma_write_read(m, pc, 0, pc);
    T::lemma_write_read(m, inc16(pc), 0, pc);
    T::lemma_write_read(m, dec16(sp), hi(v), pc);
    // PUSH, cycle 1: the operand is latched and SP steps down.
    let e0 = cpu.start(push);
    lemma_push_cycle(e0, m, rs, 0);
    let c1 = CPU {
        state: State::Execute(push, 1),
        ..e0.with_es(ExecuteState { lsb: lo(v), msb: hi(v), ..e0.execute_state }).with_sp(dec16(sp))
    };
    assert(e0.spec_execute_operation(m, push) == Some((c1, m))) by {
        reveal(CPU::spec_push);
    }
    lemma_tick_ready(cpu, m, push);
    lemma_fetch_busy(c1, m);
    assert(cpu.spec_tick(m) == Some((c1, m)));
    // PUSH, cycle 2: the high byte goes to SP - 1.
    let m1 = T::write(m, dec16(sp), hi(v));
    let c2 = CPU { state: State::Execute(push, 2), ..c1.with_sp(dec16(dec16(sp))) };
    lemma_push_cycle(c1, m, rs, 1);
    assert(c1.spec_execute_operation(m, push) == Some((c2, m1))) by {
        reveal(CPU::spec_push);
        T::lemma_write_read(m, dec16(sp), hi(v), pc);
    }
    lemma_tick_executing(c1, m, push, 1);
    lemma_fetch_busy(c2, m1);
    T::lemma_inv_kept(m, dec16(sp), hi(v), InterruptType::VBlank, Seq::empty());
    T::lemma_write_read(m1, dec16(dec16(sp)), lo(v), pc);
    // PUSH, cycle 3: the low byte goes to SP - 2.
    let m2 = T::write(m1, dec16(dec16(sp)), lo(v));
    let c3 = CPU { state: State::Execute(push, 3), ..c2 };
    lemma_push_cycle(c2, m1, rs, 2);
    assert(c2.spec_execute_operation(m1, push) == Some((c3, m2))) by {
        reveal(CPU::spec_push);
        T::lemma_write_read(m1, dec16(dec16(sp)), lo(v), pc);
    }
    lemma_tick_executing(c2, m1, push, 2);
    lemma_fetch_busy(c3, m2);
    T::lemma_inv_kept(m1, dec16(dec16(sp)), lo(v), InterruptType::VBlank, Seq::empty());
    // PUSH, cycle 4: done; POP is fetched.
    let d4 = c3.done();
    lemma_push_cycle(c3, m2, rs, 3);
    assert(c3.spec_execute_operation(m2, push) == Some((d4, m2))) by {
        reveal(CPU::spec_push);
    }
    lemma_tick_executing(c3, m2, push, 3);
    T::lemma_write_read(m, dec16(sp), hi(v), pc);
    T::lemma_write_read(m1, dec16(dec16(sp)), lo(v), pc);
    T::lemma_write_read(m, dec16(sp), hi(v), inc16(pc));
    T::lemma_write_read(m1, dec16(dec16(sp)), lo(v), inc16(pc));
    T::lemma_write_read(m, dec16(sp), hi(v), dec16(dec16(sp)));
    T::lemma_write_read(m1, dec16(dec16(sp)), lo(v), dec16(sp));
    lemma_fetch_done(d4, m2);
    let c4 = d4.fetched(m2);
    assert(T::read(m2, pc) == 0xC1 + 16 * j);
    assert(c4.ir == 0xC1 + 16 * j);
    assert(decode_kind(c4.ir) == DecodeKind::Single(pop));
    // POP, cycle 1: the low byte is read from SP.
    let e4 = c4.start(pop);
    assert(e4.registers.sp == dec16(dec16(sp)));
    let c5 = CPU {
        state: State::Execute(pop, 1),
        ..e4.with_es(ExecuteState { lsb: lo(v), ..e4.execute_state }).with_sp(dec16(sp))
    };
    lemma_pop_cycle(e4, m2, rd, 0);
    assert(e4.spec_execute_operation(m2, pop) == Some((c5, m2))) by {
        reveal(CPU::spec_pop);
        reveal(CPU::spec_pop_bytes);
    }
    lemma_tick_ready(c4, m2, pop);
    lemma_fetch_busy(c5, m2);
    // POP, cycle 2: the high byte is read from SP + 1.
    let c6 = CPU {
        state: State::Execute(pop, 2),
        ..c5.with_es(ExecuteState { msb: hi(v), ..c5.execute_state }).with_sp(sp)
    };
    lemma_pop_cycle(c5, m2, rd, 1);
    assert(c5.spec_execute_operation(m2, pop) == Some((c6, m2))) by {
        reveal(CPU::spec_pop);
        reveal(CPU::spec_pop_bytes);
    }
    lemma_tick_executing(c5, m2, pop, 1);
    lemma_fetch_busy(c6, m2);
    // POP, cycle 3: the pair is stored; the next opcode is fetched.
    let d7 = c6.with_reg16(rd, pair(hi(v), lo(v))).done();
    lemma_pop_cycle(c6, m2, rd, 2);
    assert(c6.spec_execute_operation(m2, pop) == Some((d7, m2))) by {
        reveal(CPU::spec_pop);
    }
    lemma_tick_executing(c6, m2, pop, 2);
    lemma_fetch_done(d7, m2);
    let c7 = d7.fetched(m2);
    assert(pair(hi(v), lo(v)) == v);
    lemma_pair_write_read(c6.registers, v);
    assert(cpu.run(m, 7) == Some((c7, m2))) by {
        reveal_with_fuel(CPU::run, 8);
    }
}

/// A register-to-register load LD r, r' (opcodes 0x40..=0x7F without (HL)
/// and HALT) takes one machine cycle: r gets the value of r', nothing else
/// changes but the fetch of the next opcode.
pub proof fn law_load_register<T: Memory>(cpu: CPU<T>, m: T::V)
    requires
        cpu.ready(m),
        op_x(cpu.ir) == 1,
        op_y(cpu.ir) != 6,
        op_z(cpu.ir) != 6,
        T::readable(cpu.pc),
    ensures
        match (r8_operand(op_y(cpu.ir)), r8_operand(op_z(cpu.ir))) {
            (Target::R8(d), Target::R8(r)) => cpu.spec_tick(m) == Some(
                (cpu.with_reg8(d, cpu.reg8(r)).fetched(m), m),
            ),
            _ => false,
        },
{
    let op = Operation::Load(r8_operand(op_y(cpu.ir)), r8_operand(op_z(cpu.ir)));
    assert(decode_kind(cpu.ir) == DecodeKind::Single(op));
    if let (Target::R8(d), Target::R8(r)) = (r8_operand(op_y(cpu.ir)), r8_operand(op_z(cpu.ir))) {
        let c = cpu.start(op);
        let done = c.with_reg8(d, c.reg8(r)).done();
        assert(c.exec_body(m, op) == Some((done, m))) by {
            reveal(CPU::exec_body);
            reveal(CPU::spec_load);
        }
        lemma_execute_done(c, m, op, done, m);
        lemma_tick_single(cpu, m, op, done, m);
    }
}

/// One execute cycle of CALL.
proof fn lemma_call_cycle<T: Memory>(cpu: CPU<T>, m: T::V, c: Condition, t: Target, k: usize)
    requires
        cpu.state == State::Execute(Operation::Call(c, t), k),
    ensures
        cpu.spec_execute_operation(m, Operation::Call(c, t)) == match cpu.spec_call(m, c, t) {
            Some((n, m2)) => match n.state {
                State::Execute(o, s) => if s < usize::MAX {
                    Some((CPU { state: State::Execute(o, (s + 1) as usize), ..n }, m2))
                } else {
                    None
                },
                _ => Some((n, m2)),
            },
            None => None,
        },
{
    reveal(CPU::spec_execute_operation);
    reveal(CPU::exec_body);
}

/// A machine cycle while an interrupt is being dispatched.
proof fn lemma_tick_dispatching<T: Memory>(cpu: CPU<T>, m: T::V)
    requires
        cpu.state is HandlingInterrupts,
        !cpu.halted,
    ensures
        cpu.spec_tick(m) == match cpu.spec_handle_interrupts(m) {
            Some((c1, m1)) => match c1.state {
                State::Execute(op, _) => match c1.spec_execute_operation(m1, op) {
                    Some((c2, m2)) => c2.spec_fetch(m2),
                    None => None,
                },
                _ => c1.spec_fetch(m1),
            },
            None => None,
        },
{
    reveal(CPU::spec_tick);
    reveal(CPU::spec_phases);
    reveal(CPU::spec_handle_interrupts);
}

/// One execute cycle of RET.
proof fn lemma_return_cycle<T: Memory>(cpu: CPU<T>, m: T::V, c: Condition, k: usize)
    requires
        cpu.state == State::Execute(Operation::Return(c), k),
    ensures
        cpu.spec_execute_operation(m, Operation::Return(c)) == match cpu.spec_return(m, c) {
            Some((n, m2)) => match n.state {
                State::Execute(o, s) => if s < usize::MAX {
                    Some((CPU { state: State::Execute(o, (s + 1) as usize), ..n }, m2))
                } else {
                    None
                },
                _ => Some((n, m2)),
            },
            None => None,
        },
{
    reveal(CPU::spec_execute_operation);
    reveal(CPU::exec_body);
}

/// A machine cycle while an opcode is being decoded, when no interrupt is
/// dispatched first: the decode cycle, the first cycle of the operation once
/// it starts, then the fetch when it is done.
proof fn lemma_tick_decoding<T: Memory>(cpu: CPU<T>, m: T::V)
    requires
        cpu.state is Decode,
        !cpu.halted,
        cpu.state == State::Decode(0) ==> !(cpu.ime && interrupt_pending::<T>(m)),
    ensures
        cpu.spec_tick(m) == match cpu.spec_decode(m) {
            Some((c1, m1)) => match c1.state {
                State::Execute(op, _) => match c1.spec_execute_operation(m1, op) {
                    Some((c2, m2)) => c2.spec_fetch(m2),
                    None => None,
                },
                _ => c1.spec_fetch(m1),
            },
            None => None,
        },
{
    reveal(CPU::spec_tick);
    reveal(CPU::spec_phases);
}

/// CALL nn followed by RET at nn comes back: eleven machine cycles later (seven
/// for CALL, four for RET) PC has returned to the byte after the CALL, whose
/// opcode has been fetched, SP is where it was, and the return address is left
/// in the two bytes below SP (high byte at SP - 1, low byte at SP - 2). The stack
/// cells must be ordinary memory that the RET opcode does not share, and no
/// interrupt may be dispatched in between.
pub proof fn law_call_return<T: Memory>(cpu: CPU<T>, m: T::V)
    requires
        T::inv(m),
        cpu.ready(m),
        !cpu.ime,
        cpu.ir == 0xCD,
        T::readable(cpu.pc),
        T::readable(inc16(cpu.pc)),
        ({
            let nn = pair(T::read(m, inc16(cpu.pc)), T::read(m, cpu.pc));
            let sp = cpu.registers.sp;
            &&& T::plain(nn)
            &&& T::read(m, nn) == 0xC9
            &&& T::plain(dec16(sp))
            &&& T::plain(dec16(dec16(sp)))
            &&& !T::aliases(dec16(sp), dec16(dec16(sp)))
            &&& !T::aliases(dec16(dec16(sp)), dec16(sp))
            &&& !T::aliases(dec16(sp), nn)
            &&& !T::aliases(dec16(dec16(sp)), nn)
            &&& T::readable(inc16(inc16(cpu.pc)))
        }),
    ensures
        ({
            let ret = inc16(inc16(cpu.pc));
            let sp = cpu.registers.sp;
            let m2 = T::write(T::write(m, dec16(sp), hi(ret)), dec16(dec16(sp)), lo(ret));
            match cpu.run(m, 11) {
                Some((c, mem)) => {
                    &&& mem == m2
                    &&& c.pc == inc16(ret)
                    &&& c.ir == T::read(m2, ret)
                    &&& c.registers.sp == sp
                    &&& c.state == State::Decode(0)
                },
                None => false,
            }
        }),
{
    let pc0 = cpu.pc;
    let sp = cpu.registers.sp;
    let lsb = T::read(m, pc0);
    let msb = T::read(m, inc16(pc0));
    let nn = pair(msb, lsb);
    let ret = inc16(inc16(pc0));
    let call = Operation::Call(Condition::Always, Target::Imm16(nn));
    let rt = Operation::Return(Condition::Always);
    assert(decode_kind(0xCD) == DecodeKind::Word);
    assert(word_operation(0xCD, nn) == call);
    T::lemma_write_read(m, nn, 0, nn);
    // Cycle 1: the low byte of the address.
    let c1 = CPU {
        decode_state: DecodeState { lsb, ..cpu.decode_state },
        pc: inc16(pc0),
        state: State::Decode(1),
        ..cpu
    };
    lemma_tick_decoding(cpu, m);
    assert(cpu.spec_decode(m) == Some((c1, m))) by {
        reveal(CPU::spec_decode);
    }
    lemma_fetch_busy(c1, m);
    // Cycle 2: the high byte.
    let c2 = CPU {
        decode_state: DecodeState { msb, ..c1.decode_state },
        pc: ret,
        state: State::Decode(2),
        ..c1
    };
    lemma_tick_decoding(c1, m);
    assert(c1.spec_decode(m) == Some((c2, m))) by {
        reveal(CPU::spec_decode);
    }
    lemma_fetch_busy(c2, m);
    // Cycle 3: the call starts and spends its first cycle.
    let e3 = c2.start(call);
    lemma_tick_decoding(c2, m);
    assert(c2.spec_decode(m) == Some((e3, m))) by {
        reveal(CPU::spec_decode);
    }
    let c3 = CPU { state: State::Execute(call, 1), ..e3 };
    lemma_call_cycle(e3, m, Condition::Always, Target::Imm16(nn), 0);
    assert(e3.spec_execute_operation(m, call) == Some((c3, m))) by {
        reveal(CPU::spec_call);
    }
    lemma_fetch_busy(c3, m);
    // Cycle 4: the return address is latched and SP steps down.
    let c4 = CPU {
        state: State::Execute(call, 2),
        ..c3.with_es(ExecuteState { lsb: lo(ret), msb: hi(ret), ..c3.execute_state }).with_sp(dec16(sp))
    };
    lemma_call_cycle(c3, m, Condition::Always, Target::Imm16(nn), 1);
    assert(c3.spec_execute_operation(m, call) == Some((c4, m))) by {
        reveal(CPU::spec_call);
    }
    lemma_tick_executing(c3, m, call, 1);
    lemma_fetch_busy(c4, m);
    // Cycle 5: the high byte is pushed.
    T::lemma_write_read(m, dec16(sp), hi(ret), nn);
    let m1 = T::write(m, dec16(sp), hi(ret));
    T::lemma_inv_kept(m, dec16(sp), hi(ret), InterruptType::VBlank, Seq::empty());
    let c5 = CPU { state: State::Execute(call, 3), ..c4.with_sp(dec16(dec16(sp))) };
    lemma_call_cycle(c4, m, Condition::Always, Target::Imm16(nn), 2);
    assert(c4.spec_execute_operation(m, call) == Some((c5, m1))) by {
        reveal(CPU::spec_call);
    }
    lemma_tick_executing(c4, m, call, 2);
    lemma_fetch_busy(c5, m1);
    // Cycle 6: the low byte is pushed and PC jumps.
    T::lemma_write_read(m1, dec16(dec16(sp)), lo(ret), nn);
    let m2 = T::write(m1, dec16(dec16(sp)), lo(ret));
    T::lemma_inv_kept(m1, dec16(dec16(sp)), lo(ret), InterruptType::VBlank, Seq::empty());
    let c6 = CPU { state: State::Execute(call, 4), ..c5.with_pc(nn) };
    lemma_call_cycle(c5, m1, Condition::Always, Target::Imm16(nn), 3);
    assert(c5.spec_execute_operation(m1, call) == Some((c6, m2))) by {
        reveal(CPU::spec_call);
    }
    lemma_tick_executing(c5, m1, call, 3);
    lemma_fetch_busy(c6, m2);
    // Cycle 7: the call is done and RET is fetched.
    let d7 = c6.done();
    lemma_call_cycle(c6, m2, Condition::Always, Target::Imm16(nn), 4);
    assert(c6.spec_execute_operation(m2, call) == Some((d7, m2))) by {
        reveal(CPU::spec_call);
    }
    lemma_tick_executing(c6, m2, call, 4);
    lemma_fetch_done(d7, m2);
    let c7 = d7.fetched(m2);
    assert(c7.ir == 0xC9);
    assert(decode_kind(0xC9) == DecodeKind::Single(rt));
    // The stack now holds the return address.
    T::lemma_write_read(m1, dec16(dec16(sp)), lo(ret), dec16(sp));
    T::lemma_write_read(m, dec16(sp), hi(ret), dec16(sp));
    assert(T::read(m2, dec16(sp)) == hi(ret));
    assert(T::read(m2, dec16(dec16(sp))) == lo(ret));
    T::lemma_write_read(m2, dec16(sp), 0, dec16(sp));
    T::lemma_write_read(m2, dec16(dec16(sp)), 0, dec16(sp));
    // RET, cycle 1: the low byte is popped.
    let e8 = c7.start(rt);
    let c8 = CPU {
        state: State::Execute(rt, 1),
        ..e8.with_es(ExecuteState { lsb: lo(ret), ..e8.execute_state }).with_sp(dec16(sp))
    };
    lemma_return_cycle(e8, m2, Condition::Always, 0);
    assert(e8.spec_execute_operation(m2, rt) == Some((c8, m2))) by {
        reveal(CPU::spec_return);
    }
    lemma_tick_ready(c7, m2, rt);
    lemma_fetch_busy(c8, m2);
    // RET, cycle 2: the high byte is popped.
    let c9 = CPU {
        state: State::Execute(rt, 2),
        ..c8.with_es(ExecuteState { msb: hi(ret), ..c8.execute_state }).with_sp(sp)
    };
    lemma_return_cycle(c8, m2, Condition::Always, 1);
    assert(c8.spec_execute_operation(m2, rt) == Some((c9, m2))) by {
        reveal(CPU::spec_return);
    }
    lemma_tick_executing(c8, m2, rt, 1);
    lemma_fetch_busy(c9, m2);
    // RET, cycle 3: PC takes the return address.
    assert(pair(hi(ret), lo(ret)) == ret);
    let c10 = CPU { state: State::Execute(rt, 3), ..c9.with_pc(ret) };
    lemma_return_cycle(c9, m2, Condition::Always, 2);
    assert(c9.spec_execute_operation(m2, rt) == Some((c10, m2))) by {
        reveal(CPU::spec_return);
    }
    lemma_tick_executing(c9, m2, rt, 2);
    lemma_fetch_busy(c10, m2);
    // RET, cycle 4: done; the opcode after the CALL is fetched.
    let d11 = c10.done();
    lemma_return_cycle(c10, m2, Condition::Always, 3);
    assert(c10.spec_execute_operation(m2, rt) == Some((d11, m2))) by {
        reveal(CPU::spec_return);
    }
    lemma_tick_executing(c10, m2, rt, 3);
    lemma_fetch_done(d11, m2);
    assert(cpu.run(m, 11) == Some((d11.fetched(m2), m2))) by {
        reveal_with_fuel(CPU::run, 12);
    }
}

/// INC r followed by DEC r, for r one of B C D E H L A, gives r back in two
/// machine cycles: the zero flag then says whether r is zero, the subtract
/// flag is set, the carry flag is as it was, and memory is unchanged.
pub proof fn law_inc_dec_register<T: Memory>(cpu: CPU<T>, m: T::V)
    requires
        cpu.ready(m),
        !cpu.ime,
        op_x(cpu.ir) == 0,
        op_z(cpu.ir) == 4,
        op_y(cpu.ir) != 6,
        T::readable(cpu.pc),
        T::read(m, cpu.pc) == cpu.ir + 1,
        T::readable(inc16(cpu.pc)),
    ensures
        match (r8_operand(op_y(cpu.ir)), cpu.run(m, 2)) {
            (Target::R8(r), Some((c, m2))) => {
                &&& m2 == m
                &&& c.reg8(r) == cpu.reg8(r)
                &&& c.zero_flag() == (cpu.reg8(r) == 0)
                &&& c.subtract_flag()
                &&& c.carry_flag() == cpu.carry_flag()
                &&& c.pc == inc16(inc16(cpu.pc))
                &&& c.state == State::Decode(0)
            },
            _ => false,
        },
{
    let y = op_y(cpu.ir);
    if let Target::R8(r) = r8_operand(y) {
        let inc = Operation::Inc(Target::R8(r));
        let dec = Operation::Dec(Target::R8(r));
        let v = cpu.reg8(r);
        let up = ((v + 1) % 256) as u8;
        assert(decode_kind(cpu.ir) == DecodeKind::Single(inc));
        // INC r.
        let e0 = cpu.start(inc);
        let d1 = e0.with_reg8(r, up).with_flag(zero_mask(), up == 0).with_flag(
            subtract_mask(),
            false,
        ).with_flag(half_carry_mask(), v % 16 == 15).done();
        assert(e0.exec_body(m, inc) == Some((d1, m))) by {
            reveal(CPU::exec_body);
            reveal(CPU::spec_increment);
        }
        lemma_execute_done(e0, m, inc, d1, m);
        lemma_tick_single(cpu, m, inc, d1, m);
        let c1 = d1.fetched(m);
        assert(c1.ir == cpu.ir + 1);
        assert(op_x(c1.ir) == 0 && op_y(c1.ir) == y && op_z(c1.ir) == 5);
        assert(decode_kind(c1.ir) == DecodeKind::Single(dec));
        // DEC r.
        let e1 = c1.start(dec);
        let d2 = e1.with_reg8(r, ((up + 255) % 256) as u8).with_flag(zero_mask(), v == 0).with_flag(
            subtract_mask(),
            true,
        ).with_flag(half_carry_mask(), up % 16 == 0).done();
        assert(((up + 255) % 256) as u8 == v);
        assert(e1.exec_body(m, dec) == Some((d2, m))) by {
            reveal(CPU::exec_body);
            reveal(CPU::spec_decrement);
        }
        lemma_execute_done(e1, m, dec, d2, m);
        lemma_tick_single(c1, m, dec, d2, m);
        // The flags as they were last written.
        let f0 = cpu.registers.f.0;
        let f1 = d1.registers.f.0;
        lemma_flag_write_read(with_bit(f0, zero_mask(), up == 0), subtract_mask(), carry_mask(), false);
        lemma_flag_write_read(f0, zero_mask(), carry_mask(), up == 0);
        lemma_flag_write_read(
            with_bit(with_bit(f0, zero_mask(), up == 0), subtract_mask(), false),
            half_carry_mask(),
            carry_mask(),
            v % 16 == 15,
        );
        lemma_flag_write_read(f1, zero_mask(), carry_mask(), v == 0);
        lemma_flag_write_read(with_bit(f1, zero_mask(), v == 0), subtract_mask(), carry_mask(), true);
        lemma_flag_write_read(
            with_bit(with_bit(f1, zero_mask(), v == 0), subtract_mask(), true),
            half_carry_mask(),
            carry_mask(),
            up % 16 == 0,
        );
        lemma_flag_write_read(f1, zero_mask(), subtract_mask(), v == 0);
        lemma_flag_write_read(with_bit(f1, zero_mask(), v == 0), subtract_mask(), zero_mask(), true);
        lemma_flag_write_read(
            with_bit(with_bit(f1, zero_mask(), v == 0), subtract_mask(), true),
            half_carry_mask(),
            zero_mask(),
            up % 16 == 0,
        );
        lemma_flag_write_read(
            with_bit(with_bit(f1, zero_mask(), v == 0), subtract_mask(), true),
            half_carry_mask(),
            subtract_mask(),
            up % 16 == 0,
        );
        assert(cpu.run(m, 2) == Some((d2.fetched(m), m))) by {
            reveal_with_fuel(CPU::run, 3);
        }
    }
}

/// JP nn takes four machine cycles: two to read the address, low byte
/// first, one to jump, one to finish; then the opcode at nn has been fetched.
/// The registers and memory are unchanged.
pub proof fn law_jump_absolute<T: Memory>(cpu: CPU<T>, m: T::V)
    requires
        cpu.ready(m),
        cpu.ir == 0xC3,
        T::readable(cpu.pc),
        T::readable(inc16(cpu.pc)),
        T::readable(pair(T::read(m, inc16(cpu.pc)), T::read(m, cpu.pc))),
    ensures
        ({
            let nn = pair(T::read(m, inc16(cpu.pc)), T::read(m, cpu.pc));
            match cpu.run(m, 4) {
                Some((c, mem)) => {
                    &&& mem == m
                    &&& c.pc == inc16(nn)
                    &&& c.ir == T::read(m, nn)
                    &&& c.registers == cpu.registers
                    &&& c.state == State::Decode(0)
                },
                None => false,
            }
        }),
{
    let pc0 = cpu.pc;
    let lsb = T::read(m, pc0);
    let msb = T::read(m, inc16(pc0));
    let nn = pair(msb, lsb);
    let jp = Operation::Jump(Condition::Always, Target::Imm16(nn));
    assert(decode_kind(0xC3) == DecodeKind::Word);
    assert(word_operation(0xC3, nn) == jp);
    let c1 = CPU {
        decode_state: DecodeState { lsb, ..cpu.decode_state },
        pc: inc16(pc0),
        state: State::Decode(1),
        ..cpu
    };
    lemma_tick_decoding(cpu, m);
    assert(cpu.spec_decode(m) == Some((c1, m))) by {
        reveal(CPU::spec_decode);
    }
    lemma_fetch_busy(c1, m);
    let c2 = CPU {
        decode_state: DecodeState { msb, ..c1.decode_state },
        pc: inc16(inc16(pc0)),
        state: State::Decode(2),
        ..c1
    };
    lemma_tick_decoding(c1, m);
    assert(c1.spec_decode(m) == Some((c2, m))) by {
        reveal(CPU::spec_decode);
    }
    lemma_fetch_busy(c2, m);
    let e3 = c2.start(jp);
    lemma_tick_decoding(c2, m);
    assert(c2.spec_decode(m) == Some((e3, m))) by {
        reveal(CPU::spec_decode);
    }
    let c3 = CPU { state: State::Execute(jp, 1), ..e3.with_pc(nn) };
    assert(e3.spec_execute_operation(m, jp) == Some((c3, m))) by {
        reveal(CPU::spec_execute_operation);
        reveal(CPU::exec_body);
        reveal(CPU::spec_jump);
    }
    lemma_fetch_busy(c3, m);
    let d4 = c3.done();
    assert(c3.spec_execute_operation(m, jp) == Some((d4, m))) by {
        reveal(CPU::spec_execute_operation);
        reveal(CPU::exec_body);
        reveal(CPU::spec_jump);
    }
    lemma_tick_executing(c3, m, jp, 1);
    lemma_fetch_done(d4, m);
    assert(cpu.run(m, 4) == Some((d4.fetched(m), m))) by {
        reveal_with_fuel(CPU::run, 5);
    }
}

/// LD (HL), r followed by LD r', (HL) copies r into r' through memory in
/// four machine cycles (two each): the byte at HL then holds r, r' reads it
/// back, and the next opcode has been fetched. The cell at HL must be ordinary
/// memory that the two program bytes after the first opcode do not share.
pub proof fn law_store_load_hl<T: Memory>(cpu: CPU<T>, m: T::V, j: u8)
    requires
        T::inv(m),
        cpu.ready(m),
        !cpu.ime,
        op_x(cpu.ir) == 1,
        op_y(cpu.ir) == 6,
        op_z(cpu.ir) != 6,
        j < 8,
        j != 6,
        T::read(m, cpu.pc) == 0x46 + 8 * j,
        T::plain(cpu.registers.spec_hl()),
        T::plain(cpu.pc),
        T::plain(inc16(cpu.pc)),
        !T::aliases(cpu.registers.spec_hl(), cpu.pc),
        !T::aliases(cpu.registers.spec_hl(), inc16(cpu.pc)),
    ensures
        match (r8_operand(op_z(cpu.ir)), r8_operand(j), cpu.run(m, 4)) {
            (Target::R8(r), Target::R8(d), Some((c, mem))) => {
                let hl = cpu.registers.spec_hl();
                &&& mem == T::write(m, hl, cpu.reg8(r))
                &&& T::read(mem, hl) == cpu.reg8(r)
                &&& c.reg8(d) == cpu.reg8(r)
                &&& c.pc == inc16(inc16(cpu.pc))
                &&& c.state == State::Decode(0)
            },
            _ => false,
        },
{
    let hl = cpu.registers.spec_hl();
    let pc = cpu.pc;
    let src = r8_operand(op_z(cpu.ir));
    let dst = r8_operand(j);
    let at_hl = Target::Ind(Indirect::R16(Registers16::HL));
    if let (Target::R8(r), Target::R8(d)) = (src, dst) {
        let v = cpu.reg8(r);
        let store = Operation::Load(at_hl, Target::R8(r));
        let load = Operation::Load(Target::R8(d), at_hl);
        assert(decode_kind(cpu.ir) == DecodeKind::Single(store));
        T::lemma_write_read(m, hl, v, pc);
        T::lemma_write_read(m, hl, v, inc16(pc));
        T::lemma_write_read(m, hl, v, hl);
        T::lemma_write_read(m, pc, 0, pc);
        T::lemma_write_read(m, inc16(pc), 0, pc);
        let m1 = T::write(m, hl, v);
        // LD (HL), r, cycle 1: the write.
        let e0 = cpu.start(store);
        let c1 = CPU { state: State::Execute(store, 1), ..e0 };
        assert(e0.spec_execute_operation(m, store) == Some((c1, m1))) by {
            reveal(CPU::spec_execute_operation);
            reveal(CPU::exec_body);
            reveal(CPU::spec_load);
        }
        lemma_tick_ready(cpu, m, store);
        lemma_fetch_busy(c1, m1);
        // Cycle 2: done; LD r', (HL) is fetched.
        let d2 = c1.done();
        assert(c1.spec_execute_operation(m1, store) == Some((d2, m1))) by {
            reveal(CPU::spec_execute_operation);
            reveal(CPU::exec_body);
            reveal(CPU::spec_load);
        }
        lemma_tick_executing(c1, m1, store, 1);
        lemma_fetch_done(d2, m1);
        let c2 = d2.fetched(m1);
        assert(c2.ir == 0x46 + 8 * j);
        assert(op_x(c2.ir) == 1 && op_y(c2.ir) == j && op_z(c2.ir) == 6);
        assert(decode_kind(c2.ir) == DecodeKind::Single(load));
        // LD r', (HL), cycle 1: the read.
        let e2 = c2.start(load);
        let c3 = CPU {
            state: State::Execute(load, 1),
            ..e2.with_es(ExecuteState { value: v, ..e2.execute_state })
        };
        assert(e2.spec_execute_operation(m1, load) == Some((c3, m1))) by {
            reveal(CPU::spec_execute_operation);
            reveal(CPU::exec_body);
            reveal(CPU::spec_load);
        }
        lemma_tick_ready(c2, m1, load);
        lemma_fetch_busy(c3, m1);
        // Cycle 2: r' takes the byte; the next opcode is fetched.
        let d4 = c3.with_reg8(d, v).done();
        assert(c3.spec_execute_operation(m1, load) == Some((d4, m1))) by {
            reveal(CPU::spec_execute_operation);
            reveal(CPU::exec_body);
            reveal(CPU::spec_load);
        }
        lemma_tick_executing(c3, m1, load, 1);
        lemma_fetch_done(d4, m1);
        assert(cpu.run(m, 4) == Some((d4.fetched(m1), m1))) by {
            reveal_with_fuel(CPU::run, 5);
        }
    }
}

/// LD rr, nn (opcodes 0x01, 0x11, 0x21, 0x31) takes three machine cycles
/// and loads the immediate word stored low byte first: rr then holds the
/// byte after the opcode as its low half and the next byte as its high half.
/// Memory is unchanged.
pub proof fn law_load_word<T: Memory>(cpu: CPU<T>, m: T::V, i: u8)
    requires
        cpu.ready(m),
        i < 4,
        cpu.ir == 0x01 + 16 * i,
        T::readable(cpu.pc),
        T::readable(inc16(cpu.pc)),
        T::readable(inc16(inc16(cpu.pc))),
    ensures
        match cpu.run(m, 3) {
            Some((c, mem)) => {
                &&& mem == m
                &&& c.reg16(rp_operand(i)) == pair(T::read(m, inc16(cpu.pc)), T::read(m, cpu.pc))
                &&& c.pc == inc16(inc16(inc16(cpu.pc)))
                &&& c.state == State::Decode(0)
            },
            None => false,
        },
{
    let pc0 = cpu.pc;
    let lsb = T::read(m, pc0);
    let msb = T::read(m, inc16(pc0));
    let nn = pair(msb, lsb);
    let ld = Operation::Load(Target::R16(rp_operand(i)), Target::Imm16(nn));
    assert(op_x(cpu.ir) == 0 && op_y(cpu.ir) == 2 * i && op_z(cpu.ir) == 1);
    assert(decode_kind(cpu.ir) == DecodeKind::Word);
    assert(word_operation(cpu.ir, nn) == ld);
    let c1 = CPU {
        decode_state: DecodeState { lsb, ..cpu.decode_state },
        pc: inc16(pc0),
        state: State::Decode(1),
        ..cpu
    };
    lemma_tick_decoding(cpu, m);
    assert(cpu.spec_decode(m) == Some((c1, m))) by {
        reveal(CPU::spec_decode);
    }
    lemma_fetch_busy(c1, m);
    let c2 = CPU {
        decode_state: DecodeState { msb, ..c1.decode_state },
        pc: inc16(inc16(pc0)),
        state: State::Decode(2),
        ..c1
    };
    lemma_tick_decoding(c1, m);
    assert(c1.spec_decode(m) == Some((c2, m))) by {
        reveal(CPU::spec_decode);
    }
    lemma_fetch_busy(c2, m);
    let e3 = c2.start(ld);
    lemma_tick_decoding(c2, m);
    assert(c2.spec_decode(m) == Some((e3, m))) by {
        reveal(CPU::spec_decode);
    }
    let d3 = e3.with_reg16(rp_operand(i), nn).done();
    assert(e3.spec_execute_operation(m, ld) == Some((d3, m))) by {
        reveal(CPU::spec_execute_operation);
        reveal(CPU::exec_body);
        reveal(CPU::spec_load);
    }
    lemma_fetch_done(d3, m);
    lemma_pair_write_read(e3.registers, nn);
    assert(cpu.run(m, 3) == Some((d3.fetched(m), m))) by {
        reveal_with_fuel(CPU::run, 4);
    }
}

/// PUSH rr run to its end, then POP rr' run to its end, copies rr into rr'
/// through the stack: PUSH takes four cycles and leaves the high byte at
/// SP - 1, the low byte at SP - 2 and SP two lower; POP takes three, reads them
/// back and restores SP. Popping into AF clears the low nibble of F. The two
/// stack cells must be distinct ordinary memory.
pub proof fn law_push_pop_operations<T: Memory>(cpu: CPU<T>, m: T::V, i: u8, j: u8)
    requires
        T::inv(m),
        i < 4,
        j < 4,
        cpu.state == State::Execute(Operation::Push(rp2_operand(i)), 0),
        T::plain(dec16(cpu.registers.sp)),
        T::plain(dec16(dec16(cpu.registers.sp))),
        !T::aliases(dec16(cpu.registers.sp), dec16(dec16(cpu.registers.sp))),
        !T::aliases(dec16(dec16(cpu.registers.sp)), dec16(cpu.registers.sp)),
    ensures
        ({
            let v = cpu.reg16(rp2_operand(i));
            let sp = cpu.registers.sp;
            let rd = rp2_operand(j);
            match cpu.run_operation(m, 4) {
                Some((c1, m1)) => {
                    &&& c1.state == State::ExecutionDone
                    &&& c1.registers.sp == dec16(dec16(sp))
                    &&& T::read(m1, dec16(sp)) == hi(v)
                    &&& T::read(m1, dec16(dec16(sp))) == lo(v)
                    &&& match (CPU { state: State::Execute(Operation::Pop(rd), 0), ..c1 }).run_operation(
                        m1,
                        3,
                    ) {
                        Some((c2, m2)) => {
                            &&& m2 == m1
                            &&& c2.reg16(rd) == (if rd == Registers16::AF {
                                (v - v % 16) as u16
                            } else {
                                v
                            })
                            &&& c2.registers.sp == sp
                            &&& c2.state == State::ExecutionDone
                        },
                        None => false,
                    }
                },
                None => false,
            }
        }),
{
    let sp = cpu.registers.sp;
    let rs = rp2_operand(i);
    let rd = rp2_operand(j);
    let v = cpu.reg16(rs);
    let push = Operation::Push(rs);
    let pop = Operation::Pop(rd);
    T::lemma_write_read(m, dec16(sp), hi(v), dec16(sp));
    // PUSH, cycle 1: the operand is latched and SP steps down.
    let c1 = CPU {
        state: State::Execute(push, 1),
        ..cpu.with_es(ExecuteState { lsb: lo(v), msb: hi(v), ..cpu.execute_state }).with_sp(
            dec16(sp),
        )
    };
    lemma_push_cycle(cpu, m, rs, 0);
    assert(cpu.spec_execute_operation(m, push) == Some((c1, m))) by {
        reveal(CPU::spec_push);
    }
    // PUSH, cycle 2: the high byte goes to SP - 1.
    let m1 = T::write(m, dec16(sp), hi(v));
    let c2 = CPU { state: State::Execute(push, 2), ..c1.with_sp(dec16(dec16(sp))) };
    lemma_push_cycle(c1, m, rs, 1);
    assert(c1.spec_execute_operation(m, push) == Some((c2, m1))) by {
        reveal(CPU::spec_push);
    }
    T::lemma_inv_kept(m, dec16(sp), hi(v), InterruptType::VBlank, Seq::empty());
    T::lemma_write_read(m1, dec16(dec16(sp)), lo(v), dec16(sp));
    // PUSH, cycle 3: the low byte goes to SP - 2.
    let m2 = T::write(m1, dec16(dec16(sp)), lo(v));
    let c3 = CPU { state: State::Execute(push, 3), ..c2 };
    lemma_push_cycle(c2, m1, rs, 2);
    assert(c2.spec_execute_operation(m1, push) == Some((c3, m2))) by {
        reveal(CPU::spec_push);
    }
    T::lemma_inv_kept(m1, dec16(dec16(sp)), lo(v), InterruptType::VBlank, Seq::empty());
    // PUSH, cycle 4: done.
    let d4 = c3.done();
    lemma_push_cycle(c3, m2, rs, 3);
    assert(c3.spec_execute_operation(m2, push) == Some((d4, m2))) by {
        reveal(CPU::spec_push);
    }
    assert(cpu.run_operation(m, 4) == Some((d4, m2))) by {
        reveal_with_fuel(CPU::run_operation, 5);
    }
    assert(T::read(m2, dec16(sp)) == hi(v));
    assert(T::read(m2, dec16(dec16(sp))) == lo(v));
    T::lemma_write_read(m2, dec16(sp), 0, dec16(sp));
    T::lemma_write_read(m2, dec16(dec16(sp)), 0, dec16(sp));
    // POP, cycle 1: the low byte is read from SP.
    let e4 = CPU { state: State::Execute(pop, 0), ..d4 };
    let c5 = CPU {
        state: State::Execute(pop, 1),
        ..e4.with_es(ExecuteState { lsb: lo(v), ..e4.execute_state }).with_sp(dec16(sp))
    };
    lemma_pop_cycle(e4, m2, rd, 0);
    assert(e4.spec_execute_operation(m2, pop) == Some((c5, m2))) by {
        reveal(CPU::spec_pop);
        reveal(CPU::spec_pop_bytes);
    }
    // POP, cycle 2: the high byte is read from SP + 1.
    let c6 = CPU {
        state: State::Execute(pop, 2),
        ..c5.with_es(ExecuteState { msb: hi(v), ..c5.execute_state }).with_sp(sp)
    };
    lemma_pop_cycle(c5, m2, rd, 1);
    assert(c5.spec_execute_operation(m2, pop) == Some((c6, m2))) by {
        reveal(CPU::spec_pop);
        reveal(CPU::spec_pop_bytes);
    }
    // POP, cycle 3: the pair is stored.
    let d7 = c6.with_reg16(rd, pair(hi(v), lo(v))).done();
    lemma_pop_cycle(c6, m2, rd, 2);
    assert(c6.spec_execute_operation(m2, pop) == Some((d7, m2))) by {
        reveal(CPU::spec_pop);
    }
    assert(e4.run_operation(m2, 3) == Some((d7, m2))) by {
        reveal_with_fuel(CPU::run_operation, 4);
    }
    assert(pair(hi(v), lo(v)) == v);
    lemma_pair_write_read(c6.registers, v);
}

/// CALL nn run to its end, then RET run to its end, comes back: CALL takes
/// five cycles, leaves the return address (the PC it started with) high byte
/// at SP - 1 and low byte at SP - 2, SP two lower and PC at nn; RET takes
/// four, reads the address back, and leaves PC, SP and every other register
/// as they were before the CALL. The two stack cells must be distinct
/// ordinary memory.
pub proof fn law_call_return_operations<T: Memory>(cpu: CPU<T>, m: T::V, nn: u16)
    requires
        T::inv(m),
        cpu.state == State::Execute(Operation::Call(Condition::Always, Target::Imm16(nn)), 0),
        T::plain(dec16(cpu.registers.sp)),
        T::plain(dec16(dec16(cpu.registers.sp))),
        !T::aliases(dec16(cpu.registers.sp), dec16(dec16(cpu.registers.sp))),
        !T::aliases(dec16(dec16(cpu.registers.sp)), dec16(cpu.registers.sp)),
    ensures
        ({
            let pc = cpu.pc;
            let sp = cpu.registers.sp;
            match cpu.run_operation(m, 5) {
                Some((c1, m1)) => {
                    &&& c1.state == State::ExecutionDone
                    &&& c1.pc == nn
                    &&& c1.registers.sp == dec16(dec16(sp))
                    &&& T::read(m1, dec16(sp)) == hi(pc)
                    &&& T::read(m1, dec16(dec16(sp))) == lo(pc)
                    &&& match (CPU {
                        state: State::Execute(Operation::Return(Condition::Always), 0),
                        ..c1
                    }).run_operation(m1, 4) {
                        Some((c2, m2)) => {
                            &&& m2 == m1
                            &&& c2.pc == pc
                            &&& c2.registers == cpu.registers
                            &&& c2.state == State::ExecutionDone
                        },
                        None => false,
                    }
                },
                None => false,
            }
        }),
{
    let pc = cpu.pc;
    let sp = cpu.registers.sp;
    let call = Operation::Call(Condition::Always, Target::Imm16(nn));
    let rt = Operation::Return(Condition::Always);
    // CALL, cycle 1.
    let c1 = CPU { state: State::Execute(call, 1), ..cpu };
    lemma_call_cycle(cpu, m, Condition::Always, Target::Imm16(nn), 0);
    assert(cpu.spec_execute_operation(m, call) == Some((c1, m))) by {
        reveal(CPU::spec_call);
    }
    // Cycle 2: the return address is latched and SP steps down.
    let c2 = CPU {
        state: State::Execute(call, 2),
        ..c1.with_es(ExecuteState { lsb: lo(pc), msb: hi(pc), ..c1.execute_state }).with_sp(
            dec16(sp),
        )
    };
    lemma_call_cycle(c1, m, Condition::Always, Target::Imm16(nn), 1);
    assert(c1.spec_execute_operation(m, call) == Some((c2, m))) by {
        reveal(CPU::spec_call);
    }
    // Cycle 3: the high byte is pushed.
    T::lemma_write_read(m, dec16(sp), hi(pc), dec16(sp));
    let m1 = T::write(m, dec16(sp), hi(pc));
    T::lemma_inv_kept(m, dec16(sp), hi(pc), InterruptType::VBlank, Seq::empty());
    let c3 = CPU { state: State::Execute(call, 3), ..c2.with_sp(dec16(dec16(sp))) };
    lemma_call_cycle(c2, m, Condition::Always, Target::Imm16(nn), 2);
    assert(c2.spec_execute_operation(m, call) == Some((c3, m1))) by {
        reveal(CPU::spec_call);
    }
    // Cycle 4: the low byte is pushed and PC jumps.
    T::lemma_write_read(m1, dec16(dec16(sp)), lo(pc), dec16(sp));
    let m2 = T::write(m1, dec16(dec16(sp)), lo(pc));
    T::lemma_inv_kept(m1, dec16(dec16(sp)), lo(pc), InterruptType::VBlank, Seq::empty());
    let c4 = CPU { state: State::Execute(call, 4), ..c3.with_pc(nn) };
    lemma_call_cycle(c3, m1, Condition::Always, Target::Imm16(nn), 3);
    assert(c3.spec_execute_operation(m1, call) == Some((c4, m2))) by {
        reveal(CPU::spec_call);
    }
    // Cycle 5: done.
    let d5 = c4.done();
    lemma_call_cycle(c4, m2, Condition::Always, Target::Imm16(nn), 4);
    assert(c4.spec_execute_operation(m2, call) == Some((d5, m2))) by {
        reveal(CPU::spec_call);
    }
    assert(cpu.run_operation(m, 5) == Some((d5, m2))) by {
        reveal_with_fuel(CPU::run_operation, 6);
    }
    assert(T::read(m2, dec16(sp)) == hi(pc));
    assert(T::read(m2, dec16(dec16(sp))) == lo(pc));
    T::lemma_write_read(m2, dec16(sp), 0, dec16(sp));
    T::lemma_write_read(m2, dec16(dec16(sp)), 0, dec16(sp));
    // RET, cycle 1: the low byte is popped.
    let e5 = CPU { state: State::Execute(rt, 0), ..d5 };
    let c6 = CPU {
        state: State::Execute(rt, 1),
        ..e5.with_es(ExecuteState { lsb: lo(pc), ..e5.execute_state }).with_sp(dec16(sp))
    };
    lemma_return_cycle(e5, m2, Condition::Always, 0);
    assert(e5.spec_execute_operation(m2, rt) == Some((c6, m2))) by {
        reveal(CPU::spec_return);
    }
    // RET, cycle 2: the high byte is popped.
    let c7 = CPU {
        state: State::Execute(rt, 2),
        ..c6.with_es(ExecuteState { msb: hi(pc), ..c6.execute_state }).with_sp(sp)
    };
    lemma_return_cycle(c6, m2, Condition::Always, 1);
    assert(c6.spec_execute_operation(m2, rt) == Some((c7, m2))) by {
        reveal(CPU::spec_return);
    }
    // RET, cycle 3: PC takes the return address.
    assert(pair(hi(pc), lo(pc)) == pc);
    let c8 = CPU { state: State::Execute(rt, 3), ..c7.with_pc(pc) };
    lemma_return_cycle(c7, m2, Condition::Always, 2);
    assert(c7.spec_execute_operation(m2, rt) == Some((c8, m2))) by {
        reveal(CPU::spec_return);
    }
    // RET, cycle 4: done.
    let d9 = c8.done();
    lemma_return_cycle(c8, m2, Condition::Always, 3);
    assert(c8.spec_execute_operation(m2, rt) == Some((d9, m2))) by {
        reveal(CPU::spec_return);
    }
    assert(e5.run_operation(m2, 4) == Some((d9, m2))) by {
        reveal_with_fuel(CPU::run_operation, 5);
    }
    assert(d9.registers == cpu.registers);
}

/// One cycle of any operation: its body, then the cycle count.
pub(crate) proof fn lemma_operation_cycle<T: Memory>(cpu: CPU<T>, m: T::V, op: Operation, k: usize)
    requires
        cpu.state == State::Execute(op, k),
    ensures
        cpu.spec_execute_operation(m, op) == match cpu.exec_body(m, op) {
            Some((n, m2)) => match n.state {
                State::Execute(o, s) => if s < usize::MAX {
                    Some((CPU { state: State::Execute(o, (s + 1) as usize), ..n }, m2))
                } else {
                    None
                },
                _ => Some((n, m2)),
            },
            None => None,
        },
{
    reveal(CPU::spec_execute_operation);
}

/// Writing zero, subtract and half carry leaves the carry flag alone.
proof fn lemma_znh_keeps_carry(f: u8, z: bool, n: bool, h: bool)
    ensures
        has_bit(
            with_bit(with_bit(with_bit(f, zero_mask(), z), subtract_mask(), n), half_carry_mask(), h),
            carry_mask(),
        ) == has_bit(f, carry_mask()),
{
    lemma_flag_write_read(f, zero_mask(), carry_mask(), z);
    lemma_flag_write_read(with_bit(f, zero_mask(), z), subtract_mask(), carry_mask(), n);
    lemma_flag_write_read(
        with_bit(with_bit(f, zero_mask(), z), subtract_mask(), n),
        half_carry_mask(),
        carry_mask(),
        h,
    );
}

/// INC r run to its end, then DEC r run to its end, for an 8-bit register r:
/// one cycle each; r and every register but F are as they were, the carry
/// flag too, and memory is unchanged.
pub proof fn law_inc_dec_register_operations<T: Memory>(cpu: CPU<T>, m: T::V, r: Registers8)
    requires
        cpu.state == State::Execute(Operation::Inc(Target::R8(r)), 0),
    ensures
        match cpu.run_operation(m, 1) {
            Some((c1, m1)) => {
                &&& c1.state == State::ExecutionDone
                &&& c1.reg8(r) == (cpu.reg8(r) + 1) % 256
                &&& match (CPU {
                    state: State::Execute(Operation::Dec(Target::R8(r)), 0),
                    ..c1
                }).run_operation(m1, 1) {
                    Some((c2, m2)) => {
                        &&& m2 == m
                        &&& c2.reg8(r) == cpu.reg8(r)
                        &&& c2.registers == (Registers { f: c2.registers.f, ..cpu.registers })
                        &&& c2.carry_flag() == cpu.carry_flag()
                        &&& c2.state == State::ExecutionDone
                    },
                    None => false,
                }
            },
            None => false,
        },
{
    let inc = Operation::Inc(Target::R8(r));
    let dec = Operation::Dec(Target::R8(r));
    let v = cpu.reg8(r);
    let up = ((v + 1) % 256) as u8;
    let d1 = cpu.with_reg8(r, up).with_flag(zero_mask(), up == 0).with_flag(subtract_mask(), false).with_flag(
        half_carry_mask(),
        v % 16 == 15,
    ).done();
    lemma_operation_cycle(cpu, m, inc, 0);
    assert(cpu.exec_body(m, inc) == Some((d1, m))) by {
        reveal(CPU::exec_body);
        reveal(CPU::spec_increment);
    }
    assert(cpu.run_operation(m, 1) == Some((d1, m))) by {
        reveal_with_fuel(CPU::run_operation, 2);
    }
    let e1 = CPU { state: State::Execute(dec, 0), ..d1 };
    let d2 = e1.with_reg8(r, v).with_flag(zero_mask(), v == 0).with_flag(subtract_mask(), true).with_flag(
        half_carry_mask(),
        up % 16 == 0,
    ).done();
    assert(((up + 255) % 256) as u8 == v);
    lemma_operation_cycle(e1, m, dec, 0);
    assert(e1.exec_body(m, dec) == Some((d2, m))) by {
        reveal(CPU::exec_body);
        reveal(CPU::spec_decrement);
    }
    assert(e1.run_operation(m, 1) == Some((d2, m))) by {
        reveal_with_fuel(CPU::run_operation, 2);
    }
    lemma_znh_keeps_carry(cpu.registers.f.0, up == 0, false, v % 16 == 15);
    lemma_znh_keeps_carry(d1.registers.f.0, v == 0, true, up % 16 == 0);
    assert(d2.registers =~= (Registers { f: d2.registers.f, ..cpu.registers }));
}

/// INC rr run to its end, then DEC rr run to its end, for BC, DE, HL or SP:
/// two cycles each; every register, the flags included, is as it was, also
/// across 0xFFFF, and memory is unchanged.
pub proof fn law_inc_dec_pair_operations<T: Memory>(cpu: CPU<T>, m: T::V, rr: Registers16)
    requires
        cpu.state == State::Execute(Operation::Inc(Target::R16(rr)), 0),
        rr != Registers16::AF,
    ensures
        match cpu.run_operation(m, 2) {
            Some((c1, m1)) => {
                &&& c1.state == State::ExecutionDone
                &&& c1.reg16(rr) == inc16(cpu.reg16(rr))
                &&& match (CPU {
                    state: State::Execute(Operation::Dec(Target::R16(rr)), 0),
                    ..c1
                }).run_operation(m1, 2) {
                    Some((c2, m2)) => {
                        &&& m2 == m
                        &&& c2.registers == cpu.registers
                        &&& c2.state == State::ExecutionDone
                    },
                    None => false,
                }
            },
            None => false,
        },
{
    let inc = Operation::Inc(Target::R16(rr));
    let dec = Operation::Dec(Target::R16(rr));
    let v = cpu.reg16(rr);
    lemma_pair_write_read(cpu.registers, inc16(v));
    let a1 = cpu.with_reg16(rr, inc16(v));
    let c1 = CPU { state: State::Execute(inc, 1), ..a1 };
    lemma_operation_cycle(cpu, m, inc, 0);
    assert(cpu.exec_body(m, inc) == Some((a1, m))) by {
        reveal(CPU::exec_body);
        reveal(CPU::spec_increment);
    }
    let d1 = c1.done();
    lemma_operation_cycle(c1, m, inc, 1);
    assert(c1.exec_body(m, inc) == Some((d1, m))) by {
        reveal(CPU::exec_body);
        reveal(CPU::spec_increment);
    }
    assert(cpu.run_operation(m, 2) == Some((d1, m))) by {
        reveal_with_fuel(CPU::run_operation, 3);
    }
    assert(d1.reg16(rr) == inc16(v));
    let e1 = CPU { state: State::Execute(dec, 0), ..d1 };
    lemma_pair_write_read(e1.registers, v);
    let a2 = e1.with_reg16(rr, v);
    assert(dec16(inc16(v)) == v);
    let c2 = CPU { state: State::Execute(dec, 1), ..a2 };
    lemma_operation_cycle(e1, m, dec, 0);
    assert(e1.exec_body(m, dec) == Some((a2, m))) by {
        reveal(CPU::exec_body);
        reveal(CPU::spec_decrement);
    }
    let d2 = c2.done();
    lemma_operation_cycle(c2, m, dec, 1);
    assert(c2.exec_body(m, dec) == Some((d2, m))) by {
        reveal(CPU::exec_body);
        reveal(CPU::spec_decrement);
    }
    assert(e1.run_operation(m, 2) == Some((d2, m))) by {
        reveal_with_fuel(CPU::run_operation, 3);
    }
    assert(d2.registers =~= cpu.registers);
}

/// INC (rr) run to its end, then DEC (rr) run to its end, for rr one of BC,
/// DE, HL, SP naming an ordinary memory cell: three cycles each; the cell
/// holds its old value again (also across 0xFF), every register but F and
/// the carry flag are as they were.
pub proof fn law_inc_dec_indirect_operations<T: Memory>(cpu: CPU<T>, m: T::V, rr: Registers16)
    requires
        T::inv(m),
        cpu.state == State::Execute(Operation::Inc(Target::Ind(Indirect::R16(rr))), 0),
        rr != Registers16::AF,
        T::plain(cpu.reg16(rr)),
    ensures
        ({
            let a = cpu.reg16(rr);
            let v = T::read(m, a);
            match cpu.run_operation(m, 3) {
                Some((c1, m1)) => {
                    &&& c1.state == State::ExecutionDone
                    &&& T::read(m1, a) == (v + 1) % 256
                    &&& match (CPU {
                        state: State::Execute(Operation::Dec(Target::Ind(Indirect::R16(rr))), 0),
                        ..c1
                    }).run_operation(m1, 3) {
                        Some((c2, m2)) => {
                            &&& T::read(m2, a) == v
                            &&& c2.registers == (Registers { f: c2.registers.f, ..cpu.registers })
                            &&& c2.carry_flag() == cpu.carry_flag()
                            &&& c2.state == State::ExecutionDone
                        },
                        None => false,
                    }
                },
                None => false,
            }
        }),
{
    let t = Target::Ind(Indirect::R16(rr));
    let inc = Operation::Inc(t);
    let dec = Operation::Dec(t);
    let a = cpu.reg16(rr);
    let v = T::read(m, a);
    let up = ((v + 1) % 256) as u8;
    T::lemma_write_read(m, a, up, a);
    let m1 = T::write(m, a, up);
    T::lemma_inv_kept(m, a, up, InterruptType::VBlank, Seq::empty());
    T::lemma_write_read(m1, a, v, a);
    let m2 = T::write(m1, a, v);
    // INC (rr).
    let a0 = cpu.with_es(ExecuteState { address: a, value: v, ..cpu.execute_state });
    let c1 = CPU { state: State::Execute(inc, 1), ..a0 };
    lemma_operation_cycle(cpu, m, inc, 0);
    assert(cpu.exec_body(m, inc) == Some((a0, m))) by {
        reveal(CPU::exec_body);
        reveal(CPU::spec_increment);
    }
    let a1 = c1.with_flag(zero_mask(), up == 0).with_flag(subtract_mask(), false).with_flag(
        half_carry_mask(),
        v % 16 == 15,
    );
    let c2 = CPU { state: State::Execute(inc, 2), ..a1 };
    lemma_operation_cycle(c1, m, inc, 1);
    assert(c1.exec_body(m, inc) == Some((a1, m1))) by {
        reveal(CPU::exec_body);
        reveal(CPU::spec_increment);
    }
    let d3 = c2.done();
    lemma_operation_cycle(c2, m1, inc, 2);
    assert(c2.exec_body(m1, inc) == Some((d3, m1))) by {
        reveal(CPU::exec_body);
        reveal(CPU::spec_increment);
    }
    assert(cpu.run_operation(m, 3) == Some((d3, m1))) by {
        reveal_with_fuel(CPU::run_operation, 4);
    }
    // DEC (rr).
    let e3 = CPU { state: State::Execute(dec, 0), ..d3 };
    assert(e3.reg16(rr) == a);
    let b0 = e3.with_es(ExecuteState { address: a, value: up, ..e3.execute_state });
    let c4 = CPU { state: State::Execute(dec, 1), ..b0 };
    lemma_operation_cycle(e3, m1, dec, 0);
    assert(e3.exec_body(m1, dec) == Some((b0, m1))) by {
        reveal(CPU::exec_body);
        reveal(CPU::spec_decrement);
    }
    assert(((up + 255) % 256) as u8 == v);
    let b1 = c4.with_flag(zero_mask(), v == 0).with_flag(subtract_mask(), true).with_flag(
        half_carry_mask(),
        up % 16 == 0,
    );
    let c5 = CPU { state: State::Execute(dec, 2), ..b1 };
    lemma_operation_cycle(c4, m1, dec, 1);
    assert(c4.exec_body(m1, dec) == Some((b1, m2))) by {
        reveal(CPU::exec_body);
        reveal(CPU::spec_decrement);
    }
    let d6 = c5.done();
    lemma_operation_cycle(c5, m2, dec, 2);
    assert(c5.exec_body(m2, dec) == Some((d6, m2))) by {
        reveal(CPU::exec_body);
        reveal(CPU::spec_decrement);
    }
    assert(e3.run_operation(m1, 3) == Some((d6, m2))) by {
        reveal_with_fuel(CPU::run_operation, 4);
    }
    lemma_znh_keeps_carry(cpu.registers.f.0, up == 0, false, v % 16 == 15);
    lemma_znh_keeps_carry(d3.registers.f.0, v == 0, true, up % 16 == 0);
    assert(d6.registers =~= (Registers { f: d6.registers.f, ..cpu.registers }));
}

/// What writing subtract, half carry and carry leaves in the four flags.
proof fn lemma_nhc_reads(f: u8, n: bool, h: bool, c: bool)
    ensures
        ({
            let g = with_bit(with_bit(with_bit(f, subtract_mask(), n), half_carry_mask(), h), carry_mask(), c);
            &&& has_bit(g, zero_mask()) == has_bit(f, zero_mask())
            &&& has_bit(g, subtract_mask()) == n
            &&& has_bit(g, half_carry_mask()) == h
            &&& has_bit(g, carry_mask()) == c
        }),
{
    let g1 = with_bit(f, subtract_mask(), n);
    let g2 = with_bit(g1, half_carry_mask(), h);
    lemma_flag_write_read(f, subtract_mask(), zero_mask(), n);
    lemma_flag_write_read(g1, half_carry_mask(), zero_mask(), h);
    lemma_flag_write_read(g2, carry_mask(), zero_mask(), c);
    lemma_flag_write_read(g1, half_carry_mask(), subtract_mask(), h);
    lemma_flag_write_read(g2, carry_mask(), subtract_mask(), c);
    lemma_flag_write_read(g2, carry_mask(), half_carry_mask(), c);
}

/// ADD HL, rr run to its end (two cycles) adds rr to HL modulo 2^16: N is
/// clear, H is the carry out of bit 11, C the carry out of bit 15, Z is kept,
/// and the other registers and memory are unchanged.
pub proof fn law_add_hl_operations<T: Memory>(cpu: CPU<T>, m: T::V, rr: Registers16)
    requires
        cpu.state == State::Execute(
            Operation::Add(Target::R16(Registers16::HL), Target::R16(rr)),
            0,
        ),
    ensures
        ({
            let hl = cpu.registers.spec_hl();
            let r = cpu.reg16(rr);
            match cpu.run_operation(m, 2) {
                Some((c, mem)) => {
                    &&& mem == m
                    &&& c.registers.spec_hl() == (hl + r) % 0x10000
                    &&& c.zero_flag() == cpu.zero_flag()
                    &&& !c.subtract_flag()
                    &&& c.half_carry_flag() == (hl % 4096 + r % 4096 >= 4096)
                    &&& c.carry_flag() == (hl + r >= 0x10000)
                    &&& c.registers == (Registers {
                        h: c.registers.h,
                        l: c.registers.l,
                        f: c.registers.f,
                        ..cpu.registers
                    })
                    &&& c.state == State::ExecutionDone
                },
                None => false,
            }
        }),
{
    let op = Operation::Add(Target::R16(Registers16::HL), Target::R16(rr));
    let l = cpu.registers.spec_hl();
    let r = cpu.reg16(rr);
    let sum = ((l + r) % 0x10000) as u16;
    let es = ExecuteState {
        three_quarter_carry: l % 4096 + r % 4096 >= 4096,
        msb: hi(sum),
        carry: l + r >= 0x10000,
        ..cpu.execute_state
    };
    let a1 = cpu.with_es(es).with_reg8(Registers8::L, lo(sum)).with_flag(subtract_mask(), false).with_flag(
        half_carry_mask(),
        l % 16 + r % 16 >= 16,
    ).with_flag(carry_mask(), l % 256 + r % 256 >= 256);
    let c1 = CPU { state: State::Execute(op, 1), ..a1 };
    lemma_operation_cycle(cpu, m, op, 0);
    assert(cpu.exec_body(m, op) == Some((a1, m))) by {
        reveal(CPU::exec_body);
        reveal(CPU::spec_add16);
    }
    let d2 = c1.with_reg8(Registers8::H, hi(sum)).with_flag(subtract_mask(), false).with_flag(
        half_carry_mask(),
        es.three_quarter_carry,
    ).with_flag(carry_mask(), es.carry).done();
    lemma_operation_cycle(c1, m, op, 1);
    assert(c1.exec_body(m, op) == Some((d2, m))) by {
        reveal(CPU::exec_body);
        reveal(CPU::spec_add16);
    }
    assert(cpu.run_operation(m, 2) == Some((d2, m))) by {
        reveal_with_fuel(CPU::run_operation, 3);
    }
    lemma_nhc_reads(cpu.registers.f.0, false, l % 16 + r % 16 >= 16, l % 256 + r % 256 >= 256);
    lemma_nhc_reads(a1.registers.f.0, false, es.three_quarter_carry, es.carry);
    assert(pair(hi(sum), lo(sum)) == sum);
    assert(d2.registers =~= (Registers {
        h: d2.registers.h,
        l: d2.registers.l,
        f: d2.registers.f,
        ..cpu.registers
    }));
}

/// The byte sum behind SP + e: the low byte of SP plus the offset's byte,
/// with the high byte adjusted by the carry and the offset's sign, is SP + e
/// modulo 2^16.
proof fn lemma_sp_offset_sum(sp: u16, o: i8, c: bool, low: u8)
    requires
        low == (lo(sp) + offset_byte(o)) % 256,
        c == (lo(sp) + offset_byte(o) >= 256),
    ensures
        pair(
            ((hi(sp) + (if o < 0 {
                0xFFint
            } else {
                0int
            }) + (if c {
                1int
            } else {
                0int
            })) % 256) as u8,
            low,
        ) == add_offset(sp, o),
{
    assert(sp == 256 * hi(sp) + lo(sp));
}

/// ADD SP, e run to its end (three cycles) adds the signed offset e to SP
/// modulo 2^16: Z and N are clear, H and C are the carries out of bits 3 and 7
/// of the low byte's addition, and the other registers and memory are
/// unchanged.
pub proof fn law_add_stack_operations<T: Memory>(cpu: CPU<T>, m: T::V, o: i8)
    requires
        cpu.state == State::Execute(Operation::AddStack(o), 0),
    ensures
        ({
            let sp = cpu.registers.sp;
            let lsb = lo(sp);
            let ob = offset_byte(o);
            match cpu.run_operation(m, 3) {
                Some((c, mem)) => {
                    &&& mem == m
                    &&& c.registers.sp == add_offset(sp, o)
                    &&& !c.zero_flag()
                    &&& !c.subtract_flag()
                    &&& c.half_carry_flag() == (lsb % 16 + ob % 16 >= 16)
                    &&& c.carry_flag() == (lsb + ob >= 256)
                    &&& c.registers == (Registers {
                        sp: c.registers.sp,
                        f: c.registers.f,
                        ..cpu.registers
                    })
                    &&& c.state == State::ExecutionDone
                },
                None => false,
            }
        }),
{
    let op = Operation::AddStack(o);
    let sp = cpu.registers.sp;
    let (low, h, cy) = cpu.sp_offset_low(o);
    let es0 = cpu.execute_state;
    let a1 = cpu.with_znhc(false, false, h, cy).with_es(
        ExecuteState { carry: cy, lsb: low, msb: hi(sp), z_sign: o < 0, ..es0 },
    );
    let c1 = CPU { state: State::Execute(op, 1), ..a1 };
    lemma_operation_cycle(cpu, m, op, 0);
    assert(cpu.exec_body(m, op) == Some((a1, m))) by {
        reveal(CPU::exec_body);
        reveal(CPU::spec_add_stack);
    }
    let adjustment: int = if o < 0 {
        0xFF
    } else {
        0
    };
    let msb = ((hi(sp) + adjustment + bit_value(cy)) % 256) as u8;
    let a2 = c1.with_es(ExecuteState { msb, ..c1.execute_state });
    let c2 = CPU { state: State::Execute(op, 2), ..a2 };
    lemma_operation_cycle(c1, m, op, 1);
    assert(c1.exec_body(m, op) == Some((a2, m))) by {
        reveal(CPU::exec_body);
        reveal(CPU::spec_add_stack);
    }
    let d3 = c2.with_sp(pair(msb, low)).done();
    lemma_operation_cycle(c2, m, op, 2);
    assert(c2.exec_body(m, op) == Some((d3, m))) by {
        reveal(CPU::exec_body);
        reveal(CPU::spec_add_stack);
    }
    assert(cpu.run_operation(m, 3) == Some((d3, m))) by {
        reveal_with_fuel(CPU::run_operation, 4);
    }
    lemma_sp_offset_sum(sp, o, cy, low);
    lemma_flags_byte(cpu.registers.f.0, false, false, h, cy);
    lemma_flags_byte_reads(cpu.registers.f.0, false, false, h, cy);
    assert(d3.registers =~= (Registers { sp: d3.registers.sp, f: d3.registers.f, ..cpu.registers }));
}

/// LD HL, SP + e run to its end (two cycles) puts SP plus the signed offset e,
/// modulo 2^16, in HL: Z and N are clear, H and C are the carries out of bits
/// 3 and 7 of the low byte's addition, SP and the other registers and memory
/// are unchanged.
pub proof fn law_load_stack_offset_operations<T: Memory>(cpu: CPU<T>, m: T::V, o: i8)
    requires
        cpu.state == State::Execute(Operation::LoadStackOffset(o), 0),
    ensures
        ({
            let sp = cpu.registers.sp;
            let lsb = lo(sp);
            let ob = offset_byte(o);
            match cpu.run_operation(m, 2) {
                Some((c, mem)) => {
                    &&& mem == m
                    &&& c.registers.spec_hl() == add_offset(sp, o)
                    &&& !c.zero_flag()
                    &&& !c.subtract_flag()
                    &&& c.half_carry_flag() == (lsb % 16 + ob % 16 >= 16)
                    &&& c.carry_flag() == (lsb + ob >= 256)
                    &&& c.registers == (Registers {
                        h: c.registers.h,
                        l: c.registers.l,
                        f: c.registers.f,
                        ..cpu.registers
                    })
                    &&& c.state == State::ExecutionDone
                },
                None => false,
            }
        }),
{
    let op = Operation::LoadStackOffset(o);
    let sp = cpu.registers.sp;
    let (low, h, cy) = cpu.sp_offset_low(o);
    let es0 = cpu.execute_state;
    let a1 = cpu.with_reg8(Registers8::L, low).with_znhc(false, false, h, cy).with_es(
        ExecuteState { z_sign: o < 0, msb: hi(sp), ..es0 },
    );
    let c1 = CPU { state: State::Execute(op, 1), ..a1 };
    lemma_operation_cycle(cpu, m, op, 0);
    assert(cpu.exec_body(m, op) == Some((a1, m))) by {
        reveal(CPU::exec_body);
        reveal(CPU::spec_load_stack_offset);
    }
    lemma_flags_byte(cpu.registers.f.0, false, false, h, cy);
    lemma_flags_byte_reads(cpu.registers.f.0, false, false, h, cy);
    assert(c1.carry_flag() == cy);
    let adjustment: int = if o < 0 {
        0xFF
    } else {
        0
    };
    let msb = ((hi(sp) + adjustment + bit_value(cy)) % 256) as u8;
    let d2 = c1.with_reg8(Registers8::H, msb).done();
    lemma_operation_cycle(c1, m, op, 1);
    assert(c1.exec_body(m, op) == Some((d2, m))) by {
        reveal(CPU::exec_body);
        reveal(CPU::spec_load_stack_offset);
    }
    assert(cpu.run_operation(m, 2) == Some((d2, m))) by {
        reveal_with_fuel(CPU::run_operation, 3);
    }
    lemma_sp_offset_sum(sp, o, cy, low);
    assert(d2.registers =~= (Registers {
        h: d2.registers.h,
        l: d2.registers.l,
        f: d2.registers.f,
        ..cpu.registers
    }));
}

/// No interrupt bit is set in zero.
proof fn lemma_zero_has_no_interrupt(p: u8)
    by (bit_vector)
    ensures
        p == 0u8 ==> (p & 0x01u8 == 0u8 && p & 0x02u8 == 0u8 && p & 0x04u8 == 0u8 && p & 0x08u8
            == 0u8 && p & 0x10u8 == 0u8),
{
}

/// An enabled, requested interrupt is dispatched when the CPU is about to
/// decode: seven machine cycles later the interrupt's IF bit is clear,
/// interrupts are disabled, the address of the opcode that was fetched is
/// pushed (high byte at SP - 1, low byte at SP - 2), and the first opcode of
/// the handler at the interrupt's vector (0x40, 0x48, 0x50, 0x58, 0x60 by
/// priority from VBlank to Joypad) has been fetched.
pub proof fn law_interrupt_dispatch<T: Memory>(cpu: CPU<T>, m: T::V)
    requires
        T::inv(m),
        cpu.state == State::Decode(0),
        !cpu.halted,
        cpu.ime,
        first_interrupt(T::interrupt_flag_of(m) & T::ie_of(m)) is Some,
        T::writable(dec16(cpu.registers.sp)),
        T::writable(dec16(dec16(cpu.registers.sp))),
        ({
            let t = first_interrupt(T::interrupt_flag_of(m) & T::ie_of(m))->0;
            T::readable(interrupt_vector(t))
        }),
    ensures
        ({
            let t = first_interrupt(T::interrupt_flag_of(m) & T::ie_of(m))->0;
            let sp = cpu.registers.sp;
            let ret = dec16(cpu.pc);
            let m2 = T::write(
                T::write(T::cleared(m, t), dec16(sp), hi(ret)),
                dec16(dec16(sp)),
                lo(ret),
            );
            match cpu.run(m, 7) {
                Some((c, mem)) => {
                    &&& mem == m2
                    &&& c.pc == inc16(interrupt_vector(t))
                    &&& c.ir == T::read(m2, interrupt_vector(t))
                    &&& !c.ime
                    &&& c.registers.sp == dec16(dec16(sp))
                    &&& c.state == State::Decode(0)
                },
                None => false,
            }
        }),
{
    let t = first_interrupt(T::interrupt_flag_of(m) & T::ie_of(m))->0;
    let sp = cpu.registers.sp;
    let ret = dec16(cpu.pc);
    let vector = interrupt_vector(t);
    let call = Operation::Call(Condition::Always, Target::Imm16(vector));
    T::lemma_inv_kept(m, 0, 0, t, Seq::empty());
    let m0 = T::cleared(m, t);
    // Cycle 1: the interrupt is picked and acknowledged.
    let h1 = CPU {
        interrupt_address: vector,
        ime: false,
        pc: ret,
        state: State::HandlingInterrupts(1),
        ..cpu
    };
    assert(cpu.spec_tick(m) == Some((h1, m0))) by {
        reveal(CPU::spec_tick);
        reveal(CPU::spec_phases);
        reveal(CPU::spec_handle_interrupts);
        reveal(CPU::spec_fetch);
        lemma_zero_has_no_interrupt(T::interrupt_flag_of(m) & T::ie_of(m));
        assert(interrupt_pending::<T>(m));
    }
    // Cycle 2.
    let h2 = CPU { state: State::HandlingInterrupts(2), ..h1 };
    lemma_tick_dispatching(h1, m0);
    assert(h1.spec_handle_interrupts(m0) == Some((h2, m0))) by {
        reveal(CPU::spec_handle_interrupts);
    }
    lemma_fetch_busy(h2, m0);
    // Cycle 3: the call starts and spends its first cycle.
    let e3 = h2.start(call);
    assert(h2.spec_handle_interrupts(m0) == Some((e3, m0))) by {
        reveal(CPU::spec_handle_interrupts);
    }
    let c3 = CPU { state: State::Execute(call, 1), ..e3 };
    lemma_call_cycle(e3, m0, Condition::Always, Target::Imm16(vector), 0);
    assert(e3.spec_execute_operation(m0, call) == Some((c3, m0))) by {
        reveal(CPU::spec_call);
    }
    lemma_tick_dispatching(h2, m0);
    lemma_fetch_busy(c3, m0);
    // Cycle 4: the return address is latched and SP steps down.
    let c4 = CPU {
        state: State::Execute(call, 2),
        ..c3.with_es(ExecuteState { lsb: lo(ret), msb: hi(ret), ..c3.execute_state }).with_sp(dec16(sp))
    };
    lemma_call_cycle(c3, m0, Condition::Always, Target::Imm16(vector), 1);
    assert(c3.spec_execute_operation(m0, call) == Some((c4, m0))) by {
        reveal(CPU::spec_call);
    }
    lemma_tick_executing(c3, m0, call, 1);
    lemma_fetch_busy(c4, m0);
    // Cycle 5: the high byte is pushed.
    let m1 = T::write(m0, dec16(sp), hi(ret));
    T::lemma_inv_kept(m0, dec16(sp), hi(ret), t, Seq::empty());
    let c5 = CPU { state: State::Execute(call, 3), ..c4.with_sp(dec16(dec16(sp))) };
    lemma_call_cycle(c4, m0, Condition::Always, Target::Imm16(vector), 2);
    assert(c4.spec_execute_operation(m0, call) == Some((c5, m1))) by {
        reveal(CPU::spec_call);
    }
    lemma_tick_executing(c4, m0, call, 2);
    lemma_fetch_busy(c5, m1);
    // Cycle 6: the low byte is pushed and PC jumps to the vector.
    let m2 = T::write(m1, dec16(dec16(sp)), lo(ret));
    let c6 = CPU { state: State::Execute(call, 4), ..c5.with_pc(vector) };
    lemma_call_cycle(c5, m1, Condition::Always, Target::Imm16(vector), 3);
    assert(c5.spec_execute_operation(m1, call) == Some((c6, m2))) by {
        reveal(CPU::spec_call);
    }
    lemma_tick_executing(c5, m1, call, 3);
    lemma_fetch_busy(c6, m2);
    // Cycle 7: the call is done and the handler's first opcode is fetched.
    let d7 = c6.done();
    lemma_call_cycle(c6, m2, Condition::Always, Target::Imm16(vector), 4);
    assert(c6.spec_execute_operation(m2, call) == Some((d7, m2))) by {
        reveal(CPU::spec_call);
    }
    lemma_tick_executing(c6, m2, call, 4);
    lemma_fetch_done(d7, m2);
    assert(cpu.run(m, 7) == Some((d7.fetched(m2), m2))) by {
        reveal_with_fuel(CPU::run, 8);
    }
}

/// The three octal digits of an opcode put back together give the opcode.
pub proof fn law_octal_digits(ir: u8)
    ensures
        op_x(ir) as int * 64 + op_y(ir) as int * 8 + op_z(ir) as int == ir as int,
        op_x(ir) < 4 && op_y(ir) < 8 && op_z(ir) < 8,
{
}

/// Every opcode decodes to an operation except the eleven that the SM83
/// leaves unused.
pub proof fn law_opcode_coverage(ir: u8)
    ensures
        (decode_kind(ir) is Invalid) <==> (ir == 0xD3 || ir == 0xDB || ir == 0xDD || ir == 0xE3 || ir
            == 0xE4 || ir == 0xEB || ir == 0xEC || ir == 0xED || ir == 0xF4 || ir == 0xFC || ir
            == 0xFD),
{
    law_octal_digits(ir);
}

/// The opcodes that read a 16-bit immediate, low byte first: LD rr, nn;
/// LD (nn), SP; JP cc, nn; JP nn; CALL cc, nn; CALL nn; LD (nn), A; LD A, (nn).
pub proof fn law_word_opcodes(ir: u8)
    ensures
        (decode_kind(ir) is Word || decode_kind(ir) is WordEarly) <==> (ir == 0x01 || ir == 0x11
            || ir == 0x21 || ir == 0x31 || ir == 0x08 || ir == 0xC2 || ir == 0xCA || ir == 0xD2
            || ir == 0xDA || ir == 0xC3 || ir == 0xC4 || ir == 0xCC || ir == 0xD4 || ir == 0xDC
            || ir == 0xCD || ir == 0xEA || ir == 0xFA),
{
    law_octal_digits(ir);
}

} // verus!
