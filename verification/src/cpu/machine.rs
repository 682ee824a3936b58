//! The machine cycle, interrupt dispatch, and the CPU's public operations.
use vstd::prelude::*;

use crate::context::{Context, InterruptType, Memory};
use crate::cpu::registers::{FlagsRegister, Registers};
use crate::cpu::decode::decode_table;
use crate::cpu::semantics::{first_interrupt, hi, inc16, lo, mem_read, outcome};
use crate::cpu::{
    Condition, DecodeKind, DecodeState, ExecuteState, Fault, Operation, State, Target, CPU,
};

verus! {

/// Whether one of the five interrupt bits is set in `pending`.
fn any_interrupt(pending: u8) -> (r: bool)
    ensures
        r == (first_interrupt(pending) is Some),
{
    assert((pending & 0x1Fu8 != 0u8) == (pending & 0x01u8 != 0u8 || pending & 0x02u8 != 0u8
        || pending & 0x04u8 != 0u8 || pending & 0x08u8 != 0u8 || pending & 0x10u8 != 0u8))
        by (bit_vector);
    pending & 0x1F != 0
}

impl<T: Memory> CPU<T> {
    /// One machine cycle of dispatching an interrupt.
    pub fn handle_interrupts(&mut self, ctx: &mut Context<T>) -> (r: Result<(), Fault>)
        requires
            T::inv(old(ctx).memory@),
            old(self).state == State::HandlingInterrupts(0) ==> first_interrupt(
                T::interrupt_flag_of(old(ctx).memory@) & T::ie_of(old(ctx).memory@),
            ) is Some,
        ensures
            T::inv(final(ctx).memory@),
            outcome::<T>(
                r,
                old(self).spec_handle_interrupts(old(ctx).memory@),
                *final(self),
                final(ctx).memory@,
            ),
    {
        proof {
            reveal(CPU::spec_handle_interrupts);
        }
        let step = match self.state {
            State::HandlingInterrupts(step) => step,
            _ => return Err(Fault),
        };
        if step == 0 {
            let masked = ctx.memory.interrupt_flag() & ctx.memory.ie();
            let next_interrupt = if masked & 0b1u8 != 0 {
                InterruptType::VBlank
            } else if masked & 0b10u8 != 0 {
                InterruptType::LCD
            } else if masked & 0b100u8 != 0 {
                InterruptType::Timer
            } else if masked & 0b1000u8 != 0 {
                InterruptType::Serial
            } else if masked & 0b10000u8 != 0 {
                InterruptType::Joypad
            } else {
                return Err(Fault);
            };
            let address: u16 = match next_interrupt {
                InterruptType::Joypad => 0x0060,
                InterruptType::Serial => 0x0058,
                InterruptType::Timer => 0x0050,
                InterruptType::LCD => 0x0048,
                InterruptType::VBlank => 0x0040,
            };
            proof {
                T::lemma_inv_kept(ctx.memory@, 0, 0, next_interrupt, Seq::empty());
            }
            ctx.memory.clear_interrupt(next_interrupt);
            self.interrupt_address = address;
            self.ime = false;
            self.pc = self.pc.wrapping_sub(1);
            self.state = State::HandlingInterrupts(1);
            Ok(())
        } else if step == 1 {
            self.state = State::HandlingInterrupts(2);
            Ok(())
        } else if step == 2 {
            self.state = State::Execute(
                Operation::Call(Condition::Always, Target::Imm16(self.interrupt_address)),
                0,
            );
            Ok(())
        } else {
            Err(Fault)
        }
    }

    /// The timer is not clocked by the CPU.
    pub fn timer_tick(&mut self, _ctx: &mut Context<T>)
        ensures
            *final(self) == *old(self),
            *final(_ctx) == *old(_ctx),
    {
    }

    /// The fetch at the end of a machine cycle, when the operation is done.
    fn fetch(&mut self, ctx: &mut Context<T>) -> (r: Result<(), Fault>)
        requires
            T::inv(old(ctx).memory@),
        ensures
            *final(ctx) == *old(ctx),
            outcome::<T>(r, old(self).spec_fetch(old(ctx).memory@), *final(self), final(ctx).memory@),
    {
        proof {
            reveal(CPU::spec_fetch);
        }
        if let State::ExecutionDone = self.state {
            if !self.halted {
                self.ir = Self::read_memory(ctx, self.pc)?;
                self.pc = self.pc.wrapping_add(1);
            } else {
                self.ir = Self::read_memory(ctx, self.pc)?;
            }
            self.state = State::Decode(0);
        }
        Ok(())
    }

    /// The phases of a machine cycle of a running CPU.
    fn run_phases(&mut self, ctx: &mut Context<T>) -> (r: Result<(), Fault>)
        requires
            T::inv(old(ctx).memory@),
        ensures
            T::inv(final(ctx).memory@),
            outcome::<T>(r, old(self).spec_phases(old(ctx).memory@), *final(self), final(ctx).memory@),
    {
        proof {
            reveal(CPU::spec_phases);
        }
        if let State::HandlingInterrupts(step) = self.state {
            if step == 0 && !any_interrupt(ctx.memory.interrupt_flag() & ctx.memory.ie()) {
                // No enabled interrupt is among the five sources.
                proof {
                    reveal(CPU::spec_handle_interrupts);
                }
                return Err(Fault);
            }
            self.handle_interrupts(ctx)?;
        }
        if let State::Decode(_) = self.state {
            if let DecodeKind::Invalid = decode_table(self.ir) {
                // One of the opcodes that the SM83 leaves unused.
                proof {
                    reveal(CPU::spec_decode);
                }
                return Err(Fault);
            }
            self.decode(ctx)?;
        }
        if let State::Execute(operation, _) = self.state {
            self.execute_operation(operation, ctx)?;
        }
        self.fetch(ctx)
    }

    /// One machine cycle, or the fault where the emulator does not implement
    /// what the cycle needs.
    pub fn try_tick(&mut self, ctx: &mut Context<T>) -> (r: Result<(), Fault>)
        requires
            T::inv(old(ctx).memory@),
        ensures
            T::inv(final(ctx).memory@),
            outcome::<T>(r, old(self).spec_tick(old(ctx).memory@), *final(self), final(ctx).memory@),
    {
        proof {
            reveal(CPU::spec_tick);
        }
        let pending = (ctx.memory.interrupt_flag() & ctx.memory.ie()) != 0;
        if self.halted && pending {
            self.halted = false;
            self.pc = self.pc.wrapping_add(1);
        }
        if let State::Decode(0) = self.state {
            if pending && self.ime {
                self.state = State::HandlingInterrupts(0);
            }
        }
        if !self.halted {
            self.run_phases(ctx)?;
        }
        self.timer_tick(ctx);
        Ok(())
    }

    /// One machine cycle.
    pub fn tick(&mut self, ctx: &mut Context<T>)
        requires
            T::inv(old(ctx).memory@),
            old(self).spec_tick(old(ctx).memory@) is Some,
        ensures
            T::inv(final(ctx).memory@),
            old(self).spec_tick(old(ctx).memory@) == Some((*final(self), final(ctx).memory@)),
    {
        let _ = self.try_tick(ctx);
    }
}

/// The upper-case hexadecimal digit of `d` (0 to 15).
pub open spec fn hex_digit(d: int) -> Seq<char> {
    if d == 0 {
        "0"@
    } else if d == 1 {
        "1"@
    } else if d == 2 {
        "2"@
    } else if d == 3 {
        "3"@
    } else if d == 4 {
        "4"@
    } else if d == 5 {
        "5"@
    } else if d == 6 {
        "6"@
    } else if d == 7 {
        "7"@
    } else if d == 8 {
        "8"@
    } else if d == 9 {
        "9"@
    } else if d == 10 {
        "A"@
    } else if d == 11 {
        "B"@
    } else if d == 12 {
        "C"@
    } else if d == 13 {
        "D"@
    } else if d == 14 {
        "E"@
    } else {
        "F"@
    }
}

/// `v` as two upper-case hexadecimal digits.
pub open spec fn hex8(v: u8) -> Seq<char> {
    hex_digit(v as int / 16) + hex_digit(v as int % 16)
}

/// `v` as four upper-case hexadecimal digits.
pub open spec fn hex16(v: u16) -> Seq<char> {
    hex8(hi(v)) + hex8(lo(v))
}

fn push_hex_digit(s: &mut String, d: u8)
    requires
        d < 16,
    ensures
        final(s)@ == old(s)@ + hex_digit(d as int),
{
    let digit = match d {
        0 => "0",
        1 => "1",
        2 => "2",
        3 => "3",
        4 => "4",
        5 => "5",
        6 => "6",
        7 => "7",
        8 => "8",
        9 => "9",
        10 => "A",
        11 => "B",
        12 => "C",
        13 => "D",
        14 => "E",
        _ => "F",
    };
    s.append(digit);
}

fn push_hex8(s: &mut String, v: u8)
    ensures
        final(s)@ == old(s)@ + hex8(v),
{
    push_hex_digit(s, v / 16);
    push_hex_digit(s, v % 16);
    assert(s@ =~= old(s)@ + hex8(v));
}

fn push_hex16(s: &mut String, v: u16)
    ensures
        final(s)@ == old(s)@ + hex16(v),
{
    push_hex8(s, (v / 256) as u8);
    push_hex8(s, (v % 256) as u8);
    assert(s@ =~= old(s)@ + hex16(v));
}

impl<T: Memory> CPU<T> {
    /// The state line of the CPU: its registers, PC and the four bytes at PC.
    pub open spec fn state_line(self, m: T::V) -> Seq<char> {
        let r = self.registers;
        "A:"@ + hex8(r.a) + " F:"@ + hex8(r.f.0) + " B:"@ + hex8(r.b) + " C:"@ + hex8(r.c) + " D:"@
            + hex8(r.d) + " E:"@ + hex8(r.e) + " H:"@ + hex8(r.h) + " L:"@ + hex8(r.l) + " SP:"@
            + hex16(r.sp) + " PC:"@ + hex16(self.pc) + " PCMEM:"@ + hex8(T::read(m, self.pc)) + ","@
            + hex8(T::read(m, inc16(self.pc))) + ","@ + hex8(T::read(m, inc16(inc16(self.pc)))) + ","@
            + hex8(T::read(m, inc16(inc16(inc16(self.pc)))))
    }

    /// The CPU at power-on: all registers zero, interrupts disabled, no
    /// operation in progress.
    pub open spec fn spec_new() -> Self {
        CPU {
            registers: Registers { sp: 0, a: 0, b: 0, c: 0, d: 0, e: 0, f: FlagsRegister(0), h: 0, l: 0 },
            pc: 0,
            ir: 0,
            ime: false,
            halted: false,
            state: State::ExecutionDone,
            decode_state: DecodeState { lsb: 0, msb: 0, value: 0, offset: 0 },
            execute_state: ExecuteState {
                value: 0,
                msb: 0,
                address: 0,
                result: 0,
                condition_met: false,
                carry: false,
                three_quarter_carry: false,
                lsb: 0,
                z_sign: false,
            },
            interrupt_address: 0,
            _phantom: core::marker::PhantomData,
        }
    }

    pub fn new() -> (r: Self)
        ensures
            r == Self::spec_new(),
    {
        CPU {
            registers: Registers::new(),
            pc: 0,
            ir: 0,
            ime: false,
            halted: false,
            state: State::ExecutionDone,
            decode_state: DecodeState { lsb: 0, msb: 0, value: 0, offset: 0 },
            execute_state: ExecuteState {
                value: 0,
                msb: 0,
                address: 0,
                result: 0,
                condition_met: false,
                carry: false,
                three_quarter_carry: false,
                lsb: 0,
                z_sign: false,
            },
            interrupt_address: 0,
            _phantom: core::marker::PhantomData,
        }
    }

    /// Loads the boot ROM into memory.
    pub fn load_boot_rom(&mut self, rom: &[u8], ctx: &mut Context<T>)
        requires
            T::inv(old(ctx).memory@),
        ensures
            *final(self) == *old(self),
            final(ctx).memory@ == T::boot_rom_loaded(old(ctx).memory@, rom@),
            T::inv(final(ctx).memory@),
    {
        proof {
            T::lemma_inv_kept(ctx.memory@, 0, 0, InterruptType::VBlank, rom@);
        }
        ctx.memory.load_boot_rom(rom);
    }

    /// Loads a cartridge image into memory.
    pub fn load_rom(&mut self, rom: &[u8], ctx: &mut Context<T>)
        requires
            T::inv(old(ctx).memory@),
        ensures
            *final(self) == *old(self),
            final(ctx).memory@ == T::rom_loaded(old(ctx).memory@, rom@),
            T::inv(final(ctx).memory@),
    {
        proof {
            T::lemma_inv_kept(ctx.memory@, 0, 0, InterruptType::VBlank, rom@);
        }
        ctx.memory.load_rom(rom);
    }

    /// Sets the registers that the boot ROM leaves behind and starts at 0x0100.
    pub fn load_debug_initial_state(&mut self, _ctx: &mut Context<T>)
        ensures
            *final(self) == old(self).debug_initial_state(),
            *final(_ctx) == *old(_ctx),
    {
        self.registers.a = 0x01;
        self.registers.f.0 = 0xB0;
        self.registers.b = 0x00;
        self.registers.c = 0x13;
        self.registers.d = 0x00;
        self.registers.e = 0xD8;
        self.registers.h = 0x01;
        self.registers.l = 0x4D;
        self.registers.sp = 0xFFFE;
        self.pc = 0x0100;
    }

    /// The state line: `A:01 F:B0 B:00 C:13 D:00 E:D8 H:01 L:4D SP:FFFE
    /// PC:0100 PCMEM:00,C3,13,02`, with the four bytes from PC on.
    #[verifier::spinoff_prover]
    #[verifier::rlimit(40)]
    pub fn dump_state(&mut self, ctx: &mut Context<T>) -> (r: String)
        requires
            T::inv(old(ctx).memory@),
            T::readable(old(self).pc),
            T::readable(inc16(old(self).pc)),
            T::readable(inc16(inc16(old(self).pc))),
            T::readable(inc16(inc16(inc16(old(self).pc)))),
        ensures
            *final(self) == *old(self),
            *final(ctx) == *old(ctx),
            r@ == old(self).state_line(old(ctx).memory@),
    {
        let pc0 = self.pc;
        let pc1 = pc0.wrapping_add(1);
        let pc2 = pc1.wrapping_add(1);
        let pc3 = pc2.wrapping_add(1);
        let mut s = String::new();
        s.append("A:");
        push_hex8(&mut s, self.registers.a);
        s.append(" F:");
        push_hex8(&mut s, self.registers.f.0);
        s.append(" B:");
        push_hex8(&mut s, self.registers.b);
        s.append(" C:");
        push_hex8(&mut s, self.registers.c);
        s.append(" D:");
        push_hex8(&mut s, self.registers.d);
        s.append(" E:");
        push_hex8(&mut s, self.registers.e);
        s.append(" H:");
        push_hex8(&mut s, self.registers.h);
        s.append(" L:");
        push_hex8(&mut s, self.registers.l);
        s.append(" SP:");
        push_hex16(&mut s, self.registers.sp);
        s.append(" PC:");
        push_hex16(&mut s, pc0);
        s.append(" PCMEM:");
        push_hex8(&mut s, ctx.memory.read_u8(pc0));
        s.append(",");
        push_hex8(&mut s, ctx.memory.read_u8(pc1));
        s.append(",");
        push_hex8(&mut s, ctx.memory.read_u8(pc2));
        s.append(",");
        push_hex8(&mut s, ctx.memory.read_u8(pc3));
        assert(s@ =~= old(self).state_line(old(ctx).memory@));
        s
    }
}

} // verus!
