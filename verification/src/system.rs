//! The Game Boy's dot clock: how the CPU and the PPU share it, and when a
//! frame is ready to show.
use vstd::prelude::*;

use crate::context::{Context, Memory, MemoryBus};
use crate::cpu::{Fault, CPU};
use crate::ppu::{Mode, PPU};

verus! {

/// Why a dot could not run: the CPU met something that the emulator does
/// not implement, or the PPU cannot take its next cycle.
#[derive(Debug, Clone, Copy)]
pub enum Stall {
    Cpu(Fault),
    Ppu,
}

/// One dot (a T-cycle): on every fourth dot, counted by `counter`, the CPU
/// takes a machine cycle; then the PPU takes a cycle. The next value of the
/// counter (wrapping) is returned.
pub fn step_dot(
    counter: u64,
    cpu: &mut CPU<MemoryBus>,
    ppu: &mut PPU,
    ctx: &mut Context<MemoryBus>,
) -> (r: Result<u64, Stall>)
    requires
        old(ppu)@.wf(),
        MemoryBus::inv(old(ctx).memory@),
    ensures
        MemoryBus::inv(final(ctx).memory@),
        final(ppu)@.wf(),
        ({
            let m = old(ctx).memory@;
            let cpu_step = if counter % 4 == 0 {
                old(cpu).spec_tick(m)
            } else {
                Some((*old(cpu), m))
            };
            match cpu_step {
                None => r matches Err(Stall::Cpu(_)) && final(ppu)@ == old(ppu)@,
                Some((c1, m1)) => {
                    &&& *final(cpu) == c1
                    &&& final(ctx).memory@ == m1
                    &&& if old(ppu)@.tick_safe(m1) {
                        &&& r == Ok::<u64, Stall>(
                            if counter == u64::MAX {
                                0u64
                            } else {
                                (counter + 1) as u64
                            },
                        )
                        &&& final(ppu)@ == old(ppu)@.tick(m1)
                    } else {
                        r matches Err(Stall::Ppu) && final(ppu)@ == old(ppu)@
                    }
                },
            }
        }),
{
    if counter % 4 == 0 {
        if let Err(fault) = cpu.try_tick(ctx) {
            return Err(Stall::Cpu(fault));
        }
    }
    if !ppu.can_tick(ctx) {
        return Err(Stall::Ppu);
    }
    ppu.tick(ctx);
    Ok(
        if counter == u64::MAX {
            0
        } else {
            counter + 1
        },
    )
}

/// Whether the screen is to be redrawn: at the first cycle of line 144 in
/// VBlank, or on every dot that was asked for by hand.
pub fn frame_ready(ppu: &PPU, ctx: &Context<MemoryBus>, manual: bool) -> (r: bool)
    ensures
        r == ((ppu.current_mode == Mode::VBlank && ctx.memory.io.lcd.ly == 144
            && ppu.cycle_counter == 0) || manual),
{
    (ppu.current_mode == Mode::VBlank && ctx.memory.io.lcd.ly == 144 && ppu.cycle_counter == 0)
        || manual
}

} // verus!
