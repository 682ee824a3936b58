use gbemu::context::{Context, Memory, MemoryBus};
use gbemu::cpu::{State, CPU};
use gbemu::ppu::{Mode, PPU};
use gbemu::system::{frame_ready, step_dot, Stall};

fn gameboy() -> (CPU<MemoryBus>, PPU, Context<MemoryBus>) {
    let mut ctx = Context::<MemoryBus>::new();
    let mut rom = vec![0u8; 0x200];
    // INC A at 0x0100, 0x0101, ...
    for byte in rom.iter_mut().skip(0x100) {
        *byte = 0x3C;
    }
    ctx.memory.load_rom(&rom);
    let mut cpu = CPU::<MemoryBus>::new();
    cpu.pc = 0x0100;
    cpu.state = State::Decode(0);
    cpu.ir = ctx.memory.read_u8(cpu.pc);
    cpu.increment_pc(&mut ctx);
    (cpu, PPU::new(), ctx)
}

#[test]
fn cpu_runs_on_every_fourth_dot() {
    let (mut cpu, mut ppu, mut ctx) = gameboy();
    let mut counter = 0u64;
    for _ in 0..8 {
        counter = step_dot(counter, &mut cpu, &mut ppu, &mut ctx).unwrap();
    }
    assert_eq!(counter, 8);
    assert_eq!(cpu.registers.a, 2);
    assert_eq!(ppu.cycle_counter, 8);
}

#[test]
fn dot_counter_wraps() {
    let (mut cpu, mut ppu, mut ctx) = gameboy();
    let next = step_dot(u64::MAX, &mut cpu, &mut ppu, &mut ctx).unwrap();
    assert_eq!(next, 0);
    // u64::MAX is not a multiple of four: the CPU did not run.
    assert_eq!(cpu.registers.a, 0);
}

#[test]
fn dot_reports_the_cpu_fault() {
    let (mut cpu, mut ppu, mut ctx) = gameboy();
    cpu.ir = 0xD3;
    let r = step_dot(0, &mut cpu, &mut ppu, &mut ctx);
    assert!(matches!(r, Err(Stall::Cpu(_))));
    assert_eq!(ppu.cycle_counter, 0);
}

#[test]
fn dot_reports_the_ppu_stall() {
    let (mut cpu, mut ppu, mut ctx) = gameboy();
    ppu.current_mode = Mode::HBlank;
    let r = step_dot(1, &mut cpu, &mut ppu, &mut ctx);
    assert!(matches!(r, Err(Stall::Ppu)));
}

#[test]
fn frame_is_ready_at_line_144_in_vblank() {
    let mut ctx = Context::<MemoryBus>::new();
    let mut ppu = PPU::new();
    assert!(!frame_ready(&ppu, &ctx, false));
    assert!(frame_ready(&ppu, &ctx, true));
    ppu.current_mode = Mode::VBlank;
    ctx.memory.io.lcd.ly = 144;
    assert!(frame_ready(&ppu, &ctx, false));
    ppu.cycle_counter = 1;
    assert!(!frame_ready(&ppu, &ctx, false));
}
