use gbemu::context::{
    Context, FlatMemory, InterruptType, Interrupts, IoRegisters, Memory, MemoryBus,
    TimerRegisters,
};

#[test]
fn interrupt_masks_follow_priority() {
    assert_eq!(InterruptType::VBlank.mask(), 0x01);
    assert_eq!(InterruptType::LCD.mask(), 0x02);
    assert_eq!(InterruptType::Timer.mask(), 0x04);
    assert_eq!(InterruptType::Serial.mask(), 0x08);
    assert_eq!(InterruptType::Joypad.mask(), 0x10);
    assert_eq!(InterruptType::Timer.bit(), 2);
    assert_eq!(InterruptType::Joypad.bit(), 4);
}

#[test]
fn schedule_and_clear_interrupts() {
    let mut interrupts = Interrupts::new();
    assert_eq!(interrupts.read(), 0);
    interrupts.schedule_interrupt(InterruptType::Timer);
    interrupts.schedule_interrupt(InterruptType::VBlank);
    assert_eq!(interrupts.read(), 0x05);
    interrupts.clear_interrupt(InterruptType::Timer);
    assert_eq!(interrupts.read(), 0x01);
    interrupts.write(0xE2);
    assert_eq!(interrupts.read(), 0xE2);
    interrupts.clear_interrupt(InterruptType::Serial);
    assert_eq!(interrupts.read(), 0xE2);
}

#[test]
fn div_counts_every_64_ticks() {
    let mut timer = TimerRegisters::new();
    for _ in 0..63 {
        timer.clock_tick();
    }
    assert_eq!(timer.read(0x04), 0);
    timer.clock_tick();
    assert_eq!(timer.read(0x04), 1);
    assert_eq!(timer.sc, 64);
}

#[test]
fn div_write_resets_counter() {
    let mut timer = TimerRegisters::new();
    timer.sc = 0x1234;
    timer.write(0x04, 0x99);
    assert_eq!(timer.sc, 0);
    assert_eq!(timer.read(0x04), 0);
}

#[test]
fn div_write_on_set_bit_ticks_tima() {
    let mut timer = TimerRegisters::new();
    timer.tac = 0b101;
    timer.sc = 0b10;
    timer.write(0x04, 0);
    assert_eq!(timer.tima, 1);
}

#[test]
fn enabled_timer_counts_on_falling_edge() {
    let mut timer = TimerRegisters::new();
    timer.write(0x07, 0b101);
    for _ in 0..3 {
        timer.clock_tick();
    }
    assert_eq!(timer.read(0x05), 0);
    timer.clock_tick();
    assert_eq!(timer.read(0x05), 1);
    for _ in 0..4 {
        timer.clock_tick();
    }
    assert_eq!(timer.read(0x05), 2);
}

#[test]
fn disabled_timer_does_not_count() {
    let mut timer = TimerRegisters::new();
    timer.write(0x07, 0b001);
    for _ in 0..64 {
        timer.clock_tick();
    }
    assert_eq!(timer.read(0x05), 0);
    assert_eq!(timer.read(0x07), 0b001);
}

#[test]
fn tima_overflow_leaves_reload_pending() {
    let mut timer = TimerRegisters::new();
    timer.write(0x06, 0xAB);
    timer.tima = 0xFF;
    timer.timer_tick();
    assert_eq!(timer.tima, 0);
    assert_eq!(timer.tima_overflow, Some(0xAB));
}

#[test]
fn tima_write_masks_overflow() {
    let mut timer = TimerRegisters::new();
    timer.write(0x06, 0xAB);
    timer.write(0x05, 0xFF);
    timer.timer_tick();
    assert_eq!(timer.tima, 0);
    assert_eq!(timer.tima_overflow, None);
}

#[test]
fn changing_clock_select_on_set_bit_ticks_tima() {
    let mut timer = TimerRegisters::new();
    timer.write(0x07, 0b101);
    timer.sc = 0b10;
    timer.write(0x07, 0b100);
    assert_eq!(timer.tima, 1);
}

#[test]
fn handle_overflow_reloads_and_requests_interrupt() {
    let mut timer = TimerRegisters::new();
    let mut interrupts = Interrupts::new();
    timer.handle_overflow(0x42, &mut interrupts);
    assert_eq!(timer.tima, 0x42);
    assert_eq!(interrupts.read(), 0x04);
}

#[test]
fn io_registers_read_and_write() {
    let mut io = IoRegisters::new();
    io.write_u8(0x0F, 0x1F);
    assert_eq!(io.read_u8(0x0F), 0x1F);
    io.write_u8(0x06, 0x77);
    assert_eq!(io.read_u8(0x06), 0x77);
    assert_eq!(io.read_u8(0x04), 0);
    assert_eq!(io.read_u8(0x40), 0x90);
    assert_eq!(io.read_u8(0x4B), 0x90);
    assert_eq!(io.read_u8(0x10), 0xFF);
    assert_eq!(io.read_u8(0x3F), 0xFF);
    assert_eq!(io.read_u8(0x50), 0xFF);
    io.write_u8(0x12, 0x34);
    assert_eq!(io.read_u8(0x12), 0xFF);
}

#[test]
fn memory_bus_echo_ram_mirrors_work_ram() {
    let mut ctx = Context::<MemoryBus>::new();
    ctx.memory.write_u8(0xC123, 0x5A);
    assert_eq!(ctx.memory.read_u8(0xE123), 0x5A);
    ctx.memory.write_u8(0xE010, 0xA5);
    assert_eq!(ctx.memory.read_u8(0xC010), 0xA5);
    assert!(ctx.memory.is_readable(0xEFFF));
    ctx.memory.write_u8(0xD123, 0x3C);
    assert_eq!(ctx.memory.read_u8(0xF123), 0x3C);
    ctx.memory.write_u8(0xFDFF, 0xC3);
    assert_eq!(ctx.memory.read_u8(0xDDFF), 0xC3);
    assert!(ctx.memory.is_readable(0xFDFF));
    assert!(!ctx.memory.is_readable(0xFE00));
}

#[test]
fn memory_bus_regions() {
    let mut ctx = Context::<MemoryBus>::new();
    ctx.memory.write_u8(0x8000, 0x11);
    ctx.memory.write_u8(0xA000, 0x22);
    ctx.memory.write_u8(0xD000, 0x33);
    ctx.memory.write_u8(0xFF80, 0x44);
    ctx.memory.write_u8(0xFFFF, 0x1F);
    ctx.memory.write_u8(0xFF0F, 0x03);
    assert_eq!(ctx.memory.read_u8(0x8000), 0x11);
    assert_eq!(ctx.memory.vram.0[0], 0x11);
    assert_eq!(ctx.memory.read_u8(0xA000), 0x22);
    assert_eq!(ctx.memory.read_u8(0xD000), 0x33);
    assert_eq!(ctx.memory.read_u8(0xFF80), 0x44);
    assert_eq!(ctx.memory.ie(), 0x1F);
    assert_eq!(ctx.memory.interrupt_flag(), 0x03);
    ctx.memory.clear_interrupt(InterruptType::VBlank);
    assert_eq!(ctx.memory.read_u8(0xFF0F), 0x02);
}

#[test]
fn memory_bus_leaves_oam_and_joypad_unimplemented() {
    let ctx = Context::<MemoryBus>::new();
    assert!(!ctx.memory.is_readable(0xFE00));
    assert!(!ctx.memory.is_writable(0xFEA0));
    assert!(!ctx.memory.is_readable(0xFF00));
    assert!(!ctx.memory.is_readable(0xFF01));
    assert!(ctx.memory.is_readable(0xFF04));
    assert!(!ctx.memory.is_readable(0xFF27));
    assert!(ctx.memory.is_readable(0xFF50));
}

#[test]
fn memory_bus_load_rom_fills_two_banks() {
    let mut ctx = Context::<MemoryBus>::new();
    let mut rom = vec![0u8; 0x4002];
    rom[0] = 0x31;
    rom[0x3FFF] = 0x32;
    rom[0x4000] = 0x33;
    rom[0x4001] = 0x34;
    ctx.memory.load_rom(&rom);
    assert_eq!(ctx.memory.read_u8(0x0000), 0x31);
    assert_eq!(ctx.memory.read_u8(0x3FFF), 0x32);
    assert_eq!(ctx.memory.read_u8(0x4000), 0x33);
    assert_eq!(ctx.memory.read_u8(0x4001), 0x34);
    assert_eq!(ctx.memory.read_u8(0x4002), 0x00);
    assert_eq!(ctx.memory.read_u8(0x7FFF), 0x00);
}

#[test]
fn memory_bus_boot_rom_overlays_bank_zero() {
    let mut ctx = Context::<MemoryBus>::new();
    let mut rom = vec![0u8; 0x200];
    rom[0x100] = 0xAA;
    rom[0x150] = 0xBB;
    ctx.memory.load_rom(&rom);
    ctx.memory.load_boot_rom(&[0x31, 0xFE, 0xFF]);
    assert_eq!(ctx.memory.read_u8(0x0000), 0x31);
    assert_eq!(ctx.memory.read_u8(0x0002), 0xFF);
    assert_eq!(ctx.memory.read_u8(0x0100), 0xAA);
    assert_eq!(ctx.memory.read_u8(0x0150), 0xBB);
}

#[test]
fn flat_memory_is_plain() {
    let mut ctx = Context::<FlatMemory>::new();
    ctx.memory.write_u8(0xFE00, 0x12);
    ctx.memory.write_u8(0xFF0F, 0x1F);
    ctx.memory.write_u8(0xFFFF, 0x04);
    assert_eq!(ctx.memory.read_u8(0xFE00), 0x12);
    assert_eq!(ctx.memory.interrupt_flag(), 0x1F);
    assert_eq!(ctx.memory.ie(), 0x04);
    ctx.memory.clear_interrupt(InterruptType::LCD);
    assert_eq!(ctx.memory.read_u8(0xFF0F), 0x1D);
    assert!(ctx.memory.is_readable(0xFEA0));
}

#[test]
fn tima_counts_once_per_period() {
    let mut timer = TimerRegisters::new();
    timer.tac = 0b101;
    for _ in 0..40 {
        timer.clock_tick();
    }
    assert_eq!(timer.tima, 10);
    let mut slow = TimerRegisters::new();
    slow.tac = 0b100;
    for _ in 0..1024 {
        slow.clock_tick();
    }
    assert_eq!(slow.tima, 4);
    assert_eq!(slow.read(0x04), 16);
}

#[test]
fn disabled_timer_stays_still_over_many_ticks() {
    let mut timer = TimerRegisters::new();
    timer.tac = 0b011;
    timer.sc = 0xFFF0;
    for _ in 0..0x20 {
        timer.clock_tick();
    }
    assert_eq!(timer.tima, 0);
    assert_eq!(timer.sc, 0x0010);
}
