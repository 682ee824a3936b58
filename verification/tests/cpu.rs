use gbemu::context::{Context, FlatMemory, Memory};
use gbemu::cpu::registers::FlagsRegister;
use gbemu::cpu::{Condition, Indirect, Operation, Registers16, Registers8, State, Target, CPU};

/// The register file of a test case: PC, SP, A, F, B, C, D, E, H, L.
#[derive(Clone, Copy, Debug, PartialEq)]
struct Regs {
    pc: u16,
    sp: u16,
    a: u8,
    f: u8,
    b: u8,
    c: u8,
    d: u8,
    e: u8,
    h: u8,
    l: u8,
}

const START: Regs = Regs {
    pc: 0x0100,
    sp: 0xFFFE,
    a: 0,
    f: 0,
    b: 0,
    c: 0,
    d: 0,
    e: 0,
    h: 0,
    l: 0,
};

/// Sets up the CPU as a single-step case does: registers and memory as
/// given, the opcode at PC already fetched.
fn setup(regs: Regs, ram: &[(u16, u8)]) -> (CPU<FlatMemory>, Context<FlatMemory>) {
    let mut cpu = CPU::<FlatMemory>::new();
    let mut ctx = Context::<FlatMemory>::new();
    cpu.pc = regs.pc;
    cpu.registers.sp = regs.sp;
    cpu.registers.a = regs.a;
    cpu.registers.f = FlagsRegister::new(regs.f);
    cpu.registers.b = regs.b;
    cpu.registers.c = regs.c;
    cpu.registers.d = regs.d;
    cpu.registers.e = regs.e;
    cpu.registers.h = regs.h;
    cpu.registers.l = regs.l;
    for (address, value) in ram {
        ctx.memory.write_u8(*address, *value);
    }
    cpu.state = State::Decode(0);
    cpu.ir = ctx.memory.read_u8(cpu.pc);
    cpu.increment_pc(&mut ctx);
    (cpu, ctx)
}

/// The registers after the case, with PC taken back over the prefetch.
fn regs_of(cpu: &CPU<FlatMemory>) -> Regs {
    Regs {
        pc: cpu.pc.wrapping_sub(1),
        sp: cpu.registers.sp,
        a: cpu.registers.a,
        f: cpu.registers.f.0,
        b: cpu.registers.b,
        c: cpu.registers.c,
        d: cpu.registers.d,
        e: cpu.registers.e,
        h: cpu.registers.h,
        l: cpu.registers.l,
    }
}

/// Runs one instruction for `cycles` machine cycles and checks the final
/// registers and memory.
fn run_case(initial: Regs, ram: &[(u16, u8)], cycles: usize, expected: Regs, expected_ram: &[(u16, u8)]) {
    let (mut cpu, mut ctx) = setup(initial, ram);
    for _ in 0..cycles {
        assert!(cpu.try_tick(&mut ctx).is_ok());
    }
    assert_eq!(regs_of(&cpu), expected);
    for (address, value) in expected_ram {
        assert_eq!(ctx.memory.read_u8(*address), *value, "address {address:04X}");
    }
}

fn machine(program: &[u8]) -> (CPU<FlatMemory>, Context<FlatMemory>) {
    let ram: Vec<(u16, u8)> = program
        .iter()
        .enumerate()
        .map(|(i, byte)| (0x0100 + i as u16, *byte))
        .collect();
    setup(START, &ram)
}

#[test]
fn dump_state_after_debug_initial_state() {
    let mut cpu = CPU::<FlatMemory>::new();
    let mut ctx = Context::<FlatMemory>::new();
    ctx.memory.write_u8(0x0101, 0xC3);
    cpu.load_debug_initial_state(&mut ctx);
    assert_eq!(
        cpu.dump_state(&mut ctx),
        "A:01 F:B0 B:00 C:13 D:00 E:D8 H:01 L:4D SP:FFFE PC:0100 PCMEM:00,C3,00,00"
    );
}

#[test]
fn dump_state_wraps_around_memory() {
    let mut cpu = CPU::<FlatMemory>::new();
    let mut ctx = Context::<FlatMemory>::new();
    ctx.memory.write_u8(0xFFFF, 0xAB);
    ctx.memory.write_u8(0x0000, 0x12);
    cpu.pc = 0xFFFE;
    cpu.registers.a = 0x9F;
    assert_eq!(
        cpu.dump_state(&mut ctx),
        "A:9F F:00 B:00 C:00 D:00 E:00 H:00 L:00 SP:0000 PC:FFFE PCMEM:00,AB,12,00"
    );
}

#[test]
fn add_immediate_takes_two_cycles() {
    // LD A, 0x3A ; ADD A, 0xC6
    let (mut cpu, mut ctx) = machine(&[0x3E, 0x3A, 0xC6, 0xC6, 0x00]);
    cpu.tick(&mut ctx);
    cpu.tick(&mut ctx);
    assert_eq!(cpu.registers.a, 0x3A);
    cpu.tick(&mut ctx);
    cpu.tick(&mut ctx);
    assert_eq!(cpu.registers.a, 0x00);
    // Z and H and C set, N clear.
    assert_eq!(cpu.registers.f.0, 0xB0);
}

#[test]
fn nop_takes_one_cycle() {
    run_case(START, &[(0x0100, 0x00)], 1, Regs { pc: 0x0101, ..START }, &[]);
}

#[test]
fn load_immediate_into_b() {
    run_case(
        START,
        &[(0x0100, 0x06), (0x0101, 0x42)],
        2,
        Regs { pc: 0x0102, b: 0x42, ..START },
        &[],
    );
}

#[test]
fn increment_a_wraps_to_zero() {
    run_case(
        Regs { a: 0xFF, f: 0x00, ..START },
        &[(0x0100, 0x3C)],
        1,
        Regs { pc: 0x0101, a: 0x00, f: 0xA0, ..START },
        &[],
    );
}

#[test]
fn decrement_b_to_zero_keeps_carry() {
    run_case(
        Regs { b: 0x01, f: 0x10, ..START },
        &[(0x0100, 0x05)],
        1,
        Regs { pc: 0x0101, b: 0x00, f: 0xD0, ..START },
        &[],
    );
}

#[test]
fn load_hl_immediate_word() {
    run_case(
        START,
        &[(0x0100, 0x21), (0x0101, 0x34), (0x0102, 0x12)],
        3,
        Regs { pc: 0x0103, h: 0x12, l: 0x34, ..START },
        &[],
    );
}

#[test]
fn store_a_at_hl() {
    run_case(
        Regs { a: 0x99, h: 0xC0, l: 0x00, ..START },
        &[(0x0100, 0x77)],
        2,
        Regs { pc: 0x0101, a: 0x99, h: 0xC0, l: 0x00, ..START },
        &[(0xC000, 0x99)],
    );
}

#[test]
fn push_bc_writes_high_byte_first() {
    run_case(
        Regs { b: 0x12, c: 0x34, ..START },
        &[(0x0100, 0xC5)],
        4,
        Regs { pc: 0x0101, sp: 0xFFFC, b: 0x12, c: 0x34, ..START },
        &[(0xFFFD, 0x12), (0xFFFC, 0x34)],
    );
}

#[test]
fn pop_de_reads_low_byte_first() {
    run_case(
        Regs { sp: 0xC000, ..START },
        &[(0x0100, 0xD1), (0xC000, 0x78), (0xC001, 0x56)],
        3,
        Regs { pc: 0x0101, sp: 0xC002, d: 0x56, e: 0x78, ..START },
        &[],
    );
}

#[test]
fn pop_af_clears_low_nibble_of_f() {
    run_case(
        Regs { sp: 0xC000, ..START },
        &[(0x0100, 0xF1), (0xC000, 0xFF), (0xC001, 0x12)],
        3,
        Regs { pc: 0x0101, sp: 0xC002, a: 0x12, f: 0xF0, ..START },
        &[],
    );
}

#[test]
fn jump_absolute() {
    run_case(
        START,
        &[(0x0100, 0xC3), (0x0101, 0x50), (0x0102, 0x01)],
        4,
        Regs { pc: 0x0150, ..START },
        &[],
    );
}

#[test]
fn jump_relative_backwards() {
    run_case(
        START,
        &[(0x0100, 0x18), (0x0101, 0xFE)],
        5,
        Regs { pc: 0x0100, ..START },
        &[],
    );
}

#[test]
fn jump_relative_not_taken() {
    // JR NZ with Z set: three cycles, no jump.
    run_case(
        Regs { f: 0x80, ..START },
        &[(0x0100, 0x20), (0x0101, 0x10)],
        3,
        Regs { pc: 0x0102, f: 0x80, ..START },
        &[],
    );
}

#[test]
fn call_pushes_return_address() {
    run_case(
        START,
        &[(0x0100, 0xCD), (0x0101, 0x00), (0x0102, 0x02)],
        7,
        Regs { pc: 0x0200, sp: 0xFFFC, ..START },
        &[(0xFFFD, 0x01), (0xFFFC, 0x03)],
    );
}

#[test]
fn return_pops_pc() {
    run_case(
        Regs { sp: 0xC000, ..START },
        &[(0x0100, 0xC9), (0xC000, 0x34), (0xC001, 0x12)],
        4,
        Regs { pc: 0x1234, sp: 0xC002, ..START },
        &[],
    );
}

#[test]
fn restart_jumps_to_vector() {
    // RST 0x38
    run_case(
        START,
        &[(0x0100, 0xFF)],
        4,
        Regs { pc: 0x0038, sp: 0xFFFC, ..START },
        &[(0xFFFD, 0x01), (0xFFFC, 0x01)],
    );
}

#[test]
fn xor_a_clears_a() {
    run_case(
        Regs { a: 0x5A, f: 0x70, ..START },
        &[(0x0100, 0xAF)],
        1,
        Regs { pc: 0x0101, a: 0x00, f: 0x80, ..START },
        &[],
    );
}

#[test]
fn subtract_with_half_borrow() {
    run_case(
        Regs { a: 0x10, b: 0x01, ..START },
        &[(0x0100, 0x90)],
        1,
        Regs { pc: 0x0101, a: 0x0F, b: 0x01, f: 0x60, ..START },
        &[],
    );
}

#[test]
fn compare_equal_sets_zero() {
    run_case(
        Regs { a: 0x10, ..START },
        &[(0x0100, 0xFE), (0x0101, 0x10)],
        2,
        Regs { pc: 0x0102, a: 0x10, f: 0xC0, ..START },
        &[],
    );
}

#[test]
fn add_hl_carries_out_of_bit_eleven() {
    run_case(
        Regs { h: 0x0F, l: 0xFF, b: 0x00, c: 0x01, f: 0x80, ..START },
        &[(0x0100, 0x09)],
        2,
        Regs { pc: 0x0101, h: 0x10, l: 0x00, b: 0x00, c: 0x01, f: 0xA0, ..START },
        &[],
    );
}

#[test]
fn rotate_accumulator_left_circular() {
    run_case(
        Regs { a: 0x85, ..START },
        &[(0x0100, 0x07)],
        1,
        Regs { pc: 0x0101, a: 0x0B, f: 0x10, ..START },
        &[],
    );
}

#[test]
fn decimal_adjust_after_addition() {
    run_case(
        Regs { a: 0x3C, ..START },
        &[(0x0100, 0x27)],
        1,
        Regs { pc: 0x0101, a: 0x42, f: 0x00, ..START },
        &[],
    );
}

#[test]
fn test_bit_seven_of_h() {
    run_case(
        Regs { h: 0x80, ..START },
        &[(0x0100, 0xCB), (0x0101, 0x7C)],
        2,
        Regs { pc: 0x0102, h: 0x80, f: 0x20, ..START },
        &[],
    );
}

#[test]
fn swap_nibbles_of_a() {
    run_case(
        Regs { a: 0xF1, ..START },
        &[(0x0100, 0xCB), (0x0101, 0x37)],
        2,
        Regs { pc: 0x0102, a: 0x1F, f: 0x00, ..START },
        &[],
    );
}

#[test]
fn rotate_b_left_circular() {
    run_case(
        Regs { b: 0x85, ..START },
        &[(0x0100, 0xCB), (0x0101, 0x00)],
        2,
        Regs { pc: 0x0102, b: 0x0B, f: 0x10, ..START },
        &[],
    );
}

#[test]
fn set_bit_zero_at_hl() {
    run_case(
        Regs { h: 0xC0, l: 0x00, ..START },
        &[(0x0100, 0xCB), (0x0101, 0xC6), (0xC000, 0x00)],
        4,
        Regs { pc: 0x0102, h: 0xC0, l: 0x00, ..START },
        &[(0xC000, 0x01)],
    );
}

#[test]
fn unused_opcode_is_refused() {
    let (mut cpu, mut ctx) = machine(&[0xD3]);
    assert!(cpu.try_tick(&mut ctx).is_err());
}

#[test]
fn disable_and_enable_interrupts() {
    let (mut cpu, mut ctx) = machine(&[0xFB, 0x00, 0xF3, 0x00]);
    cpu.tick(&mut ctx);
    cpu.tick(&mut ctx);
    assert!(cpu.ime);
    cpu.tick(&mut ctx);
    cpu.tick(&mut ctx);
    assert!(!cpu.ime);
}

#[test]
fn interrupt_dispatch_calls_vector() {
    let (mut cpu, mut ctx) = machine(&[0x00, 0x00]);
    cpu.ime = true;
    ctx.memory.write_u8(0xFFFF, 0x04);
    ctx.memory.write_u8(0xFF0F, 0x05);
    ctx.memory.write_u8(0x0050, 0x3C);
    for _ in 0..7 {
        assert!(cpu.try_tick(&mut ctx).is_ok());
    }
    // The timer interrupt (bit 2) is the only one enabled.
    assert_eq!(cpu.pc, 0x0051);
    assert_eq!(cpu.ir, 0x3C);
    assert!(!cpu.ime);
    assert_eq!(cpu.registers.sp, 0xFFFC);
    assert_eq!(ctx.memory.read_u8(0xFFFD), 0x01);
    assert_eq!(ctx.memory.read_u8(0xFFFC), 0x00);
    assert_eq!(ctx.memory.read_u8(0xFF0F), 0x01);
}

#[test]
fn halt_completes_at_once() {
    // HALT ; INC A
    let (mut cpu, mut ctx) = machine(&[0x76, 0x3C, 0x00]);
    cpu.tick(&mut ctx);
    assert!(!cpu.halted);
    assert_eq!(cpu.pc, 0x0102);
    cpu.tick(&mut ctx);
    assert_eq!(cpu.registers.a, 1);
}

#[test]
fn load_rom_into_flat_memory() {
    let mut cpu = CPU::<FlatMemory>::new();
    let mut ctx = Context::<FlatMemory>::new();
    cpu.load_rom(&[0x11, 0x22, 0x33], &mut ctx);
    assert_eq!(ctx.memory.read_u8(0x0000), 0x11);
    assert_eq!(ctx.memory.read_u8(0x0002), 0x33);
    assert_eq!(ctx.memory.read_u8(0x0003), 0x00);
}

#[test]
fn push_then_pop_round_trip() {
    // PUSH BC ; POP DE
    let (mut cpu, mut ctx) = machine(&[0xC5, 0xD1, 0x00]);
    cpu.registers.b = 0xAB;
    cpu.registers.c = 0xCD;
    for _ in 0..7 {
        cpu.tick(&mut ctx);
    }
    assert_eq!(cpu.registers.d, 0xAB);
    assert_eq!(cpu.registers.e, 0xCD);
    assert_eq!(cpu.registers.sp, 0xFFFE);
}

#[test]
fn alu_register_in_one_cycle() {
    // AND C
    let (mut cpu, mut ctx) = machine(&[0xA1, 0x00]);
    cpu.registers.a = 0xF0;
    cpu.registers.c = 0x3C;
    cpu.tick(&mut ctx);
    assert_eq!(cpu.registers.a, 0x30);
    assert_eq!(cpu.registers.f.0, 0x20);
    assert_eq!(cpu.pc, 0x0102);
}

#[test]
fn load_register_in_one_cycle() {
    // LD D, E
    let (mut cpu, mut ctx) = machine(&[0x53, 0x00]);
    cpu.registers.e = 0x77;
    cpu.tick(&mut ctx);
    assert_eq!(cpu.registers.d, 0x77);
    assert_eq!(cpu.pc, 0x0102);
}

#[test]
fn call_then_return_comes_back() {
    // CALL 0x0200 ; at 0x0200: RET
    let (mut cpu, mut ctx) = machine(&[0xCD, 0x00, 0x02, 0x3C]);
    ctx.memory.write_u8(0x0200, 0xC9);
    for _ in 0..11 {
        cpu.tick(&mut ctx);
    }
    assert_eq!(cpu.pc, 0x0104);
    assert_eq!(cpu.ir, 0x3C);
    assert_eq!(cpu.registers.sp, 0xFFFE);
    assert_eq!(ctx.memory.read_u8(0xFFFD), 0x01);
    assert_eq!(ctx.memory.read_u8(0xFFFC), 0x03);
}

#[test]
fn increment_then_decrement_restores_register() {
    // INC C ; DEC C
    let (mut cpu, mut ctx) = machine(&[0x0C, 0x0D, 0x00]);
    cpu.registers.f = FlagsRegister::new(0x10);
    cpu.tick(&mut ctx);
    assert_eq!(cpu.registers.c, 0x01);
    assert_eq!(cpu.registers.f.0, 0x10);
    cpu.tick(&mut ctx);
    assert_eq!(cpu.registers.c, 0x00);
    assert_eq!(cpu.registers.f.0, 0xD0);
    assert_eq!(cpu.pc, 0x0103);
}

#[test]
fn store_then_load_through_hl() {
    // LD (HL), A ; LD B, (HL)
    let (mut cpu, mut ctx) = machine(&[0x77, 0x46, 0x00]);
    cpu.registers.a = 0x5E;
    cpu.registers.h = 0xC0;
    cpu.registers.l = 0x00;
    for _ in 0..4 {
        cpu.tick(&mut ctx);
    }
    assert_eq!(ctx.memory.read_u8(0xC000), 0x5E);
    assert_eq!(cpu.registers.b, 0x5E);
    assert_eq!(cpu.pc, 0x0103);
}

#[test]
fn load_sp_immediate_word_low_byte_first() {
    run_case(
        START,
        &[(0x0100, 0x31), (0x0101, 0xFE), (0x0102, 0xCF)],
        3,
        Regs { pc: 0x0103, sp: 0xCFFE, ..START },
        &[],
    );
}

#[test]
fn interrupt_bits_above_the_five_sources_are_refused() {
    let (mut cpu, mut ctx) = machine(&[0x00, 0x00]);
    cpu.ime = true;
    ctx.memory.write_u8(0xFFFF, 0xE0);
    ctx.memory.write_u8(0xFF0F, 0xE0);
    assert!(cpu.try_tick(&mut ctx).is_err());
}

fn executing(operation: Operation) -> (CPU<FlatMemory>, Context<FlatMemory>) {
    let mut cpu = CPU::<FlatMemory>::new();
    let ctx = Context::<FlatMemory>::new();
    cpu.state = State::Execute(operation, 0);
    (cpu, ctx)
}

fn run_to_end(cpu: &mut CPU<FlatMemory>, ctx: &mut Context<FlatMemory>, cycles: usize) {
    for _ in 0..cycles {
        let State::Execute(operation, _) = cpu.state else {
            panic!("the operation ended early");
        };
        assert!(cpu.execute_operation(operation, ctx).is_ok());
    }
    assert!(matches!(cpu.state, State::ExecutionDone));
}

#[test]
fn push_then_pop_operations() {
    let (mut cpu, mut ctx) = executing(Operation::Push(Registers16::HL));
    cpu.registers.sp = 0xD000;
    cpu.registers.h = 0xBE;
    cpu.registers.l = 0xEF;
    run_to_end(&mut cpu, &mut ctx, 4);
    assert_eq!(cpu.registers.sp, 0xCFFE);
    assert_eq!(ctx.memory.read_u8(0xCFFF), 0xBE);
    assert_eq!(ctx.memory.read_u8(0xCFFE), 0xEF);
    cpu.state = State::Execute(Operation::Pop(Registers16::AF), 0);
    run_to_end(&mut cpu, &mut ctx, 3);
    assert_eq!(cpu.registers.a, 0xBE);
    assert_eq!(cpu.registers.f.0, 0xE0);
    assert_eq!(cpu.registers.sp, 0xD000);
}

#[test]
fn call_then_return_operations() {
    let (mut cpu, mut ctx) = executing(Operation::Call(Condition::Always, Target::Imm16(0x4000)));
    cpu.pc = 0x1234;
    cpu.registers.sp = 0xD000;
    cpu.registers.f = FlagsRegister::new(0x50);
    run_to_end(&mut cpu, &mut ctx, 5);
    assert_eq!(cpu.pc, 0x4000);
    assert_eq!(cpu.registers.sp, 0xCFFE);
    assert_eq!(ctx.memory.read_u8(0xCFFF), 0x12);
    assert_eq!(ctx.memory.read_u8(0xCFFE), 0x34);
    cpu.state = State::Execute(Operation::Return(Condition::Always), 0);
    run_to_end(&mut cpu, &mut ctx, 4);
    assert_eq!(cpu.pc, 0x1234);
    assert_eq!(cpu.registers.sp, 0xD000);
    assert_eq!(cpu.registers.f.0, 0x50);
}

#[test]
fn increment_then_decrement_pair_across_wrap() {
    let (mut cpu, mut ctx) = executing(Operation::Inc(Target::R16(Registers16::DE)));
    cpu.registers.d = 0xFF;
    cpu.registers.e = 0xFF;
    cpu.registers.f = FlagsRegister::new(0xA0);
    run_to_end(&mut cpu, &mut ctx, 2);
    assert_eq!(cpu.registers.de(), 0x0000);
    assert_eq!(cpu.registers.f.0, 0xA0);
    cpu.state = State::Execute(Operation::Dec(Target::R16(Registers16::DE)), 0);
    run_to_end(&mut cpu, &mut ctx, 2);
    assert_eq!(cpu.registers.de(), 0xFFFF);
    assert_eq!(cpu.registers.f.0, 0xA0);
}

#[test]
fn increment_then_decrement_at_hl_across_wrap() {
    let (mut cpu, mut ctx) = executing(Operation::Inc(Target::Ind(Indirect::R16(Registers16::HL))));
    cpu.registers.h = 0xC1;
    cpu.registers.l = 0x00;
    cpu.registers.f = FlagsRegister::new(0x10);
    ctx.memory.write_u8(0xC100, 0xFF);
    run_to_end(&mut cpu, &mut ctx, 3);
    assert_eq!(ctx.memory.read_u8(0xC100), 0x00);
    assert_eq!(cpu.registers.f.0, 0xB0);
    cpu.state = State::Execute(Operation::Dec(Target::Ind(Indirect::R16(Registers16::HL))), 0);
    run_to_end(&mut cpu, &mut ctx, 3);
    assert_eq!(ctx.memory.read_u8(0xC100), 0xFF);
    assert!(cpu.registers.f.carry());
}

#[test]
fn increment_then_decrement_register_operations() {
    let (mut cpu, mut ctx) = executing(Operation::Inc(Target::R8(Registers8::E)));
    cpu.registers.e = 0x0F;
    run_to_end(&mut cpu, &mut ctx, 1);
    assert_eq!(cpu.registers.e, 0x10);
    assert_eq!(cpu.registers.f.0, 0x20);
    cpu.state = State::Execute(Operation::Dec(Target::R8(Registers8::E)), 0);
    run_to_end(&mut cpu, &mut ctx, 1);
    assert_eq!(cpu.registers.e, 0x0F);
    assert_eq!(cpu.registers.f.0, 0x60);
}

#[test]
fn add_hl_carries_across_sixteen_bits() {
    let (mut cpu, mut ctx) = executing(Operation::Add(
        Target::R16(Registers16::HL),
        Target::R16(Registers16::SP),
    ));
    cpu.registers.h = 0x8A;
    cpu.registers.l = 0x23;
    cpu.registers.sp = 0x8A23;
    cpu.registers.f = FlagsRegister::new(0x80);
    run_to_end(&mut cpu, &mut ctx, 2);
    assert_eq!(cpu.registers.hl(), 0x1446);
    // Z kept, N clear, H from bit 11, C from bit 15.
    assert_eq!(cpu.registers.f.0, 0xB0);
}

#[test]
fn add_stack_negative_offset() {
    let (mut cpu, mut ctx) = executing(Operation::AddStack(-2));
    cpu.registers.sp = 0x0001;
    run_to_end(&mut cpu, &mut ctx, 3);
    assert_eq!(cpu.registers.sp, 0xFFFF);
    assert_eq!(cpu.registers.f.0, 0x00);
}

#[test]
fn load_stack_offset_into_hl() {
    let (mut cpu, mut ctx) = executing(Operation::LoadStackOffset(0x10));
    cpu.registers.sp = 0xFFF8;
    run_to_end(&mut cpu, &mut ctx, 2);
    assert_eq!(cpu.registers.hl(), 0x0008);
    assert_eq!(cpu.registers.sp, 0xFFF8);
    // The low byte 0xF8 + 0x10 carries out of bit 7 but not bit 3.
    assert_eq!(cpu.registers.f.0, 0x10);
}
