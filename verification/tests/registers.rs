use gbemu::cpu::registers::{FlagsRegister, Registers};

#[test]
fn flags_read_back_what_was_written() {
    let mut flags = FlagsRegister::default();
    flags.set_zero(true);
    flags.set_carry(true);
    assert_eq!(flags.0, 0x90);
    assert!(flags.zero());
    assert!(!flags.subtract());
    assert!(!flags.half_carry());
    assert!(flags.carry());
    flags.set_subtract(true);
    flags.set_half_carry(true);
    flags.set_zero(false);
    assert_eq!(flags.0, 0x70);
}

#[test]
fn flags_from_byte() {
    let flags = FlagsRegister::from(0xA5);
    assert_eq!(flags.0, 0xA5);
    assert!(flags.zero());
    assert!(!flags.subtract());
    assert!(flags.half_carry());
    assert!(!flags.carry());
    assert_eq!(FlagsRegister::new(0x10).0, 0x10);
}

#[test]
fn register_pairs_read_back() {
    let mut registers = Registers::new();
    registers.set_bc(0x1234);
    registers.set_de(0xABCD);
    registers.set_hl(0x8001);
    assert_eq!(registers.bc(), 0x1234);
    assert_eq!(registers.b, 0x12);
    assert_eq!(registers.c, 0x34);
    assert_eq!(registers.de(), 0xABCD);
    assert_eq!(registers.hl(), 0x8001);
    assert_eq!(registers.h, 0x80);
    assert_eq!(registers.l, 0x01);
}

#[test]
fn af_drops_low_nibble_of_flags() {
    let mut registers = Registers::new();
    registers.set_af(0x12FF);
    assert_eq!(registers.a, 0x12);
    assert_eq!(registers.f.0, 0xF0);
    assert_eq!(registers.af(), 0x12F0);
}
