use vstd::prelude::*;

verus! {

/// The byte `f` with the bit selected by `mask` forced to `value`.
pub open spec fn with_bit(f: u8, mask: u8, value: bool) -> u8 {
    if value {
        f | mask
    } else {
        f & !mask
    }
}

/// Whether the bit selected by `mask` is set in `f`.
pub open spec fn has_bit(f: u8, mask: u8) -> bool {
    f & mask != 0
}

pub open spec fn zero_mask() -> u8 {
    0x80
}

pub open spec fn subtract_mask() -> u8 {
    0x40
}

pub open spec fn half_carry_mask() -> u8 {
    0x20
}

pub open spec fn carry_mask() -> u8 {
    0x10
}

/// The flags byte `f` after all four flags have been written: the low nibble of
/// `f` is kept, the high nibble is `z n h c` from bit 7 down to bit 4.
pub open spec fn flags_byte(f: u8, z: bool, n: bool, h: bool, c: bool) -> u8 {
    (f & 0x0F) | (if z { 0x80u8 } else { 0u8 }) | (if n { 0x40u8 } else { 0u8 }) | (if h {
        0x20u8
    } else {
        0u8
    }) | (if c { 0x10u8 } else { 0u8 })
}

/// The value of the register pair whose high byte is `hi` and low byte `lo`.
pub open spec fn pair(hi: u8, lo: u8) -> u16 {
    (hi as int * 256 + lo as int) as u16
}

/// The F register of the SM83: zero (bit 7), subtract (bit 6), half carry
/// (bit 5) and carry (bit 4).
#[derive(Debug, Copy, Clone)]
pub struct FlagsRegister(pub u8);

impl Default for FlagsRegister {
    /// All flags clear.
    fn default() -> (r: Self)
        ensures
            r.0 == 0,
    {
        FlagsRegister(0)
    }
}

impl From<u8> for FlagsRegister {
    fn from(value: u8) -> (r: Self) {
        Self::new(value)
    }
}

impl vstd::std_specs::convert::FromSpecImpl<u8> for FlagsRegister {
    open spec fn obeys_from_spec() -> bool {
        true
    }

    open spec fn from_spec(value: u8) -> Self {
        FlagsRegister(value)
    }
}

impl FlagsRegister {
    pub fn new(value: u8) -> (r: Self)
        ensures
            r.0 == value,
    {
        FlagsRegister(value)
    }

    pub open spec fn spec_zero(self) -> bool {
        has_bit(self.0, zero_mask())
    }

    pub open spec fn spec_subtract(self) -> bool {
        has_bit(self.0, subtract_mask())
    }

    pub open spec fn spec_half_carry(self) -> bool {
        has_bit(self.0, half_carry_mask())
    }

    pub open spec fn spec_carry(self) -> bool {
        has_bit(self.0, carry_mask())
    }

    pub fn zero(&self) -> (r: bool)
        ensures
            r == self.spec_zero(),
    {
        self.0 & 0x80u8 != 0
    }

    pub fn subtract(&self) -> (r: bool)
        ensures
            r == self.spec_subtract(),
    {
        self.0 & 0x40u8 != 0
    }

    pub fn half_carry(&self) -> (r: bool)
        ensures
            r == self.spec_half_carry(),
    {
        self.0 & 0x20u8 != 0
    }

    pub fn carry(&self) -> (r: bool)
        ensures
            r == self.spec_carry(),
    {
        self.0 & 0x10u8 != 0
    }

    pub fn set_zero(&mut self, value: bool)
        ensures
            final(self).0 == with_bit(old(self).0, zero_mask(), value),
    {
        if value {
            self.0 = self.0 | 0x80u8;
        } else {
            self.0 = self.0 & !0x80u8;
        }
    }

    pub fn set_subtract(&mut self, value: bool)
        ensures
            final(self).0 == with_bit(old(self).0, subtract_mask(), value),
    {
        if value {
            self.0 = self.0 | 0x40u8;
        } else {
            self.0 = self.0 & !0x40u8;
        }
    }

    pub fn set_half_carry(&mut self, value: bool)
        ensures
            final(self).0 == with_bit(old(self).0, half_carry_mask(), value),
    {
        if value {
            self.0 = self.0 | 0x20u8;
        } else {
            self.0 = self.0 & !0x20u8;
        }
    }

    pub fn set_carry(&mut self, value: bool)
        ensures
            final(self).0 == with_bit(old(self).0, carry_mask(), value),
    {
        if value {
            self.0 = self.0 | 0x10u8;
        } else {
            self.0 = self.0 & !0x10u8;
        }
    }
}

/// Writing all four flags one after the other gives `flags_byte`.
pub proof fn lemma_flags_byte(f: u8, z: bool, n: bool, h: bool, c: bool)
    ensures
        with_bit(
            with_bit(with_bit(with_bit(f, zero_mask(), z), subtract_mask(), n), half_carry_mask(), h),
            carry_mask(),
            c,
        ) == flags_byte(f, z, n, h, c),
{
    lemma_flag_bits();
}

/// The bit-level facts behind the flags register, for every byte.
proof fn lemma_flag_bits()
    by (bit_vector)
    ensures
        forall|f: u8, z: bool, n: bool, h: bool, c: bool|
            #![trigger flags_byte(f, z, n, h, c)]
            with_bit(
                with_bit(with_bit(with_bit(f, 0x80u8, z), 0x40u8, n), 0x20u8, h),
                0x10u8,
                c,
            ) == flags_byte(f, z, n, h, c),
        forall|f: u8, z: bool, n: bool, h: bool, c: bool|
            #![trigger flags_byte(f, z, n, h, c)]
            (flags_byte(f, z, n, h, c) & 0x80u8 != 0) == z && (flags_byte(f, z, n, h, c) & 0x40u8
                != 0) == n && (flags_byte(f, z, n, h, c) & 0x20u8 != 0) == h && (flags_byte(
                f,
                z,
                n,
                h,
                c,
            ) & 0x10u8 != 0) == c && flags_byte(f, z, n, h, c) & 0x0Fu8 == f & 0x0Fu8,
{
}

/// Reading a flag back gives what was last written to it, and writing one flag
/// leaves the other three as they were.
pub proof fn lemma_flag_write_read(f: u8, mask: u8, other: u8, value: bool)
    by (bit_vector)
    requires
        mask == zero_mask() || mask == subtract_mask() || mask == half_carry_mask() || mask
            == carry_mask(),
        other == zero_mask() || other == subtract_mask() || other == half_carry_mask() || other
            == carry_mask(),
        other != mask,
    ensures
        has_bit(with_bit(f, mask, value), mask) == value,
        has_bit(with_bit(f, mask, value), other) == has_bit(f, other),
{
}

/// The flags of `flags_byte` read back as written; the low nibble is kept.
pub proof fn lemma_flags_byte_reads(f: u8, z: bool, n: bool, h: bool, c: bool)
    ensures
        has_bit(flags_byte(f, z, n, h, c), zero_mask()) == z,
        has_bit(flags_byte(f, z, n, h, c), subtract_mask()) == n,
        has_bit(flags_byte(f, z, n, h, c), half_carry_mask()) == h,
        has_bit(flags_byte(f, z, n, h, c), carry_mask()) == c,
        flags_byte(f, z, n, h, c) & 0x0F == f & 0x0F,
{
    lemma_flag_bits();
}

/// The CPU's register file.
#[derive(Debug)]
pub struct Registers {
    pub sp: u16,
    pub a: u8,
    pub b: u8,
    pub c: u8,
    pub d: u8,
    pub e: u8,
    pub f: FlagsRegister,
    pub h: u8,
    pub l: u8,
}

impl Registers {
    pub fn new() -> (r: Self)
        ensures
            r.sp == 0 && r.a == 0 && r.b == 0 && r.c == 0 && r.d == 0 && r.e == 0 && r.f.0 == 0
                && r.h == 0 && r.l == 0,
    {
        Registers { sp: 0, a: 0, b: 0, c: 0, d: 0, e: 0, f: FlagsRegister(0), h: 0, l: 0 }
    }

    pub open spec fn spec_af(self) -> u16 {
        pair(self.a, self.f.0)
    }

    pub open spec fn spec_bc(self) -> u16 {
        pair(self.b, self.c)
    }

    pub open spec fn spec_de(self) -> u16 {
        pair(self.d, self.e)
    }

    pub open spec fn spec_hl(self) -> u16 {
        pair(self.h, self.l)
    }

    /// The registers after AF was written: the low nibble of F always reads zero.
    pub open spec fn with_af(self, value: u16) -> Self {
        Registers { a: (value / 256) as u8, f: FlagsRegister(((value % 256) as u8) & 0xF0u8), ..self }
    }

    pub open spec fn with_bc(self, value: u16) -> Self {
        Registers { b: (value / 256) as u8, c: (value % 256) as u8, ..self }
    }

    pub open spec fn with_de(self, value: u16) -> Self {
        Registers { d: (value / 256) as u8, e: (value % 256) as u8, ..self }
    }

    pub open spec fn with_hl(self, value: u16) -> Self {
        Registers { h: (value / 256) as u8, l: (value % 256) as u8, ..self }
    }

    pub fn af(&self) -> (r: u16)
        ensures
            r == self.spec_af(),
    {
        self.a as u16 * 256 + self.f.0 as u16
    }

    pub fn set_af(&mut self, value: u16)
        ensures
            *final(self) == old(self).with_af(value),
    {
        self.a = (value / 256) as u8;
        self.f.0 = (value % 256) as u8 & 0xF0u8;
    }

    pub fn bc(&self) -> (r: u16)
        ensures
            r == self.spec_bc(),
    {
        self.b as u16 * 256 + self.c as u16
    }

    pub fn set_bc(&mut self, value: u16)
        ensures
            *final(self) == old(self).with_bc(value),
    {
        self.b = (value / 256) as u8;
        self.c = (value % 256) as u8;
    }

    pub fn de(&self) -> (r: u16)
        ensures
            r == self.spec_de(),
    {
        self.d as u16 * 256 + self.e as u16
    }

    pub fn set_de(&mut self, value: u16)
        ensures
            *final(self) == old(self).with_de(value),
    {
        self.d = (value / 256) as u8;
        self.e = (value % 256) as u8;
    }

    pub fn hl(&self) -> (r: u16)
        ensures
            r == self.spec_hl(),
    {
        self.h as u16 * 256 + self.l as u16
    }

    pub fn set_hl(&mut self, value: u16)
        ensures
            *final(self) == old(self).with_hl(value),
    {
        self.h = (value / 256) as u8;
        self.l = (value % 256) as u8;
    }
}

/// A register pair reads back what was written to it; AF reads back with the
/// low nibble of F cleared.
pub proof fn lemma_pair_write_read(r: Registers, value: u16)
    ensures
        r.with_bc(value).spec_bc() == value,
        r.with_de(value).spec_de() == value,
        r.with_hl(value).spec_hl() == value,
        r.with_af(value).spec_af() == value - value % 16,
{
    let lo = (value % 256) as u8;
    assert(lo & 0xF0u8 == lo - lo % 16) by (bit_vector);
}

} // verus!
