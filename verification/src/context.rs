use vstd::prelude::*;

use crate::ppu::{LCDRegisters, Oam, Vram};

verus! {

// ---------------------------------------------------------------------------
// Interrupts
// ---------------------------------------------------------------------------

/// The five interrupt sources, in priority order from VBlank (bit 0) to
/// Joypad (bit 4) of the IF and IE registers.
#[derive(Debug, Copy, Clone)]
pub enum InterruptType {
    Joypad,
    Serial,
    Timer,
    LCD,
    VBlank,
}

impl InterruptType {
    /// The bit of IF / IE that belongs to this interrupt.
    pub open spec fn spec_bit(self) -> u8 {
        match self {
            InterruptType::Joypad => 4,
            InterruptType::Serial => 3,
            InterruptType::Timer => 2,
            InterruptType::LCD => 1,
            InterruptType::VBlank => 0,
        }
    }

    /// The single-bit mask of this interrupt in IF / IE.
    pub open spec fn spec_mask(self) -> u8 {
        match self {
            InterruptType::Joypad => 0x10,
            InterruptType::Serial => 0x08,
            InterruptType::Timer => 0x04,
            InterruptType::LCD => 0x02,
            InterruptType::VBlank => 0x01,
        }
    }

    pub fn bit(self) -> (r: u8)
        ensures
            r == self.spec_bit(),
    {
        match self {
            InterruptType::Joypad => 4,
            InterruptType::Serial => 3,
            InterruptType::Timer => 2,
            InterruptType::LCD => 1,
            InterruptType::VBlank => 0,
        }
    }

    pub fn mask(self) -> (r: u8)
        ensures
            r == self.spec_mask(),
            r == 1u8 << self.spec_bit(),
    {
        assert(1u8 << 0u8 == 1u8 && 1u8 << 1u8 == 2u8 && 1u8 << 2u8 == 4u8 && 1u8 << 3u8 == 8u8
            && 1u8 << 4u8 == 16u8) by (bit_vector);
        match self {
            InterruptType::Joypad => 0x10,
            InterruptType::Serial => 0x08,
            InterruptType::Timer => 0x04,
            InterruptType::LCD => 0x02,
            InterruptType::VBlank => 0x01,
        }
    }
}

/// The interrupt flag register IF (0xFF0F).
#[derive(Debug, Copy, Clone)]
pub struct Interrupts {
    pub interrupt_flag: u8,
}

impl Interrupts {
    pub fn new() -> (r: Self)
        ensures
            r.interrupt_flag == 0,
    {
        Interrupts { interrupt_flag: 0 }
    }

    pub fn read(&self) -> (r: u8)
        ensures
            r == self.interrupt_flag,
    {
        self.interrupt_flag
    }

    pub fn write(&mut self, value: u8)
        ensures
            final(self).interrupt_flag == value,
    {
        self.interrupt_flag = value;
    }

    /// Requests `interrupt`: its bit of IF is set, the others are kept.
    pub fn schedule_interrupt(&mut self, interrupt: InterruptType)
        ensures
            final(self).interrupt_flag == old(self).interrupt_flag | interrupt.spec_mask(),
    {
        self.interrupt_flag = self.interrupt_flag | interrupt.mask();
    }

    /// Acknowledges `interrupt`: its bit of IF is cleared, the others are kept.
    pub fn clear_interrupt(&mut self, interrupt: InterruptType)
        ensures
            final(self).interrupt_flag == old(self).interrupt_flag & !interrupt.spec_mask(),
    {
        self.interrupt_flag = self.interrupt_flag & !interrupt.mask();
    }
}

/// After `schedule_interrupt` the interrupt's bit is set and after
/// `clear_interrupt` it is clear; the bits of the other interrupts are kept by both.
pub proof fn lemma_interrupt_bits(flag: u8, t: InterruptType, other: InterruptType)
    ensures
        (flag | t.spec_mask()) & t.spec_mask() != 0,
        (flag & !t.spec_mask()) & t.spec_mask() == 0,
        t.spec_bit() != other.spec_bit() ==> ((flag | t.spec_mask()) & other.spec_mask() == flag
            & other.spec_mask() && (flag & !t.spec_mask()) & other.spec_mask() == flag
            & other.spec_mask()),
{
    lemma_single_bit_masks(flag, t.spec_mask(), other.spec_mask());
}

proof fn lemma_single_bit_masks(f: u8, m: u8, k: u8)
    by (bit_vector)
    requires
        m == 1u8 || m == 2u8 || m == 4u8 || m == 8u8 || m == 16u8,
        k == 1u8 || k == 2u8 || k == 4u8 || k == 8u8 || k == 16u8,
    ensures
        (f | m) & m != 0,
        (f & !m) & m == 0,
        k != m ==> ((f | m) & k == f & k && (f & !m) & k == f & k),
{
}

// ---------------------------------------------------------------------------
// Joypad and serial port
// ---------------------------------------------------------------------------

/// The joypad register P1 (0xFF00). Its reads and writes are not implemented
/// yet, so the address is neither readable nor writable on the bus.
#[derive(Debug, Copy, Clone)]
pub struct JoypadRegister;

/// The serial transfer registers SB / SC (0xFF01, 0xFF02). Their reads and
/// writes are not implemented yet, so the addresses are neither readable nor
/// writable on the bus.
#[derive(Debug, Copy, Clone)]
pub struct SerialTransferRegisters;

// ---------------------------------------------------------------------------
// Timer
// ---------------------------------------------------------------------------

/// The timer: the 16-bit system counter (DIV is its upper byte), TIMA, TMA,
/// TAC, and the reload that an overflowing TIMA leaves pending.
#[derive(Debug, Copy, Clone)]
pub struct TimerRegisters {
    pub sc: u16,
    pub tima: u8,
    pub tma: u8,
    pub tac: u8,
    pub tima_overflow: Option<u8>,
    pub tima_written: bool,
}

/// Whether TAC enables the timer (bit 2).
pub open spec fn timer_enabled(tac: u8) -> bool {
    (tac / 4) % 2 == 1
}

/// The weight of the system-counter bit that TAC selects as TIMA's clock:
/// bit 7, 1, 3 or 5 for the clock selects 0, 1, 2, 3.
pub open spec fn tap_weight(tac: u8) -> u16 {
    match tac % 4 {
        0 => 128,
        1 => 2,
        2 => 8,
        _ => 32,
    }
}

/// The system-counter bit that TAC selects.
pub open spec fn counter_bit(sc: u16, tac: u8) -> bool {
    (sc / tap_weight(tac)) % 2 == 1
}

impl TimerRegisters {
    pub fn new() -> (r: Self)
        ensures
            r == Self::new_spec(),
    {
        TimerRegisters { sc: 0, tima: 0, tma: 0, tac: 0, tima_overflow: None, tima_written: false }
    }

    /// TIMA after one increment; an overflow that was not masked by a write to
    /// TIMA leaves TMA pending as the reload value.
    pub open spec fn spec_timer_tick(self) -> Self {
        if self.tima == 255 {
            TimerRegisters {
                tima: 0,
                tima_overflow: if !self.tima_written {
                    Some(self.tma)
                } else {
                    self.tima_overflow
                },
                ..self
            }
        } else {
            TimerRegisters { tima: (self.tima + 1) as u8, ..self }
        }
    }

    /// One tick of the system counter; TIMA is incremented on a falling edge
    /// of the selected counter bit while the timer is enabled.
    pub open spec fn spec_clock_tick(self) -> Self {
        let sc = if self.sc == 0xFFFF {
            0u16
        } else {
            (self.sc + 1) as u16
        };
        let next = TimerRegisters { sc, ..self };
        if counter_bit(self.sc, self.tac) && !counter_bit(sc, self.tac) && timer_enabled(self.tac) {
            next.spec_timer_tick()
        } else {
            next
        }
    }

    /// The value read from timer register `address` (0x04 DIV, 0x05 TIMA,
    /// 0x06 TMA, 0x07 TAC).
    pub open spec fn spec_read(self, address: u8) -> u8 {
        if address == 4 {
            ((self.sc / 64) % 256) as u8
        } else if address == 5 {
            self.tima
        } else if address == 6 {
            self.tma
        } else {
            self.tac
        }
    }

    /// The timer after `value` was written to register `address`.
    pub open spec fn spec_write(self, address: u8, value: u8) -> Self {
        if address == 4 {
            let reset = TimerRegisters { sc: 0, ..self };
            if counter_bit(self.sc, self.tac) && timer_enabled(self.tac) {
                reset.spec_timer_tick()
            } else {
                reset
            }
        } else if address == 5 {
            TimerRegisters { tima_written: true, tima: value, ..self }
        } else if address == 6 {
            TimerRegisters { tma: value, ..self }
        } else {
            let next = TimerRegisters { tac: value, ..self };
            if counter_bit(self.sc, self.tac) && !counter_bit(self.sc, value) && timer_enabled(
                self.tac,
            ) {
                next.spec_timer_tick()
            } else {
                next
            }
        }
    }

    /// Whether TAC enables the timer.
    fn tac_enable(&self) -> (r: bool)
        ensures
            r == timer_enabled(self.tac),
    {
        let tac = self.tac;
        assert(((tac >> 2u8) & 1u8 == 1u8) == ((tac / 4) % 2 == 1)) by (bit_vector);
        (self.tac >> 2u8) & 0b1u8 == 0b1u8
    }

    /// The system-counter bit that `tac` selects, read from `sc`.
    fn selected_counter_bit(sc: u16, tac: u8) -> (r: bool)
        ensures
            r == counter_bit(sc, tac),
    {
        proof {
            lemma_counter_bits(sc, tac);
        }
        let selected_bit: u16 = match tac & 0b11u8 {
            0b00u8 => 8,
            0b01u8 => 2,
            0b10u8 => 4,
            _ => 6,
        };
        (sc >> (selected_bit - 1)) & 0b1u16 == 1u16
    }

    pub fn read(&self, address: u8) -> (r: u8)
        requires
            0x04 <= address <= 0x07,
        ensures
            r == self.spec_read(address),
    {
        match address {
            0x04u8 => ((self.sc / 64) % 256) as u8,
            0x05u8 => self.tima,
            0x06u8 => self.tma,
            _ => self.tac,
        }
    }

    pub fn write(&mut self, address: u8, value: u8)
        requires
            0x04 <= address <= 0x07,
        ensures
            *final(self) == old(self).spec_write(address, value),
    {
        match address {
            0x04u8 => {
                let tac_enable = self.tac_enable();
                let sc_bit_prev = Self::selected_counter_bit(self.sc, self.tac);
                self.sc = 0;
                if sc_bit_prev && tac_enable {
                    self.timer_tick();
                }
            },
            0x05u8 => {
                self.tima_written = true;
                self.tima = value;
            },
            0x06u8 => {
                self.tma = value;
            },
            _ => {
                let tac_enable = self.tac_enable();
                let sc_bit_prev = Self::selected_counter_bit(self.sc, self.tac);
                self.tac = value;
                let sc_bit_after = Self::selected_counter_bit(self.sc, self.tac);
                if sc_bit_prev && !sc_bit_after && tac_enable {
                    self.timer_tick();
                }
            },
        }
    }

    pub fn timer_tick(&mut self)
        ensures
            *final(self) == old(self).spec_timer_tick(),
    {
        let overflow = self.tima == 255;
        self.tima = self.tima.wrapping_add(1);
        if overflow && !self.tima_written {
            self.tima_overflow = Some(self.tma);
        }
    }

    pub fn clock_tick(&mut self)
        ensures
            *final(self) == old(self).spec_clock_tick(),
    {
        let tac_enable = self.tac_enable();
        let sc_bit_prev = Self::selected_counter_bit(self.sc, self.tac);
        self.sc = self.sc.wrapping_add(1);
        let sc_bit_new = Self::selected_counter_bit(self.sc, self.tac);
        if sc_bit_prev && !sc_bit_new && tac_enable {
            self.timer_tick();
        }
    }

    /// Reloads TIMA with `tma` and requests the timer interrupt.
    pub fn handle_overflow(&mut self, tma: u8, interrupts: &mut Interrupts)
        ensures
            *final(self) == (TimerRegisters { tima: tma, ..*old(self) }),
            final(interrupts).interrupt_flag == old(interrupts).interrupt_flag
                | InterruptType::Timer.spec_mask(),
    {
        self.tima = tma;
        interrupts.schedule_interrupt(InterruptType::Timer);
    }
}

proof fn lemma_counter_bits(sc: u16, tac: u8)
    ensures
        tac & 0b11u8 == tac % 4,
        ((sc >> 7u16) & 1u16 == 1u16) == ((sc / 128) % 2 == 1),
        ((sc >> 1u16) & 1u16 == 1u16) == ((sc / 2) % 2 == 1),
        ((sc >> 3u16) & 1u16 == 1u16) == ((sc / 8) % 2 == 1),
        ((sc >> 5u16) & 1u16 == 1u16) == ((sc / 32) % 2 == 1),
{
    assert(tac & 0b11u8 == tac % 4) by (bit_vector);
    assert(((sc >> 7u16) & 1u16 == 1u16) == ((sc / 128) % 2 == 1) && ((sc >> 1u16) & 1u16 == 1u16)
        == ((sc / 2) % 2 == 1) && ((sc >> 3u16) & 1u16 == 1u16) == ((sc / 8) % 2 == 1) && ((sc
        >> 5u16) & 1u16 == 1u16) == ((sc / 32) % 2 == 1)) by (bit_vector);
}

// ---------------------------------------------------------------------------
// I/O registers
// ---------------------------------------------------------------------------

/// The I/O registers at 0xFF00..=0xFF7F.
#[derive(Debug, Copy, Clone)]
pub struct IoRegisters {
    pub joypad: JoypadRegister,
    pub serial: SerialTransferRegisters,
    pub timer: TimerRegisters,
    pub interrupt: Interrupts,
    pub lcd: LCDRegisters,
}

/// Whether the I/O register at offset `address` from 0xFF00 can be read or
/// written: the timer, IF, the audio and wave-pattern ranges, the LCD range
/// and the boot ROM control register. Every other offset is not implemented.
pub open spec fn io_accessible(address: u8) -> bool {
    (0x04 <= address <= 0x07) || address == 0x0F || (0x10 <= address <= 0x26) || (0x30 <= address
        <= 0x3F) || (0x40 <= address <= 0x4B) || address == 0x50
}

impl IoRegisters {
    pub fn new() -> (r: Self)
        ensures
            r.timer == TimerRegisters::new_spec(),
            r.interrupt.interrupt_flag == 0,
            r.lcd == LCDRegisters::new_spec(),
    {
        IoRegisters {
            joypad: JoypadRegister,
            serial: SerialTransferRegisters,
            timer: TimerRegisters::new(),
            interrupt: Interrupts::new(),
            lcd: LCDRegisters::new(),
        }
    }

    /// The value read from I/O offset `address`: the audio and wave-pattern
    /// ranges and the boot ROM control register read 0xFF, the LCD range 0x90.
    pub open spec fn spec_read(self, address: u8) -> u8 {
        if 0x04 <= address <= 0x07 {
            self.timer.spec_read(address)
        } else if address == 0x0F {
            self.interrupt.interrupt_flag
        } else if 0x40 <= address <= 0x4B {
            0x90
        } else {
            0xFF
        }
    }

    /// The I/O registers after `value` was written to offset `address`; only
    /// the timer and IF keep what is written.
    pub open spec fn spec_write(self, address: u8, value: u8) -> Self {
        if 0x04 <= address <= 0x07 {
            IoRegisters { timer: self.timer.spec_write(address, value), ..self }
        } else if address == 0x0F {
            IoRegisters { interrupt: Interrupts { interrupt_flag: value }, ..self }
        } else {
            self
        }
    }

    pub fn read_u8(&self, address: u8) -> (r: u8)
        requires
            io_accessible(address),
        ensures
            r == self.spec_read(address),
    {
        if 0x04u8 <= address && address <= 0x07u8 {
            self.timer.read(address)
        } else if address == 0x0Fu8 {
            self.interrupt.read()
        } else if 0x10u8 <= address && address <= 0x26u8 {
            0xFF
        } else if 0x30u8 <= address && address <= 0x3Fu8 {
            0xFF
        } else if 0x40u8 <= address && address <= 0x4Bu8 {
            0x90
        } else {
            // Boot ROM bank control, write-only.
            0xFF
        }
    }

    pub fn write_u8(&mut self, address: u8, value: u8)
        requires
            io_accessible(address),
        ensures
            *final(self) == old(self).spec_write(address, value),
    {
        if 0x04u8 <= address && address <= 0x07u8 {
            self.timer.write(address, value);
        } else if address == 0x0Fu8 {
            self.interrupt.write(value);
        }
    }
}

impl TimerRegisters {
    pub open spec fn new_spec() -> Self {
        TimerRegisters { sc: 0, tima: 0, tma: 0, tac: 0, tima_overflow: None, tima_written: false }
    }
}

// ---------------------------------------------------------------------------
// The memory interface of the CPU
// ---------------------------------------------------------------------------

/// An address space that the CPU can run against, described by its view.
///
/// `readable` and `writable` say which addresses the implementation can serve;
/// an access elsewhere is not implemented. `plain` addresses are ordinary
/// memory cells: a read gives back the last write, and `aliases` says which
/// pairs of addresses name the same cell.
pub trait Memory: View + Sized {
    spec fn inv(m: Self::V) -> bool;

    spec fn readable(address: u16) -> bool;

    spec fn writable(address: u16) -> bool;

    spec fn plain(address: u16) -> bool;

    spec fn aliases(a: u16, b: u16) -> bool;

    spec fn read(m: Self::V, address: u16) -> u8;

    spec fn write(m: Self::V, address: u16, value: u8) -> Self::V;

    /// The interrupt flag register IF.
    spec fn interrupt_flag_of(m: Self::V) -> u8;

    /// The interrupt enable register IE.
    spec fn ie_of(m: Self::V) -> u8;

    /// The memory after the IF bit of `interrupt` was cleared.
    spec fn cleared(m: Self::V, interrupt: InterruptType) -> Self::V;

    /// The memory after the cartridge image `rom` was loaded.
    spec fn rom_loaded(m: Self::V, rom: Seq<u8>) -> Self::V;

    /// The memory after the boot ROM `rom` was loaded.
    spec fn boot_rom_loaded(m: Self::V, rom: Seq<u8>) -> Self::V;

    /// Every ordinary cell, IF and IE start at zero.
    fn new() -> (r: Self)
        ensures
            Self::inv(r@),
            forall|a: u16| #[trigger] Self::plain(a) ==> Self::read(r@, a) == 0,
            Self::interrupt_flag_of(r@) == 0,
            Self::ie_of(r@) == 0,
    ;

    fn is_readable(&self, address: u16) -> (r: bool)
        ensures
            r == Self::readable(address),
    ;

    fn is_writable(&self, address: u16) -> (r: bool)
        ensures
            r == Self::writable(address),
    ;

    fn read_u8(&self, address: u16) -> (r: u8)
        requires
            Self::inv(self@),
            Self::readable(address),
        ensures
            r == Self::read(self@, address),
    ;

    fn write_u8(&mut self, address: u16, value: u8)
        requires
            Self::inv(old(self)@),
            Self::writable(address),
        ensures
            final(self)@ == Self::write(old(self)@, address, value),
    ;

    fn interrupt_flag(&self) -> (r: u8)
        requires
            Self::inv(self@),
        ensures
            r == Self::interrupt_flag_of(self@),
    ;

    fn ie(&self) -> (r: u8)
        requires
            Self::inv(self@),
        ensures
            r == Self::ie_of(self@),
    ;

    fn clear_interrupt(&mut self, interrupt: InterruptType)
        requires
            Self::inv(old(self)@),
        ensures
            final(self)@ == Self::cleared(old(self)@, interrupt),
    ;

    fn load_rom(&mut self, rom: &[u8])
        requires
            Self::inv(old(self)@),
        ensures
            final(self)@ == Self::rom_loaded(old(self)@, rom@),
    ;

    fn load_boot_rom(&mut self, rom: &[u8])
        requires
            Self::inv(old(self)@),
        ensures
            final(self)@ == Self::boot_rom_loaded(old(self)@, rom@),
    ;

    /// Every operation keeps the memory well formed.
    proof fn lemma_inv_kept(m: Self::V, address: u16, value: u8, interrupt: InterruptType, rom: Seq<u8>)
        requires
            Self::inv(m),
        ensures
            Self::writable(address) ==> Self::inv(Self::write(m, address, value)),
            Self::inv(Self::cleared(m, interrupt)),
            Self::inv(Self::rom_loaded(m, rom)),
            Self::inv(Self::boot_rom_loaded(m, rom)),
    ;

    /// Acknowledging an interrupt clears its bit of IF, keeps the other bits
    /// of IF, and leaves IE as it was.
    proof fn lemma_cleared(m: Self::V, interrupt: InterruptType)
        requires
            Self::inv(m),
        ensures
            Self::interrupt_flag_of(Self::cleared(m, interrupt)) == Self::interrupt_flag_of(m)
                & !interrupt.spec_mask(),
            Self::ie_of(Self::cleared(m, interrupt)) == Self::ie_of(m),
    ;

    /// A plain cell reads back the value last written to it, and a write
    /// leaves every plain cell that it does not alias as it was.
    proof fn lemma_write_read(m: Self::V, address: u16, value: u8, other: u16)
        requires
            Self::inv(m),
            Self::plain(address),
            Self::plain(other),
        ensures
            Self::readable(address),
            Self::writable(address),
            Self::read(Self::write(m, address, value), address) == value,
            !Self::aliases(address, other) ==> Self::read(Self::write(m, address, value), other)
                == Self::read(m, other),
    ;
}

/// What the CPU is connected to.
pub struct Context<T> {
    pub memory: T,
}

impl<T: Memory> Context<T> {
    /// A context whose memory starts zeroed: every ordinary cell, IF and IE.
    pub fn new() -> (r: Self)
        ensures
            T::inv(r.memory@),
            forall|a: u16| #[trigger] T::plain(a) ==> T::read(r.memory@, a) == 0,
            T::interrupt_flag_of(r.memory@) == 0,
            T::ie_of(r.memory@) == 0,
    {
        Context { memory: T::new() }
    }
}

// ---------------------------------------------------------------------------
// A flat 64 KiB address space
// ---------------------------------------------------------------------------

/// 64 KiB of plain memory: every address is an ordinary cell; IF is the
/// byte at 0xFF0F and IE the byte at 0xFFFF.
pub struct FlatMemory {
    pub bytes: Vec<u8>,
}

impl View for FlatMemory {
    type V = Seq<u8>;

    open spec fn view(&self) -> Seq<u8> {
        self.bytes@
    }
}

impl Memory for FlatMemory {
    open spec fn inv(m: Seq<u8>) -> bool {
        m.len() == 0x10000
    }

    open spec fn readable(address: u16) -> bool {
        true
    }

    open spec fn writable(address: u16) -> bool {
        true
    }

    open spec fn plain(address: u16) -> bool {
        true
    }

    open spec fn aliases(a: u16, b: u16) -> bool {
        a == b
    }

    open spec fn read(m: Seq<u8>, address: u16) -> u8 {
        m[address as int]
    }

    open spec fn write(m: Seq<u8>, address: u16, value: u8) -> Seq<u8> {
        m.update(address as int, value)
    }

    open spec fn interrupt_flag_of(m: Seq<u8>) -> u8 {
        m[0xFF0F]
    }

    open spec fn ie_of(m: Seq<u8>) -> u8 {
        m[0xFFFF]
    }

    open spec fn cleared(m: Seq<u8>, interrupt: InterruptType) -> Seq<u8> {
        m.update(0xFF0F, m[0xFF0F] & !interrupt.spec_mask())
    }

    /// The image is copied to the start of the address space; what does not
    /// fit is left out and the bytes past it are kept.
    open spec fn rom_loaded(m: Seq<u8>, rom: Seq<u8>) -> Seq<u8> {
        Seq::new(m.len(), |i: int| if i < rom.len() { rom[i] } else { m[i] })
    }

    open spec fn boot_rom_loaded(m: Seq<u8>, rom: Seq<u8>) -> Seq<u8> {
        Seq::new(m.len(), |i: int| if i < rom.len() { rom[i] } else { m[i] })
    }

    fn new() -> (r: Self)
        ensures
            forall|i: int| 0 <= i < 0x10000 ==> r@[i] == 0,
    {
        FlatMemory { bytes: vec![0u8; 0x10000] }
    }

    fn is_readable(&self, address: u16) -> (r: bool) {
        true
    }

    fn is_writable(&self, address: u16) -> (r: bool) {
        true
    }

    fn read_u8(&self, address: u16) -> (r: u8) {
        self.bytes[address as usize]
    }

    fn write_u8(&mut self, address: u16, value: u8) {
        self.bytes.set(address as usize, value);
    }

    fn interrupt_flag(&self) -> (r: u8) {
        self.bytes[0xFF0F]
    }

    fn ie(&self) -> (r: u8) {
        self.bytes[0xFFFF]
    }

    fn clear_interrupt(&mut self, interrupt: InterruptType) {
        let flag = self.bytes[0xFF0F] & !interrupt.mask();
        self.bytes.set(0xFF0F, flag);
    }

    fn load_rom(&mut self, rom: &[u8]) {
        self.copy_image(rom);
    }

    fn load_boot_rom(&mut self, rom: &[u8]) {
        self.copy_image(rom);
    }

    proof fn lemma_inv_kept(m: Seq<u8>, address: u16, value: u8, interrupt: InterruptType, rom: Seq<u8>) {
    }

    proof fn lemma_write_read(m: Seq<u8>, address: u16, value: u8, other: u16) {
    }

    proof fn lemma_cleared(m: Seq<u8>, interrupt: InterruptType) {
    }
}

impl FlatMemory {
    /// Copies `image` to the start of memory, as far as it fits.
    fn copy_image(&mut self, image: &[u8])
        requires
            old(self)@.len() == 0x10000,
        ensures
            final(self)@ == FlatMemory::rom_loaded(old(self)@, image@),
    {
        let n = image.len();
        let mut i: usize = 0;
        while i < n && i < 0x10000
            invariant
                n == image@.len(),
                i <= n,
                self@.len() == 0x10000,
                old(self)@.len() == 0x10000,
                i <= 0x10000,
                forall|k: int| 0 <= k < i ==> #[trigger] self@[k] == image@[k],
                forall|k: int| i <= k < 0x10000 ==> #[trigger] self@[k] == old(self)@[k],
            decreases 0x10000 - i,
        {
            self.bytes.set(i, image[i]);
            i = i + 1;
        }
        assert(self@ =~= FlatMemory::rom_loaded(old(self)@, image@));
    }
}

// ---------------------------------------------------------------------------
// The Game Boy memory bus
// ---------------------------------------------------------------------------

/// The contents of the memory bus.
#[verifier::ext_equal]
pub struct MemoryBusView {
    pub rom: Seq<u8>,
    pub rom_banks: Seq<Seq<u8>>,
    pub vram: Seq<u8>,
    pub external_ram: Seq<u8>,
    pub wram1: Seq<u8>,
    pub wram2: Seq<u8>,
    pub oam: Seq<u8>,
    pub io: IoRegisters,
    pub hram: Seq<u8>,
    pub ie: u8,
}

/// The Game Boy address space: cartridge ROM (bank 0 and the first
/// switchable bank), VRAM, external RAM, two banks of work RAM and its echo,
/// OAM, the I/O registers, high RAM and IE.
pub struct MemoryBus {
    pub rom: Vec<u8>,
    pub rom_banks: Vec<Vec<u8>>,
    pub vram: Vram,
    pub external_ram: Vec<u8>,
    pub wram1: Vec<u8>,
    pub wram2: Vec<u8>,
    pub oam: Oam,
    pub io: IoRegisters,
    pub hram: Vec<u8>,
    pub ie: u8,
}

impl View for MemoryBus {
    type V = MemoryBusView;

    open spec fn view(&self) -> MemoryBusView {
        MemoryBusView {
            rom: self.rom@,
            rom_banks: self.rom_banks@.map_values(|b: Vec<u8>| b@),
            vram: self.vram.0@,
            external_ram: self.external_ram@,
            wram1: self.wram1@,
            wram2: self.wram2@,
            oam: self.oam.0@,
            io: self.io,
            hram: self.hram@,
            ie: self.ie,
        }
    }
}

/// Byte `k` of a cartridge image, zero past its end.
pub open spec fn image_byte(rom: Seq<u8>, k: int) -> u8 {
    if 0 <= k < rom.len() {
        rom[k]
    } else {
        0
    }
}

impl Memory for MemoryBus {
    open spec fn inv(m: MemoryBusView) -> bool {
        &&& m.rom.len() == 0x4000
        &&& m.rom_banks.len() >= 1
        &&& m.rom_banks[0].len() == 0x4000
        &&& m.vram.len() == 0x2000
        &&& m.external_ram.len() == 0x2000
        &&& m.wram1.len() == 0x1000
        &&& m.wram2.len() == 0x1000
        &&& m.oam.len() == 0xA0
        &&& m.hram.len() == 0x7F
    }

    /// ROM, VRAM, external RAM, work RAM and its echo, the implemented I/O
    /// registers, high RAM and IE. OAM and the prohibited region are not
    /// implemented.
    open spec fn readable(address: u16) -> bool {
        address <= 0xFDFF || (0xFF00 <= address <= 0xFF7F && io_accessible((address - 0xFF00) as u8))
            || address >= 0xFF80
    }

    open spec fn writable(address: u16) -> bool {
        Self::readable(address)
    }

    /// Everything readable except the I/O registers.
    open spec fn plain(address: u16) -> bool {
        address <= 0xFDFF || address >= 0xFF80
    }

    /// Echo RAM at 0xE000..=0xFDFF names the cells of work RAM at
    /// 0xC000..=0xDDFF.
    open spec fn aliases(a: u16, b: u16) -> bool {
        a == b || (0xC000 <= a <= 0xDDFF && b == a + 0x2000) || (0xC000 <= b <= 0xDDFF && a == b
            + 0x2000)
    }

    open spec fn read(m: MemoryBusView, address: u16) -> u8 {
        let a = address as int;
        if a <= 0x3FFF {
            m.rom[a]
        } else if a <= 0x7FFF {
            m.rom_banks[0][a - 0x4000]
        } else if a <= 0x9FFF {
            m.vram[a - 0x8000]
        } else if a <= 0xBFFF {
            m.external_ram[a - 0xA000]
        } else if a <= 0xCFFF {
            m.wram1[a - 0xC000]
        } else if a <= 0xDFFF {
            m.wram2[a - 0xD000]
        } else if a <= 0xEFFF {
            m.wram1[a - 0xE000]
        } else if a <= 0xFDFF {
            m.wram2[a - 0xF000]
        } else if 0xFF00 <= a <= 0xFF7F {
            m.io.spec_read((a - 0xFF00) as u8)
        } else if 0xFF80 <= a <= 0xFFFE {
            m.hram[a - 0xFF80]
        } else {
            m.ie
        }
    }

    open spec fn write(m: MemoryBusView, address: u16, value: u8) -> MemoryBusView {
        let a = address as int;
        if a <= 0x3FFF {
            MemoryBusView { rom: m.rom.update(a, value), ..m }
        } else if a <= 0x7FFF {
            MemoryBusView {
                rom_banks: m.rom_banks.update(0, m.rom_banks[0].update(a - 0x4000, value)),
                ..m
            }
        } else if a <= 0x9FFF {
            MemoryBusView { vram: m.vram.update(a - 0x8000, value), ..m }
        } else if a <= 0xBFFF {
            MemoryBusView { external_ram: m.external_ram.update(a - 0xA000, value), ..m }
        } else if a <= 0xCFFF {
            MemoryBusView { wram1: m.wram1.update(a - 0xC000, value), ..m }
        } else if a <= 0xDFFF {
            MemoryBusView { wram2: m.wram2.update(a - 0xD000, value), ..m }
        } else if a <= 0xEFFF {
            MemoryBusView { wram1: m.wram1.update(a - 0xE000, value), ..m }
        } else if a <= 0xFDFF {
            MemoryBusView { wram2: m.wram2.update(a - 0xF000, value), ..m }
        } else if 0xFF00 <= a <= 0xFF7F {
            MemoryBusView { io: m.io.spec_write((a - 0xFF00) as u8, value), ..m }
        } else if 0xFF80 <= a <= 0xFFFE {
            MemoryBusView { hram: m.hram.update(a - 0xFF80, value), ..m }
        } else {
            MemoryBusView { ie: value, ..m }
        }
    }

    open spec fn interrupt_flag_of(m: MemoryBusView) -> u8 {
        m.io.interrupt.interrupt_flag
    }

    open spec fn ie_of(m: MemoryBusView) -> u8 {
        m.ie
    }

    open spec fn cleared(m: MemoryBusView, interrupt: InterruptType) -> MemoryBusView {
        MemoryBusView {
            io: IoRegisters {
                interrupt: Interrupts {
                    interrupt_flag: m.io.interrupt.interrupt_flag & !interrupt.spec_mask(),
                },
                ..m.io
            },
            ..m
        }
    }

    /// Bank 0 gets the first 16 KiB of the image and the switchable bank the
    /// next 16 KiB; bytes past the end of the image read zero. The bus has no
    /// bank controller, so the image past 32 KiB is not mapped.
    open spec fn rom_loaded(m: MemoryBusView, rom: Seq<u8>) -> MemoryBusView {
        MemoryBusView {
            rom: Seq::new(0x4000, |i: int| image_byte(rom, i)),
            rom_banks: seq![Seq::new(0x4000, |i: int| image_byte(rom, 0x4000 + i))],
            ..m
        }
    }

    /// The boot ROM overlays the start of bank 0, as far as it fits.
    open spec fn boot_rom_loaded(m: MemoryBusView, rom: Seq<u8>) -> MemoryBusView {
        MemoryBusView {
            rom: Seq::new(0x4000, |i: int| if i < rom.len() { rom[i] } else { m.rom[i] }),
            ..m
        }
    }

    fn new() -> (r: Self)
        ensures
            r@.io.timer == TimerRegisters::new_spec(),
            r@.io.interrupt.interrupt_flag == 0,
            r@.ie == 0,
            r@.io.lcd == LCDRegisters::new_spec(),
            forall|i: int| 0 <= i < 0xA0 ==> r@.oam[i] == 0,
            forall|a: u16| #[trigger] Self::plain(a) ==> Self::read(r@, a) == 0,
    {
        let r = MemoryBus {
            rom: vec![0u8; 0x4000],
            rom_banks: vec![vec![0u8; 0x4000]],
            vram: Vram::new(),
            external_ram: vec![0u8; 0x2000],
            wram1: vec![0u8; 0x1000],
            wram2: vec![0u8; 0x1000],
            oam: Oam::new(),
            io: IoRegisters::new(),
            hram: vec![0u8; 0x7F],
            ie: 0,
        };
        assert(r@.rom_banks[0] == r.rom_banks@[0]@);
        r
    }

    fn is_readable(&self, address: u16) -> (r: bool) {
        if address <= 0xFDFFu16 || address >= 0xFF80u16 {
            true
        } else if address >= 0xFF00u16 && address <= 0xFF7Fu16 {
            let io = (address - 0xFF00u16) as u8;
            (0x04u8 <= io && io <= 0x07u8) || io == 0x0Fu8 || (0x10u8 <= io && io <= 0x26u8) || (
            0x30u8 <= io && io <= 0x3Fu8) || (0x40u8 <= io && io <= 0x4Bu8) || io == 0x50u8
        } else {
            false
        }
    }

    fn is_writable(&self, address: u16) -> (r: bool) {
        self.is_readable(address)
    }

    fn read_u8(&self, address: u16) -> (r: u8) {
        proof {
            self.lemma_bank0();
        }
        if address <= 0x3FFFu16 {
            self.rom[address as usize]
        } else if address <= 0x7FFFu16 {
            // Switchable ROM banks are not implemented: bank 0 of the banks is mapped.
            self.rom_banks[0][address as usize - 0x4000]
        } else if address <= 0x9FFFu16 {
            self.vram.0[address as usize - 0x8000]
        } else if address <= 0xBFFFu16 {
            self.external_ram[address as usize - 0xA000]
        } else if address <= 0xCFFFu16 {
            self.wram1[address as usize - 0xC000]
        } else if address <= 0xDFFFu16 {
            self.wram2[address as usize - 0xD000]
        } else if address <= 0xEFFFu16 {
            // Echo RAM of bank 0.
            self.wram1[address as usize - 0xE000]
        } else if address <= 0xFDFFu16 {
            // Echo RAM of bank 1.
            self.wram2[address as usize - 0xF000]
        } else if address >= 0xFF00u16 && address <= 0xFF7Fu16 {
            self.io.read_u8((address - 0xFF00u16) as u8)
        } else if address >= 0xFF80u16 && address <= 0xFFFEu16 {
            self.hram[address as usize - 0xFF80]
        } else {
            self.ie
        }
    }

    fn write_u8(&mut self, address: u16, value: u8) {
        proof {
            self.lemma_bank0();
        }
        let ghost old_self = *self;
        if address <= 0x3FFFu16 {
            self.rom.set(address as usize, value);
        } else if address <= 0x7FFFu16 {
            // Switchable ROM banks are not implemented: bank 0 of the banks is mapped.
            let mut bank: Vec<u8> = Vec::new();
            std::mem::swap(&mut bank, &mut self.rom_banks[0]);
            bank.set(address as usize - 0x4000, value);
            self.rom_banks.set(0, bank);
            assert(self@.rom_banks =~= old_self@.rom_banks.update(
                0,
                old_self@.rom_banks[0].update(address as int - 0x4000, value),
            ));
        } else if address <= 0x9FFFu16 {
            self.vram.0.set(address as usize - 0x8000, value);
        } else if address <= 0xBFFFu16 {
            self.external_ram.set(address as usize - 0xA000, value);
        } else if address <= 0xCFFFu16 {
            self.wram1.set(address as usize - 0xC000, value);
        } else if address <= 0xDFFFu16 {
            self.wram2.set(address as usize - 0xD000, value);
        } else if address <= 0xEFFFu16 {
            // Echo RAM of bank 0.
            self.wram1.set(address as usize - 0xE000, value);
        } else if address <= 0xFDFFu16 {
            // Echo RAM of bank 1.
            self.wram2.set(address as usize - 0xF000, value);
        } else if address >= 0xFF00u16 && address <= 0xFF7Fu16 {
            self.io.write_u8((address - 0xFF00u16) as u8, value);
        } else if address >= 0xFF80u16 && address <= 0xFFFEu16 {
            self.hram.set(address as usize - 0xFF80, value);
        } else {
            self.ie = value;
        }
        assert(self@ =~= Self::write(old_self@, address, value));
    }

    fn interrupt_flag(&self) -> (r: u8) {
        self.io.interrupt.read()
    }

    fn ie(&self) -> (r: u8) {
        self.ie
    }

    fn clear_interrupt(&mut self, interrupt: InterruptType) {
        self.io.interrupt.clear_interrupt(interrupt);
        assert(self@ =~= Self::cleared(old(self)@, interrupt));
    }

    fn load_rom(&mut self, rom: &[u8]) {
        let n = rom.len();
        let mut bank0: Vec<u8> = Vec::new();
        let mut bank1: Vec<u8> = Vec::new();
        let mut i: usize = 0;
        while i < 0x4000
            invariant
                n == rom@.len(),
                i <= 0x4000,
                bank0@.len() == i,
                bank1@.len() == i,
                forall|k: int| 0 <= k < i ==> #[trigger] bank0@[k] == image_byte(rom@, k),
                forall|k: int| 0 <= k < i ==> #[trigger] bank1@[k] == image_byte(rom@, 0x4000 + k),
            decreases 0x4000 - i,
        {
            bank0.push(if i < n { rom[i] } else { 0 });
            bank1.push(if 0x4000 + i < n { rom[0x4000 + i] } else { 0 });
            i = i + 1;
        }
        let ghost old_self = *self;
        self.rom = bank0;
        let mut banks: Vec<Vec<u8>> = Vec::new();
        banks.push(bank1);
        self.rom_banks = banks;
        assert(self@.rom =~= Seq::new(0x4000, |k: int| image_byte(rom@, k)));
        assert(self@.rom_banks[0] =~= Seq::new(0x4000, |k: int| image_byte(rom@, 0x4000 + k)));
        assert(self@.rom_banks =~= seq![Seq::new(0x4000, |k: int| image_byte(rom@, 0x4000 + k))]);
        assert(self@ =~= Self::rom_loaded(old_self@, rom@));
    }

    fn load_boot_rom(&mut self, rom: &[u8]) {
        let n = rom.len();
        let ghost old_self = *self;
        let mut i: usize = 0;
        while i < n && i < 0x4000
            invariant
                n == rom@.len(),
                i <= 0x4000,
                i <= n,
                self.rom@.len() == 0x4000,
                old_self.rom@.len() == 0x4000,
                self@ == (MemoryBusView { rom: self.rom@, ..old_self@ }),
                forall|k: int| 0 <= k < i ==> #[trigger] self.rom@[k] == rom@[k],
                forall|k: int| i <= k < 0x4000 ==> #[trigger] self.rom@[k] == old_self.rom@[k],
            decreases 0x4000 - i,
        {
            self.rom.set(i, rom[i]);
            i = i + 1;
        }
        assert(self.rom@ =~= Seq::new(0x4000, |k: int| if k < rom@.len() { rom@[k] } else { old_self.rom@[k] }));
        assert(self@ =~= Self::boot_rom_loaded(old_self@, rom@));
    }

    proof fn lemma_inv_kept(m: MemoryBusView, address: u16, value: u8, interrupt: InterruptType, rom: Seq<u8>) {
    }

    proof fn lemma_write_read(m: MemoryBusView, address: u16, value: u8, other: u16) {
    }

    proof fn lemma_cleared(m: MemoryBusView, interrupt: InterruptType) {
    }
}

impl MemoryBus {
    proof fn lemma_bank0(&self)
        requires
            Self::inv(self@),
        ensures
            self.rom_banks@.len() >= 1,
            self.rom_banks@[0]@ == self@.rom_banks[0],
            self.rom_banks@[0]@.len() == 0x4000,
    {
    }
}

// ---------------------------------------------------------------------------
// Laws of the timer and of the memory bus
// ---------------------------------------------------------------------------

/// A write to DIV resets the whole system counter, so DIV then reads zero.
pub proof fn law_div_write_resets(t: TimerRegisters, value: u8)
    ensures
        t.spec_write(0x04, value).sc == 0,
        t.spec_write(0x04, value).spec_read(0x04) == 0,
{
}

/// While TAC disables the timer, the system counter runs but TIMA and the
/// pending reload do not change.
pub proof fn law_timer_disabled(t: TimerRegisters)
    requires
        !timer_enabled(t.tac),
    ensures
        t.spec_clock_tick().tima == t.tima,
        t.spec_clock_tick().tima_overflow == t.tima_overflow,
        t.spec_clock_tick().sc == (t.sc + 1) % 0x10000,
{
}

/// DIV counts up once every 64 ticks of the system counter.
pub proof fn law_div_counts(t: TimerRegisters)
    requires
        t.sc % 64 == 63,
    ensures
        t.spec_clock_tick().spec_read(0x04) == (t.spec_read(0x04) + 1) % 256,
{
    let sc = t.sc as int;
    let next = t.spec_clock_tick().sc as int;
    assert(next == (sc + 1) % 0x10000);
    assert(next / 64 == (sc / 64 + 1) % 1024);
}

/// TIMA that overflows wraps to zero and, unless TIMA was written, leaves
/// TMA pending as the reload value.
pub proof fn law_tima_overflow(t: TimerRegisters)
    requires
        t.tima == 255,
    ensures
        t.spec_timer_tick().tima == 0,
        !t.tima_written ==> t.spec_timer_tick().tima_overflow == Some(t.tma),
        t.tima_written ==> t.spec_timer_tick().tima_overflow == t.tima_overflow,
{
}

/// Echo RAM: 0xE000..=0xFDFF reads what lies 0x2000 lower, in both banks of
/// work RAM; a write to work RAM at 0xC000..=0xDDFF reads back 0x2000 higher,
/// and a write there reads back in work RAM.
pub proof fn law_echo_ram(m: MemoryBusView, address: u16, value: u8)
    requires
        MemoryBus::inv(m),
        0xC000 <= address <= 0xDDFF,
    ensures
        MemoryBus::readable((address + 0x2000) as u16),
        MemoryBus::read(m, (address + 0x2000) as u16) == MemoryBus::read(m, address),
        MemoryBus::read(MemoryBus::write(m, address, value), (address + 0x2000) as u16) == value,
        MemoryBus::read(MemoryBus::write(m, (address + 0x2000) as u16, value), address) == value,
{
}

/// The I/O registers that are not implemented yet keep nothing: the audio,
/// wave-pattern and boot ROM registers read 0xFF and the LCD registers 0x90,
/// whatever was written to them.
pub proof fn law_unimplemented_io_registers(io: IoRegisters, address: u8, value: u8)
    requires
        io_accessible(address),
        !(0x04 <= address <= 0x07),
        address != 0x0F,
    ensures
        io.spec_write(address, value) == io,
        io.spec_read(address) == if 0x40 <= address <= 0x4B {
            0x90u8
        } else {
            0xFFu8
        },
{
}

/// The number of system-counter ticks between two increments of TIMA: twice
/// the weight of the selected bit, so 256, 4, 16 or 64.
pub open spec fn timer_period(tac: u8) -> int {
    2 * tap_weight(tac)
}

/// The timer after `n` ticks of the system counter with no write between.
pub open spec fn clock_ticks(t: TimerRegisters, n: nat) -> TimerRegisters
    decreases n,
{
    if n == 0 {
        t
    } else {
        clock_ticks(t, (n - 1) as nat).spec_clock_tick()
    }
}

/// The counter ticks from `(s0 + k - 1) mod 2^16` to `(s0 + k) mod 2^16`,
/// and the selected bit falls there exactly when `k` is a multiple of the
/// period, for a start `s0` on a period boundary.
proof fn lemma_tick_edge(s0: int, k: int, tac: u8)
    requires
        0 <= s0 < 0x10000,
        s0 % timer_period(tac) == 0,
        k >= 1,
    ensures
        ({
            let x = ((s0 + k - 1) % 0x10000) as u16;
            let y = if x == 0xFFFF {
                0u16
            } else {
                (x + 1) as u16
            };
            &&& y == (s0 + k) % 0x10000
            &&& (counter_bit(x, tac) && !counter_bit(y, tac)) == (k % timer_period(tac) == 0)
            &&& k / timer_period(tac) == (k - 1) / timer_period(tac) + (if k % timer_period(tac)
                == 0 {
                1int
            } else {
                0int
            })
        }),
{
    let x = ((s0 + k - 1) % 0x10000) as u16;
    let y = if x == 0xFFFF {
        0u16
    } else {
        (x + 1) as u16
    };
    let p = timer_period(tac);
    assert(y == (s0 + k) % 0x10000);
    if tac % 4 == 0 {
        lemma_counter_residue(s0, k, 256, 256);
    } else if tac % 4 == 1 {
        lemma_counter_residue(s0, k, 4, 16384);
    } else if tac % 4 == 2 {
        lemma_counter_residue(s0, k, 16, 4096);
    } else {
        lemma_counter_residue(s0, k, 64, 1024);
    }
    lemma_bit_of_residue(x);
    lemma_bit_of_residue(y);
    assert(x as int % p == (k - 1) % p);
    assert(y as int % p == k % p);
}

/// A counter value and the tick count it was reached by agree modulo the
/// period `p` (which divides 2^16), for a start on a period boundary.
proof fn lemma_counter_residue(s0: int, k: int, p: int, b: int)
    requires
        p > 0,
        b > 0,
        p * b == 0x10000,
        s0 % p == 0,
        s0 >= 0,
        k >= 1,
    ensures
        ((s0 + k - 1) % 0x10000) % p == (k - 1) % p,
        ((s0 + k) % 0x10000) % p == k % p,
{
    vstd::arithmetic::div_mod::lemma_mod_mod(s0 + k - 1, p, b);
    vstd::arithmetic::div_mod::lemma_mod_mod(s0 + k, p, b);
    vstd::arithmetic::div_mod::lemma_fundamental_div_mod(s0, p);
    vstd::arithmetic::div_mod::lemma_mod_multiples_vanish(s0 / p, k - 1, p);
    vstd::arithmetic::div_mod::lemma_mod_multiples_vanish(s0 / p, k, p);
}

/// Each selectable counter bit is set exactly in the upper half of its
/// period.
proof fn lemma_bit_of_residue(x: u16)
    by (bit_vector)
    ensures
        ((x / 128u16) % 2 == 1) == (x % 256 >= 128),
        ((x / 2u16) % 2 == 1) == (x % 4 >= 2),
        ((x / 8u16) % 2 == 1) == (x % 16 >= 8),
        ((x / 32u16) % 2 == 1) == (x % 64 >= 32),
{
}

proof fn lemma_clock_ticks_enabled(t: TimerRegisters, k: nat)
    requires
        timer_enabled(t.tac),
        t.sc as int % timer_period(t.tac) == 0,
        t.tima + k as int / timer_period(t.tac) <= 255,
    ensures
        clock_ticks(t, k).tima == t.tima + k as int / timer_period(t.tac),
        clock_ticks(t, k).sc == (t.sc + k) % 0x10000,
        clock_ticks(t, k).tac == t.tac,
        clock_ticks(t, k).tma == t.tma,
        clock_ticks(t, k).tima_overflow == t.tima_overflow,
        clock_ticks(t, k).tima_written == t.tima_written,
    decreases k,
{
    if k > 0 {
        lemma_tick_edge(t.sc as int, k as int, t.tac);
        lemma_clock_ticks_enabled(t, (k - 1) as nat);
    }
}

/// TIMA counts the falling edges of the selected counter bit: from a counter
/// on a period boundary of an enabled timer, `n` ticks with no write between
/// add `n / P` to TIMA (P = 256, 4, 16, 64 for the clock selects 0 to 3) and
/// `n` to the counter, modulo 2^16, while TIMA does not overflow.
pub proof fn law_tima_counts(t: TimerRegisters, n: nat)
    requires
        timer_enabled(t.tac),
        t.sc as int % timer_period(t.tac) == 0,
        t.tima + n as int / timer_period(t.tac) <= 255,
    ensures
        clock_ticks(t, n).tima == t.tima + n as int / timer_period(t.tac),
        clock_ticks(t, n).sc == (t.sc + n) % 0x10000,
        clock_ticks(t, n).spec_read(0x04) == ((t.sc + n) % 0x10000 / 64) % 256,
        clock_ticks(t, n).tima_overflow == t.tima_overflow,
{
    lemma_clock_ticks_enabled(t, n);
}

/// A disabled timer never counts: after `n` ticks TIMA and the pending reload
/// are as they were and the counter has advanced by `n`, modulo 2^16.
pub proof fn law_disabled_timer_still(t: TimerRegisters, n: nat)
    requires
        !timer_enabled(t.tac),
    ensures
        clock_ticks(t, n).tima == t.tima,
        clock_ticks(t, n).sc == (t.sc + n) % 0x10000,
        clock_ticks(t, n).tac == t.tac,
        clock_ticks(t, n).tima_overflow == t.tima_overflow,
    decreases n,
{
    if n > 0 {
        law_disabled_timer_still(t, (n - 1) as nat);
    }
}

} // verus!
