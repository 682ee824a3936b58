use vstd::prelude::*;

use crate::context::{Context, Memory, MemoryBus, MemoryBusView};

use array_deque::{ArrayDeque, StackArrayDeque};

pub mod queues;
pub mod laws;

use queues::{
    buffered_objects, clear_objects, copied_entries, copy_entries, front_entry, new_object_buffer,
    new_pixel_fifo, objects_full, pixel_count, pop_entry, pop_pixel, push_object, push_pixel,
    queued_pixels,
};

verus! {

/// Bit `index` of `num`.
pub open spec fn spec_get_bit(num: u8, index: u8) -> bool {
    num & (1u8 << index) != 0
}

/// `num` with bit `index` set to `value`.
pub open spec fn spec_set_bit(num: u8, index: u8, value: bool) -> u8 {
    (num & !(1u8 << index)) | ((if value {
        1u8
    } else {
        0u8
    }) << index)
}

/// Sets bit `index` of `num` to `value`.
pub fn set_bit(num: &mut u8, index: u8, value: bool)
    requires
        index < 8,
    ensures
        *final(num) == spec_set_bit(*old(num), index, value),
{
    let v: u8 = if value {
        1
    } else {
        0
    };
    *num = (*num & !(1u8 << index)) | (v << index);
}

/// Bit `index` of `num`.
pub fn get_bit(num: u8, index: u8) -> (r: bool)
    requires
        index < 8,
    ensures
        r == spec_get_bit(num, index),
{
    proof {
        lemma_bits(num, index, false);
    }
    (num >> index) & 1u8 == 1u8
}

proof fn lemma_bits(num: u8, index: u8, value: bool)
    by (bit_vector)
    requires
        index < 8,
    ensures
        ((num >> index) & 1u8 == 1u8) == (num & (1u8 << index) != 0),
        ((num & !(1u8 << index)) | ((if value {
            1u8
        } else {
            0u8
        }) << index)) & (1u8 << index) != 0 <==> value,
{
}

/// Bit `index` reads back what `set_bit` wrote to it, and the other bits
/// are kept.
pub proof fn law_bit_write_read(num: u8, index: u8, other: u8, value: bool)
    by (bit_vector)
    requires
        index < 8,
        other < 8,
        other != index,
    ensures
        spec_get_bit(spec_set_bit(num, index, value), index) == value,
        spec_get_bit(spec_set_bit(num, index, value), other) == spec_get_bit(num, other),
{
}

/// Which of the two 32x32 tile maps, at 0x9800 or at 0x9C00.
#[derive(Copy, Clone, Debug)]
pub enum TileMapArea {
    Zero,
    One,
}

/// The size of objects: 8x8 or 8x16.
#[derive(Copy, Clone, Debug)]
pub enum ObjSize {
    Square,
    Tall,
}

/// Where background and window tiles are addressed from: 0x8000 with
/// unsigned tile numbers, or 0x8800 with the numbers taken from 0x9000 on.
#[derive(Copy, Clone, Debug)]
pub enum TileDataMapping {
    Zero,
    One,
}

/// The LCD control register (LCDC).
#[derive(Clone, Copy, Debug)]
pub struct Lcdc(pub u8);

impl Lcdc {
    pub fn enable(&self) -> (r: bool)
        ensures
            r == spec_get_bit(self.0, 7),
    {
        get_bit(self.0, 7)
    }

    pub fn set_enable(&mut self, value: bool)
        ensures
            final(self).0 == spec_set_bit(old(self).0, 7, value),
    {
        set_bit(&mut self.0, 7, value);
    }

    pub fn window_tile_map(&self) -> (r: TileMapArea)
        ensures
            r == (if spec_get_bit(self.0, 6) {
                TileMapArea::One
            } else {
                TileMapArea::Zero
            }),
    {
        if get_bit(self.0, 6) {
            TileMapArea::One
        } else {
            TileMapArea::Zero
        }
    }

    pub fn set_window_tile_map(&mut self, map: TileMapArea)
        ensures
            final(self).0 == spec_set_bit(old(self).0, 6, map is One),
    {
        set_bit(&mut self.0, 6, matches!(map, TileMapArea::One));
    }

    pub fn window_enable(&self) -> (r: bool)
        ensures
            r == spec_get_bit(self.0, 5),
    {
        get_bit(self.0, 5)
    }

    pub fn set_window_enable(&mut self, value: bool)
        ensures
            final(self).0 == spec_set_bit(old(self).0, 5, value),
    {
        set_bit(&mut self.0, 5, value);
    }

    pub fn tile_data_mapping(&self) -> (r: TileDataMapping)
        ensures
            r == (if spec_get_bit(self.0, 4) {
                TileDataMapping::One
            } else {
                TileDataMapping::Zero
            }),
    {
        if get_bit(self.0, 4) {
            TileDataMapping::One
        } else {
            TileDataMapping::Zero
        }
    }

    pub fn set_tile_data_mapping(&mut self, map: TileDataMapping)
        ensures
            final(self).0 == spec_set_bit(old(self).0, 4, map is One),
    {
        set_bit(&mut self.0, 4, matches!(map, TileDataMapping::One));
    }

    pub fn bg_tile_map(&self) -> (r: TileMapArea)
        ensures
            r == (if spec_get_bit(self.0, 3) {
                TileMapArea::One
            } else {
                TileMapArea::Zero
            }),
    {
        if get_bit(self.0, 3) {
            TileMapArea::One
        } else {
            TileMapArea::Zero
        }
    }

    pub fn set_bg_tile_map(&mut self, map: TileMapArea)
        ensures
            final(self).0 == spec_set_bit(old(self).0, 3, map is One),
    {
        set_bit(&mut self.0, 3, matches!(map, TileMapArea::One));
    }

    pub fn obj_size(&self) -> (r: ObjSize)
        ensures
            r == (if spec_get_bit(self.0, 2) {
                ObjSize::Tall
            } else {
                ObjSize::Square
            }),
    {
        if get_bit(self.0, 2) {
            ObjSize::Tall
        } else {
            ObjSize::Square
        }
    }

    pub fn set_obj_size(&mut self, map: ObjSize)
        ensures
            final(self).0 == spec_set_bit(old(self).0, 2, map is Tall),
    {
        set_bit(&mut self.0, 2, matches!(map, ObjSize::Tall));
    }

    pub fn obj_enable(&self) -> (r: bool)
        ensures
            r == spec_get_bit(self.0, 1),
    {
        get_bit(self.0, 1)
    }

    pub fn set_obj_enable(&mut self, value: bool)
        ensures
            final(self).0 == spec_set_bit(old(self).0, 1, value),
    {
        set_bit(&mut self.0, 1, value);
    }

    pub fn bg_window_enable(&self) -> (r: bool)
        ensures
            r == spec_get_bit(self.0, 0),
    {
        get_bit(self.0, 0)
    }

    pub fn set_bg_window_enable(&mut self, value: bool)
        ensures
            final(self).0 == spec_set_bit(old(self).0, 0, value),
    {
        set_bit(&mut self.0, 0, value);
    }
}

/// The LCD registers at 0xFF40..=0xFF4B.
#[derive(Clone, Copy, Debug)]
pub struct LCDRegisters {
    pub lcdc: Lcdc,
    pub stat: u8,
    pub scy: u8,
    pub scx: u8,
    pub ly: u8,
    pub lyc: u8,
    pub bgp: u8,
    pub obp: [u8; 2],
    pub wy: u8,
    pub wx: u8,
}

impl LCDRegisters {
    /// All LCD registers zero.
    pub open spec fn new_spec() -> Self {
        LCDRegisters {
            lcdc: Lcdc(0),
            stat: 0,
            scy: 0,
            scx: 0,
            ly: 0,
            lyc: 0,
            bgp: 0,
            obp: [0u8, 0u8],
            wy: 0,
            wx: 0,
        }
    }

    pub fn new() -> (r: Self)
        ensures
            r == Self::new_spec(),
    {
        LCDRegisters {
            lcdc: Lcdc(0),
            stat: 0,
            scy: 0,
            scx: 0,
            ly: 0,
            lyc: 0,
            bgp: 0,
            obp: [0u8, 0u8],
            wy: 0,
            wx: 0,
        }
    }
}

/// Video RAM, the 8 KiB at 0x8000..=0x9FFF.
pub struct Vram(pub Vec<u8>);

/// Object attribute memory, the 160 bytes at 0xFE00..=0xFE9F.
pub struct Oam(pub Vec<u8>);

/// The address at which VRAM starts.
pub const VRAM_BASE_ADDRESS: usize = 0x8000;

/// The offset in VRAM of tile map `index`: 0x9800 or 0x9C00.
pub open spec fn tile_map_start(index: TileMapArea) -> int {
    match index {
        TileMapArea::Zero => 0x1800,
        TileMapArea::One => 0x1C00,
    }
}

/// The offset in VRAM of the 16 bytes of background tile `tile_no`: from
/// 0x8000 on for mapping zero; for mapping one the tiles 0 to 127 lie at
/// 0x9000 and the tiles 128 to 255 at 0x8800.
pub open spec fn tile_data_start(mapping: TileDataMapping, tile_no: u8) -> int {
    match mapping {
        TileDataMapping::Zero => tile_no * 16,
        TileDataMapping::One => 0x800 + ((tile_no + 128) % 256) * 16,
    }
}

impl Vram {
    pub open spec fn wf(&self) -> bool {
        self.0.len() == 0x2000
    }

    pub fn new() -> (r: Self)
        ensures
            r.wf(),
            forall|i: int| 0 <= i < 0x2000 ==> r.0@[i] == 0,
    {
        Vram(vec![0u8; 0x2000])
    }

    /// The offsets in VRAM of tile map `index` (1 KiB).
    pub fn get_tile_map_range(index: TileMapArea) -> (r: core::ops::Range<usize>)
        ensures
            r.start == tile_map_start(index),
            r.end == tile_map_start(index) + 0x400,
    {
        match index {
            TileMapArea::Zero => (0x9800 - VRAM_BASE_ADDRESS)..(0x9C00 - VRAM_BASE_ADDRESS),
            TileMapArea::One => (0x9C00 - VRAM_BASE_ADDRESS)..(0xA000 - VRAM_BASE_ADDRESS),
        }
    }

    /// The 1 KiB of tile map `index`.
    pub fn tile_map(&self, index: TileMapArea) -> (r: &[u8])
        requires
            self.wf(),
        ensures
            r@ == self.0@.subrange(tile_map_start(index), tile_map_start(index) + 0x400),
    {
        let range = Self::get_tile_map_range(index);
        let bytes = self.0.as_slice();
        &bytes[range]
    }

    /// The 1 KiB of tile map `index`, to write to.
    pub fn tile_map_mut(&mut self, index: TileMapArea) -> (r: &mut [u8])
        requires
            old(self).wf(),
        ensures
            r@ == old(self).0@.subrange(tile_map_start(index), tile_map_start(index) + 0x400),
            final(self).0@ == old(self).0@.subrange(0, tile_map_start(index)) + final(r)@ + old(
                self,
            ).0@.subrange(tile_map_start(index) + 0x400, 0x2000),
    {
        let range = Self::get_tile_map_range(index);
        let bytes = self.0.as_mut_slice();
        let (_, rest) = bytes.split_at_mut(range.start);
        let (map, _) = rest.split_at_mut(0x400);
        map
    }

    /// The tile map that LCDC selects for the window.
    pub fn window_tile_map(&self, ctx: &Context<MemoryBus>) -> (r: &[u8])
        requires
            self.wf(),
        ensures
            r@ == self.0@.subrange(
                tile_map_start(ctx.memory.io.lcd.lcdc.spec_window_tile_map()),
                tile_map_start(ctx.memory.io.lcd.lcdc.spec_window_tile_map()) + 0x400,
            ),
    {
        self.tile_map(ctx.memory.io.lcd.lcdc.window_tile_map())
    }

    /// The tile map that LCDC selects for the window, to write to.
    pub fn window_tile_map_mut(&mut self, ctx: &mut Context<MemoryBus>) -> (r: &mut [u8])
        requires
            old(self).wf(),
        ensures
            ({
                let start = tile_map_start(old(ctx).memory.io.lcd.lcdc.spec_window_tile_map());
                &&& r@ == old(self).0@.subrange(start, start + 0x400)
                &&& final(self).0@ == old(self).0@.subrange(0, start) + final(r)@ + old(
                    self,
                ).0@.subrange(start + 0x400, 0x2000)
            }),
            *final(ctx) == *old(ctx),
    {
        let area = ctx.memory.io.lcd.lcdc.window_tile_map();
        self.tile_map_mut(area)
    }

    /// The 16 bytes of background tile `tile_no` under `mapping`.
    pub fn bg_tile_data(&self, mapping: TileDataMapping, tile_no: u8) -> (r: &[u8])
        requires
            self.wf(),
        ensures
            r@ == self.0@.subrange(
                tile_data_start(mapping, tile_no),
                tile_data_start(mapping, tile_no) + 16,
            ),
    {
        let start: usize = match mapping {
            TileDataMapping::Zero => tile_no as usize * 16,
            TileDataMapping::One => 0x8800 - VRAM_BASE_ADDRESS + tile_no.wrapping_add(128) as usize
                * 16,
        };
        let bytes = self.0.as_slice();
        &bytes[start..start + 16]
    }

    /// The 16 bytes of background tile `tile_no` under `mapping`, to write to.
    pub fn bg_tile_data_mut(&mut self, mapping: TileDataMapping, tile_no: u8) -> (r: &mut [u8])
        requires
            old(self).wf(),
        ensures
            ({
                let start = tile_data_start(mapping, tile_no);
                &&& r@ == old(self).0@.subrange(start, start + 16)
                &&& final(self).0@ == old(self).0@.subrange(0, start) + final(r)@ + old(
                    self,
                ).0@.subrange(start + 16, 0x2000)
            }),
    {
        let start: usize = match mapping {
            TileDataMapping::Zero => tile_no as usize * 16,
            TileDataMapping::One => 0x8800 - VRAM_BASE_ADDRESS + tile_no.wrapping_add(128) as usize
                * 16,
        };
        let bytes = self.0.as_mut_slice();
        let (_, rest) = bytes.split_at_mut(start);
        let (tile, _) = rest.split_at_mut(16);
        tile
    }
}

impl Lcdc {
    pub open spec fn spec_window_tile_map(self) -> TileMapArea {
        if spec_get_bit(self.0, 6) {
            TileMapArea::One
        } else {
            TileMapArea::Zero
        }
    }

    pub open spec fn spec_tile_data_mapping(self) -> TileDataMapping {
        if spec_get_bit(self.0, 4) {
            TileDataMapping::One
        } else {
            TileDataMapping::Zero
        }
    }

    pub open spec fn spec_bg_tile_map(self) -> TileMapArea {
        if spec_get_bit(self.0, 3) {
            TileMapArea::One
        } else {
            TileMapArea::Zero
        }
    }

    pub open spec fn spec_obj_size(self) -> ObjSize {
        if spec_get_bit(self.0, 2) {
            ObjSize::Tall
        } else {
            ObjSize::Square
        }
    }
}

/// The attribute byte of an object: priority (bit 7), Y flip (6), X flip
/// (5), DMG palette (4), VRAM bank (3) and CGB palette (bits 2-0).
#[derive(Debug, Clone, Copy)]
pub struct OamAttributes(pub u8);

impl OamAttributes {
    pub fn priority(&self) -> (r: bool)
        ensures
            r == spec_get_bit(self.0, 7),
    {
        get_bit(self.0, 7)
    }

    pub fn set_priority(&mut self, value: bool)
        ensures
            final(self).0 == spec_set_bit(old(self).0, 7, value),
    {
        set_bit(&mut self.0, 7, value);
    }

    pub fn y_flip(&self) -> (r: bool)
        ensures
            r == spec_get_bit(self.0, 6),
    {
        get_bit(self.0, 6)
    }

    pub fn set_y_flip(&mut self, value: bool)
        ensures
            final(self).0 == spec_set_bit(old(self).0, 6, value),
    {
        set_bit(&mut self.0, 6, value);
    }

    pub fn x_flip(&self) -> (r: bool)
        ensures
            r == spec_get_bit(self.0, 5),
    {
        get_bit(self.0, 5)
    }

    pub fn set_x_flip(&mut self, value: bool)
        ensures
            final(self).0 == spec_set_bit(old(self).0, 5, value),
    {
        set_bit(&mut self.0, 5, value);
    }

    pub fn dmg_palette(&self) -> (r: bool)
        ensures
            r == spec_get_bit(self.0, 4),
    {
        get_bit(self.0, 4)
    }

    pub fn set_dmg_palette(&mut self, value: bool)
        ensures
            final(self).0 == spec_set_bit(old(self).0, 4, value),
    {
        set_bit(&mut self.0, 4, value);
    }

    pub fn bank(&self) -> (r: bool)
        ensures
            r == spec_get_bit(self.0, 3),
    {
        get_bit(self.0, 3)
    }

    pub fn set_bank(&mut self, value: bool)
        ensures
            final(self).0 == spec_set_bit(old(self).0, 3, value),
    {
        set_bit(&mut self.0, 3, value);
    }

    /// The CGB palette, bits 2-0.
    pub fn cgb_palette(&self) -> (r: u8)
        ensures
            r == self.0 % 8,
    {
        let v = self.0;
        assert(v & 0b111u8 == v % 8) by (bit_vector);
        self.0 & 0b111u8
    }

    /// Sets the CGB palette (0 to 7); the other bits are kept.
    pub fn set_cgb_palette(&mut self, value: u8)
        requires
            value <= 0b111,
        ensures
            final(self).0 == (old(self).0 & !0b111u8) | value,
    {
        let v = value;
        assert(v <= 7 ==> v & 0b111u8 == v) by (bit_vector);
        self.0 = (self.0 & !0b111u8) | (value & 0b111u8);
    }
}

/// The CGB palette reads back what was set, and the flag bits are kept.
pub proof fn law_cgb_palette(attributes: u8, value: u8)
    by (bit_vector)
    requires
        value <= 7,
    ensures
        ((attributes & !7u8) | value) % 8 == value,
        ((attributes & !7u8) | value) / 8 == attributes / 8,
{
}

/// An entry of OAM: Y position, X position, tile index and attributes.
#[derive(Debug, Clone, Copy)]
pub struct OamEntry {
    pub y: u8,
    pub x: u8,
    pub tile_index: u8,
    pub attributes: OamAttributes,
}

impl OamEntry {
    /// The entry whose four bytes in OAM are `y`, `x`, `tile_index`, `attributes`.
    pub open spec fn of_bytes(bytes: Seq<u8>) -> Self {
        OamEntry { y: bytes[0], x: bytes[1], tile_index: bytes[2], attributes: OamAttributes(bytes[3]) }
    }

    pub fn y(&self) -> (r: u8)
        ensures
            r == self.y,
    {
        self.y
    }

    pub fn y_mut(&mut self) -> (r: &mut u8)
        ensures
            *r == old(self).y,
            *final(self) == (OamEntry { y: *final(r), ..*old(self) }),
    {
        &mut self.y
    }

    pub fn x(&self) -> (r: u8)
        ensures
            r == self.x,
    {
        self.x
    }

    pub fn x_mut(&mut self) -> (r: &mut u8)
        ensures
            *r == old(self).x,
            *final(self) == (OamEntry { x: *final(r), ..*old(self) }),
    {
        &mut self.x
    }

    pub fn tile_index(&self) -> (r: u8)
        ensures
            r == self.tile_index,
    {
        self.tile_index
    }

    pub fn tile_index_mut(&mut self) -> (r: &mut u8)
        ensures
            *r == old(self).tile_index,
            *final(self) == (OamEntry { tile_index: *final(r), ..*old(self) }),
    {
        &mut self.tile_index
    }

    pub fn attributes(&self) -> (r: &OamAttributes)
        ensures
            *r == self.attributes,
    {
        &self.attributes
    }

    pub fn attributes_mut(&mut self) -> (r: &mut OamAttributes)
        ensures
            *r == old(self).attributes,
            *final(self) == (OamEntry { attributes: *final(r), ..*old(self) }),
    {
        &mut self.attributes
    }
}

impl Oam {
    pub open spec fn wf(&self) -> bool {
        self.0.len() == 0xA0
    }

    pub fn new() -> (r: Self)
        ensures
            r.wf(),
            forall|i: int| 0 <= i < 0xA0 ==> r.0@[i] == 0,
    {
        Oam(vec![0u8; 0xA0])
    }

    /// The entry at `index` of OAM.
    pub open spec fn entry(&self, index: int) -> OamEntry {
        OamEntry::of_bytes(self.0@.subrange(4 * index, 4 * index + 4))
    }

    /// The forty entries of OAM, in order.
    pub fn oam_entries(&self) -> (r: Vec<OamEntry>)
        requires
            self.wf(),
        ensures
            r@.len() == 40,
            forall|i: int| 0 <= i < 40 ==> #[trigger] r@[i] == self.entry(i),
    {
        let mut entries: Vec<OamEntry> = Vec::new();
        let mut i: usize = 0;
        while i < 40
            invariant
                self.wf(),
                i <= 40,
                entries@.len() == i,
                forall|k: int| 0 <= k < i ==> #[trigger] entries@[k] == self.entry(k),
            decreases 40 - i,
        {
            let entry = OamEntry {
                y: self.0[4 * i],
                x: self.0[4 * i + 1],
                tile_index: self.0[4 * i + 2],
                attributes: OamAttributes(self.0[4 * i + 3]),
            };
            assert(entry == self.entry(i as int));
            entries.push(entry);
            i = i + 1;
        }
        entries
    }

    /// The forty entries of OAM, in order.
    pub fn oam_entries_mut(&mut self) -> (r: Vec<OamEntry>)
        requires
            old(self).wf(),
        ensures
            *final(self) == *old(self),
            r@.len() == 40,
            forall|i: int| 0 <= i < 40 ==> #[trigger] r@[i] == old(self).entry(i),
    {
        self.oam_entries()
    }
}

/// Whether scanline `scanline_y` crosses an object whose top is at `obj_y`
/// and that is 8 (`Square`) or 16 (`Tall`) lines high.
pub fn object_on_scanline(obj_y: u8, scanline_y: u8, size: ObjSize) -> (r: bool)
    requires
        obj_y + (if size is Square {
            8int
        } else {
            16int
        }) <= 255,
    ensures
        r == (obj_y <= scanline_y < obj_y + (if size is Square {
            8int
        } else {
            16int
        })),
{
    let end = match size {
        ObjSize::Square => obj_y + 8,
        ObjSize::Tall => obj_y + 16,
    };
    obj_y <= scanline_y && scanline_y < end
}

// ---------------------------------------------------------------------------
// The pixel processing unit
// ---------------------------------------------------------------------------

/// The mode the PPU is in on a scanline.
#[derive(Copy, Clone, Debug, PartialEq, Eq, Structural)]
pub enum Mode {
    OamScan,
    PixelTransfer,
    HBlank,
    VBlank,
}

/// A shade of the four-shade display.
#[derive(Debug, Clone, Copy, PartialEq, Eq, Structural)]
pub enum Pixel {
    White,
    LightGray,
    DarkGrey,
    Black,
}

/// Where a pixel in the FIFO came from: the background or one of the ten
/// objects of the scanline.
#[derive(Debug, Clone, Copy, PartialEq, Eq, Structural)]
pub enum PixelSource {
    BG,
    S0,
    S1,
    S2,
    S3,
    S4,
    S5,
    S6,
    S7,
    S8,
    S9,
}

/// A pixel waiting in the FIFO, with its source.
#[derive(Debug, Clone, Copy)]
pub struct FifoPixel {
    pub pixel: Pixel,
    pub source: PixelSource,
}

/// The state of the background tile fetcher: the tile number, the two bytes
/// of the tile row once fetched, and the row of the tile being drawn.
#[derive(Clone, Copy, Debug)]
pub struct FifoState {
    pub tile_no: Option<u8>,
    pub data_low: Option<u8>,
    pub data_high: Option<u8>,
    pub buffer: [u8; 8],
    pub tile_line: u8,
}

/// The pixel processing unit.
pub struct PPU {
    pub cycle_counter: u32,
    pub current_mode: Mode,
    pub obj_buffer: StackArrayDeque<OamEntry, 10>,
    pub oam_copy: ArrayDeque<OamEntry>,
    pub pixel_fifo: StackArrayDeque<FifoPixel, 16>,
    pub fifo_state: FifoState,
    pub screen_x: u8,
}


/// The PPU as a value: its queues by their contents.
#[verifier::ext_equal]
pub struct PPUView {
    pub cycle_counter: u32,
    pub current_mode: Mode,
    pub obj_buffer: Seq<OamEntry>,
    pub oam_copy: Seq<OamEntry>,
    pub pixel_fifo: Seq<FifoPixel>,
    pub fifo_state: FifoState,
    pub screen_x: u8,
}

impl View for PPU {
    type V = PPUView;

    open spec fn view(&self) -> PPUView {
        PPUView {
            cycle_counter: self.cycle_counter,
            current_mode: self.current_mode,
            obj_buffer: buffered_objects(self.obj_buffer),
            oam_copy: copied_entries(self.oam_copy),
            pixel_fifo: queued_pixels(self.pixel_fifo),
            fifo_state: self.fifo_state,
            screen_x: self.screen_x,
        }
    }
}

/// The height in lines of an object of size `size`.
pub open spec fn obj_height(size: ObjSize) -> int {
    match size {
        ObjSize::Square => 8,
        ObjSize::Tall => 16,
    }
}

/// Whether scanline `ly` crosses an object whose top is at `obj_y`.
pub open spec fn on_scanline(obj_y: u8, ly: u8, size: ObjSize) -> bool {
    obj_y <= ly < obj_y + obj_height(size)
}

/// The forty entries of OAM whose bytes are `oam`.
pub open spec fn oam_entries_of(oam: Seq<u8>) -> Seq<OamEntry> {
    Seq::new(40, |i: int| OamEntry::of_bytes(oam.subrange(4 * i, 4 * i + 4)))
}

/// The colour number of pixel `n` (0 the leftmost) of a tile row whose low
/// bit plane is `low` and high bit plane is `high`.
pub open spec fn colour_index(low: u8, high: u8, n: u8) -> u8 {
    (((high >> (7 - n) as u8) & 1u8) * 2 + ((low >> (7 - n) as u8) & 1u8)) as u8
}

/// The shade that palette `palette` gives colour number `index`: two bits
/// per colour, colour 0 in the lowest.
pub open spec fn palette_shade(palette: u8, index: u8) -> u8 {
    (palette >> (index * 2) as u8) & 3u8
}

/// The pixel of shade number `shade`.
pub open spec fn pixel_of(shade: u8) -> Pixel {
    if shade == 0 {
        Pixel::White
    } else if shade == 1 {
        Pixel::LightGray
    } else if shade == 2 {
        Pixel::DarkGrey
    } else {
        Pixel::Black
    }
}

/// The eight background pixels of a tile row, leftmost first, under
/// background palette `bgp`.
pub open spec fn row_pixels(low: u8, high: u8, bgp: u8) -> Seq<FifoPixel> {
    Seq::new(
        8,
        |n: int|
            FifoPixel {
                pixel: pixel_of(palette_shade(bgp, colour_index(low, high, n as u8))),
                source: PixelSource::BG,
            },
    )
}

/// Byte `k` of the background tile `tile_no`, under the tile data mapping
/// that LCDC selects.
pub open spec fn tile_byte(mem: MemoryBusView, tile_no: u8, k: int) -> u8 {
    mem.vram[tile_data_start(mem.io.lcd.lcdc.spec_tile_data_mapping(), tile_no) + k]
}

/// Where the fetcher finds the tile under horizontal position `screen_x` of
/// the current line: the tile map, the row within the tile, and the index in
/// the map. It reads the window when the window is enabled and the position
/// is inside it, else the background scrolled by SCX and SCY.
pub open spec fn tile_location(screen_x: u8, lcd: LCDRegisters) -> (TileMapArea, int, int) {
    let in_window = screen_x >= lcd.wx && lcd.ly >= lcd.wy && spec_get_bit(lcd.lcdc.0, 5);
    let area = if !in_window {
        lcd.lcdc.spec_bg_tile_map()
    } else {
        lcd.lcdc.spec_window_tile_map()
    };
    let tile_x: int = if !in_window {
        (screen_x + lcd.scx) % 256
    } else {
        screen_x - lcd.wx
    };
    let tile_y: int = if !in_window {
        (lcd.ly + lcd.scy) % 256
    } else {
        lcd.ly - lcd.wy
    };
    (area, tile_y % 8, (tile_y / 8) * 32 + tile_x / 8)
}

/// Where the fetcher finds the tile under horizontal position `screen_x`.
fn locate_tile(screen_x: u8, lcd: &LCDRegisters) -> (r: (TileMapArea, u8, u16))
    ensures
        r.0 == tile_location(screen_x, *lcd).0,
        r.1 == tile_location(screen_x, *lcd).1,
        r.2 == tile_location(screen_x, *lcd).2,
        r.1 < 8,
        r.2 < 0x400,
{
    let in_window = screen_x >= lcd.wx && lcd.ly >= lcd.wy && lcd.lcdc.window_enable();
    let tile_map_area = if !in_window {
        lcd.lcdc.bg_tile_map()
    } else {
        lcd.lcdc.window_tile_map()
    };
    let tile_x: u8 = if !in_window {
        screen_x.wrapping_add(lcd.scx)
    } else {
        screen_x - lcd.wx
    };
    let tile_y: u8 = if !in_window {
        lcd.ly.wrapping_add(lcd.scy)
    } else {
        lcd.ly - lcd.wy
    };
    let tile_map_index: u16 = (tile_y as u16 / 8) * 32 + tile_x as u16 / 8;
    (tile_map_area, tile_y % 8, tile_map_index)
}

impl FifoState {
    /// Nothing fetched yet, on row 0.
    pub open spec fn initial() -> Self {
        FifoState {
            tile_no: None,
            data_low: None,
            data_high: None,
            buffer: [0u8, 0u8, 0u8, 0u8, 0u8, 0u8, 0u8, 0u8],
            tile_line: 0,
        }
    }
}

impl PPUView {
    /// At most ten buffered objects and sixteen queued pixels; the fetcher on
    /// one of the eight rows of a tile.
    pub open spec fn wf(self) -> bool {
        &&& self.obj_buffer.len() <= 10
        &&& self.pixel_fifo.len() <= 16
        &&& self.fifo_state.tile_line < 8
    }

    /// A PPU at cycle 0 of an OAM scan, with empty queues.
    pub open spec fn initial() -> Self {
        PPUView {
            cycle_counter: 0,
            current_mode: Mode::OamScan,
            obj_buffer: Seq::empty(),
            oam_copy: Seq::empty(),
            pixel_fifo: Seq::empty(),
            fifo_state: FifoState::initial(),
            screen_x: 0,
        }
    }

    /// One cycle of OAM scan. Cycle 0 empties the object buffer and copies
    /// OAM; every odd cycle takes the next entry, while the buffer has room,
    /// and keeps it when it is visible (X not 0) and crosses the current
    /// line; cycle 79 ends the scan.
    pub open spec fn oam_scan(self, mem: MemoryBusView) -> Self {
        let c = self.cycle_counter;
        let lcd = mem.io.lcd;
        let scanned = if c == 0 {
            PPUView { obj_buffer: Seq::empty(), oam_copy: oam_entries_of(mem.oam), ..self }
        } else if c % 2 == 0 {
            self
        } else if self.obj_buffer.len() < 10 && self.oam_copy.len() > 0 {
            let next = self.oam_copy[0];
            let rest = PPUView { oam_copy: self.oam_copy.drop_first(), ..self };
            if next.x != 0 && on_scanline(next.y, lcd.ly, lcd.lcdc.spec_obj_size()) {
                PPUView { obj_buffer: self.obj_buffer.push(next), ..rest }
            } else {
                rest
            }
        } else {
            self
        };
        if c == 79 {
            PPUView { current_mode: Mode::PixelTransfer, ..scanned }
        } else {
            scanned
        }
    }

    /// The OAM scan can take this cycle without overflow: an entry that it
    /// tests against the current line ends before line 256.
    pub open spec fn oam_scan_safe(self, mem: MemoryBusView) -> bool {
        (self.cycle_counter % 2 == 1 && self.obj_buffer.len() < 10 && self.oam_copy.len() > 0
            && self.oam_copy[0].x != 0) ==> self.oam_copy[0].y + obj_height(
            mem.io.lcd.lcdc.spec_obj_size(),
        ) <= 255
    }

    /// The fetcher looks up the number of the next tile (see
    /// `tile_location`) and the row of it to draw.
    pub open spec fn fetch_tile(self, mem: MemoryBusView) -> Self {
        let (area, line, index) = tile_location(self.screen_x, mem.io.lcd);
        PPUView {
            fifo_state: FifoState {
                tile_line: line as u8,
                tile_no: Some(mem.vram[tile_map_start(area) + index]),
                ..self.fifo_state
            },
            ..self
        }
    }

    /// One cycle of pixel transfer. A pixel leaves a FIFO that holds more
    /// than eight; on odd cycles the fetcher takes its next step (tile
    /// number, low byte, high byte of the row) and, once it has both bytes and
    /// the FIFO holds at most eight pixels, pushes the eight pixels of the row.
    pub open spec fn pixel_transfer(self, mem: MemoryBusView) -> Self {
        let popped = if self.pixel_fifo.len() > 8 {
            PPUView { pixel_fifo: self.pixel_fifo.drop_first(), ..self }
        } else {
            self
        };
        if self.cycle_counter % 2 == 1 {
            let st = popped.fifo_state;
            let fetched = if st.tile_no is None {
                popped.fetch_tile(mem)
            } else if st.data_low is None {
                PPUView {
                    fifo_state: FifoState {
                        data_low: Some(tile_byte(mem, st.tile_no->0, st.tile_line * 2)),
                        ..st
                    },
                    ..popped
                }
            } else if st.data_high is None {
                PPUView {
                    fifo_state: FifoState {
                        data_high: Some(tile_byte(mem, st.tile_no->0, st.tile_line * 2 + 1)),
                        ..st
                    },
                    ..popped
                }
            } else {
                popped
            };
            let fs = fetched.fifo_state;
            if fs.data_low is Some && fs.data_high is Some && fetched.pixel_fifo.len() <= 8 {
                PPUView {
                    pixel_fifo: fetched.pixel_fifo + row_pixels(
                        fs.data_low->0,
                        fs.data_high->0,
                        mem.io.lcd.bgp,
                    ),
                    ..fetched
                }
            } else {
                fetched
            }
        } else {
            popped
        }
    }

    /// One cycle of the PPU in the OAM scan or pixel transfer mode.
    pub open spec fn tick(self, mem: MemoryBusView) -> Self {
        let after = match self.current_mode {
            Mode::OamScan => self.oam_scan(mem),
            Mode::PixelTransfer => self.pixel_transfer(mem),
            _ => self,
        };
        PPUView { cycle_counter: (after.cycle_counter + 1) as u32, ..after }
    }

    /// The PPU can take a cycle: it is in one of the two implemented modes,
    /// its counter does not overflow, and an OAM scan does not overflow.
    pub open spec fn tick_safe(self, mem: MemoryBusView) -> bool {
        &&& (self.current_mode is OamScan || self.current_mode is PixelTransfer)
        &&& self.cycle_counter < u32::MAX
        &&& self.current_mode is OamScan ==> self.oam_scan_safe(mem)
    }
}

proof fn lemma_low_bit(x: u8, s: u8)
    by (bit_vector)
    ensures
        (x >> s) & 1u8 <= 1u8,
{
}

proof fn lemma_two_bits(x: u8, s: u8)
    by (bit_vector)
    ensures
        (x >> s) & 3u8 <= 3u8,
{
}

/// The pixel of shade number `shade`.
pub fn pixel_from_shade(shade: u8) -> (r: Pixel)
    ensures
        r == pixel_of(shade),
{
    if shade == 0 {
        Pixel::White
    } else if shade == 1 {
        Pixel::LightGray
    } else if shade == 2 {
        Pixel::DarkGrey
    } else {
        Pixel::Black
    }
}

/// The eight background pixels of the tile row `low`, `high` under palette
/// `bgp`, at the back of `fifo`.
fn push_row(fifo: &mut StackArrayDeque<FifoPixel, 16>, low: u8, high: u8, bgp: u8)
    requires
        queued_pixels(*old(fifo)).len() <= 8,
    ensures
        queued_pixels(*final(fifo)) == queued_pixels(*old(fifo)) + row_pixels(low, high, bgp),
{
    let ghost start = queued_pixels(*fifo);
    let mut n: u8 = 0;
    while n < 8
        invariant
            n <= 8,
            start.len() <= 8,
            queued_pixels(*fifo) == start + row_pixels(low, high, bgp).take(n as int),
        decreases 8 - n,
    {
        proof {
            lemma_low_bit(high, (7 - n) as u8);
            lemma_low_bit(low, (7 - n) as u8);
        }
        let index: u8 = ((high >> (7 - n)) & 1) * 2 + ((low >> (7 - n)) & 1);
        proof {
            lemma_two_bits(bgp, (index * 2) as u8);
        }
        let shade: u8 = (bgp >> (index * 2)) & 0b11;
        let pixel = FifoPixel { pixel: pixel_from_shade(shade), source: PixelSource::BG };
        assert(pixel == row_pixels(low, high, bgp)[n as int]);
        push_pixel(fifo, pixel);
        assert(row_pixels(low, high, bgp).take(n as int + 1) =~= row_pixels(low, high, bgp).take(
            n as int,
        ).push(pixel));
        n = n + 1;
    }
    assert(row_pixels(low, high, bgp).take(8) =~= row_pixels(low, high, bgp));
}

impl PPU {
    /// A PPU at cycle 0 of an OAM scan, with empty queues.
    pub fn new() -> (r: Self)
        ensures
            r@ == PPUView::initial(),
    {
        let none: Vec<OamEntry> = Vec::new();
        let r = PPU {
            cycle_counter: 0,
            current_mode: Mode::OamScan,
            obj_buffer: new_object_buffer(),
            oam_copy: copy_entries(none.as_slice()),
            pixel_fifo: new_pixel_fifo(),
            fifo_state: FifoState {
                tile_no: None,
                data_low: None,
                data_high: None,
                buffer: [0u8, 0u8, 0u8, 0u8, 0u8, 0u8, 0u8, 0u8],
                tile_line: 0,
            },
            screen_x: 0,
        };
        assert(none@ =~= Seq::<OamEntry>::empty());
        assert(r@ =~= PPUView::initial());
        r
    }

    /// Whether the PPU can take its next cycle without failing: see
    /// `PPUView::tick_safe`.
    pub fn can_tick(&self, ctx: &Context<MemoryBus>) -> (r: bool)
        requires
            self@.wf(),
            MemoryBus::inv(ctx.memory@),
        ensures
            r == self@.tick_safe(ctx.memory@),
    {
        match self.current_mode {
            Mode::OamScan => {},
            Mode::PixelTransfer => {},
            _ => {
                return false;
            },
        }
        if self.cycle_counter == u32::MAX {
            return false;
        }
        if matches!(self.current_mode, Mode::PixelTransfer) {
            return true;
        }
        if self.cycle_counter % 2 == 0 || objects_full(&self.obj_buffer) {
            return true;
        }
        match front_entry(&self.oam_copy) {
            None => true,
            Some(next) => {
                let tall = matches!(ctx.memory.io.lcd.lcdc.obj_size(), ObjSize::Tall);
                let height: u16 = if tall {
                    16
                } else {
                    8
                };
                next.x == 0 || next.y as u16 + height <= 255
            },
        }
    }

    /// One cycle of the PPU: a step of the OAM scan or of pixel transfer, and
    /// the cycle counter advances.
    pub fn tick(&mut self, ctx: &mut Context<MemoryBus>)
        requires
            old(self)@.wf(),
            MemoryBus::inv(old(ctx).memory@),
            old(self)@.tick_safe(old(ctx).memory@),
        ensures
            final(self)@ == old(self)@.tick(old(ctx).memory@),
            final(self)@.wf(),
            *final(ctx) == *old(ctx),
    {
        match self.current_mode {
            Mode::OamScan => self.oam_scan(ctx),
            Mode::PixelTransfer => self.pixel_transfer(ctx),
            _ => {},
        };
        self.cycle_counter = self.cycle_counter + 1;
    }

    /// One cycle of OAM scan.
    pub fn oam_scan(&mut self, ctx: &mut Context<MemoryBus>)
        requires
            old(self)@.wf(),
            MemoryBus::inv(old(ctx).memory@),
            old(self)@.oam_scan_safe(old(ctx).memory@),
        ensures
            final(self)@ == old(self)@.oam_scan(old(ctx).memory@),
            final(self)@.wf(),
            *final(ctx) == *old(ctx),
    {
        let c = self.cycle_counter;
        if c == 0 {
            clear_objects(&mut self.obj_buffer);
            let entries = ctx.memory.oam.oam_entries();
            assert(entries@ =~= oam_entries_of(ctx.memory.oam.0@));
            self.oam_copy = copy_entries(entries.as_slice());
        } else if c % 2 == 0 {
            // The second cycle of each entry's check.
        } else if !objects_full(&self.obj_buffer) {
            if let Some(next_obj) = pop_entry(&mut self.oam_copy) {
                if next_obj.x() != 0 && object_on_scanline(
                    next_obj.y(),
                    ctx.memory.io.lcd.ly,
                    ctx.memory.io.lcd.lcdc.obj_size(),
                ) {
                    push_object(&mut self.obj_buffer, next_obj);
                }
            }
        }
        if self.cycle_counter == 79 {
            self.current_mode = Mode::PixelTransfer;
        }
        assert(self@ =~= old(self)@.oam_scan(ctx.memory@));
    }

    /// One cycle of pixel transfer.
    pub fn pixel_transfer(&mut self, ctx: &mut Context<MemoryBus>)
        requires
            old(self)@.wf(),
            MemoryBus::inv(old(ctx).memory@),
        ensures
            final(self)@ == old(self)@.pixel_transfer(old(ctx).memory@),
            final(self)@.wf(),
            *final(ctx) == *old(ctx),
    {
        let ghost start = self@;
        if pixel_count(&self.pixel_fifo) > 8 {
            let _pixel = pop_pixel(&mut self.pixel_fifo);
        }
        let ghost popped = self@;
        assert(popped =~= (if start.pixel_fifo.len() > 8 {
            PPUView { pixel_fifo: start.pixel_fifo.drop_first(), ..start }
        } else {
            start
        }));
        if self.cycle_counter % 2 == 1 {
            if self.fifo_state.tile_no.is_none() {
                self.fetch_tile(ctx);
            } else if self.fifo_state.data_low.is_none() {
                let tile_no = match self.fifo_state.tile_no {
                    Some(t) => t,
                    None => 0,
                };
                let data = ctx.memory.vram.bg_tile_data(
                    ctx.memory.io.lcd.lcdc.tile_data_mapping(),
                    tile_no,
                );
                self.fifo_state.data_low = Some(data[self.fifo_state.tile_line as usize * 2]);
            } else if self.fifo_state.data_high.is_none() {
                let tile_no = match self.fifo_state.tile_no {
                    Some(t) => t,
                    None => 0,
                };
                let data = ctx.memory.vram.bg_tile_data(
                    ctx.memory.io.lcd.lcdc.tile_data_mapping(),
                    tile_no,
                );
                self.fifo_state.data_high = Some(data[self.fifo_state.tile_line as usize * 2 + 1]);
            }
            if let (Some(low), Some(high)) = (self.fifo_state.data_low, self.fifo_state.data_high) {
                if pixel_count(&self.pixel_fifo) <= 8 {
                    push_row(&mut self.pixel_fifo, low, high, ctx.memory.io.lcd.bgp);
                }
            }
        }
        assert(self@ =~= start.pixel_transfer(ctx.memory@));
    }

    /// The fetcher looks up the number of the next tile.
    pub fn fetch_tile(&mut self, ctx: &mut Context<MemoryBus>)
        requires
            old(self)@.wf(),
            MemoryBus::inv(old(ctx).memory@),
        ensures
            final(self)@ == old(self)@.fetch_tile(old(ctx).memory@),
            final(self)@.wf(),
            *final(ctx) == *old(ctx),
    {
        let (tile_map_area, tile_line, tile_map_index) = locate_tile(
            self.screen_x,
            &ctx.memory.io.lcd,
        );
        let map = ctx.memory.vram.tile_map(tile_map_area);
        self.fifo_state.tile_line = tile_line;
        self.fifo_state.tile_no = Some(map[tile_map_index as usize]);
        assert(self@ =~= old(self)@.fetch_tile(ctx.memory@));
    }
}

// ---------------------------------------------------------------------------
// The tile viewer
// ---------------------------------------------------------------------------

impl Vram {
    /// The tile data area, the 384 tiles of 16 bytes at 0x8000..=0x97FF.
    pub fn tile_data(&self) -> (r: &[u8])
        requires
            self.wf(),
        ensures
            r@ == self.0@.subrange(0, 0x1800),
    {
        let bytes = self.0.as_slice();
        let (data, _) = bytes.split_at(0x1800);
        data
    }
}

/// The colour number of pixel `p` (row by row, left to right) of the 8x8
/// tile whose 16 bytes are `tile`, each row written as its high bit plane
/// then its low bit plane.
pub open spec fn tile_pixel_colour(tile: Seq<u8>, p: int) -> u8 {
    colour_index(tile[2 * (p / 8) + 1], tile[2 * (p / 8)], (p % 8) as u8)
}

/// The RGBA bytes that the tile viewer shows for colour number `colour`:
/// white, light grey, dark grey and black, opaque.
pub open spec fn viewer_rgba(colour: u8) -> Seq<u8> {
    if colour == 0 {
        seq![0xFFu8, 0xFFu8, 0xFFu8, 0xFFu8]
    } else if colour == 1 {
        seq![0xBCu8, 0xBCu8, 0xBCu8, 0xFFu8]
    } else if colour == 2 {
        seq![0x80u8, 0x80u8, 0x80u8, 0xFFu8]
    } else {
        seq![0u8, 0u8, 0u8, 0xFFu8]
    }
}

/// The RGBA bytes of the first `count` pixels of `tile`.
pub open spec fn tile_image_prefix(tile: Seq<u8>, count: nat) -> Seq<u8>
    decreases count,
{
    if count == 0 {
        Seq::empty()
    } else {
        tile_image_prefix(tile, (count - 1) as nat) + viewer_rgba(
            tile_pixel_colour(tile, count - 1),
        )
    }
}

/// The 8x8 RGBA image of `tile`, 256 bytes, row by row.
pub open spec fn tile_image(tile: Seq<u8>) -> Seq<u8> {
    tile_image_prefix(tile, 64)
}

proof fn lemma_image_prefix_len(tile: Seq<u8>, count: nat)
    ensures
        tile_image_prefix(tile, count).len() == 4 * count,
    decreases count,
{
    if count > 0 {
        lemma_image_prefix_len(tile, (count - 1) as nat);
    }
}

/// The RGBA image that the tile viewer draws for the 16 bytes of a tile.
pub fn tile_rgba(tile: &[u8]) -> (r: Vec<u8>)
    requires
        tile@.len() == 16,
    ensures
        r@ == tile_image(tile@),
        r@.len() == 256,
{
    let mut out: Vec<u8> = Vec::new();
    let mut p: usize = 0;
    while p < 64
        invariant
            tile@.len() == 16,
            p <= 64,
            out@ == tile_image_prefix(tile@, p as nat),
        decreases 64 - p,
    {
        let row: usize = p / 8;
        let n: u8 = (p % 8) as u8;
        let left = tile[2 * row];
        let right = tile[2 * row + 1];
        proof {
            lemma_low_bit(left, (7 - n) as u8);
            lemma_low_bit(right, (7 - n) as u8);
        }
        let colour: u8 = ((left >> (7 - n)) & 1) * 2 + ((right >> (7 - n)) & 1);
        assert(colour == tile_pixel_colour(tile@, p as int));
        if colour == 0 {
            out.push(0xFF);
            out.push(0xFF);
            out.push(0xFF);
            out.push(0xFF);
        } else if colour == 1 {
            out.push(0xBC);
            out.push(0xBC);
            out.push(0xBC);
            out.push(0xFF);
        } else if colour == 2 {
            out.push(0x80);
            out.push(0x80);
            out.push(0x80);
            out.push(0xFF);
        } else {
            out.push(0);
            out.push(0);
            out.push(0);
            out.push(0xFF);
        }
        assert(out@ =~= tile_image_prefix(tile@, p as nat) + viewer_rgba(colour));
        p = p + 1;
    }
    proof {
        lemma_image_prefix_len(tile@, 64);
    }
    out
}

} // verus!
