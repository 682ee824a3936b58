//! What holds of the PPU over several cycles.
use vstd::prelude::*;

use crate::context::{Memory, MemoryBus, MemoryBusView};

use super::{
    tile_image, tile_image_prefix, tile_pixel_colour, viewer_rgba,
    obj_height, oam_entries_of, on_scanline, row_pixels, tile_byte, tile_location, tile_map_start,
    FifoPixel, Mode, OamEntry, ObjSize, PPUView, Pixel, PixelSource,
};

verus! {

/// The PPU after `n` cycles against the memory `mem`.
pub open spec fn run(p: PPUView, mem: MemoryBusView, n: nat) -> PPUView
    decreases n,
{
    if n == 0 {
        p
    } else {
        run(p, mem, (n - 1) as nat).tick(mem)
    }
}

/// Every visible entry (X not 0) of `entries` ends before line 256 for
/// objects of size `size`.
pub open spec fn entries_fit(entries: Seq<OamEntry>, size: ObjSize) -> bool {
    forall|i: int|
        #![trigger entries[i]]
        0 <= i < entries.len() && entries[i].x != 0 ==> entries[i].y + obj_height(size) <= 255
}

/// Every object of `objects` is visible and crosses line `ly`.
pub open spec fn objects_on_line(objects: Seq<OamEntry>, ly: u8, size: ObjSize) -> bool {
    forall|i: int|
        #![trigger objects[i]]
        0 <= i < objects.len() ==> objects[i].x != 0 && on_scanline(objects[i].y, ly, size)
}

/// The object buffer only ever holds objects that are visible and cross the
/// current line: a cycle of the PPU keeps that true.
pub proof fn law_buffer_holds_line_objects(p: PPUView, mem: MemoryBusView)
    requires
        p.wf(),
        p.tick_safe(mem),
        objects_on_line(p.obj_buffer, mem.io.lcd.ly, mem.io.lcd.lcdc.spec_obj_size()),
    ensures
        objects_on_line(p.tick(mem).obj_buffer, mem.io.lcd.ly, mem.io.lcd.lcdc.spec_obj_size()),
{
    let size = mem.io.lcd.lcdc.spec_obj_size();
    let q = p.tick(mem);
    if p.current_mode is OamScan && p.cycle_counter % 2 == 1 && p.obj_buffer.len() < 10
        && p.oam_copy.len() > 0 {
        let next = p.oam_copy[0];
        if next.x != 0 && on_scanline(next.y, mem.io.lcd.ly, size) {
            assert forall|i: int| 0 <= i < q.obj_buffer.len() implies #[trigger] q.obj_buffer[i].x
                != 0 && on_scanline(q.obj_buffer[i].y, mem.io.lcd.ly, size) by {
                if i < p.obj_buffer.len() {
                    assert(q.obj_buffer[i] == p.obj_buffer[i]);
                }
            }
        }
    }
}

proof fn lemma_scan_run(p: PPUView, mem: MemoryBusView, k: nat)
    requires
        p.wf(),
        p.cycle_counter == 0,
        p.current_mode is OamScan,
        entries_fit(oam_entries_of(mem.oam), mem.io.lcd.lcdc.spec_obj_size()),
        k <= 80,
    ensures
        run(p, mem, k).wf(),
        run(p, mem, k).cycle_counter == k,
        run(p, mem, k).current_mode == (if k == 80 {
            Mode::PixelTransfer
        } else {
            Mode::OamScan
        }),
        k > 0 ==> entries_fit(run(p, mem, k).oam_copy, mem.io.lcd.lcdc.spec_obj_size()),
        k < 80 ==> run(p, mem, k).tick_safe(mem),
    decreases k,
{
    let size = mem.io.lcd.lcdc.spec_obj_size();
    if k > 0 {
        lemma_scan_run(p, mem, (k - 1) as nat);
        let before = run(p, mem, (k - 1) as nat);
        let after = before.tick(mem);
        assert(run(p, mem, k) == after);
        if k > 1 {
            let c = before.oam_copy;
            if c.len() > 0 && before.cycle_counter % 2 == 1 && before.obj_buffer.len() < 10 {
                assert forall|i: int|
                    0 <= i < c.drop_first().len() && #[trigger] c.drop_first()[i].x != 0 implies c.drop_first()[i].y
                    + obj_height(size) <= 255 by {
                    assert(c.drop_first()[i] == c[i + 1]);
                }
            }
        }
    }
}

/// The OAM scan takes 80 cycles: from cycle 0 of a scan, when no visible
/// entry of OAM reaches past line 255, the PPU can take each of the next 80
/// cycles and stays in the scan for 79 of them, then starts pixel transfer.
pub proof fn law_oam_scan_lasts_80_cycles(p: PPUView, mem: MemoryBusView)
    requires
        p.wf(),
        p.cycle_counter == 0,
        p.current_mode is OamScan,
        entries_fit(oam_entries_of(mem.oam), mem.io.lcd.lcdc.spec_obj_size()),
    ensures
        forall|k: nat|
            k < 80 ==> (#[trigger] run(p, mem, k)).tick_safe(mem) && run(
                p,
                mem,
                k,
            ).current_mode is OamScan,
        run(p, mem, 80).current_mode is PixelTransfer,
        run(p, mem, 80).cycle_counter == 80,
        run(p, mem, 80).wf(),
{
    assert forall|k: nat| k < 80 implies (#[trigger] run(p, mem, k)).tick_safe(mem) && run(
        p,
        mem,
        k,
    ).current_mode is OamScan by {
        lemma_scan_run(p, mem, k);
    }
    lemma_scan_run(p, mem, 80);
}

/// The first tile row of pixel transfer reaches the FIFO after six cycles:
/// from an even cycle with an empty FIFO and nothing fetched, the fetcher
/// looks up the tile under the current position, reads the low and then the
/// high byte of its row, and the FIFO then holds the eight pixels of that row.
pub proof fn law_first_row_in_six_cycles(p: PPUView, mem: MemoryBusView)
    requires
        p.wf(),
        MemoryBus::inv(mem),
        p.current_mode is PixelTransfer,
        p.cycle_counter % 2 == 0,
        p.cycle_counter + 6 < u32::MAX,
        p.pixel_fifo.len() == 0,
        p.fifo_state.tile_no is None,
        p.fifo_state.data_low is None,
        p.fifo_state.data_high is None,
    ensures
        forall|k: nat| k < 6 ==> (#[trigger] run(p, mem, k)).tick_safe(mem),
        ({
            let (area, line, index) = tile_location(p.screen_x, mem.io.lcd);
            let tile_no = mem.vram[tile_map_start(area) + index];
            run(p, mem, 6).pixel_fifo == row_pixels(
                tile_byte(mem, tile_no, line * 2),
                tile_byte(mem, tile_no, line * 2 + 1),
                mem.io.lcd.bgp,
            )
        }),
{
    let p1 = run(p, mem, 1);
    let p2 = run(p, mem, 2);
    let p3 = run(p, mem, 3);
    let p4 = run(p, mem, 4);
    let p5 = run(p, mem, 5);
    let p6 = run(p, mem, 6);
    assert(run(p, mem, 0) == p);
    assert(p1 == p.tick(mem));
    assert(p1.pixel_fifo.len() == 0 && p1.fifo_state == p.fifo_state);
    assert(p2 == p1.tick(mem));
    assert(p2.fifo_state.tile_no is Some && p2.pixel_fifo.len() == 0);
    assert(p3 == p2.tick(mem));
    assert(p4 == p3.tick(mem));
    assert(p4.fifo_state.data_low is Some && p4.pixel_fifo.len() == 0);
    assert(p5 == p4.tick(mem));
    assert(p6 == p5.tick(mem));
    assert forall|k: nat| k < 6 implies (#[trigger] run(p, mem, k)).tick_safe(mem) by {
        if k == 0 {
        } else if k == 1 {
        } else if k == 2 {
        } else if k == 3 {
        } else if k == 4 {
        } else {
        }
    }
    assert(p6.pixel_fifo =~= Seq::<FifoPixel>::empty() + row_pixels(
        p6.fifo_state.data_low->0,
        p6.fifo_state.data_high->0,
        mem.io.lcd.bgp,
    ));
}

/// A background pixel of a tile row takes its shade from the background
/// palette: pixel `n` (0 the leftmost) has the colour number whose high bit
/// is bit 7 - n of the high plane and whose low bit is bit 7 - n of the low
/// plane, and colour number c is shown in the shade held by bits 2c and
/// 2c + 1 of BGP: 0 white, 1 light grey, 2 dark grey, 3 black.
pub proof fn law_background_palette(low: u8, high: u8, bgp: u8, n: u8)
    requires
        n < 8,
    ensures
        ({
            let c: u8 = (((high >> (7 - n) as u8) & 1u8) * 2 + ((low >> (7 - n) as u8) & 1u8)) as u8;
            let shade: u8 = (bgp >> (2 * c) as u8) & 3u8;
            &&& row_pixels(low, high, bgp)[n as int].source == PixelSource::BG
            &&& row_pixels(low, high, bgp)[n as int].pixel == if shade == 0 {
                Pixel::White
            } else if shade == 1 {
                Pixel::LightGray
            } else if shade == 2 {
                Pixel::DarkGrey
            } else {
                Pixel::Black
            }
        }),
{
}

proof fn lemma_image_prefix(tile: Seq<u8>, count: nat, p: int)
    requires
        0 <= p < count,
    ensures
        tile_image_prefix(tile, count).len() == 4 * count,
        tile_image_prefix(tile, count).subrange(4 * p, 4 * p + 4) == viewer_rgba(
            tile_pixel_colour(tile, p),
        ),
    decreases count,
{
    lemma_image_length(tile, count);
    if p < count - 1 {
        lemma_image_prefix(tile, (count - 1) as nat, p);
        let prev = tile_image_prefix(tile, (count - 1) as nat);
        assert(tile_image_prefix(tile, count).subrange(4 * p, 4 * p + 4) =~= prev.subrange(
            4 * p,
            4 * p + 4,
        ));
    } else {
        lemma_image_length(tile, (count - 1) as nat);
        assert(tile_image_prefix(tile, count).subrange(4 * p, 4 * p + 4) =~= viewer_rgba(
            tile_pixel_colour(tile, p),
        ));
    }
}

proof fn lemma_image_length(tile: Seq<u8>, count: nat)
    ensures
        tile_image_prefix(tile, count).len() == 4 * count,
    decreases count,
{
    if count > 0 {
        lemma_image_length(tile, (count - 1) as nat);
    }
}

/// The tile viewer draws a tile row by row, four RGBA bytes a pixel: pixel
/// p (row p / 8, column p % 8) has the colour number whose high bit is bit
/// 7 - column of the row's first byte and whose low bit is that bit of its
/// second byte, shown as white, light grey (0xBC), dark grey (0x80) or black
/// for 0 to 3, opaque.
pub proof fn law_tile_image(tile: Seq<u8>, p: int)
    requires
        tile.len() == 16,
        0 <= p < 64,
    ensures
        ({
            let row = p / 8;
            let column = (p % 8) as u8;
            let c: u8 = (((tile[2 * row] >> (7 - column) as u8) & 1u8) * 2 + ((tile[2 * row + 1] >> (7
                - column) as u8) & 1u8)) as u8;
            let grey: u8 = if c == 0 {
                0xFF
            } else if c == 1 {
                0xBC
            } else if c == 2 {
                0x80
            } else {
                0
            };
            &&& tile_image(tile).len() == 256
            &&& tile_image(tile)[4 * p] == grey
            &&& tile_image(tile)[4 * p + 1] == grey
            &&& tile_image(tile)[4 * p + 2] == grey
            &&& tile_image(tile)[4 * p + 3] == 0xFF
        }),
{
    lemma_image_prefix(tile, 64, p);
    let img = tile_image(tile);
    assert(img[4 * p] == img.subrange(4 * p, 4 * p + 4)[0]);
    assert(img[4 * p + 1] == img.subrange(4 * p, 4 * p + 4)[1]);
    assert(img[4 * p + 2] == img.subrange(4 * p, 4 * p + 4)[2]);
    assert(img[4 * p + 3] == img.subrange(4 * p, 4 * p + 4)[3]);
}

} // verus!
