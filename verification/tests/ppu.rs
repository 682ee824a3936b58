use gbemu::context::{Context, MemoryBus};
use gbemu::ppu::{
    get_bit, object_on_scanline, pixel_from_shade, set_bit, tile_rgba, Lcdc, Mode, ObjSize, Oam,
    OamAttributes, OamEntry, Pixel, PixelSource, TileDataMapping, TileMapArea, Vram, PPU,
};

#[test]
fn bits_read_back_what_was_written() {
    let mut value: u8 = 0b1010_0000;
    set_bit(&mut value, 0, true);
    assert_eq!(value, 0b1010_0001);
    set_bit(&mut value, 7, false);
    assert_eq!(value, 0b0010_0001);
    assert!(get_bit(value, 5));
    assert!(!get_bit(value, 6));
    assert!(get_bit(value, 0));
}

#[test]
fn lcdc_fields() {
    let mut lcdc = Lcdc(0);
    lcdc.set_enable(true);
    lcdc.set_window_tile_map(TileMapArea::One);
    lcdc.set_obj_size(ObjSize::Tall);
    lcdc.set_bg_window_enable(true);
    assert_eq!(lcdc.0, 0b1100_0101);
    assert!(lcdc.enable());
    assert!(matches!(lcdc.window_tile_map(), TileMapArea::One));
    assert!(matches!(lcdc.bg_tile_map(), TileMapArea::Zero));
    assert!(matches!(lcdc.obj_size(), ObjSize::Tall));
    assert!(matches!(lcdc.tile_data_mapping(), TileDataMapping::Zero));
    lcdc.set_tile_data_mapping(TileDataMapping::One);
    lcdc.set_bg_tile_map(TileMapArea::One);
    lcdc.set_window_enable(true);
    lcdc.set_obj_enable(true);
    assert_eq!(lcdc.0, 0xFF);
    assert!(lcdc.window_enable());
    assert!(lcdc.obj_enable());
    assert!(lcdc.bg_window_enable());
    lcdc.set_enable(false);
    assert_eq!(lcdc.0, 0x7F);
}

#[test]
fn tile_map_ranges() {
    assert_eq!(Vram::get_tile_map_range(TileMapArea::Zero), 0x1800..0x1C00);
    assert_eq!(Vram::get_tile_map_range(TileMapArea::One), 0x1C00..0x2000);
    let mut vram = Vram::new();
    vram.0[0x1C00] = 0x12;
    vram.0[0x17FF] = 0x34;
    let map = vram.tile_map(TileMapArea::One);
    assert_eq!(map.len(), 0x400);
    assert_eq!(map[0], 0x12);
    vram.tile_map_mut(TileMapArea::Zero)[0x3FF] = 0x56;
    assert_eq!(vram.0[0x1BFF], 0x56);
    assert_eq!(vram.0[0x17FF], 0x34);
}

#[test]
fn window_tile_map_follows_lcdc() {
    let mut ctx = Context::<MemoryBus>::new();
    let mut vram = Vram::new();
    vram.0[0x1800] = 1;
    vram.0[0x1C00] = 2;
    assert_eq!(vram.window_tile_map(&ctx)[0], 1);
    ctx.memory.io.lcd.lcdc.set_window_tile_map(TileMapArea::One);
    assert_eq!(vram.window_tile_map(&ctx)[0], 2);
    vram.window_tile_map_mut(&mut ctx)[1] = 9;
    assert_eq!(vram.0[0x1C01], 9);
}

#[test]
fn tile_data_mappings() {
    let mut vram = Vram::new();
    for i in 0..0x1800 {
        vram.0[i] = (i / 16) as u8;
    }
    // Mapping zero: tile n at 0x8000 + 16 n.
    assert_eq!(vram.bg_tile_data(TileDataMapping::Zero, 1)[0], 1);
    assert_eq!(vram.bg_tile_data(TileDataMapping::Zero, 255)[15], 255);
    // Mapping one: tiles 0..=127 at 0x9000, 128..=255 at 0x8800.
    assert_eq!(vram.bg_tile_data(TileDataMapping::One, 0)[0], 0x00);
    assert_eq!(vram.0[0x1000], 0x00);
    assert_eq!(vram.bg_tile_data(TileDataMapping::One, 0).len(), 16);
    vram.0[0x1000] = 0xEE;
    assert_eq!(vram.bg_tile_data(TileDataMapping::One, 0)[0], 0xEE);
    vram.0[0x0800] = 0xDD;
    assert_eq!(vram.bg_tile_data(TileDataMapping::One, 128)[0], 0xDD);
    vram.bg_tile_data_mut(TileDataMapping::One, 127)[15] = 0xCC;
    assert_eq!(vram.0[0x17FF], 0xCC);
    assert_eq!(vram.tile_data().len(), 0x1800);
}

#[test]
fn oam_attributes() {
    let mut attributes = OamAttributes(0);
    attributes.set_priority(true);
    attributes.set_x_flip(true);
    attributes.set_cgb_palette(5);
    assert_eq!(attributes.0, 0b1010_0101);
    assert!(attributes.priority());
    assert!(!attributes.y_flip());
    assert!(attributes.x_flip());
    assert!(!attributes.dmg_palette());
    assert!(!attributes.bank());
    assert_eq!(attributes.cgb_palette(), 5);
    attributes.set_cgb_palette(2);
    attributes.set_y_flip(true);
    attributes.set_dmg_palette(true);
    attributes.set_bank(true);
    assert_eq!(attributes.0, 0b1111_1010);
}

#[test]
fn oam_entries_in_order() {
    let mut oam = Oam::new();
    oam.0[4] = 16;
    oam.0[5] = 8;
    oam.0[6] = 0x42;
    oam.0[7] = 0x80;
    let entries = oam.oam_entries();
    assert_eq!(entries.len(), 40);
    assert_eq!(entries[1].y(), 16);
    assert_eq!(entries[1].x(), 8);
    assert_eq!(entries[1].tile_index(), 0x42);
    assert!(entries[1].attributes().priority());
    assert_eq!(entries[0].y(), 0);
    assert_eq!(oam.oam_entries_mut()[1].tile_index(), 0x42);
}

#[test]
fn oam_entry_fields_can_be_written() {
    let mut entry = OamEntry { y: 1, x: 2, tile_index: 3, attributes: OamAttributes(4) };
    *entry.y_mut() = 10;
    *entry.x_mut() = 20;
    *entry.tile_index_mut() = 30;
    entry.attributes_mut().set_priority(true);
    assert_eq!(entry.y(), 10);
    assert_eq!(entry.x(), 20);
    assert_eq!(entry.tile_index(), 30);
    assert_eq!(entry.attributes().0, 0x84);
}

#[test]
fn objects_on_scanline() {
    assert!(object_on_scanline(16, 16, ObjSize::Square));
    assert!(object_on_scanline(16, 23, ObjSize::Square));
    assert!(!object_on_scanline(16, 24, ObjSize::Square));
    assert!(object_on_scanline(16, 24, ObjSize::Tall));
    assert!(!object_on_scanline(16, 32, ObjSize::Tall));
    assert!(!object_on_scanline(16, 15, ObjSize::Tall));
}

#[test]
fn shades_of_palette_entries() {
    assert_eq!(pixel_from_shade(0), Pixel::White);
    assert_eq!(pixel_from_shade(1), Pixel::LightGray);
    assert_eq!(pixel_from_shade(2), Pixel::DarkGrey);
    assert_eq!(pixel_from_shade(3), Pixel::Black);
}

#[test]
fn tile_viewer_image() {
    let mut tile = [0u8; 16];
    tile[0] = 0xFF;
    tile[3] = 0xFF;
    tile[4] = 0x80;
    tile[5] = 0x80;
    let image = tile_rgba(&tile);
    assert_eq!(image.len(), 256);
    // Row 0: high plane set everywhere.
    assert_eq!(image[0..4], [0x80, 0x80, 0x80, 0xFF]);
    assert_eq!(image[28..32], [0x80, 0x80, 0x80, 0xFF]);
    // Row 1: low plane set everywhere.
    assert_eq!(image[32..36], [0xBC, 0xBC, 0xBC, 0xFF]);
    // Row 2: both planes in the first pixel only.
    assert_eq!(image[64..68], [0x00, 0x00, 0x00, 0xFF]);
    assert_eq!(image[68..72], [0xFF, 0xFF, 0xFF, 0xFF]);
    assert_eq!(image[252..256], [0xFF, 0xFF, 0xFF, 0xFF]);
}

fn scan_context() -> Context<MemoryBus> {
    let mut ctx = Context::<MemoryBus>::new();
    ctx.memory.io.lcd.ly = 20;
    // Entry 0: on line 20.
    ctx.memory.oam.0[0] = 16;
    ctx.memory.oam.0[1] = 8;
    // Entry 1: below the line.
    ctx.memory.oam.0[4] = 30;
    ctx.memory.oam.0[5] = 8;
    // Entry 2: on the line but hidden (X is 0).
    ctx.memory.oam.0[8] = 16;
    ctx.memory.oam.0[9] = 0;
    // Entry 3: on line 20.
    ctx.memory.oam.0[12] = 13;
    ctx.memory.oam.0[13] = 1;
    ctx
}

#[test]
fn oam_scan_lasts_80_cycles() {
    let mut ctx = scan_context();
    let mut ppu = PPU::new();
    for cycle in 0..80 {
        assert_eq!(ppu.current_mode, Mode::OamScan, "cycle {cycle}");
        assert!(ppu.can_tick(&ctx));
        ppu.tick(&mut ctx);
    }
    assert_eq!(ppu.current_mode, Mode::PixelTransfer);
    assert_eq!(ppu.cycle_counter, 80);
}

#[test]
fn oam_scan_buffers_objects_on_the_line() {
    let mut ctx = scan_context();
    let mut ppu = PPU::new();
    for _ in 0..80 {
        ppu.tick(&mut ctx);
    }
    assert_eq!(ppu.obj_buffer.len(), 2);
    assert_eq!(ppu.obj_buffer[0].y(), 16);
    assert_eq!(ppu.obj_buffer[1].y(), 13);
    assert_eq!(ppu.oam_copy.len(), 0);
}

#[test]
fn oam_scan_keeps_at_most_ten_objects() {
    let mut ctx = Context::<MemoryBus>::new();
    ctx.memory.io.lcd.ly = 20;
    for i in 0..40 {
        ctx.memory.oam.0[4 * i] = 16;
        ctx.memory.oam.0[4 * i + 1] = 8;
    }
    let mut ppu = PPU::new();
    for _ in 0..80 {
        ppu.tick(&mut ctx);
    }
    assert_eq!(ppu.obj_buffer.len(), 10);
}

#[test]
fn oam_scan_refuses_an_entry_past_the_last_line() {
    let mut ctx = Context::<MemoryBus>::new();
    ctx.memory.oam.0[0] = 250;
    ctx.memory.oam.0[1] = 8;
    let mut ppu = PPU::new();
    ppu.tick(&mut ctx);
    assert_eq!(ppu.cycle_counter, 1);
    assert!(!ppu.can_tick(&ctx));
}

#[test]
fn pixel_transfer_pushes_a_tile_row() {
    let mut ctx = Context::<MemoryBus>::new();
    ctx.memory.io.lcd.ly = 20;
    ctx.memory.io.lcd.bgp = 0xE4;
    // Background map 0, tile row 2, column 0: tile 1.
    ctx.memory.vram.0[0x1800 + 64] = 1;
    // Tile 1, row 4: low plane 1010_0000, high plane 1100_0000.
    ctx.memory.vram.0[16 + 8] = 0xA0;
    ctx.memory.vram.0[16 + 9] = 0xC0;
    let mut ppu = PPU::new();
    for _ in 0..86 {
        assert!(ppu.can_tick(&ctx));
        ppu.tick(&mut ctx);
    }
    assert_eq!(ppu.fifo_state.tile_no, Some(1));
    assert_eq!(ppu.fifo_state.tile_line, 4);
    assert_eq!(ppu.fifo_state.data_low, Some(0xA0));
    assert_eq!(ppu.fifo_state.data_high, Some(0xC0));
    assert_eq!(ppu.pixel_fifo.len(), 8);
    assert_eq!(ppu.pixel_fifo[0].pixel, Pixel::Black);
    assert_eq!(ppu.pixel_fifo[1].pixel, Pixel::DarkGrey);
    assert_eq!(ppu.pixel_fifo[2].pixel, Pixel::LightGray);
    assert_eq!(ppu.pixel_fifo[3].pixel, Pixel::White);
    assert_eq!(ppu.pixel_fifo[7].pixel, Pixel::White);
    assert_eq!(ppu.pixel_fifo[0].source, PixelSource::BG);
    // The next odd cycle pushes the row again; then a pixel leaves.
    ppu.tick(&mut ctx);
    ppu.tick(&mut ctx);
    assert_eq!(ppu.pixel_fifo.len(), 16);
    ppu.tick(&mut ctx);
    assert_eq!(ppu.pixel_fifo.len(), 15);
}

#[test]
fn fetch_tile_reads_the_window() {
    let mut ctx = Context::<MemoryBus>::new();
    ctx.memory.io.lcd.ly = 40;
    ctx.memory.io.lcd.wy = 20;
    ctx.memory.io.lcd.wx = 0;
    ctx.memory.io.lcd.lcdc.set_window_enable(true);
    ctx.memory.io.lcd.lcdc.set_window_tile_map(TileMapArea::One);
    // Window line 20: tile row 2, row 4 of the tile.
    ctx.memory.vram.0[0x1C00 + 64] = 7;
    let mut ppu = PPU::new();
    ppu.fetch_tile(&mut ctx);
    assert_eq!(ppu.fifo_state.tile_no, Some(7));
    assert_eq!(ppu.fifo_state.tile_line, 4);
}

#[test]
fn fetch_tile_scrolls_the_background() {
    let mut ctx = Context::<MemoryBus>::new();
    ctx.memory.io.lcd.ly = 250;
    ctx.memory.io.lcd.scy = 10;
    ctx.memory.io.lcd.scx = 17;
    // Line (250 + 10) mod 256 = 4: tile row 0, row 4; column 17 / 8 = 2.
    ctx.memory.vram.0[0x1800 + 2] = 9;
    let mut ppu = PPU::new();
    ppu.fetch_tile(&mut ctx);
    assert_eq!(ppu.fifo_state.tile_no, Some(9));
    assert_eq!(ppu.fifo_state.tile_line, 4);
}
