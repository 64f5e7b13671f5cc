//! Memory, bus and PPU behaviour on concrete values.

use herod_gba_core::bus::Bus;
use herod_gba_core::cartridge::Cartridge;
use herod_gba_core::errors::EmuError;
use herod_gba_core::memory::Memory;
use herod_gba_core::ppu::Ppu;

fn fresh_bus() -> Bus {
    Bus::new(Memory::new(), Cartridge::new(), Ppu::new())
}

#[test]
fn wram_aligned_word_round_trip() {
    let mut bus = fresh_bus();
    bus.write_word(0x0200_0010, 0xAABB_CCDD).unwrap();
    assert_eq!(bus.read_word(0x0200_0010).unwrap(), 0xAABB_CCDD);
}

#[test]
fn wram_misaligned_write_lands_aligned() {
    let mut bus = fresh_bus();
    bus.write_word(0x0200_0013, 0xAABB_CCDD).unwrap();
    assert_eq!(bus.read_word(0x0200_0010).unwrap(), 0xAABB_CCDD);
}

#[test]
fn wram_misaligned_read_rotates() {
    let mut bus = fresh_bus();
    bus.write_word(0x0200_0020, 0xAABB_CCDD).unwrap();
    assert_eq!(bus.read_word(0x0200_0021).unwrap(), 0xAABB_CCDD_u32.rotate_right(8));
    assert_eq!(bus.read_word(0x0200_0022).unwrap(), 0xAABB_CCDD_u32.rotate_right(16));
    assert_eq!(bus.read_word(0x0200_0023).unwrap(), 0xAABB_CCDD_u32.rotate_right(24));
}

#[test]
fn half_read_rotates() {
    let mut bus = fresh_bus();
    bus.write_half(0x0300_0000, 0x1234).unwrap();
    assert_eq!(bus.read_half(0x0300_0000).unwrap(), 0x1234);
    assert_eq!(bus.read_half(0x0300_0001).unwrap(), 0x1234_u32.rotate_right(8));
}

#[test]
fn onboard_wram_mirrors_via_mask() {
    let mut bus = fresh_bus();
    bus.write_byte(0x0204_0000, 0x5A).unwrap();
    assert_eq!(bus.read_byte(0x0200_0000).unwrap(), 0x5A);
}

#[test]
fn onchip_wram_mirrors_via_mask() {
    let mut bus = fresh_bus();
    bus.write_byte(0x0300_8001, 0xA5).unwrap();
    assert_eq!(bus.read_byte(0x0300_0001).unwrap(), 0xA5);
}

#[test]
fn unmapped_read_is_fatal() {
    let bus = fresh_bus();
    assert_eq!(
        bus.read_byte(0x0700_0000),
        Err(EmuError::AddressDecodeError(0x0700_0000))
    );
    assert_eq!(
        bus.read_byte(0x0400_0002),
        Err(EmuError::AddressDecodeError(0x0400_0002))
    );
}

#[test]
fn unmapped_write_is_fatal_but_rom_write_is_ignored() {
    let mut bus = fresh_bus();
    assert_eq!(
        bus.write_byte(0x0100_0000, 1),
        Err(EmuError::AddressDecodeError(0x0100_0000))
    );
    bus.write_byte(0x0800_0000, 7).unwrap();
    assert_eq!(bus.read_byte(0x0800_0000).unwrap(), 0);
}

#[test]
fn rom_reads_mask_and_zero_fill() {
    let mut cart = Cartridge::new();
    cart.load(vec![0x11, 0x22, 0x33, 0x44]);
    assert_eq!(cart.read_rom(0x0800_0001), 0x22);
    // past the loaded length the bus sees open-bus zero
    assert_eq!(cart.read_rom(0x0800_0004), 0x00);
    // the 32 MiB mirror mask folds higher pages back onto the data
    assert_eq!(cart.read_rom(0x0A00_0000), 0x11);
}

#[test]
fn vram_mirror_uses_offset_bit_16() {
    let mut ppu = Ppu::new();
    ppu.write_vram(0x0601_8000, 0x42);
    // bit 16 of the offset folds 0x18000 onto 0x10000
    assert_eq!(ppu.read_vram(0x0601_0000), 0x42);
}

#[test]
fn pram_write_decodes_palette_entry() {
    let mut ppu = Ppu::new();
    // BGR555 white at palette entry 0
    ppu.write_pram(0x0500_0000, 0xFF);
    ppu.write_pram(0x0500_0001, 0x7F);
    assert_eq!(ppu.palette[0], 0xFFF8_F8F8);
    // BGR555 red at palette entry 1 (PRAM bytes 2 and 3)
    ppu.write_pram(0x0500_0002, 0x1F);
    ppu.write_pram(0x0500_0003, 0x00);
    assert_eq!(ppu.palette[1], 0xFFF8_0000);
}

#[test]
fn io_writes_or_into_registers() {
    let mut ppu = Ppu::new();
    ppu.write_io(0x0400_0000, 0x01);
    ppu.write_io(0x0400_0000, 0x02);
    assert_eq!(ppu.read_io(0x0400_0000).unwrap(), 0x03);
    ppu.write_io(0x0400_0001, 0x20);
    assert_eq!(ppu.read_io(0x0400_0001).unwrap(), 0x20);
}

#[test]
fn hblank_bit_set_between_start_and_end() {
    let mut ppu = Ppu::new();
    ppu.write_io(0x0400_0000, 0x03);
    ppu.start_hblank();
    assert_eq!(ppu.read_io(0x0400_0004).unwrap() & 0b10, 0b10);
    ppu.render_line().unwrap();
    assert_eq!(ppu.read_io(0x0400_0004).unwrap() & 0b10, 0b10);
    ppu.end_hblank();
    assert_eq!(ppu.read_io(0x0400_0004).unwrap() & 0b10, 0b00);
}

#[test]
fn mode3_renders_white_pixel() {
    let mut ppu = Ppu::new();
    ppu.write_io(0x0400_0000, 0x03);
    ppu.write_vram(0x0600_0000, 0xFF);
    ppu.write_vram(0x0600_0001, 0x7F);
    ppu.render_line().unwrap();
    assert_eq!(ppu.render_screen()[0], 0xFFF8_F8F8);
}

#[test]
fn mode4_renders_paletted_red_pixel() {
    let mut ppu = Ppu::new();
    // mode 4, frame select bit clear: frame 0 at VRAM offset 0
    ppu.write_io(0x0400_0000, 0x04);
    ppu.write_pram(0x0500_0002, 0x1F);
    ppu.write_pram(0x0500_0003, 0x00);
    ppu.write_vram(0x0600_0000, 1);
    ppu.render_line().unwrap();
    assert_eq!(ppu.render_screen()[0], 0xFFF8_0000);
}

#[test]
fn unsupported_video_mode_is_fatal() {
    let mut ppu = Ppu::new();
    assert_eq!(ppu.render_line(), Err(EmuError::UnsupportedVideoMode(0)));
}

#[test]
fn vblank_window_across_one_frame() {
    let mut ppu = Ppu::new();
    ppu.write_io(0x0400_0000, 0x03);
    for line in 0..228 {
        ppu.start_hblank();
        ppu.render_line().unwrap();
        ppu.end_hblank();
        let vblank = ppu.read_io(0x0400_0004).unwrap() & 0b01;
        if (160..227).contains(&line) {
            assert_eq!(vblank, 1, "VBlank should be set after line {line}");
        } else {
            assert_eq!(vblank, 0, "VBlank should be clear after line {line}");
        }
    }
    assert_eq!(ppu.read_io(0x0400_0006).unwrap(), 0);
}

#[test]
fn vcount_advances_per_visible_line() {
    let mut ppu = Ppu::new();
    ppu.write_io(0x0400_0000, 0x03);
    ppu.render_line().unwrap();
    ppu.render_line().unwrap();
    assert_eq!(ppu.read_io(0x0400_0006).unwrap(), 2);
}

#[test]
fn mode3_places_pixel_at_row_and_column() {
    let mut ppu = Ppu::new();
    ppu.write_io(0x0400_0000, 0x03);
    // BGR555 pure green (0x03E0) for pixel x = 5 of scanline y = 1
    ppu.write_vram(0x0600_0000 + 480 + 10, 0xE0);
    ppu.write_vram(0x0600_0000 + 480 + 11, 0x03);
    ppu.render_line().unwrap();
    ppu.render_line().unwrap();
    assert_eq!(ppu.render_screen()[240 + 5], 0xFF00_F800);
    assert_eq!(ppu.render_screen()[240 + 4], 0xFF00_0000);
}
