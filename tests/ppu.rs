use gameboy::bus::Ram;
use gameboy::ppu::{shade, Mode, Ppu};

const LY: u16 = 0xFF44;
const IF: u16 = 0xFF0F;

#[test]
fn vblank_interrupt() {
    let mut ram = Ram::new();
    ram.write(LY, 143);
    ram.write(IF, 0x00);
    let mut ppu = Ppu::new();
    assert_eq!(ppu.mode(), Mode::Mode0);
    for _ in 0..18 {
        ppu.tick(&mut ram, 24);
    }
    ppu.tick(&mut ram, 23);
    assert_eq!(ppu.mode(), Mode::Mode0);
    assert_eq!(ram.read(IF) & 0x01, 0);
    ppu.tick(&mut ram, 1);
    assert_eq!(ppu.mode(), Mode::Mode1);
    assert_eq!(ram.read(IF) & 0x01, 1);
    assert_eq!(ram.read(LY), 144);
}

#[test]
fn frame_cadence() {
    let mut ram = Ram::new();
    ram.write(IF, 0x00);
    let mut ppu = Ppu::new();
    let mut starts = [0u32; 154];
    let mut vblanks = 0;
    let mut ly = ram.read(LY);
    for _ in 0..70224 {
        ppu.tick(&mut ram, 1);
        if ram.read(IF) & 1 == 1 {
            vblanks += 1;
            ram.write(IF, 0x00);
        }
        let now = ram.read(LY);
        if now != ly {
            starts[now as usize] += 1;
            ly = now;
        }
    }
    assert_eq!(vblanks, 1);
    assert!(starts.iter().all(|n| *n == 1));
    assert_eq!(ram.read(LY), 0);
    assert_eq!(ppu.mode(), Mode::Mode2);
}

#[test]
fn lcd_off_stands_still() {
    let mut ram = Ram::new();
    ram.write(0xFF40, 0x11);
    let mut ppu = Ppu::new();
    for _ in 0..100 {
        ppu.tick(&mut ram, 24);
    }
    assert_eq!(ram.read(LY), 0);
    assert_eq!(ppu.mode(), Mode::Mode0);
}

#[test]
fn background_pixels_come_out_leftmost_first() {
    let mut ram = Ram::new();
    // Tile 0 (unsigned addressing, LCDC bit 4): every row has only its
    // leftmost pixel (bit 7 of the low byte) set, colour 1.
    for row in 0..8u16 {
        ram.write(0x8000 + 2 * row, 0x80);
        ram.write(0x8001 + 2 * row, 0x00);
    }
    let mut ppu = Ppu::new();
    // Line 0 ends, then line 1 is scanned and drawn.
    for _ in 0..30 {
        ppu.tick(&mut ram, 24);
    }
    assert_eq!(ram.read(LY), 1);
    assert_eq!(ppu.mode(), Mode::Mode0);
    let fb = ppu.framebuffer();
    assert_eq!(fb.len(), 160 * 144);
    assert_eq!(fb[160], 1);
    assert_eq!(fb[161], 0);
    assert_eq!(fb[167], 0);
    assert_eq!(fb[168], 1);
    assert_eq!(fb[160 + 152], 1);
    assert_eq!(fb[0], 0);
}

#[test]
fn tile_colours_use_both_bytes() {
    let mut ram = Ram::new();
    for row in 0..8u16 {
        ram.write(0x8000 + 2 * row, 0b1010_0000);
        ram.write(0x8001 + 2 * row, 0b1100_0000);
    }
    let mut ppu = Ppu::new();
    for _ in 0..30 {
        ppu.tick(&mut ram, 24);
    }
    let fb = ppu.framebuffer();
    assert_eq!(&fb[160..164], &[3, 2, 1, 0]);
}

/// Writes OAM slot `i`.
fn oam(ram: &mut Ram, i: u16, y: u8, x: u8, tile: u8) {
    ram.write(0xFE00 + 4 * i, y);
    ram.write(0xFE01 + 4 * i, x);
    ram.write(0xFE02 + 4 * i, tile);
    ram.write(0xFE03 + 4 * i, 0);
}

#[test]
fn oam_scan_orders_by_priority() {
    let mut ram = Ram::new();
    for i in 0..40 {
        oam(&mut ram, i, 0xA0, 0, 0);
    }
    oam(&mut ram, 0, 0, 10, 1);
    oam(&mut ram, 1, 1, 5, 2);
    oam(&mut ram, 2, 1, 10, 3);
    oam(&mut ram, 3, 50, 0, 4);
    let mut ppu = Ppu::new();
    // The scan of line 1 runs as line 0 ends.
    for _ in 0..19 {
        ppu.tick(&mut ram, 24);
    }
    assert_eq!(ppu.mode(), Mode::Mode2);
    let objects = ppu.objects();
    let picked: Vec<(u8, u8, u8)> = objects.iter().map(|o| (o.oam, o.x, o.index)).collect();
    assert_eq!(picked, vec![(2, 10, 3), (0, 10, 1), (1, 5, 2)]);
}

#[test]
fn oam_scan_keeps_the_first_ten() {
    let mut ram = Ram::new();
    for i in 0..40 {
        oam(&mut ram, i, 0, i as u8, 0);
    }
    let mut ppu = Ppu::new();
    for _ in 0..19 {
        ppu.tick(&mut ram, 24);
    }
    let oams: Vec<u8> = ppu.objects().iter().map(|o| o.oam).collect();
    assert_eq!(oams, vec![9, 8, 7, 6, 5, 4, 3, 2, 1, 0]);
}

#[test]
fn tall_objects_cover_sixteen_lines() {
    let mut ram = Ram::new();
    ram.write(0xFF40, 0x95);
    for i in 0..40 {
        oam(&mut ram, i, 0xA0, 0, 0);
    }
    oam(&mut ram, 5, 0xF8, 1, 0);
    oam(&mut ram, 6, 0, 2, 0);
    let mut ppu = Ppu::new();
    ram.write(LY, 9);
    for _ in 0..19 {
        ppu.tick(&mut ram, 24);
    }
    assert_eq!(ram.read(LY), 10);
    let oams: Vec<u8> = ppu.objects().iter().map(|o| o.oam).collect();
    assert_eq!(oams, vec![6]);
}

#[test]
fn palette_shades() {
    assert_eq!(shade(0), 0x8CDEC6);
    assert_eq!(shade(1), 0x63A584);
    assert_eq!(shade(2), 0x396139);
    assert_eq!(shade(3), 0x101808);
}

#[test]
fn each_scan_starts_a_fresh_list() {
    let mut ram = Ram::new();
    for i in 0..40 {
        oam(&mut ram, i, 0xA0, 0, 0);
    }
    oam(&mut ram, 0, 1, 30, 0);
    oam(&mut ram, 1, 9, 40, 0);
    ram.write(LY, 7);
    let mut ppu = Ppu::new();
    for _ in 0..19 {
        ppu.tick(&mut ram, 24);
    }
    assert_eq!(ram.read(LY), 8);
    let oams: Vec<u8> = ppu.objects().iter().map(|o| o.oam).collect();
    assert_eq!(oams, vec![0]);
    for _ in 0..19 {
        ppu.tick(&mut ram, 24);
    }
    assert_eq!(ram.read(LY), 9);
    let oams: Vec<u8> = ppu.objects().iter().map(|o| o.oam).collect();
    assert_eq!(oams, vec![1]);
}
