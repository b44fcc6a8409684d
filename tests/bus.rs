use gameboy::bus::{LoadError, Ram};

/// A cartridge image: bank 0 filled with 0xB0, then one bank per byte of
/// `banks`, each filled with that byte.
fn image(banks: &[u8]) -> Vec<u8> {
    let mut data = vec![0xB0u8; 0x4000];
    for b in banks {
        data.extend(std::iter::repeat(*b).take(0x4000));
    }
    data
}

#[test]
fn echo_ram() {
    let mut ram = Ram::new();
    ram.write(0xC123, 0xAB);
    assert_eq!(ram.read(0xE123), 0xAB);
    ram.write(0xE321, 0x77);
    assert_eq!(ram.read(0xC321), 0x77);
}

#[test]
fn echo_ram_edges() {
    let mut ram = Ram::new();
    ram.write(0xDDFF, 0x11);
    assert_eq!(ram.read(0xFDFF), 0x11);
    ram.write(0xFE00, 0x22);
    assert_eq!(ram.read(0xFE00), 0x22);
    assert_eq!(ram.read(0xDE00), 0x00);
}

#[test]
fn reset_registers_on_the_bus() {
    let ram = Ram::new();
    assert_eq!(ram.read(0xFF40), 0x91);
    assert_eq!(ram.read(0xFF0F), 0xE1);
    assert_eq!(ram.read(0xC000), 0x00);
}

#[test]
fn bank_window_selection() {
    let mut ram = Ram::new();
    assert_eq!(ram.load(&image(&[1, 2, 3])), Ok(()));
    assert_eq!(ram.read(0x0000), 0xB0);
    assert_eq!(ram.read(0x4000), 1);
    ram.write(0x2000, 0x00);
    assert_eq!(ram.read(0x7FFF), 1);
    ram.write(0x2000, 0x01);
    assert_eq!(ram.read(0x4123), 1);
    ram.write(0x3FFF, 0x03);
    assert_eq!(ram.read(0x4000), 3);
    // Only the low five bits select the bank.
    ram.write(0x2000, 0xE2);
    assert_eq!(ram.read(0x5000), 2);
}

#[test]
fn bank_number_past_the_loaded_count_wraps() {
    let mut ram = Ram::new();
    ram.load(&image(&[1, 2, 3])).unwrap();
    ram.write(0x2000, 0x05);
    assert_eq!(ram.read(0x4000), 2);
}

#[test]
fn window_without_banks_reads_ff() {
    let ram = Ram::new();
    assert_eq!(ram.read(0x4000), 0xFF);
}

#[test]
fn rom_area_writes_are_ignored() {
    let mut ram = Ram::new();
    ram.load(&image(&[7])).unwrap();
    ram.write(0x0100, 0x55);
    ram.write(0x4100, 0x55);
    ram.write(0x6000, 0x55);
    assert_eq!(ram.read(0x0100), 0xB0);
    assert_eq!(ram.read(0x4100), 7);
}

#[test]
fn load_rejects_a_short_image() {
    let mut ram = Ram::new();
    assert_eq!(ram.load(&[0u8; 0x3FFF]), Err(LoadError::Truncated));
    assert_eq!(ram.read(0x0000), 0x00);
}

#[test]
fn load_drops_a_partial_tail() {
    let mut ram = Ram::new();
    let mut data = image(&[9]);
    data.extend([4u8; 100]);
    ram.load(&data).unwrap();
    ram.write(0x2000, 0x02);
    // One bank only: bank number 2 wraps back to it.
    assert_eq!(ram.read(0x4000), 9);
}

#[test]
fn oam_dma_copies_a_page() {
    let mut ram = Ram::new();
    for i in 0..0xA0u16 {
        ram.write(0xC000 + i, i as u8);
    }
    ram.write(0xFF46, 0xC0);
    assert_eq!(ram.read(0xFE00), 0x00);
    assert_eq!(ram.read(0xFE9F), 0x9F);
    assert_eq!(ram.read(0xFF46), 0xC0);
}
