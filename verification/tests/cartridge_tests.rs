use rustboy::EmuError;
use rustboy::cartridge::Cartridge;
use rustboy::cartridge::create;

fn rom_with(kind: u8, rom_code: u8, ram_code: u8, banks: usize) -> Vec<u8> {
    let mut data = vec![0u8; 0x4000 * banks];
    data[0x0147] = kind;
    data[0x0148] = rom_code;
    data[0x0149] = ram_code;
    // Stamp each bank with its own number at its first byte.
    for k in 0..banks {
        data[0x4000 * k] = k as u8;
    }
    data
}

#[test]
fn create_rejects_unknown_type() {
    let data = rom_with(0x42, 0x00, 0x00, 2);
    assert_eq!(
        create(data).err().unwrap(),
        EmuError::UnsupportedCartridgeType { code: 0x42 }
    );
}

#[test]
fn create_rejects_unknown_sizes() {
    let data = rom_with(0x01, 0x42, 0x00, 2);
    assert_eq!(create(data).err().unwrap(), EmuError::UnsupportedRomSize { code: 0x42 });
    let data = rom_with(0x01, 0x00, 0x06, 2);
    assert_eq!(create(data).err().unwrap(), EmuError::UnsupportedRamSize { code: 0x06 });
}

#[test]
fn create_rejects_short_image() {
    let data = vec![0u8; 0x2000];
    assert_eq!(create(data).err().unwrap(), EmuError::RomTooShort);
    // Header claims four banks but only two are present.
    let data = rom_with(0x01, 0x01, 0x00, 2);
    assert_eq!(create(data).err().unwrap(), EmuError::RomTooShort);
}

#[test]
fn no_mbc_reads_rom_flat() {
    let cart = create(rom_with(0x00, 0x00, 0x00, 2)).unwrap();
    assert_eq!(cart.read_byte(0x0000).unwrap(), 0);
    assert_eq!(cart.read_byte(0x4000).unwrap(), 1);
    assert_eq!(cart.read_byte(0xA000).unwrap(), 0xFF);
}

#[test]
fn mbc1_bank_zero_reads_as_one() {
    let mut cart = create(rom_with(0x01, 0x01, 0x00, 4)).unwrap();
    cart.write_byte(0x2000, 0x00).unwrap();
    assert_eq!(cart.read_byte(0x4000).unwrap(), 1, "selector zero maps bank one");
    cart.write_byte(0x2000, 0x02).unwrap();
    assert_eq!(cart.read_byte(0x4000).unwrap(), 2);
    cart.write_byte(0x2000, 0x03).unwrap();
    assert_eq!(cart.read_byte(0x4000).unwrap(), 3);
    // The mask keeps the selector inside the four banks present.
    cart.write_byte(0x2000, 0x07).unwrap();
    assert_eq!(cart.read_byte(0x4000).unwrap(), 3);
}

#[test]
fn mbc1_ram_enable_gate() {
    let mut cart = create(rom_with(0x02, 0x01, 0x02, 4)).unwrap();
    assert_eq!(cart.read_byte(0xA000).unwrap(), 0xFF, "disabled RAM reads 0xFF");
    cart.write_byte(0xA000, 0x31).unwrap(); // dropped while disabled
    cart.write_byte(0x0000, 0x0A).unwrap(); // enable
    assert_eq!(cart.read_byte(0xA000).unwrap(), 0x00);
    cart.write_byte(0xA000, 0x5A).unwrap();
    assert_eq!(cart.read_byte(0xA000).unwrap(), 0x5A);
    cart.write_byte(0x0000, 0x00).unwrap(); // disable again
    assert_eq!(cart.read_byte(0xA000).unwrap(), 0xFF);
}

#[test]
fn mbc3_rtc_selection_is_an_error() {
    let mut cart = create(rom_with(0x11, 0x01, 0x02, 4)).unwrap();
    cart.write_byte(0x0000, 0x0A).unwrap();
    cart.write_byte(0x4000, 0x08).unwrap(); // select a clock register
    assert_eq!(cart.read_byte(0xA000), Err(EmuError::RtcNotImplemented));
    assert_eq!(cart.write_byte(0xA000, 1), Err(EmuError::RtcNotImplemented));
}

#[test]
fn mbc3_bank_zero_reads_as_one() {
    let mut cart = create(rom_with(0x11, 0x01, 0x00, 4)).unwrap();
    cart.write_byte(0x2000, 0x00).unwrap();
    assert_eq!(cart.read_byte(0x4000).unwrap(), 1);
    cart.write_byte(0x2000, 0x03).unwrap();
    assert_eq!(cart.read_byte(0x4000).unwrap(), 3);
}

#[test]
fn mbc3_bank_out_of_range_is_an_error() {
    let mut cart = create(rom_with(0x11, 0x01, 0x00, 4)).unwrap();
    cart.write_byte(0x2000, 0x20).unwrap(); // bank 32 of a 4-bank image
    assert_eq!(cart.read_byte(0x4000), Err(EmuError::BankOutOfRange { address: 0x4000 }));
}

#[test]
fn mbc5_bank_zero_is_valid() {
    let mut cart = create(rom_with(0x19, 0x01, 0x00, 4)).unwrap();
    cart.write_byte(0x2000, 0x00).unwrap();
    cart.write_byte(0x3000, 0x00).unwrap();
    assert_eq!(cart.read_byte(0x4000).unwrap(), 0, "no zero-to-one remap");
    cart.write_byte(0x2000, 0x02).unwrap();
    assert_eq!(cart.read_byte(0x4000).unwrap(), 2);
}

#[test]
fn mbc5_ram_banking() {
    let mut cart = create(rom_with(0x1A, 0x01, 0x02, 4)).unwrap();
    cart.write_byte(0x0000, 0x0A).unwrap();
    cart.write_byte(0x4000, 0x00).unwrap();
    cart.write_byte(0xA000, 0x11).unwrap();
    assert_eq!(cart.read_byte(0xA000).unwrap(), 0x11);
    // Bank register far beyond the allocated RAM: the access errors out.
    cart.write_byte(0x4000, 0x0F).unwrap();
    assert_eq!(cart.read_byte(0xA000), Err(EmuError::BankOutOfRange { address: 0xA000 }));
}

#[test]
fn header_title_and_bank_counts() {
    let mut data = rom_with(0x00, 0x01, 0x02, 4);
    let title = b"TETRIS";
    data[0x0134..0x0134 + title.len()].copy_from_slice(title);
    let cart: Cartridge = create(data).unwrap();
    assert_eq!(cart.get_title(), title.to_vec());
    assert_eq!(cart.get_total_rom_banks(), 4);
    assert_eq!(cart.get_total_ram_banks(), 4);
}

#[test]
fn title_stops_at_non_ascii() {
    let mut data = rom_with(0x00, 0x00, 0x00, 2);
    data[0x0134] = b'A';
    data[0x0135] = 0x80; // not ASCII: terminates
    data[0x0136] = b'B';
    let cart = create(data).unwrap();
    assert_eq!(cart.get_title(), vec![b'A']);
}
