use rustboy::joypad::Button;
use rustboy::mmu::MMU;

fn plain_rom() -> Vec<u8> {
    vec![0u8; 0x8000]
}

#[test]
fn post_boot_io_values() {
    let mmu = MMU::new(plain_rom()).unwrap();
    assert_eq!(mmu.read_byte(0xFF00), 0xCF);
    assert_eq!(mmu.read_byte(0xFF04), 0xAB, "DIV shows the counter's high byte");
    assert_eq!(mmu.read_byte(0xFF07), 0xF8);
    assert_eq!(mmu.read_byte(0xFF0F), 0xE1);
    assert_eq!(mmu.read_byte(0xFF40), 0x91);
    assert_eq!(mmu.read_byte(0xFF41), 0x85);
    assert_eq!(mmu.read_byte(0xFF46), 0xFF);
    assert_eq!(mmu.read_byte(0xFF47), 0xFC);
    assert_eq!(mmu.div_counter, 0xABCC);
}

#[test]
fn div_write_resets_counter() {
    let mut mmu = MMU::new(plain_rom()).unwrap();
    assert_eq!(mmu.read_byte(0xFF04), 0xAB);
    mmu.write_byte(0xFF04, 0x77).unwrap(); // any value clears it
    assert_eq!(mmu.div_counter, 0);
    assert_eq!(mmu.read_byte(0xFF04), 0x00);
    for _ in 0..0x300 {
        mmu.update_timers(1);
    }
    assert_eq!(mmu.read_byte(0xFF04), 0x03);
}

#[test]
fn echo_ram_mirrors_work_ram() {
    let mut mmu = MMU::new(plain_rom()).unwrap();
    mmu.write_byte(0xE005, 0xAB).unwrap();
    assert_eq!(mmu.read_byte(0xC005), 0xAB);
    mmu.write_byte(0xC123, 0x5C).unwrap();
    assert_eq!(mmu.read_byte(0xE123), 0x5C);
}

#[test]
fn unusable_region_reads_zero_and_drops_writes() {
    let mut mmu = MMU::new(plain_rom()).unwrap();
    mmu.write_byte(0xFEA5, 0x99).unwrap();
    assert_eq!(mmu.read_byte(0xFEA5), 0x00);
    assert_eq!(mmu.read_byte(0xA123), 0x00, "external RAM window reads zero");
}

#[test]
fn timer_falling_edge_scenario() {
    // TAC 0x05: enabled, 262144 Hz tap (DIV bit three).  Starting one
    // T-cycle before a tap fall with a cold edge latch, the first fall is
    // swallowed, the next increments TIMA once within 32 cycles, and the
    // one after that overflows it within 16 more.
    let mut mmu = MMU::new(plain_rom()).unwrap();
    mmu.write_byte(0xFF07, 0x05).unwrap();
    mmu.write_byte(0xFF06, 0xFF).unwrap(); // TMA
    mmu.write_byte(0xFF05, 0xFE).unwrap(); // TIMA
    mmu.write_byte(0xFF0F, 0x00).unwrap();
    mmu.div_counter = 31;
    mmu.prev_and_result = false;
    for _ in 0..32 {
        mmu.update_timers(1);
    }
    assert_eq!(mmu.read_byte(0xFF05), 0xFF, "one falling edge seen");
    assert_eq!(mmu.read_byte(0xFF0F) & 0x04, 0);
    for _ in 0..16 {
        mmu.update_timers(1);
    }
    assert_eq!(mmu.read_byte(0xFF05), 0xFF, "reloaded from TMA on overflow");
    assert_ne!(mmu.read_byte(0xFF0F) & 0x04, 0, "timer interrupt requested");
}

#[test]
fn timer_disabled_never_increments() {
    let mut mmu = MMU::new(plain_rom()).unwrap();
    mmu.write_byte(0xFF07, 0x01).unwrap(); // tap selected but disabled
    mmu.write_byte(0xFF05, 0x10).unwrap();
    for _ in 0..4096 {
        mmu.update_timers(1);
    }
    assert_eq!(mmu.read_byte(0xFF05), 0x10);
}

#[test]
fn oam_dma_transfer() {
    let mut mmu = MMU::new(plain_rom()).unwrap();
    for i in 0..0xA0u16 {
        mmu.write_byte(0xC000 + i, ((i * 3) % 256) as u8).unwrap();
    }
    mmu.write_byte(0xFF46, 0xC0).unwrap();
    assert_eq!(mmu.dma_cycles_counter, 0x0280);
    for _ in 0..639 {
        mmu.update_timers(1);
    }
    assert_ne!(mmu.read_byte(0xFE00 + 3), 9, "not yet visible before 640 cycles");
    mmu.update_timers(1);
    for i in 0..0xA0u16 {
        assert_eq!(mmu.read_byte(0xFE00 + i), ((i * 3) % 256) as u8);
    }
}

#[test]
fn joypad_select_and_interrupt() {
    let mut mmu = MMU::new(plain_rom()).unwrap();
    // Open the direction select line (active low bit four), keep bit five
    // high; only bits 0x30 of a write land in the register.
    mmu.write_byte(0xFF00, 0x20).unwrap();
    assert_eq!(mmu.read_byte(0xFF00) & 0x30, 0x20);
    mmu.write_byte(0xFF0F, 0x00).unwrap();
    mmu.press_key(Button::RIGHT);
    let pad = mmu.read_byte(0xFF00);
    assert_eq!(pad & 0x01, 0, "RIGHT shows in bit zero of the direction nibble");
    assert_ne!(mmu.read_byte(0xFF0F) & 0x10, 0, "joypad interrupt requested");
    mmu.release_key(Button::RIGHT);
    assert_eq!(mmu.read_byte(0xFF00) & 0x0F, 0x0F);
}

#[test]
fn joypad_no_select_reads_high() {
    let mut mmu = MMU::new(plain_rom()).unwrap();
    mmu.write_byte(0xFF00, 0x30).unwrap(); // both select lines closed
    mmu.press_key(Button::A);
    assert_eq!(mmu.read_byte(0xFF00) & 0x0F, 0x0F);
}

#[test]
fn rom_writes_reach_the_controller_not_memory() {
    let mut mmu = MMU::new(plain_rom()).unwrap();
    let before = mmu.read_byte(0x1234);
    mmu.write_byte(0x1234, 0x77).unwrap();
    assert_eq!(mmu.read_byte(0x1234), before, "flat ROM copy is not written");
}
