use rustboy::EmuError;
use rustboy::mmu::MMU;
use rustboy::ppu::Modes;
use rustboy::ppu::PPU;

fn plain_rom() -> Vec<u8> {
    vec![0u8; 0x8000]
}

fn machine() -> (PPU, MMU) {
    let mmu = MMU::new(plain_rom()).unwrap();
    let ppu = PPU::new(&mmu);
    (ppu, mmu)
}

const FRAME: u32 = 70224;
const WHITE: u32 = 0x00FAFBF6;

#[test]
fn frame_cadence_and_uniform_frame() {
    // Cold boot: LCDC bit seven is set, VRAM is all zero; the frame latch
    // must rise exactly once every 70224 T-cycles and the frame must be
    // uniformly the shade the background palette maps colour zero to.
    let (mut ppu, mut mmu) = machine();
    let mut rises: Vec<u32> = Vec::new();
    for t in 0..(2 * FRAME + 10) {
        ppu.tick(&mut mmu).unwrap();
        if ppu.is_frame_ready() {
            rises.push(t);
        }
    }
    assert_eq!(rises.len(), 2);
    assert_eq!(rises[1] - rises[0], FRAME, "one whole frame between latches");
    assert_eq!(mmu.read_byte(0xFF47), 0xFC);
    // BGP 0xFC maps colour zero to shade zero.
    for px in ppu.get_frame_buffer().iter() {
        assert_eq!(*px, WHITE);
    }
}

#[test]
fn ly_wraps_and_mirrors_into_memory() {
    let (mut ppu, mut mmu) = machine();
    // One scanline is exactly 456 ticks.
    for _ in 0..456 {
        ppu.tick(&mut mmu).unwrap();
    }
    assert_eq!(ppu.ly, 1);
    assert_eq!(mmu.read_byte(0xFF44), 1);
    // Run to the end of the frame: LY wraps from 153 to 0.
    for _ in 0..(FRAME - 456) {
        ppu.tick(&mut mmu).unwrap();
    }
    assert_eq!(ppu.ly, 0);
    assert_eq!(ppu.cycles_spent, 0);
    assert_eq!(mmu.read_byte(0xFF44), 0);
}

#[test]
fn stat_low_bits_mirror_the_mode() {
    let (mut ppu, mut mmu) = machine();
    for _ in 0..(3 * 456) {
        ppu.tick(&mut mmu).unwrap();
        let num = match ppu.mode {
            Modes::HBLANK => 0,
            Modes::VBLANK => 1,
            Modes::OAMSCAN => 2,
            Modes::RENDER => 3,
        };
        assert_eq!(mmu.read_byte(0xFF41) & 0x03, num);
    }
}

#[test]
fn vblank_interrupt_on_entry() {
    let (mut ppu, mut mmu) = machine();
    mmu.write_byte(0xFF0F, 0x00).unwrap();
    // Lines 0..143 are drawn, then the blank begins one tick into line 144.
    for _ in 0..(144 * 456 + 1) {
        ppu.tick(&mut mmu).unwrap();
    }
    assert!(ppu.is_frame_ready());
    assert_eq!(ppu.mode, Modes::VBLANK);
    assert_ne!(mmu.read_byte(0xFF0F) & 0x01, 0, "VBLANK interrupt requested");
}

#[test]
fn sprite_buffer_caps_at_ten_in_table_order() {
    let (mut ppu, mut mmu) = machine();
    // Forty sprites all covering line zero; only the first ten stay.
    for k in 0..40u16 {
        mmu.write_byte(0xFE00 + 4 * k, 16).unwrap(); // y
        mmu.write_byte(0xFE00 + 4 * k + 1, 0).unwrap(); // x: off screen
    }
    for _ in 0..100 {
        ppu.tick(&mut mmu).unwrap();
    }
    assert_eq!(ppu.sprite_buffer.len(), 10);
    for (i, addr) in ppu.sprite_buffer.iter().enumerate() {
        assert_eq!(*addr, 0xFE00 + 4 * (i as u16), "chosen in table order");
    }
}

#[test]
fn sprite_buffer_skips_lines_outside_the_span() {
    let (mut ppu, mut mmu) = machine();
    // One eight-pixel sprite fully above line zero.
    mmu.write_byte(0xFE00, 8).unwrap();
    for _ in 0..100 {
        ppu.tick(&mut mmu).unwrap();
    }
    assert_eq!(ppu.sprite_buffer.len(), 0);
}

#[test]
fn lyc_match_requests_stat_interrupt() {
    let (mut ppu, mut mmu) = machine();
    mmu.write_byte(0xFF45, 2).unwrap(); // LYC
    mmu.write_byte(0xFF0F, 0x00).unwrap();
    for _ in 0..(2 * 456) {
        ppu.tick(&mut mmu).unwrap();
    }
    assert_eq!(ppu.ly, 2);
    assert_ne!(mmu.read_byte(0xFF0F) & 0x02, 0, "STAT interrupt on the LYC match");
}

#[test]
fn render_overrun_is_reported() {
    let (mut ppu, mut mmu) = machine();
    // Force the impossible state the mode machine refuses: still
    // rendering on the first blank line.
    ppu.mode = Modes::RENDER;
    ppu.ly = 144;
    let r = ppu.tick(&mut mmu);
    assert_eq!(r, Err(EmuError::RenderOverrun { ly: 144 }));
}

#[test]
fn palette_maps_colour_zero_through_bgp() {
    // BGP 0x03 maps colour zero to shade three: a uniform black frame.
    let (mut ppu, mut mmu) = machine();
    mmu.write_byte(0xFF47, 0x03).unwrap();
    for _ in 0..(FRAME + 10) {
        ppu.tick(&mut mmu).unwrap();
    }
    for px in ppu.get_frame_buffer().iter() {
        assert_eq!(*px, 0x000F0F1B);
    }
}

#[test]
fn background_tile_reaches_the_frame() {
    // Tile one is solid colour three; the first map cell points at it.
    // Through the default background palette that is the black shade.
    let (mut ppu, mut mmu) = machine();
    for i in 0..16u16 {
        mmu.write_byte(0x8010 + i, 0xFF).unwrap();
    }
    mmu.write_byte(0x9800, 0x01).unwrap();
    for _ in 0..(FRAME + 10) {
        ppu.tick(&mut mmu).unwrap();
    }
    let fb = ppu.get_frame_buffer();
    for x in 0..8 {
        assert_eq!(fb[x], 0x000F0F1B, "tile pixel {}", x);
    }
    assert_eq!(fb[8], WHITE, "past the tile the background is blank");
}

#[test]
fn sprite_overlays_the_background() {
    // One sprite at the top-left corner, solid colour three, drawn over a
    // zero background through OBP0.
    let (mut ppu, mut mmu) = machine();
    mmu.write_byte(0xFF40, 0x93).unwrap(); // enable sprites
    mmu.write_byte(0xFF48, 0xE4).unwrap(); // OBP0: colour three is black
    for i in 0..16u16 {
        mmu.write_byte(0x8010 + i, 0xFF).unwrap(); // tile one, colour three
    }
    mmu.write_byte(0xFE00, 16).unwrap(); // y: covers line zero
    mmu.write_byte(0xFE01, 8).unwrap(); // x: covers columns zero..eight
    mmu.write_byte(0xFE02, 0x01).unwrap(); // tile
    mmu.write_byte(0xFE03, 0x00).unwrap(); // attributes
    for _ in 0..(FRAME + 10) {
        ppu.tick(&mut mmu).unwrap();
    }
    let fb = ppu.get_frame_buffer();
    for x in 0..8 {
        assert_eq!(fb[x], 0x000F0F1B, "sprite pixel {}", x);
    }
    assert_eq!(fb[8], WHITE);
}

#[test]
fn lyc_coincidence_bit_follows_the_match() {
    let (mut ppu, mut mmu) = machine();
    mmu.write_byte(0xFF45, 2).unwrap(); // LYC
    for _ in 0..(2 * 456) {
        ppu.tick(&mut mmu).unwrap();
    }
    assert_eq!(ppu.ly, 2);
    assert_ne!(mmu.read_byte(0xFF41) & 0x04, 0, "coincidence bit set on the match");
    for _ in 0..456 {
        ppu.tick(&mut mmu).unwrap();
    }
    assert_eq!(ppu.ly, 3);
    assert_eq!(mmu.read_byte(0xFF41) & 0x04, 0, "cleared once the line moves on");
}
