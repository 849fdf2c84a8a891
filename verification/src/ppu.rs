//! Pixel-processing unit: the four-mode scanline state machine, the OAM
//! scan that picks at most ten sprites per line in table order, the
//! background/window and sprite FIFOs, and the per-T-cycle pixel mixer
//! that fills the 160 by 144 frame buffer.  A scanline lasts exactly 456
//! T-cycles and a frame 154 scanlines; `tick` advances one T-cycle.
use crate::EmuError;
use crate::mmu::MMU;
use crate::mmu::MmuV;
use crate::mmu::mmu_wf;
use crate::utils::is_bit_set;
use crate::utils::lemma_mask_bounds_u8;
use crate::utils::spec_bit8;
use crate::cpu::w_add8;
use crate::cpu::w_sub8;
use crate::cpu::w_add_signed16;
use std::collections::VecDeque;
use vstd::prelude::*;

verus! {

#[derive(Clone, Copy, Debug, PartialEq, Eq, Structural)]
pub enum Modes {
    HBLANK,
    VBLANK,
    OAMSCAN,
    RENDER,
}

/// The two-bit mode number the STAT register shows.
pub open spec fn mode_num(m: Modes) -> u8 {
    match m {
        Modes::HBLANK => 0,
        Modes::VBLANK => 1,
        Modes::OAMSCAN => 2,
        Modes::RENDER => 3,
    }
}

fn mode_from_bits(value: u8) -> (r: Modes)
    requires
        value < 4,
    ensures
        mode_num(r) == value,
{
    if value == 0 {
        Modes::HBLANK
    } else if value == 1 {
        Modes::VBLANK
    } else if value == 2 {
        Modes::OAMSCAN
    } else {
        Modes::RENDER
    }
}

/// The four shades, as 32-bit pixels.
pub open spec fn spec_shade(shade: u8) -> u32 {
    if shade == 0 {
        0x00FAFBF6
    } else if shade == 1 {
        0x00C6B7BE
    } else if shade == 2 {
        0x00565A75
    } else {
        0x000F0F1B
    }
}

/// Colour a palette byte assigns to a two-bit colour id.
pub open spec fn spec_palette_color(palette: u8, color_id: u8) -> u32 {
    spec_shade((palette >> (2 * color_id)) & 3)
}

/// Pixel `j` of a tile row held in a low and a high byte: the high byte
/// carries the upper colour bit, leftmost pixel first.
pub open spec fn spec_tile_pixel(lo: u8, hi: u8, j: int) -> u8 {
    ((if spec_bit8(hi, (7 - j) as u8) {
        2int
    } else {
        0int
    }) + (if spec_bit8(lo, (7 - j) as u8) {
        1int
    } else {
        0int
    })) as u8
}

/// One slot of the sprite FIFO: a colour id, the palette register it goes
/// through, and the background-priority attribute bit.
pub struct SpriteFifoData {
    pub color: u8,
    pub palette_address: u16,
    pub bg_obj_priority_flag: bool,
}

pub struct PPU {
    pub frame_buffer: Vec<u32>,
    pub frame_ready: bool,
    pub background_fifo: VecDeque<u8>,
    pub sprite_fifo: VecDeque<SpriteFifoData>,
    pub sprite_buffer: VecDeque<u16>,
    pub interrupt_triggered: bool,
    pub cycles_waste: u16,
    pub cycles_spent: u16,
    pub mode: Modes,
    pub wy: u8,
    pub wx: u8,
    pub ly: u8,
    pub lx: u8,
    pub w_present: bool,
    pub w_ly: u8,
    pub w_lx: u8,
}

/// Everything that holds of the unit between ticks: counter and FIFO
/// bounds, which lines each mode can be on, and the budget of suppressed
/// cycles each mode can still carry.
pub open spec fn ppu_wf(p: PPU) -> bool {
    &&& p.frame_buffer@.len() == 23040
    &&& p.cycles_spent < 456
    &&& p.ly < 154
    &&& p.lx <= 160
    &&& p.background_fifo@.len() <= 16
    &&& (forall|i: int|
        0 <= i < p.background_fifo@.len() ==> #[trigger] p.background_fifo@[i] <= 3)
    &&& p.sprite_fifo@.len() <= 8
    &&& (forall|i: int|
        0 <= i < p.sprite_fifo@.len() ==> (#[trigger] p.sprite_fifo@[i].color <= 3 && (
        p.sprite_fifo@[i].palette_address == 0xFF48 || p.sprite_fifo@[i].palette_address
            == 0xFF49)))
    &&& p.sprite_buffer@.len() <= 10
    &&& (forall|i: int|
        0 <= i < p.sprite_buffer@.len() ==> sprite_slot_ok(#[trigger] p.sprite_buffer@[i]))
    &&& (p.mode is OAMSCAN ==> p.ly < 144 && p.cycles_spent <= 80 && p.lx == 0)
    &&& (p.mode is RENDER ==> p.ly <= 144)
    &&& (p.mode is HBLANK ==> p.ly <= 144 && (p.ly == 144 ==> p.cycles_spent == 0))
    &&& (p.mode is VBLANK ==> (p.ly >= 144 || (p.ly == 0 && p.cycles_spent == 0)))
    &&& (p.mode is VBLANK ==> p.w_ly == 0)
    &&& (p.w_present ==> p.ly < 144)
    &&& (p.ly <= 143 ==> p.w_ly <= p.ly)
    &&& p.w_ly <= 144
    &&& (p.mode is OAMSCAN ==> p.cycles_waste + p.cycles_spent <= 104)
    &&& (p.mode is RENDER ==> p.cycles_waste <= 36)
    &&& (p.mode is HBLANK ==> p.cycles_waste <= 25)
    &&& (p.mode is VBLANK ==> p.cycles_waste <= 25)
    &&& (p.mode is VBLANK ==> !p.w_present)
    &&& (p.cycles_spent == 0 ==> p.lx == 0)
    &&& (p.mode is RENDER && p.lx == 160 ==> p.cycles_waste <= 13)
}

/// Position of the unit inside the 70224-T-cycle frame.
pub open spec fn frame_pos(p: PPU) -> int {
    p.ly * 456 + p.cycles_spent
}

/// Sprite table entries chosen for line `ly` from slot `k` on, in table
/// order, while `room` is left: an entry is taken when the line cuts its
/// vertical span.
pub open spec fn spec_oam_take(mem: Seq<u8>, ly: u8, size: u8, k: int, room: int) -> Seq<u16>
    decreases 40 - k,
{
    if k < 0 || k >= 40 || room <= 0 {
        Seq::empty()
    } else {
        let addr = 0xFE00 + 4 * k;
        let y = mem[addr];
        if y <= ly + 16 && ly + 16 < y + size {
            seq![addr as u16] + spec_oam_take(mem, ly, size, k + 1, room - 1)
        } else {
            spec_oam_take(mem, ly, size, k + 1, room)
        }
    }
}

/// A sprite-table slot address: aligned on four bytes inside the table.
pub open spec fn sprite_slot_ok(a: u16) -> bool {
    0xFE00 <= a <= 0xFE9C && (a - 0xFE00) % 4 == 0
}

/// Whether the sprite at `addr` covers screen column `lx`.
pub open spec fn spec_covers(mem: Seq<u8>, lx: u8, addr: u16) -> bool {
    ({
        let ox = mem[addr + 1];
        ox <= lx + 8 && lx < ox
    })
}

/// The first sprite of the buffer, in buffer order, whose horizontal
/// span covers column `lx`.
pub open spec fn spec_first_cover(sb: Seq<u16>, mem: Seq<u8>, lx: u8) -> Option<u16>
    decreases sb.len(),
{
    if sb.len() == 0 {
        None
    } else if spec_covers(mem, lx, sb[0]) {
        Some(sb[0])
    } else {
        spec_first_cover(sb.drop_first(), mem, lx)
    }
}

fn tile_pixel(lo: u8, hi: u8, j: u8) -> (r: u8)
    requires
        j < 8,
    ensures
        r == spec_tile_pixel(lo, hi, j as int),
        r <= 3,
{
    (if is_bit_set(hi, 7 - j) {
        2u8
    } else {
        0u8
    }) + (if is_bit_set(lo, 7 - j) {
        1u8
    } else {
        0u8
    })
}

fn zero_frame() -> (v: Vec<u32>)
    ensures
        v@.len() == 23040,
        forall|i: int| 0 <= i < 23040 ==> v@[i] == 0u32,
{
    let mut v: Vec<u32> = Vec::new();
    let mut i: usize = 0;
    while i < 23040
        invariant
            i <= 23040,
            v@.len() == i,
            forall|j: int| 0 <= j < i ==> v@[j] == 0u32,
        decreases 23040 - i,
    {
        v.push(0);
        i = i + 1;
    }
    v
}

impl PPU {
    /// Decode one tile row into its eight pixels, leftmost first.
    fn get_tile_row(a: u8, b: u8) -> (r: [u8; 8])
        ensures
            forall|j: int| 0 <= j < 8 ==> #[trigger] r@[j] == spec_tile_pixel(a, b, j),
            forall|j: int| 0 <= j < 8 ==> #[trigger] r@[j] <= 3,
    {
        let r = [
            tile_pixel(a, b, 0),
            tile_pixel(a, b, 1),
            tile_pixel(a, b, 2),
            tile_pixel(a, b, 3),
            tile_pixel(a, b, 4),
            tile_pixel(a, b, 5),
            tile_pixel(a, b, 6),
            tile_pixel(a, b, 7),
        ];
        r
    }

    /// Map a colour id through a palette byte to a 32-bit pixel.
    fn palette_to_color(palette: u8, color_id: u8) -> (r: u32)
        requires
            color_id <= 3,
        ensures
            r == spec_palette_color(palette, color_id),
    {
        proof {
            lemma_mask_bounds_u8();
        }
        let shade = (palette >> (2 * color_id)) & 3;
        if shade == 0 {
            0x00FAFBF6  // white
        } else if shade == 1 {
            0x00C6B7BE  // light gray
        } else if shade == 2 {
            0x00565A75  // dark gray
        } else {
            0x000F0F1B  // black
        }
    }

    /// A unit synchronised to the memory state: mode and line are taken
    /// from STAT and LY, which must name a state the mode machine can be
    /// in at the start of a scanline tick.
    pub fn new(mmu: &MMU) -> (r: PPU)
        requires
            mmu_wf(mmu@),
            mmu@.mem[0xFF44] < 154,
            mmu@.mem[0xFF41] & 3 == 2 ==> mmu@.mem[0xFF44] < 144,
            mmu@.mem[0xFF41] & 3 == 3 ==> mmu@.mem[0xFF44] <= 144,
            mmu@.mem[0xFF41] & 3 == 0 ==> mmu@.mem[0xFF44] <= 144,
            mmu@.mem[0xFF41] & 3 == 1 ==> (mmu@.mem[0xFF44] >= 144 || mmu@.mem[0xFF44] == 0),
        ensures
            ppu_wf(r),
            mode_num(r.mode) == mmu@.mem[0xFF41] & 3,
            r.ly == mmu@.mem[0xFF44],
            r.wy == mmu@.mem[0xFF4A],
            r.wx == mmu@.mem[0xFF4B],
            r.cycles_spent == 0 && r.lx == 0 && !r.frame_ready,
            r.frame_buffer@.len() == 23040,
            forall|i: int| 0 <= i < 23040 ==> r.frame_buffer@[i] == 0u32,
            r.background_fifo@.len() == 0,
            r.sprite_fifo@.len() == 0,
            r.sprite_buffer@.len() == 0,
    {
        proof {
            lemma_mask_bounds_u8();
        }
        let stat = mmu.read_byte(0xFF41);
        PPU {
            frame_buffer: zero_frame(),
            frame_ready: false,
            background_fifo: VecDeque::new(),
            sprite_fifo: VecDeque::new(),
            sprite_buffer: VecDeque::new(),
            interrupt_triggered: false,
            cycles_waste: 0,
            cycles_spent: 0,
            mode: mode_from_bits(stat & 0x03),
            wy: mmu.read_byte(0xFF4A),
            wx: mmu.read_byte(0xFF4B),
            ly: mmu.read_byte(0xFF44),
            lx: 0,
            w_present: false,
            w_ly: 0,
            w_lx: 0,
        }
    }

    pub fn is_frame_ready(&self) -> (r: bool)
        ensures
            r == self.frame_ready,
    {
        self.frame_ready
    }

    /// The finished 160 by 144 frame, row-major from the top left.
    pub fn get_frame_buffer(&self) -> (r: &Vec<u32>)
        ensures
            r@ == self.frame_buffer@,
    {
        &self.frame_buffer
    }

    /// Scan the whole sprite table for this line and keep the first ten
    /// entries, in table order, whose vertical span covers it.
    fn oamscan(&mut self, mmu: &MMU)
        requires
            mmu_wf(mmu@),
            old(self).ly < 154,
            old(self).sprite_buffer@.len() <= 10,
            forall|i: int|
                0 <= i < old(self).sprite_buffer@.len() ==> sprite_slot_ok(
                    #[trigger] old(self).sprite_buffer@[i],
                ),
        ensures
            final(self).sprite_buffer@ == old(self).sprite_buffer@ + spec_oam_take(
                mmu@.mem,
                old(self).ly,
                if spec_bit8(mmu@.mem[0xFF40], 2) {
                    16
                } else {
                    8
                },
                0,
                10 - old(self).sprite_buffer@.len(),
            ),
            final(self).sprite_buffer@.len() <= 10,
            forall|i: int|
                0 <= i < final(self).sprite_buffer@.len() ==> sprite_slot_ok(
                    #[trigger] final(self).sprite_buffer@[i],
                ),
            *final(self) == (PPU { sprite_buffer: final(self).sprite_buffer, ..*old(self) }),
    {
        let obj_size: u8 = if is_bit_set(mmu.read_byte(0xFF40), 2) {
            16
        } else {
            8
        };
        let ghost base = old(self).sprite_buffer@;
        let ghost goal = base + spec_oam_take(mmu@.mem, old(self).ly, obj_size, 0, 10 - base.len());
        let mut k: usize = 0;
        while self.sprite_buffer.len() < 10 && k < 40
            invariant
                mmu_wf(mmu@),
                self.ly < 154,
                k <= 40,
                obj_size == 8 || obj_size == 16,
                obj_size == (if spec_bit8(mmu@.mem[0xFF40], 2) {
                    16u8
                } else {
                    8u8
                }),
                base.len() <= 10,
                base.len() <= self.sprite_buffer@.len() <= 10,
                goal == base + spec_oam_take(mmu@.mem, old(self).ly, obj_size, 0, 10 - base.len()),
                goal =~= self.sprite_buffer@ + spec_oam_take(
                    mmu@.mem,
                    old(self).ly,
                    obj_size,
                    k as int,
                    10 - self.sprite_buffer@.len(),
                ),
                forall|i: int| 0 <= i < base.len() ==> #[trigger] self.sprite_buffer@[i] == base[i],
                forall|i: int|
                    base.len() <= i < self.sprite_buffer@.len() ==> sprite_slot_ok(
                        #[trigger] self.sprite_buffer@[i],
                    ),
                forall|i: int|
                    0 <= i < base.len() ==> sprite_slot_ok(#[trigger] base[i]),
                *self == (PPU { sprite_buffer: self.sprite_buffer, ..*old(self) }),
            decreases 40 - k,
        {
            let ghost pre = self.sprite_buffer@;
            let address: u16 = 0xFE00 + 4 * (k as u16);
            let obj_y = mmu.read_byte(address);
            if obj_y as u16 <= self.ly as u16 + 16 && (self.ly as u16 + 16) < obj_y as u16
                + obj_size as u16 {
                self.sprite_buffer.push_back(address);
                proof {
                    assert(spec_oam_take(
                        mmu@.mem,
                        old(self).ly,
                        obj_size,
                        k as int,
                        10 - pre.len(),
                    ) == seq![address] + spec_oam_take(
                        mmu@.mem,
                        old(self).ly,
                        obj_size,
                        k + 1,
                        10 - pre.len() - 1,
                    ));
                    assert(pre + (seq![address] + spec_oam_take(
                        mmu@.mem,
                        old(self).ly,
                        obj_size,
                        k + 1,
                        10 - pre.len() - 1,
                    )) =~= (pre + seq![address]) + spec_oam_take(
                        mmu@.mem,
                        old(self).ly,
                        obj_size,
                        k + 1,
                        10 - pre.len() - 1,
                    ));
                    assert(pre + seq![address] =~= pre.push(address));
                }
            }
            k = k + 1;
        }
        proof {
            assert(spec_oam_take(
                mmu@.mem,
                old(self).ly,
                obj_size,
                k as int,
                10 - self.sprite_buffer@.len(),
            ) =~= Seq::<u16>::empty());
            assert(self.sprite_buffer@ + Seq::<u16>::empty() =~= self.sprite_buffer@);
        }
    }
}

/// Colours pushed into the sprite FIFO when the sprite at `addr` is
/// fetched at column `lx`: the tail of its decoded row from the column
/// it starts covering, through its palette, honouring both flips, the
/// double-height tile choice and the sprite-enable bit.
pub open spec fn spec_sprite_entries(p: PPU, mem: Seq<u8>, addr: u16) -> Seq<SpriteFifoData> {
    ({
        let lcdc = mem[0xFF40];
        let oy = mem[addr as int];
        let ox = mem[addr + 1];
        let tno = mem[addr + 2];
        let attr = mem[addr + 3];
        let pal: u16 = if spec_bit8(attr, 4) {
            0xFF49
        } else {
            0xFF48
        };
        let prio = spec_bit8(attr, 7);
        let tsel: u8 = if spec_bit8(lcdc, 2) {
            if spec_bit8(attr, 6) != (p.ly + 8 < oy) {
                tno & 0xFE
            } else {
                tno | 0x01
            }
        } else {
            tno
        };
        let row0 = w_sub8((p.ly + 16) as u8, oy) % 8;
        let row: u8 = if spec_bit8(attr, 6) {
            (7 - row0) as u8
        } else {
            row0
        };
        let daddr = 0x8000 + 16 * tsel + 2 * row;
        let lo = mem[daddr as int];
        let hi = mem[daddr + 1];
        Seq::new(
            (ox - p.lx) as nat,
            |m: int|
                SpriteFifoData {
                    color: if spec_bit8(lcdc, 1) {
                        if spec_bit8(attr, 5) {
                            spec_tile_pixel(lo, hi, 7 - (p.lx + 8 - ox + m))
                        } else {
                            spec_tile_pixel(lo, hi, p.lx + 8 - ox + m)
                        }
                    } else {
                        0
                    },
                    palette_address: pal,
                    bg_obj_priority_flag: prio,
                },
        )
    })
}

/// The eight background or window pixels one tile fetch yields at the
/// unit's current position, before any alignment drop: map base and tile
/// data address per the control register, all pixels zero when the
/// background is disabled.
pub open spec fn spec_bg_pixels(p: PPU, mem: Seq<u8>) -> Seq<u8> {
    ({
        let lcdc = mem[0xFF40];
        let scy = mem[0xFF42];
        let scx = mem[0xFF43];
        let is_window = spec_bit8(lcdc, 5) && p.ly >= p.wy && p.lx + 7 >= p.wx;
        let tmap: int = if (if is_window {
            spec_bit8(lcdc, 6)
        } else {
            spec_bit8(lcdc, 3)
        }) {
            0x9C00
        } else {
            0x9800
        };
        let line: u8 = if is_window {
            p.w_ly
        } else {
            w_add8(scy, p.ly)
        };
        let tx: u8 = (if is_window {
            w_sub8((p.lx + 7) as u8, p.wx)
        } else {
            w_add8(scx, p.lx)
        }) / 8;
        let tno = mem[tmap + 32 * (line / 8) + tx];
        let taddr: int = (if spec_bit8(lcdc, 4) {
            (0x8000 + 16 * tno) as u16
        } else {
            w_add_signed16(0x9000, 16 * (tno as i8))
        }) + 2 * (line % 8);
        let lo = mem[taddr];
        let hi = mem[taddr + 1];
        Seq::new(
            8,
            |j: int|
                if spec_bit8(lcdc, 0) {
                    spec_tile_pixel(lo, hi, j)
                } else {
                    0u8
                },
        )
    })
}

/// How many leading pixels the first fetch of a scanline drops to align
/// with the fine scroll (or the window start).
pub open spec fn spec_bg_drop(p: PPU, mem: Seq<u8>) -> int {
    if p.lx != 0 {
        0
    } else {
        let lcdc = mem[0xFF40];
        let is_window = spec_bit8(lcdc, 5) && p.ly >= p.wy && p.lx + 7 >= p.wx;
        let remaining: int = if is_window {
            1 + p.wx
        } else {
            8 - (mem[0xFF43] % 8)
        };
        if 8 > remaining {
            8 - remaining
        } else {
            0
        }
    }
}

impl PPU {
    /// First sprite of this line's buffer whose horizontal span covers
    /// the current column, in buffer order.
    fn find_object_address(&self, mmu: &MMU) -> (r: Option<u16>)
        requires
            mmu_wf(mmu@),
            self.lx <= 160,
            forall|i: int|
                0 <= i < self.sprite_buffer@.len() ==> sprite_slot_ok(
                    #[trigger] self.sprite_buffer@[i],
                ),
        ensures
            r == spec_first_cover(self.sprite_buffer@, mmu@.mem, self.lx),
            r is Some ==> spec_covers(mmu@.mem, self.lx, r->0) && sprite_slot_ok(r->0),
            r is None ==> forall|i: int|
                0 <= i < self.sprite_buffer@.len() ==> !spec_covers(
                    mmu@.mem,
                    self.lx,
                    #[trigger] self.sprite_buffer@[i],
                ),
    {
        let ghost sb = self.sprite_buffer@;
        proof {
            assert(sb.skip(0) =~= sb);
        }
        let mut i: usize = 0;
        while i < self.sprite_buffer.len()
            invariant
                mmu_wf(mmu@),
                self.lx <= 160,
                i <= sb.len(),
                sb == self.sprite_buffer@,
                forall|k: int| 0 <= k < sb.len() ==> sprite_slot_ok(#[trigger] sb[k]),
                spec_first_cover(sb, mmu@.mem, self.lx) == spec_first_cover(
                    sb.skip(i as int),
                    mmu@.mem,
                    self.lx,
                ),
                forall|j: int| 0 <= j < i ==> !spec_covers(mmu@.mem, self.lx, #[trigger] sb[j]),
            decreases sb.len() - i,
        {
            let address = self.sprite_buffer[i];
            let obj_x = mmu.read_byte(address + 1);
            proof {
                assert(sb.skip(i as int)[0] == sb[i as int]);
            }
            if obj_x as u16 <= self.lx as u16 + 8 && self.lx < obj_x {
                return Some(address);
            }
            proof {
                assert(sb.skip(i as int).drop_first() =~= sb.skip(i + 1));
            }
            i = i + 1;
        }
        proof {
            assert(sb.skip(sb.len() as int) =~= Seq::<u16>::empty());
        }
        None
    }

    /// Refill the empty background FIFO from one tile fetch, dropping
    /// alignment pixels (one suppressed cycle each) at the line start.
    fn fill_background_fifo(&mut self, mmu: &MMU)
        requires
            mmu_wf(mmu@),
            old(self).background_fifo@.len() == 0,
            old(self).lx <= 160,
            old(self).cycles_waste <= 100,
        ensures
            final(self).background_fifo@ == spec_bg_pixels(*old(self), mmu@.mem).skip(
                spec_bg_drop(*old(self), mmu@.mem),
            ),
            1 <= final(self).background_fifo@.len() <= 8,
            forall|i: int|
                0 <= i < final(self).background_fifo@.len()
                    ==> #[trigger] final(self).background_fifo@[i] <= 3,
            final(self).cycles_waste == old(self).cycles_waste + spec_bg_drop(
                *old(self),
                mmu@.mem,
            ),
            0 <= spec_bg_drop(*old(self), mmu@.mem) <= 7,
            *final(self) == (PPU {
                background_fifo: final(self).background_fifo,
                cycles_waste: final(self).cycles_waste,
                ..*old(self)
            }),
    {
        let ghost pix = spec_bg_pixels(*old(self), mmu@.mem);
        let scy = mmu.read_byte(0xFF42);
        let scx = mmu.read_byte(0xFF43);
        let lcdc = mmu.read_byte(0xFF40);
        let bg_enable = is_bit_set(lcdc, 0);
        let is_window = is_bit_set(lcdc, 5) && self.ly >= self.wy && self.lx + 7 >= self.wx;
        let tile_map_address: u16 = if (if is_window {
            is_bit_set(lcdc, 6)
        } else {
            is_bit_set(lcdc, 3)
        }) {
            0x9C00
        } else {
            0x9800
        };
        let line: u8 = if is_window {
            self.w_ly
        } else {
            scy.wrapping_add(self.ly)
        };
        let tile_x: u8 = (if is_window {
            (self.lx + 7).wrapping_sub(self.wx)
        } else {
            scx.wrapping_add(self.lx)
        }) / 8;
        let tile_no = mmu.read_byte(tile_map_address + (32 * (line / 8) as u16) + tile_x as u16);
        let tile_address: u16 = (if is_bit_set(lcdc, 4) {
            0x8000 + (16 * (tile_no as u16))
        } else {
            0x9000u16.wrapping_add_signed(16 * (#[verifier::truncate] (tile_no as i8)) as i16)
        }) + (2 * (line % 8) as u16);
        let lb = mmu.read_byte(tile_address);
        let hb = mmu.read_byte(tile_address + 1);
        let pixels = Self::get_tile_row(lb, hb);
        let mut j: usize = 0;
        while j < 8
            invariant
                j <= 8,
                self.background_fifo@.len() == j,
                forall|m: int| 0 <= m < j ==> #[trigger] self.background_fifo@[m] == pix[m],
                forall|m: int| 0 <= m < j ==> #[trigger] self.background_fifo@[m] <= 3,
                pix.len() == 8,
                forall|m: int| 0 <= m < 8 ==> #[trigger] pix[m] <= 3,
                forall|m: int|
                    0 <= m < 8 ==> #[trigger] pix[m] == (if bg_enable {
                        pixels@[m]
                    } else {
                        0u8
                    }),
                forall|m: int| 0 <= m < 8 ==> #[trigger] pixels@[m] <= 3,
                *self == (PPU { background_fifo: self.background_fifo, ..*old(self) }),
            decreases 8 - j,
        {
            let p = if bg_enable {
                pixels[j]
            } else {
                0
            };
            self.background_fifo.push_back(p);
            j = j + 1;
        }
        proof {
            assert(self.background_fifo@ =~= pix);
        }
        if self.lx == 0 {
            let remaining: usize = if is_window {
                1 + self.wx as usize
            } else {
                (8 - (scx % 8)) as usize
            };
            let ghost drops = spec_bg_drop(*old(self), mmu@.mem);
            proof {
                assert(1 <= remaining <= 8);
                assert(drops == (if 8 > remaining {
                    8 - remaining
                } else {
                    0int
                }));
            }
            while self.background_fifo.len() > remaining
                invariant
                    1 <= remaining <= 8,
                    self.background_fifo@.len() >= remaining,
                    pix.len() == 8,
                    1 <= self.background_fifo@.len() <= 8,
                    self.background_fifo@ == pix.skip(8 - self.background_fifo@.len()),
                    self.cycles_waste == old(self).cycles_waste + (8
                        - self.background_fifo@.len()),
                    old(self).cycles_waste <= 100,
                    *self == (PPU {
                        background_fifo: self.background_fifo,
                        cycles_waste: self.cycles_waste,
                        ..*old(self)
                    }),
                decreases self.background_fifo@.len(),
            {
                self.cycles_waste = self.cycles_waste + 1;
                let ghost pre = self.background_fifo@;
                self.background_fifo.pop_front();
                proof {
                    assert(self.background_fifo@ =~= pix.skip(8 - self.background_fifo@.len()));
                }
            }
            proof {
                assert(self.background_fifo@.len() == (if 8 > remaining {
                    remaining as int
                } else {
                    8int
                }));
                assert(self.background_fifo@ =~= pix.skip(drops));
            }
        } else {
            proof {
                assert(self.background_fifo@ =~= pix.skip(0));
            }
        }
    }

    /// Refill the empty sprite FIFO at the current column: one
    /// transparent slot when no buffered sprite covers it, else the row
    /// tail of the first covering sprite of the buffer, after charging
    /// six suppressed cycles.
    fn fill_sprite_fifo(&mut self, mmu: &MMU)
        requires
            mmu_wf(mmu@),
            old(self).sprite_fifo@.len() == 0,
            old(self).lx < 160,
            old(self).ly < 154,
            old(self).cycles_waste <= 100,
            forall|i: int|
                0 <= i < old(self).sprite_buffer@.len() ==> sprite_slot_ok(
                    #[trigger] old(self).sprite_buffer@[i],
                ),
        ensures
            1 <= final(self).sprite_fifo@.len() <= 8,
            forall|i: int|
                0 <= i < final(self).sprite_fifo@.len()
                    ==> (#[trigger] final(self).sprite_fifo@[i].color <= 3
                    && (final(self).sprite_fifo@[i].palette_address == 0xFF48
                    || final(self).sprite_fifo@[i].palette_address == 0xFF49)),
            *final(self) == (PPU {
                sprite_fifo: final(self).sprite_fifo,
                cycles_waste: final(self).cycles_waste,
                ..*old(self)
            }),
            ({
                let first = spec_first_cover(old(self).sprite_buffer@, mmu@.mem, old(self).lx);
                match first {
                    None => final(self).sprite_fifo@ == seq![
                        SpriteFifoData {
                            color: 0,
                            palette_address: 0xFF48,
                            bg_obj_priority_flag: true,
                        },
                    ] && final(self).cycles_waste == old(self).cycles_waste,
                    Some(addr) => final(self).cycles_waste == old(self).cycles_waste + 6
                        && final(self).sprite_fifo@ == spec_sprite_entries(
                        *old(self),
                        mmu@.mem,
                        addr,
                    ),
                }
            }),
    {
        let obj_addr = self.find_object_address(mmu);
        if obj_addr.is_none() {
            proof {
                assert(forall|i: int|
                    0 <= i < self.sprite_buffer@.len() ==> !spec_covers(
                        mmu@.mem,
                        self.lx,
                        #[trigger] self.sprite_buffer@[i],
                    ));
            }
            self.sprite_fifo.push_back(
                SpriteFifoData { color: 0, palette_address: 0xFF48, bg_obj_priority_flag: true },
            );
            proof {
                assert(self.sprite_fifo@ =~= seq![
                    SpriteFifoData {
                        color: 0,
                        palette_address: 0xFF48,
                        bg_obj_priority_flag: true,
                    },
                ]);
            }
            return ;
        }
        self.cycles_waste = self.cycles_waste + 6;
        let obj_addr = obj_addr.unwrap();
        let ghost entries = spec_sprite_entries(*old(self), mmu@.mem, obj_addr);
        let lcdc = mmu.read_byte(0xFF40);
        let obj_enable_flag = is_bit_set(lcdc, 1);
        let obj_size = is_bit_set(lcdc, 2);
        let obj_y = mmu.read_byte(obj_addr);
        let obj_x = mmu.read_byte(obj_addr + 1);
        let obj_tile_index = mmu.read_byte(obj_addr + 2);
        let obj_attr = mmu.read_byte(obj_addr + 3);
        let bg_obj_priority_flag = is_bit_set(obj_attr, 7);
        let y_flip = is_bit_set(obj_attr, 6);
        let x_flip = is_bit_set(obj_attr, 5);
        let obj_palette_address: u16 = if is_bit_set(obj_attr, 4) {
            0xFF49
        } else {
            0xFF48
        };
        let tile_sel: u8 = if obj_size {
            if y_flip != (self.ly + 8 < obj_y) {
                obj_tile_index & 0xFE
            } else {
                obj_tile_index | 0x01
            }
        } else {
            obj_tile_index
        };
        let mut obj_data_index: u8 = (self.ly + 16).wrapping_sub(obj_y) % 8;
        if y_flip {
            obj_data_index = 7 - obj_data_index;
        }
        let obj_data_address: u16 = 0x8000 + 16 * (tile_sel as u16) + 2 * (obj_data_index as u16);
        let lo = mmu.read_byte(obj_data_address);
        let hi = mmu.read_byte(obj_data_address + 1);
        let pixels = Self::get_tile_row(lo, hi);
        let start: u8 = self.lx + 8 - obj_x;
        let mut idx: u8 = start;
        while idx < 8
            invariant
                start <= idx <= 8,
                start == self.lx + 8 - obj_x,
                self.lx < 160,
                obj_x <= self.lx + 8,
                self.lx < obj_x,
                entries.len() == obj_x - self.lx,
                self.sprite_fifo@.len() == idx - start,
                forall|m: int| 0 <= m < idx - start ==> #[trigger] self.sprite_fifo@[m]
                    == entries[m],
                forall|m: int|
                    0 <= m < entries.len() ==> (#[trigger] entries[m].color <= 3
                        && (entries[m].palette_address == 0xFF48 || entries[m].palette_address
                        == 0xFF49)),
                forall|m: int|
                    start <= m < 8 ==> #[trigger] entries[m - start] == (SpriteFifoData {
                        color: if obj_enable_flag {
                            if x_flip {
                                pixels@[7 - m]
                            } else {
                                pixels@[m]
                            }
                        } else {
                            0u8
                        },
                        palette_address: obj_palette_address,
                        bg_obj_priority_flag: bg_obj_priority_flag,
                    }),
                forall|m: int| 0 <= m < 8 ==> #[trigger] pixels@[m] <= 3,
                self.cycles_waste == old(self).cycles_waste + 6,
                *self == (PPU {
                    sprite_fifo: self.sprite_fifo,
                    cycles_waste: self.cycles_waste,
                    ..*old(self)
                }),
            decreases 8 - idx,
        {
            let color: u8 = if obj_enable_flag {
                if x_flip {
                    pixels[(7 - idx) as usize]
                } else {
                    pixels[idx as usize]
                }
            } else {
                0
            };
            self.sprite_fifo.push_back(
                SpriteFifoData {
                    color,
                    palette_address: obj_palette_address,
                    bg_obj_priority_flag,
                },
            );
            idx = idx + 1;
        }
        proof {
            assert(self.sprite_fifo@ =~= entries);
            assert(spec_covers(mmu@.mem, old(self).lx, obj_addr));
        }
    }
}

/// Colour written for one mixed pixel: the background pixel through the
/// background palette when the sprite slot is transparent or yields
/// priority over a non-zero background, else the sprite colour through
/// its own palette.
pub open spec fn spec_mix(mem: Seq<u8>, bgv: u8, sd: SpriteFifoData) -> u32 {
    if sd.color == 0 || (sd.bg_obj_priority_flag && bgv > 0) {
        spec_palette_color(mem[0xFF47], bgv)
    } else {
        spec_palette_color(mem[sd.palette_address as int], sd.color)
    }
}

/// Touching the coincidence bit leaves the mode bits of STAT alone.
proof fn lemma_coincidence_keeps_mode()
    by (bit_vector)
    ensures
        forall|x: u8| #[trigger] ((x | 0x04) & 3) == x & 3,
        forall|x: u8| #[trigger] ((x & !0x04) & 3) == x & 3,
{
}

/// Whether the window starts at the unit's current position: not yet
/// shown this scanline, enabled, and the position inside it.
pub open spec fn spec_window_start(p: PPU, mem: Seq<u8>) -> bool {
    !p.w_present && spec_bit8(mem[0xFF40], 5) && p.ly >= p.wy && p.lx + 7 >= p.wx
}

/// Whether this render cycle refetches the background FIFO: a window
/// start drops the old queue, and an empty queue is refilled.
pub open spec fn spec_bg_refill(p: PPU, mem: Seq<u8>) -> bool {
    spec_window_start(p, mem) || p.background_fifo@.len() == 0
}

/// The background queue this render cycle mixes from.
pub open spec fn spec_render_bg(p: PPU, mem: Seq<u8>) -> Seq<u8> {
    if spec_bg_refill(p, mem) {
        spec_bg_pixels(p, mem).skip(spec_bg_drop(p, mem))
    } else {
        p.background_fifo@
    }
}

/// Suppressed cycles charged before the sprite stage: six for a window
/// start and one per alignment pixel dropped by a line-start refetch.
pub open spec fn spec_render_pre_waste(p: PPU, mem: Seq<u8>) -> int {
    (if spec_window_start(p, mem) {
        6int
    } else {
        0int
    }) + (if spec_bg_refill(p, mem) {
        spec_bg_drop(p, mem)
    } else {
        0int
    })
}

/// The sprite queue this render cycle mixes from: the pending queue, or
/// on an empty queue the first covering sprite's row tail, or one
/// transparent slot when nothing covers the column.
pub open spec fn spec_sprite_queue(p: PPU, mem: Seq<u8>) -> Seq<SpriteFifoData> {
    if p.sprite_fifo@.len() == 0 {
        match spec_first_cover(p.sprite_buffer@, mem, p.lx) {
            None => seq![
                SpriteFifoData { color: 0, palette_address: 0xFF48, bg_obj_priority_flag: true },
            ],
            Some(addr) => spec_sprite_entries(p, mem, addr),
        }
    } else {
        p.sprite_fifo@
    }
}

/// Six further suppressed cycles when an empty sprite queue fetches a
/// covering sprite.
pub open spec fn spec_sprite_fetch_waste(p: PPU, mem: Seq<u8>) -> int {
    if p.sprite_fifo@.len() == 0 && spec_first_cover(p.sprite_buffer@, mem, p.lx) is Some {
        6
    } else {
        0
    }
}

/// Whether this render cycle stalls instead of mixing a pixel: a sprite
/// refetch found suppressed cycles pending.
pub open spec fn spec_render_stall(p: PPU, mem: Seq<u8>) -> bool {
    p.sprite_fifo@.len() == 0 && spec_render_pre_waste(p, mem) + spec_sprite_fetch_waste(p, mem)
        > 0
}

/// Mode the scanline machine moves to in one tick, for a well-formed
/// state that is not a render overrun.
pub open spec fn spec_next_mode(m: Modes, ly: u8, c: u16, lx: u8) -> Modes {
    match m {
        Modes::VBLANK => if ly == 0 && c == 0 {
            Modes::OAMSCAN
        } else {
            Modes::VBLANK
        },
        Modes::OAMSCAN => if c < 80 {
            Modes::OAMSCAN
        } else {
            Modes::RENDER
        },
        Modes::RENDER => if lx < 160 {
            Modes::RENDER
        } else {
            Modes::HBLANK
        },
        Modes::HBLANK => if c == 0 {
            if ly < 144 {
                Modes::OAMSCAN
            } else {
                Modes::VBLANK
            }
        } else {
            Modes::HBLANK
        },
    }
}

impl PPU {
    /// One render-mode T-cycle: start the window when it first applies,
    /// refill whichever FIFO ran dry, and when no suppressed cycles are
    /// pending mix one pixel into the frame buffer and move one column
    /// right.
    fn render(&mut self, mmu: &MMU)
        requires
            mmu_wf(mmu@),
            old(self).ly < 144,
            old(self).lx < 160,
            old(self).cycles_waste == 0,
            old(self).frame_buffer@.len() == 23040,
            old(self).background_fifo@.len() <= 16,
            forall|i: int|
                0 <= i < old(self).background_fifo@.len()
                    ==> #[trigger] old(self).background_fifo@[i] <= 3,
            old(self).sprite_fifo@.len() <= 8,
            forall|i: int|
                0 <= i < old(self).sprite_fifo@.len()
                    ==> (#[trigger] old(self).sprite_fifo@[i].color <= 3
                    && (old(self).sprite_fifo@[i].palette_address == 0xFF48
                    || old(self).sprite_fifo@[i].palette_address == 0xFF49)),
            old(self).sprite_buffer@.len() <= 10,
            forall|i: int|
                0 <= i < old(self).sprite_buffer@.len() ==> sprite_slot_ok(
                    #[trigger] old(self).sprite_buffer@[i],
                ),
        ensures
            final(self).ly == old(self).ly,
            final(self).cycles_spent == old(self).cycles_spent,
            final(self).mode == old(self).mode,
            final(self).frame_ready == old(self).frame_ready,
            final(self).interrupt_triggered == old(self).interrupt_triggered,
            final(self).w_ly == old(self).w_ly,
            final(self).wy == old(self).wy,
            final(self).wx == old(self).wx,
            final(self).sprite_buffer@ == old(self).sprite_buffer@,
            final(self).frame_buffer@.len() == 23040,
            forall|k: int|
                0 <= k < 23040 && k != old(self).ly * 160 + old(self).lx
                    ==> #[trigger] final(self).frame_buffer@[k] == old(self).frame_buffer@[k],
            old(self).lx <= final(self).lx <= old(self).lx + 1,
            final(self).cycles_waste <= 24,
            final(self).lx == old(self).lx + 1 ==> final(self).cycles_waste <= 13,
            final(self).lx == old(self).lx ==> final(self).frame_buffer@ == old(
                self,
            ).frame_buffer@,
            final(self).background_fifo@.len() <= 16,
            forall|i: int|
                0 <= i < final(self).background_fifo@.len()
                    ==> #[trigger] final(self).background_fifo@[i] <= 3,
            final(self).sprite_fifo@.len() <= 8,
            forall|i: int|
                0 <= i < final(self).sprite_fifo@.len()
                    ==> (#[trigger] final(self).sprite_fifo@[i].color <= 3
                    && (final(self).sprite_fifo@[i].palette_address == 0xFF48
                    || final(self).sprite_fifo@[i].palette_address == 0xFF49)),
            final(self).w_present ==> (old(self).w_present || old(self).ly < 144),
            ({
                // The exact outcome: either the cycle stalls on freshly
                // charged suppressed cycles, or exactly one pixel is
                // mixed from the two queue fronts and the column
                // advances.
                let p = *old(self);
                let mem = mmu@.mem;
                let bgq = spec_render_bg(p, mem);
                let sq = spec_sprite_queue(p, mem);
                let pw = spec_render_pre_waste(p, mem);
                &&& final(self).w_present == (p.w_present || spec_window_start(p, mem))
                &&& final(self).w_lx == (if spec_window_start(p, mem) {
                    p.lx as int
                } else {
                    p.w_lx as int
                })
                &&& (spec_render_stall(p, mem) ==> {
                    &&& final(self).lx == p.lx
                    &&& final(self).frame_buffer@ == p.frame_buffer@
                    &&& final(self).background_fifo@ == bgq
                    &&& final(self).sprite_fifo@ == sq
                    &&& final(self).cycles_waste == pw + spec_sprite_fetch_waste(p, mem) + (if
                    p.lx != 0 && bgq.len() < 6 {
                        6 - bgq.len()
                    } else {
                        0int
                    })
                })
                &&& (!spec_render_stall(p, mem) ==> {
                    &&& final(self).lx == p.lx + 1
                    &&& final(self).frame_buffer@ == p.frame_buffer@.update(
                        p.ly * 160 + p.lx,
                        spec_mix(mem, bgq[0], sq[0]),
                    )
                    &&& final(self).background_fifo@ == bgq.drop_first()
                    &&& final(self).sprite_fifo@ == sq.drop_first()
                    &&& final(self).cycles_waste == pw
                })
            }),
    {
        let ghost gm = mmu@.mem;
        if !self.w_present && is_bit_set(mmu.read_byte(0xFF40), 5) && self.ly >= self.wy && self.lx
            + 7 >= self.wx {
            self.background_fifo.clear();
            self.w_present = true;
            self.cycles_waste = self.cycles_waste + 6;
            self.w_lx = self.lx;
        }
        if self.background_fifo.len() == 0 {
            let ghost pcall = *self;
            self.fill_background_fifo(mmu);
            proof {
                assert(spec_bg_pixels(pcall, gm) =~= spec_bg_pixels(*old(self), gm));
                assert(spec_bg_drop(pcall, gm) == spec_bg_drop(*old(self), gm));
                assert(self.background_fifo@ =~= spec_render_bg(*old(self), gm));
            }
        } else {
            proof {
                assert(self.background_fifo@ =~= spec_render_bg(*old(self), gm));
            }
        }
        if self.sprite_fifo.len() == 0 {
            let ghost pcall = *self;
            self.fill_sprite_fifo(mmu);
            proof {
                if spec_first_cover(pcall.sprite_buffer@, gm, pcall.lx) is Some {
                    let addr = spec_first_cover(pcall.sprite_buffer@, gm, pcall.lx)->0;
                    assert(spec_sprite_entries(pcall, gm, addr) =~= spec_sprite_entries(
                        *old(self),
                        gm,
                        addr,
                    ));
                }
                assert(self.sprite_fifo@ =~= spec_sprite_queue(*old(self), gm));
            }
            if self.cycles_waste > 0 {
                if self.lx != 0 && self.background_fifo.len() < 6 {
                    self.cycles_waste = self.cycles_waste + 6 - (self.background_fifo.len()
                        as u16);
                }
                return ;
            }
        } else {
            proof {
                assert(self.sprite_fifo@ =~= spec_sprite_queue(*old(self), gm));
            }
        }
        let bg_pixel = self.background_fifo.pop_front().unwrap();
        let obj_data = self.sprite_fifo.pop_front().unwrap();
        proof {
            assert(self.background_fifo@ =~= spec_render_bg(*old(self), gm).drop_first());
            assert(self.sprite_fifo@ =~= spec_sprite_queue(*old(self), gm).drop_first());
        }
        let color: u32 = if obj_data.color == 0 || (obj_data.bg_obj_priority_flag && bg_pixel > 0) {
            Self::palette_to_color(mmu.read_byte(0xFF47), bg_pixel)
        } else {
            Self::palette_to_color(mmu.read_byte(obj_data.palette_address), obj_data.color)
        };
        let idx: usize = (self.ly as usize) * 160 + (self.lx as usize);
        self.frame_buffer.set(idx, color);
        proof {
            assert(self.frame_buffer@ =~= old(self).frame_buffer@.update(
                old(self).ly * 160 + old(self).lx,
                spec_mix(gm, bg_pixel, obj_data),
            ));
        }
        self.lx = self.lx + 1;
    }

    /// Step the mode machine, mirror the new mode into STAT, and apply
    /// the entry effects: the OAM-scan and warm-up cycle budgets, and on
    /// entering the vertical blank the frame latch, the window-line
    /// reset and the VBLANK interrupt; a newly entered non-render mode
    /// with its STAT select bit set requests the STAT interrupt once per
    /// scanline.  A render mode that survives to the blank lines is
    /// reported as an overrun and changes nothing.
    fn update_mode(&mut self, mmu: &mut MMU) -> (r: Result<(), EmuError>)
        requires
            mmu_wf(old(mmu)@),
            old(self).cycles_spent < 456,
            old(self).ly < 154,
            old(self).lx <= 160,
            old(self).mode is OAMSCAN ==> old(self).ly < 144 && old(self).cycles_spent <= 80,
            old(self).mode is RENDER ==> old(self).ly <= 144,
            old(self).mode is HBLANK ==> old(self).ly <= 144 && (old(self).ly == 144 ==> old(
                self,
            ).cycles_spent == 0),
            old(self).mode is VBLANK ==> (old(self).ly >= 144 || (old(self).ly == 0 && old(
                self,
            ).cycles_spent == 0)),
            old(self).cycles_waste <= 104,
        ensures
            mmu_wf(final(mmu)@),
            r is Err <==> (old(self).mode is RENDER && old(self).ly >= 144),
            r is Err ==> r == Err::<(), EmuError>(EmuError::RenderOverrun { ly: old(self).ly })
                && *final(self) == *old(self) && final(mmu)@ == old(mmu)@,
            r is Ok ==> ({
                let nm = spec_next_mode(
                    old(self).mode,
                    old(self).ly,
                    old(self).cycles_spent,
                    old(self).lx,
                );
                let stat0 = old(mmu)@.mem[0xFF41];
                let m1 = MmuV {
                    mem: old(mmu)@.mem.update(0xFF41, (stat0 & 0xFC) | mode_num(nm)),
                    ..old(mmu)@
                };
                let m2 = if nm is VBLANK {
                    MmuV { mem: m1.mem.update(0xFF0F, m1.mem[0xFF0F] | (1u8 << 0u8)), ..m1 }
                } else {
                    m1
                };
                let stat_sel = !(nm is RENDER) && !old(self).interrupt_triggered && spec_bit8(
                    stat0,
                    (3 + mode_num(nm)) as u8,
                );
                let m3 = if stat_sel {
                    MmuV { mem: m2.mem.update(0xFF0F, m2.mem[0xFF0F] | (1u8 << 1u8)), ..m2 }
                } else {
                    m2
                };
                &&& final(self).mode == nm
                &&& final(self).ly == old(self).ly
                &&& final(self).cycles_spent == old(self).cycles_spent
                &&& final(self).lx == old(self).lx
                &&& final(self).wy == old(self).wy
                &&& final(self).wx == old(self).wx
                &&& final(self).w_present == old(self).w_present
                &&& final(self).w_lx == old(self).w_lx
                &&& final(self).background_fifo@ == old(self).background_fifo@
                &&& final(self).sprite_fifo@ == old(self).sprite_fifo@
                &&& final(self).sprite_buffer@ == old(self).sprite_buffer@
                &&& final(self).frame_buffer@ == old(self).frame_buffer@
                &&& (nm == old(self).mode ==> *final(self) == *old(self) && final(mmu)@ == old(
                    mmu,
                )@)
                &&& (nm != old(self).mode ==> {
                    &&& final(mmu)@ == m3
                    &&& final(self).cycles_waste == old(self).cycles_waste + (if nm is OAMSCAN {
                        79int
                    } else if nm is RENDER {
                        12int
                    } else {
                        0int
                    })
                    &&& final(self).frame_ready == (old(self).frame_ready || nm is VBLANK)
                    &&& final(self).w_ly == (if nm is VBLANK {
                        0int
                    } else {
                        old(self).w_ly as int
                    })
                    &&& final(self).interrupt_triggered == (old(self).interrupt_triggered
                        || stat_sel)
                })
            }),
    {
        let prev_mode = self.mode;
        let next: Modes = match self.mode {
            Modes::VBLANK => {
                if self.ly == 0 && self.cycles_spent == 0 {
                    Modes::OAMSCAN
                } else {
                    Modes::VBLANK
                }
            },
            Modes::OAMSCAN => {
                if self.cycles_spent < 80 {
                    Modes::OAMSCAN
                } else {
                    Modes::RENDER
                }
            },
            Modes::RENDER => {
                if self.ly >= 144 {
                    return Err(EmuError::RenderOverrun { ly: self.ly });
                }
                if self.lx < 160 {
                    Modes::RENDER
                } else {
                    Modes::HBLANK
                }
            },
            Modes::HBLANK => {
                if self.cycles_spent == 0 {
                    if self.ly < 144 {
                        Modes::OAMSCAN
                    } else {
                        Modes::VBLANK
                    }
                } else {
                    Modes::HBLANK
                }
            },
        };
        self.mode = next;
        if next == prev_mode {
            return Ok(());
        }
        let stat = mmu.read_byte(0xFF41);
        let num: u8 = match next {
            Modes::HBLANK => 0,
            Modes::VBLANK => 1,
            Modes::OAMSCAN => 2,
            Modes::RENDER => 3,
        };
        let wr = mmu.write_byte(0xFF41, (stat & 0xFC) | num);
        proof {
            assert(wr is Ok);
        }
        match next {
            Modes::OAMSCAN => {
                self.cycles_waste = self.cycles_waste + 79;
            },
            Modes::RENDER => {
                self.cycles_waste = self.cycles_waste + 12;
            },
            Modes::VBLANK => {
                self.w_ly = 0;
                self.frame_ready = true;
                mmu.request_interrupt(0);
            },
            _ => {},
        };
        if num != 3 && !self.interrupt_triggered && is_bit_set(stat, 3 + num) {
            self.interrupt_triggered = true;
            mmu.request_interrupt(1);
        }
        Ok(())
    }
}

impl PPU {
    /// One non-transition T-cycle of work: drain one suppressed cycle if
    /// any is pending, else scan the sprite table or render one pixel,
    /// depending on the mode.
    fn process(&mut self, mmu: &MMU)
        requires
            mmu_wf(mmu@),
            old(self).frame_buffer@.len() == 23040,
            old(self).cycles_spent < 456,
            old(self).ly < 154,
            old(self).lx <= 160,
            old(self).background_fifo@.len() <= 16,
            forall|i: int|
                0 <= i < old(self).background_fifo@.len()
                    ==> #[trigger] old(self).background_fifo@[i] <= 3,
            old(self).sprite_fifo@.len() <= 8,
            forall|i: int|
                0 <= i < old(self).sprite_fifo@.len()
                    ==> (#[trigger] old(self).sprite_fifo@[i].color <= 3
                    && (old(self).sprite_fifo@[i].palette_address == 0xFF48
                    || old(self).sprite_fifo@[i].palette_address == 0xFF49)),
            old(self).sprite_buffer@.len() <= 10,
            forall|i: int|
                0 <= i < old(self).sprite_buffer@.len() ==> sprite_slot_ok(
                    #[trigger] old(self).sprite_buffer@[i],
                ),
            old(self).mode is RENDER ==> old(self).ly < 144 && old(self).lx < 160,
            old(self).mode is OAMSCAN ==> old(self).ly < 144
                && old(self).cycles_waste + old(self).cycles_spent <= 104,
            old(self).mode is RENDER ==> old(self).cycles_waste <= 36,
            old(self).mode is HBLANK ==> old(self).cycles_waste <= 25,
            old(self).mode is VBLANK ==> old(self).cycles_waste <= 25,
        ensures
            final(self).ly == old(self).ly,
            final(self).cycles_spent == old(self).cycles_spent,
            final(self).mode == old(self).mode,
            final(self).frame_ready == old(self).frame_ready,
            final(self).interrupt_triggered == old(self).interrupt_triggered,
            final(self).w_ly == old(self).w_ly,
            final(self).wy == old(self).wy,
            final(self).wx == old(self).wx,
            final(self).frame_buffer@.len() == 23040,
            old(self).lx <= final(self).lx <= old(self).lx + 1,
            !(old(self).mode is RENDER) ==> final(self).lx == old(self).lx,
            !(old(self).mode is RENDER)
                ==> final(self).frame_buffer@ == old(self).frame_buffer@,
            final(self).w_present == old(self).w_present || (old(self).mode is RENDER
                && old(self).ly < 144),
            final(self).background_fifo@.len() <= 16,
            forall|i: int|
                0 <= i < final(self).background_fifo@.len()
                    ==> #[trigger] final(self).background_fifo@[i] <= 3,
            final(self).sprite_fifo@.len() <= 8,
            forall|i: int|
                0 <= i < final(self).sprite_fifo@.len()
                    ==> (#[trigger] final(self).sprite_fifo@[i].color <= 3
                    && (final(self).sprite_fifo@[i].palette_address == 0xFF48
                    || final(self).sprite_fifo@[i].palette_address == 0xFF49)),
            final(self).sprite_buffer@.len() <= 10,
            forall|i: int|
                0 <= i < final(self).sprite_buffer@.len() ==> sprite_slot_ok(
                    #[trigger] final(self).sprite_buffer@[i],
                ),
            old(self).mode is OAMSCAN ==> final(self).cycles_waste == (if old(
                self,
            ).cycles_waste > 0 {
                old(self).cycles_waste - 1
            } else {
                0int
            }) && final(self).lx == old(self).lx,
            old(self).mode is RENDER ==> final(self).cycles_waste <= 36,
            old(self).mode is HBLANK ==> final(self).cycles_waste <= 25,
            old(self).mode is VBLANK ==> final(self).cycles_waste <= 25,
            old(self).mode is RENDER && final(self).lx == old(self).lx + 1
                ==> final(self).cycles_waste <= 13,
    {
        if self.cycles_waste > 0 {
            self.cycles_waste = self.cycles_waste - 1;
            return ;
        }
        match self.mode {
            Modes::OAMSCAN => self.oamscan(mmu),
            Modes::RENDER => self.render(mmu),
            _ => {},
        };
    }

    /// Close a scanline: drop the per-line FIFOs and sprite buffer, step
    /// the window line counter if the window showed, resample the window
    /// registers, advance LY (wrapping 153 to 0), publish it at 0xFF44,
    /// and maintain the STAT coincidence bit: on an LYC match it is set
    /// and the STAT interrupt raised, otherwise it is cleared.
    fn setup_for_new_scanline(&mut self, mmu: &mut MMU)
        requires
            mmu_wf(old(mmu)@),
            old(self).ly < 154,
            old(self).w_present ==> old(self).w_ly <= 200,
        ensures
            mmu_wf(final(mmu)@),
            final(self).interrupt_triggered == (old(mmu)@.mem[0xFF45] == ((old(self).ly + 1)
                % 154)),
            final(self).background_fifo@.len() == 0,
            final(self).sprite_fifo@.len() == 0,
            final(self).sprite_buffer@.len() == 0,
            final(self).w_ly == old(self).w_ly + (if old(self).w_present {
                1int
            } else {
                0int
            }),
            final(self).w_lx == 0,
            !final(self).w_present,
            final(self).wy == old(mmu)@.mem[0xFF4A],
            final(self).wx == old(mmu)@.mem[0xFF4B],
            final(self).ly == (old(self).ly + 1) % 154,
            old(self).ly == 153 ==> final(self).ly == 0 && final(mmu)@.mem[0xFF44] == 0,
            final(self).lx == 0,
            final(self).mode == old(self).mode,
            final(self).cycles_spent == old(self).cycles_spent,
            final(self).cycles_waste == old(self).cycles_waste,
            final(self).frame_ready == old(self).frame_ready,
            final(self).frame_buffer@ == old(self).frame_buffer@,
            ({
                let nly = ((old(self).ly + 1) % 154) as u8;
                let m1 = MmuV { mem: old(mmu)@.mem.update(0xFF44, nly), ..old(mmu)@ };
                final(mmu)@ == (if old(mmu)@.mem[0xFF45] == nly {
                    let m2 = MmuV {
                        mem: m1.mem.update(0xFF41, m1.mem[0xFF41] | 0x04),
                        ..m1
                    };
                    MmuV { mem: m2.mem.update(0xFF0F, m2.mem[0xFF0F] | (1u8 << 1u8)), ..m2 }
                } else {
                    MmuV { mem: m1.mem.update(0xFF41, m1.mem[0xFF41] & !0x04), ..m1 }
                })
            }),
    {
        self.interrupt_triggered = false;
        self.background_fifo.clear();
        self.sprite_fifo.clear();
        self.sprite_buffer.clear();
        if self.w_present {
            self.w_ly = self.w_ly + 1;
        }
        self.w_lx = 0;
        self.w_present = false;
        self.wy = mmu.read_byte(0xFF4A);
        self.wx = mmu.read_byte(0xFF4B);
        let lyc = mmu.read_byte(0xFF45);
        self.ly = (self.ly + 1) % 154;
        self.lx = 0;
        let wr = mmu.write_byte(0xFF44, self.ly);
        proof {
            assert(wr is Ok);
        }
        let stat = mmu.read_byte(0xFF41);
        if lyc == self.ly {
            self.interrupt_triggered = true;
            let wr2 = mmu.write_byte(0xFF41, stat | 0x04);
            proof {
                assert(wr2 is Ok);
            }
            mmu.request_interrupt(1);
        } else {
            let wr2 = mmu.write_byte(0xFF41, stat & !0x04);
            proof {
                assert(wr2 is Ok);
            }
        }
    }

    /// Advance the unit by one T-cycle.  The frame position moves one
    /// step modulo 70224; the frame latch rises exactly on the tick that
    /// enters the vertical blank, so consecutive rises are exactly one
    /// frame apart; LY wraps from 153 to 0 at a frame boundary; the STAT
    /// low bits mirror the mode.  The only failure is a scanline still
    /// rendering on the first blank line.
    pub fn tick(&mut self, mmu: &mut MMU) -> (r: Result<(), EmuError>)
        requires
            ppu_wf(*old(self)),
            mmu_wf(old(mmu)@),
        ensures
            mmu_wf(final(mmu)@),
            r is Err <==> (old(self).mode is RENDER && old(self).ly >= 144),
            r is Err ==> r == Err::<(), EmuError>(EmuError::RenderOverrun { ly: old(self).ly })
                && final(mmu)@ == old(mmu)@ && *final(self) == (PPU {
                frame_ready: false,
                ..*old(self)
            }),
            r is Ok ==> ({
                &&& ppu_wf(*final(self))
                &&& final(self).cycles_spent == (old(self).cycles_spent + 1) % 456
                &&& final(self).ly == (if old(self).cycles_spent == 455 {
                    ((old(self).ly + 1) % 154) as int
                } else {
                    old(self).ly as int
                })
                &&& frame_pos(*final(self)) == (frame_pos(*old(self)) + 1) % 70224
                &&& (final(self).frame_ready <==> (old(self).mode is HBLANK && old(self).ly == 144
                    && old(self).cycles_spent == 0))
                &&& (old(self).ly == 153 && old(self).cycles_spent == 455 ==> final(self).ly == 0
                    && final(self).cycles_spent == 0)
                &&& final(self).mode == spec_next_mode(
                    old(self).mode,
                    old(self).ly,
                    old(self).cycles_spent,
                    old(self).lx,
                )
                &&& (old(mmu)@.mem[0xFF41] & 3 == mode_num(old(self).mode)
                    ==> final(mmu)@.mem[0xFF41] & 3 == mode_num(final(self).mode))
                &&& (final(self).mode != old(self).mode ==> final(mmu)@.mem[0xFF41] & 3
                    == mode_num(final(self).mode))
                &&& (old(self).cycles_spent == 455 ==> final(mmu)@.mem[0xFF44] == final(self).ly)
                &&& (final(self).frame_ready ==> spec_bit8(final(mmu)@.mem[0xFF0F], 0))
            }),
    {
        if self.frame_ready {
            self.frame_ready = false;
        }
        match self.update_mode(mmu) {
            Ok(_) => {},
            Err(e) => {
                return Err(e);
            },
        }
        proof {
            lemma_mask_bounds_u8();
            crate::utils::lemma_or_sets_bit();
            lemma_coincidence_keeps_mode();
            let stat0 = old(mmu)@.mem[0xFF41];
            let mn = mode_num(self.mode);
            assert(((stat0 & 0xFC) | mn) & 3 == mn) by (bit_vector)
                requires
                    mn < 4,
            ;
        }
        self.process(mmu);
        self.cycles_spent = (self.cycles_spent + 1) % 456;
        if self.cycles_spent == 0 {
            self.setup_for_new_scanline(mmu);
        }
        Ok(())
    }
}

/// Frame position after `n` further ticks, as `tick` advances it.
pub open spec fn pos_after(p: int, n: nat) -> int
    decreases n,
{
    if n == 0 {
        p
    } else {
        (pos_after(p, (n - 1) as nat) + 1) % 70224
    }
}

/// Advancing the frame position `n` ticks adds `n` modulo the frame
/// length.
pub proof fn lemma_pos_after(p: int, n: nat)
    requires
        0 <= p < 70224,
    ensures
        pos_after(p, n) == (p + n) % 70224,
    decreases n,
{
    if n > 0 {
        lemma_pos_after(p, (n - 1) as nat);
        assert((p + n) % 70224 == ((p + (n - 1)) % 70224 + 1) % 70224) by (nonlinear_arith)
            requires
                0 <= p < 70224 && n >= 1,
        ;
    }
}

/// A complete frame takes exactly 70224 T-cycles: from any position the
/// unit returns to it after exactly 70224 ticks and at no earlier tick,
/// so consecutive frame latches are a whole frame apart.
pub proof fn lemma_frame_period(p: int, n: nat)
    requires
        0 <= p < 70224,
    ensures
        pos_after(p, 70224) == p,
        0 < n < 70224 ==> pos_after(p, n) != p,
{
    lemma_pos_after(p, 70224);
    lemma_pos_after(p, n);
    if 0 < n < 70224 {
        assert((p + n) % 70224 != p) by (nonlinear_arith)
            requires
                0 <= p < 70224 && 0 < n < 70224,
        ;
    }
}

/// Over a whole run: for any trace of frame positions in which each tick
/// steps the position as `tick` ensures, the position at tick `k` is the
/// start position advanced by `k`; hence two ticks at the same position
/// (such as two frame latches) lie a whole number of frames apart.
pub proof fn lemma_frame_trace(ps: Seq<int>, i: int, j: int)
    requires
        0 <= i <= j < ps.len(),
        0 <= ps[0] < 70224,
        forall|k: int| 0 <= k < ps.len() - 1 ==> ps[k + 1] == (#[trigger] ps[k] + 1) % 70224,
    ensures
        ps[i] == (ps[0] + i) % 70224,
        ps[j] == (ps[0] + j) % 70224,
        ps[i] == ps[j] ==> (j - i) % 70224 == 0,
    decreases j,
{
    lemma_frame_trace_pos(ps, i);
    lemma_frame_trace_pos(ps, j);
    if ps[i] == ps[j] {
        assert((ps[0] + i) % 70224 == (ps[0] + j) % 70224 ==> (j - i) % 70224 == 0)
            by (nonlinear_arith)
            requires
                0 <= i <= j,
        ;
    }
}

/// Position at tick `k` of such a trace, by induction over the run.
proof fn lemma_frame_trace_pos(ps: Seq<int>, k: int)
    requires
        0 <= k < ps.len(),
        0 <= ps[0] < 70224,
        forall|m: int| 0 <= m < ps.len() - 1 ==> ps[m + 1] == (#[trigger] ps[m] + 1) % 70224,
    ensures
        ps[k] == (ps[0] + k) % 70224,
    decreases k,
{
    if k == 0 {
        assert(ps[0] % 70224 == ps[0]) by (nonlinear_arith)
            requires
                0 <= ps[0] < 70224,
        ;
    } else {
        lemma_frame_trace_pos(ps, k - 1);
        assert(((ps[0] + (k - 1)) % 70224 + 1) % 70224 == (ps[0] + k) % 70224)
            by (nonlinear_arith)
            requires
                k >= 1 && 0 <= ps[0],
        ;
    }
}

/// The scan keeps at most `room` sprites, so a line never holds more
/// than the ten the buffer allows.
pub proof fn lemma_oam_take_len(mem: Seq<u8>, ly: u8, size: u8, k: int, room: int)
    requires
        room >= 0,
    ensures
        spec_oam_take(mem, ly, size, k, room).len() <= room,
    decreases 40 - k,
{
    if !(k < 0 || k >= 40 || room <= 0) {
        let addr = 0xFE00 + 4 * k;
        let y = mem[addr];
        if y <= ly + 16 && ly + 16 < y + size {
            lemma_oam_take_len(mem, ly, size, k + 1, room - 1);
        } else {
            lemma_oam_take_len(mem, ly, size, k + 1, room);
        }
    }
}

/// The scanned sprites come in strictly increasing table order - never
/// reordered by their X coordinates - and each one's vertical span
/// really cuts the line.
pub proof fn lemma_oam_take_ordered(mem: Seq<u8>, ly: u8, size: u8, k: int, room: int)
    ensures
        ({
            let taken = spec_oam_take(mem, ly, size, k, room);
            &&& (forall|i: int, j: int|
                0 <= i < j < taken.len() ==> #[trigger] taken[i] < #[trigger] taken[j])
            &&& (forall|i: int|
                0 <= i < taken.len() ==> ({
                    let y = mem[#[trigger] taken[i] as int];
                    &&& 0xFE00 + 4 * k <= taken[i] <= 0xFE9C
                    &&& (taken[i] - 0xFE00) % 4 == 0
                    &&& y <= ly + 16 < y + size
                }))
        }),
    decreases 40 - k,
{
    if !(k < 0 || k >= 40 || room <= 0) {
        let addr = 0xFE00 + 4 * k;
        let y = mem[addr];
        if y <= ly + 16 && ly + 16 < y + size {
            lemma_oam_take_ordered(mem, ly, size, k + 1, room - 1);
            let taken = spec_oam_take(mem, ly, size, k, room);
            let rest = spec_oam_take(mem, ly, size, k + 1, room - 1);
            assert forall|i: int, j: int| 0 <= i < j < taken.len() implies #[trigger] taken[i]
                < #[trigger] taken[j] by {
                if i > 0 {
                    assert(taken[i] == rest[i - 1] && taken[j] == rest[j - 1]);
                } else {
                    assert(taken[0] == addr as u16 && taken[j] == rest[j - 1]);
                }
            }
            assert forall|i: int| 0 <= i < taken.len() implies ({
                let yy = mem[#[trigger] taken[i] as int];
                &&& 0xFE00 + 4 * k <= taken[i] <= 0xFE9C
                &&& (taken[i] - 0xFE00) % 4 == 0
                &&& yy <= ly + 16 < yy + size
            }) by {
                if i > 0 {
                    assert(taken[i] == rest[i - 1]);
                } else {
                    assert(taken[0] == addr as u16);
                }
            }
        } else {
            lemma_oam_take_ordered(mem, ly, size, k + 1, room);
            let taken = spec_oam_take(mem, ly, size, k, room);
            let rest = spec_oam_take(mem, ly, size, k + 1, room);
            assert(taken == rest);
        }
    }
}

} // verus!
